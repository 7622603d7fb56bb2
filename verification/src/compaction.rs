//! The summary that replaces old messages when a session is compacted.
use vstd::prelude::*;
use crate::text::{
    chars_eq, decimal, from_chars, join, join_chars, prefix_within, prefix_within_bytes,
    push_chars, push_decimal, slice_range, to_chars, utf8_exceeds, utf8_size, vv,
};
use crate::types::{msgs_view, ContentBlock, ConversationMessage, MessageRole, MessageView};

verus! {

broadcast use vstd::string::group_string_axioms;

/// How many recent messages a compaction keeps.
pub const KEEP_RECENT: usize = 4;

/// How many bytes of summary a compaction keeps.
pub const SUMMARY_BUDGET: usize = 1200;

/// `{:?}` of a role.
pub open spec fn role_label(r: MessageRole) -> Seq<char> {
    match r {
        MessageRole::User => "User"@,
        MessageRole::Assistant => "Assistant"@,
    }
}

/// The first 100 characters of a text (all of it when shorter).
pub open spec fn first_100(t: Seq<char>) -> Seq<char> {
    if t.len() <= 100 {
        t
    } else {
        t.take(100)
    }
}

/// One timeline line: `[Role] ` and the start of the text.
pub open spec fn timeline_entry(r: MessageRole, t: Seq<char>) -> Seq<char> {
    "["@ + role_label(r) + "] "@ + first_100(t)
}

/// Timeline lines and tool names (each once, in order of first use) so far.
pub type ScanState = (Seq<Seq<char>>, Seq<Seq<char>>);

pub open spec fn scan_block(st: ScanState, r: MessageRole, b: ContentBlock) -> ScanState {
    match b {
        ContentBlock::Text { text } => (st.0.push(timeline_entry(r, text@)), st.1),
        ContentBlock::ToolUse { name, .. } => (
            st.0,
            if st.1.contains(name@) {
                st.1
            } else {
                st.1.push(name@)
            },
        ),
        ContentBlock::ToolResult { .. } => st,
    }
}

pub open spec fn scan_blocks(st: ScanState, r: MessageRole, bs: Seq<ContentBlock>) -> ScanState
    decreases bs.len(),
{
    if bs.len() == 0 {
        st
    } else {
        scan_block(scan_blocks(st, r, bs.drop_last()), r, bs.last())
    }
}

pub open spec fn scan_messages(ms: Seq<MessageView>) -> ScanState
    decreases ms.len(),
{
    if ms.len() == 0 {
        (seq![], seq![])
    } else {
        scan_blocks(scan_messages(ms.drop_last()), ms.last().0, ms.last().1)
    }
}

/// A summary cut to the byte budget (at a character boundary) and marked with `...`.
pub open spec fn clip_summary(s: Seq<char>) -> Seq<char> {
    if utf8_size(s) > SUMMARY_BUDGET {
        prefix_within(s, SUMMARY_BUDGET as nat) + "..."@
    } else {
        s
    }
}

/// The summary of the messages a compaction drops: how many messages there were,
/// the tools used, and one timeline line per text block.
pub open spec fn compaction_summary(dropped: Seq<MessageView>, count: nat) -> Seq<char> {
    let st = scan_messages(dropped);
    clip_summary(
        "Session summary ("@ + decimal(count) + " messages compacted to 4):\nTools used: "@
            + join(st.1, ", "@) + "\nTimeline:\n"@ + join(st.0, "\n"@),
    )
}

fn role_chars(r: MessageRole) -> (v: Vec<char>)
    ensures
        v@ == role_label(r),
{
    match r {
        MessageRole::User => to_chars("User"),
        MessageRole::Assistant => to_chars("Assistant"),
    }
}

fn contains_chars(names: &Vec<Vec<char>>, n: &Vec<char>) -> (r: bool)
    ensures
        r == vv(names@).contains(n@),
{
    let mut i: usize = 0;
    while i < names.len()
        invariant
            i <= names.len(),
            forall|k: int| 0 <= k < i ==> names@[k]@ != n@,
        decreases names.len() - i,
    {
        if chars_eq(names[i].as_slice(), n.as_slice()) {
            assert(vv(names@)[i as int] == n@);
            return true;
        }
        i = i + 1;
    }
    assert forall|k: int| 0 <= k < vv(names@).len() implies vv(names@)[k] != n@ by {
        assert(vv(names@)[k] == names@[k]@);
    }
    false
}

fn timeline_line(r: MessageRole, text: &String) -> (v: Vec<char>)
    ensures
        v@ == timeline_entry(r, text@),
{
    let t = to_chars(text.as_str());
    let n = if t.len() <= 100 { t.len() } else { 100 };
    let head = slice_range(t.as_slice(), 0, n);
    assert(head@ == first_100(text@));
    let mut line = to_chars("[");
    let rc = role_chars(r);
    line.extend_from_slice(rc.as_slice());
    let sep = to_chars("] ");
    line.extend_from_slice(sep.as_slice());
    line.extend_from_slice(head.as_slice());
    line
}

/// Builds the summary of the messages a compaction drops.
pub fn build_compaction_summary(dropped: &[ConversationMessage], count: usize) -> (r: String)
    ensures
        r@ == compaction_summary(msgs_view(dropped@), count as nat),
{
    let ghost ms = msgs_view(dropped@);
    let mut parts: Vec<Vec<char>> = Vec::new();
    let mut names: Vec<Vec<char>> = Vec::new();
    let mut i: usize = 0;
    while i < dropped.len()
        invariant
            i <= dropped.len(),
            ms == msgs_view(dropped@),
            (vv(parts@), vv(names@)) == scan_messages(ms.take(i as int)),
        decreases dropped.len() - i,
    {
        let msg = &dropped[i];
        let ghost before = scan_messages(ms.take(i as int));
        assert(ms.take(i + 1).drop_last() == ms.take(i as int));
        assert(ms.take(i + 1).last() == msg@);
        let mut j: usize = 0;
        while j < msg.content.len()
            invariant
                j <= msg.content.len(),
                (vv(parts@), vv(names@)) == scan_blocks(before, msg.role, msg.content@.take(
                    j as int,
                )),
            decreases msg.content.len() - j,
        {
            assert(msg.content@.take(j + 1).drop_last() == msg.content@.take(j as int));
            match &msg.content[j] {
                ContentBlock::Text { text } => {
                    let line = timeline_line(msg.role, text);
                    let ghost lv = line@;
                    let ghost before_parts = vv(parts@);
                    parts.push(line);
                    assert(vv(parts@) =~= before_parts.push(lv));
                },
                ContentBlock::ToolUse { name, .. } => {
                    let n = to_chars(name.as_str());
                    if !contains_chars(&names, &n) {
                        let ghost nv = n@;
                        let ghost before_names = vv(names@);
                        names.push(n);
                        assert(vv(names@) =~= before_names.push(nv));
                    }
                },
                ContentBlock::ToolResult { .. } => {},
            }
            j = j + 1;
        }
        assert(msg.content@.take(msg.content.len() as int) == msg.content@);
        i = i + 1;
    }
    assert(ms.take(dropped.len() as int) == ms);
    let mut full = String::from_str("Session summary (");
    push_decimal(&mut full, count as u64);
    full.append(" messages compacted to 4):\nTools used: ");
    let comma = to_chars(", ");
    let tools = join_chars(&names, comma.as_slice());
    push_chars(&mut full, tools.as_slice());
    full.append("\nTimeline:\n");
    let nl = to_chars("\n");
    let timeline = join_chars(&parts, nl.as_slice());
    push_chars(&mut full, timeline.as_slice());
    let fc = to_chars(full.as_str());
    if utf8_exceeds(fc.as_slice(), SUMMARY_BUDGET) {
        let head = prefix_within_bytes(fc.as_slice(), SUMMARY_BUDGET);
        let mut out = from_chars(head.as_slice());
        out.append("...");
        out
    } else {
        full
    }
}

} // verus!
