//! A session written out as a Markdown transcript.
use vstd::prelude::*;
use crate::compaction::role_label;
use crate::text::{decimal, push_decimal, slice_range, to_chars, push_chars};
use crate::types::{json_pretty_text, json_to_pretty, msgs_view, ContentBlock, ConversationMessage, MessageRole, MessageView};

verus! {

broadcast use vstd::string::group_string_axioms;

/// The transcript so far and the tool calls seen so far, as (id, name) pairs.
pub type MdState = (Seq<char>, Seq<(Seq<char>, Seq<char>)>);

/// The name of the latest tool call with this id.
pub open spec fn call_name(calls: Seq<(Seq<char>, Seq<char>)>, id: Seq<char>) -> Option<Seq<char>>
    decreases calls.len(),
{
    if calls.len() == 0 {
        None
    } else if calls.last().0 == id {
        Some(calls.last().1)
    } else {
        call_name(calls.drop_last(), id)
    }
}

/// The first 400 characters of a tool's output.
pub open spec fn preview(t: Seq<char>) -> Seq<char> {
    if t.len() <= 400 {
        t
    } else {
        t.take(400)
    }
}

/// The indented JSON of a tool call's input, or nothing where writing it fails.
pub open spec fn pretty_or_empty(input: serde_json::Value) -> Seq<char> {
    match json_pretty_text(input) {
        Some(t) => t,
        None => seq![],
    }
}

/// What one block adds to the transcript.
pub open spec fn md_block(st: MdState, r: MessageRole, b: ContentBlock) -> MdState {
    match b {
        ContentBlock::Text { text } => (
            st.0 + "**"@ + role_label(r) + ":** "@ + text@ + "\n\n"@,
            st.1,
        ),
        ContentBlock::ToolUse { id, name, input } => (
            st.0 + "**"@ + role_label(r) + "** → 调用 `"@ + name@ + "`：\n```json\n"@
                + pretty_or_empty(input) + "\n```\n\n"@,
            st.1.push((id@, name@)),
        ),
        ContentBlock::ToolResult { tool_use_id, output, is_error } => (
            st.0 + "**Tool "@ + (if is_error {
                "✗"@
            } else {
                "✓"@
            }) + " "@ + (match call_name(st.1, tool_use_id@) {
                Some(n) => n,
                None => "?"@,
            }) + ":**\n```\n"@ + preview(output@) + "\n```\n\n"@,
            st.1,
        ),
    }
}

pub open spec fn md_blocks(st: MdState, r: MessageRole, bs: Seq<ContentBlock>) -> MdState
    decreases bs.len(),
{
    if bs.len() == 0 {
        st
    } else {
        md_block(md_blocks(st, r, bs.drop_last()), r, bs.last())
    }
}

pub open spec fn md_messages(st: MdState, ms: Seq<MessageView>) -> MdState
    decreases ms.len(),
{
    if ms.len() == 0 {
        st
    } else {
        md_blocks(md_messages(st, ms.drop_last()), ms.last().0, ms.last().1)
    }
}

/// The heading of a transcript: session id, model and token counts.
pub open spec fn md_header(session_id: Seq<char>, model: Seq<char>, input: nat, output: nat) -> Seq<char> {
    "# CCTraveler Session `"@ + session_id + "`\n\n"@ + "- model: `"@ + model + "`\n"@
        + "- tokens: "@ + decimal(input) + " in / "@ + decimal(output) + " out\n\n---\n\n"@
}

fn find_call(calls: &Vec<(String, String)>, id: &String) -> (r: Option<usize>)
    ensures
        match r {
            Some(i) => i < calls@.len() && call_name(
                calls@.map_values(|p: (String, String)| (p.0@, p.1@)),
                id@,
            ) == Some(calls@[i as int].1@),
            None => call_name(calls@.map_values(|p: (String, String)| (p.0@, p.1@)), id@) is None,
        },
{
    let ghost cv = calls@.map_values(|p: (String, String)| (p.0@, p.1@));
    let mut i: usize = calls.len();
    assert(cv.take(i as int) =~= cv);
    while i > 0
        invariant
            i <= calls.len(),
            cv == calls@.map_values(|p: (String, String)| (p.0@, p.1@)),
            call_name(cv, id@) == call_name(cv.take(i as int), id@),
        decreases i,
    {
        proof {
            assert(cv.take(i as int).drop_last() =~= cv.take(i - 1));
            assert(cv.take(i as int).last() == cv[i - 1]);
        }
        if calls[i - 1].0 == *id {
            return Some(i - 1);
        }
        i = i - 1;
    }
    proof {
        assert(cv.take(0) =~= Seq::<(Seq<char>, Seq<char>)>::empty());
    }
    None
}

fn push_role(out: &mut String, r: MessageRole)
    ensures
        final(out)@ == old(out)@ + role_label(r),
{
    match r {
        MessageRole::User => out.append("User"),
        MessageRole::Assistant => out.append("Assistant"),
    }
}

/// The session as a Markdown transcript: a heading, then every block of every
/// message, a tool's result named after the latest call with its id.
pub fn session_to_markdown(
    session_id: &str,
    model: &str,
    input_tokens: u32,
    output_tokens: u32,
    messages: &Vec<ConversationMessage>,
) -> (r: String)
    ensures
        r@ == md_messages(
            (md_header(session_id@, model@, input_tokens as nat, output_tokens as nat), seq![]),
            msgs_view(messages@),
        ).0,
{
    let mut out = String::from_str("# CCTraveler Session `");
    out.append(session_id);
    out.append("`\n\n");
    out.append("- model: `");
    out.append(model);
    out.append("`\n");
    out.append("- tokens: ");
    push_decimal(&mut out, input_tokens as u64);
    out.append(" in / ");
    push_decimal(&mut out, output_tokens as u64);
    out.append(" out\n\n---\n\n");
    let ghost st_init: MdState = (out@, seq![]);
    let ghost ms = msgs_view(messages@);
    let mut calls: Vec<(String, String)> = Vec::new();
    proof {
        assert(calls@.map_values(|p: (String, String)| (p.0@, p.1@)) =~= st_init.1);
    }
    let mut i: usize = 0;
    while i < messages.len()
        invariant
            i <= messages.len(),
            ms == msgs_view(messages@),
            (out@, calls_view(calls@)) == md_messages(st_init, ms.take(i as int)),
        decreases messages.len() - i,
    {
        let msg = &messages[i];
        let role = msg.role;
        let ghost st0 = md_messages(st_init, ms.take(i as int));
        proof {
            assert(ms.take(i + 1).drop_last() =~= ms.take(i as int));
            assert(ms.take(i + 1).last() == ms[i as int]);
        }
        let mut j: usize = 0;
        while j < msg.content.len()
            invariant
                j <= msg.content.len(),
                (out@, calls_view(calls@)) == md_blocks(st0, role, msg.content@.take(j as int)),
            decreases msg.content.len() - j,
        {
            proof {
                assert(msg.content@.take(j + 1).drop_last() =~= msg.content@.take(j as int));
                assert(msg.content@.take(j + 1).last() == msg.content@[j as int]);
            }
            append_block(&mut out, &mut calls, role, &msg.content[j]);
            j = j + 1;
        }
        proof {
            assert(msg.content@.take(msg.content.len() as int) =~= msg.content@);
            assert(ms[i as int].1 == msg.content@);
            assert(ms[i as int].0 == role);
        }
        i = i + 1;
    }
    proof {
        assert(ms.take(ms.len() as int) =~= ms);
    }
    out
}

/// The tool calls as (id, name) texts.
pub open spec fn calls_view(calls: Seq<(String, String)>) -> Seq<(Seq<char>, Seq<char>)> {
    calls.map_values(|p: (String, String)| (p.0@, p.1@))
}

fn append_block(out: &mut String, calls: &mut Vec<(String, String)>, role: MessageRole, b: &ContentBlock)
    ensures
        (final(out)@, calls_view(final(calls)@)) == md_block(
            (old(out)@, calls_view(old(calls)@)),
            role,
            *b,
        ),
{
    match b {
        ContentBlock::Text { text } => {
            out.append("**");
            push_role(out, role);
            out.append(":** ");
            out.append(text.as_str());
            out.append("\n\n");
        },
        ContentBlock::ToolUse { id, name, input } => {
            out.append("**");
            push_role(out, role);
            out.append("** → 调用 `");
            out.append(name.as_str());
            out.append("`：\n```json\n");
            match json_to_pretty(input) {
                Some(pretty) => out.append(pretty.as_str()),
                None => {},
            }
            out.append("\n```\n\n");
            let ghost before = calls@;
            calls.push((id.clone(), name.clone()));
            proof {
                assert(calls_view(calls@) =~= calls_view(before).push((id@, name@)));
            }
        },
        ContentBlock::ToolResult { tool_use_id, output, is_error } => {
            out.append("**Tool ");
            if *is_error {
                out.append("✗");
            } else {
                out.append("✓");
            }
            out.append(" ");
            match find_call(calls, tool_use_id) {
                Some(k) => out.append(calls[k].1.as_str()),
                None => out.append("?"),
            }
            out.append(":**\n```\n");
            let ov = to_chars(output.as_str());
            if ov.len() <= 400 {
                out.append(output.as_str());
            } else {
                let head = slice_range(ov.as_slice(), 0, 400);
                push_chars(out, head.as_slice());
            }
            out.append("\n```\n\n");
        },
    }
}

} // verus!
