//! Session bookkeeping: identity, messages, prompt history.
use vstd::prelude::*;
use crate::clock::{now_millis, now_rfc3339};
use crate::text::{decimal, push_signed_decimal};
use crate::types::{
    clone_path, json_text, json_to_string, msgs_view, ContentBlock, ConversationMessage,
    MessageView, Session, SessionCompaction, SessionPromptEntry,
};

verus! {

broadcast use vstd::string::group_string_axioms;

/// The id of a session started at `millis`: `session-<millis>`.
pub open spec fn session_id_for(millis: i64) -> Seq<char> {
    "session-"@ + (if millis < 0 {
        seq!['-'] + decimal((-millis) as nat)
    } else {
        decimal(millis as nat)
    })
}

impl Session {
    /// A fresh, empty session named after the current time.
    pub fn new(model: Option<String>) -> (r: Self)
        ensures
            exists|millis: i64| r.session_id@ == session_id_for(millis),
            r.messages@.len() == 0,
            r.compaction is None,
            r.workspace_root is None,
            r.prompt_history@.len() == 0,
            r.model == model,
    {
        let millis = now_millis();
        Self::new_at(millis, model)
    }

    /// A fresh, empty session started at `millis`.
    pub fn new_at(millis: i64, model: Option<String>) -> (r: Self)
        ensures
            r.session_id@ == session_id_for(millis),
            r.messages@.len() == 0,
            r.compaction is None,
            r.workspace_root is None,
            r.prompt_history@.len() == 0,
            r.model == model,
    {
        let mut session_id = String::from_str("session-");
        push_signed_decimal(&mut session_id, millis);
        Session {
            session_id,
            messages: Vec::new(),
            compaction: None,
            workspace_root: None,
            prompt_history: Vec::new(),
            model,
        }
    }

    pub fn push_message(&mut self, msg: ConversationMessage)
        ensures
            final(self).messages@ == old(self).messages@.push(msg),
            final(self).session_id == old(self).session_id,
            final(self).compaction == old(self).compaction,
            final(self).workspace_root == old(self).workspace_root,
            final(self).prompt_history == old(self).prompt_history,
            final(self).model == old(self).model,
    {
        self.messages.push(msg);
    }

    /// Records a user prompt, stamped with the current time.
    pub fn push_user_prompt(&mut self, text: &str)
        ensures
            final(self).prompt_history@.len() == old(self).prompt_history@.len() + 1,
            final(self).prompt_history@.take(old(self).prompt_history@.len() as int)
                == old(self).prompt_history@,
            final(self).prompt_history@.last().text@ == text@,
            final(self).messages == old(self).messages,
            final(self).session_id == old(self).session_id,
            final(self).compaction == old(self).compaction,
            final(self).workspace_root == old(self).workspace_root,
            final(self).model == old(self).model,
    {
        let ghost before = self.prompt_history@;
        let entry = SessionPromptEntry { text: String::from_str(text), timestamp: now_rfc3339() };
        self.prompt_history.push(entry);
        assert(self.prompt_history@.take(before.len() as int) =~= before);
    }
}

/// The version written in the meta record of a saved session.
pub const SESSION_FORMAT_VERSION: u32 = 1;

/// A session file larger than this many bytes is rotated before a save.
pub const MAX_FILE_SIZE: u64 = 262144;

/// How many rotated files of a session are kept.
pub const MAX_ROTATED_FILES: usize = 3;

/// Whether a session file of `size` bytes is rotated before the next save.
pub fn needs_rotation(size: u64) -> (r: bool)
    ensures
        r == (size > MAX_FILE_SIZE),
{
    size > MAX_FILE_SIZE
}

/// How many of `count` rotated files (oldest first) are removed so that at
/// most `MAX_ROTATED_FILES` stay.
pub fn rotated_excess(count: usize) -> (r: usize)
    ensures
        r == (if count > MAX_ROTATED_FILES {
            count - MAX_ROTATED_FILES
        } else {
            0
        }),
{
    if count > MAX_ROTATED_FILES {
        count - MAX_ROTATED_FILES
    } else {
        0
    }
}

/// A saved session is a sequence of records, one per line of its file.
#[derive(Debug)]
pub enum SessionRecord {
    /// The session's identity and model.
    Meta { session_id: String, model: Option<String>, version: u32 },
    /// One message of the conversation.
    Message { message: ConversationMessage },
    /// The summary that replaced older messages.
    Compaction { compaction: SessionCompaction },
}

/// An optional string by its characters.
pub open spec fn opt_chars(o: Option<String>) -> Option<Seq<char>> {
    match o {
        Some(s) => Some(s@),
        None => None,
    }
}

fn clone_opt_string(o: &Option<String>) -> (r: Option<String>)
    ensures
        opt_chars(r) == opt_chars(*o),
{
    match o {
        Some(s) => Some(s.clone()),
        None => None,
    }
}

/// `r` is a message record holding `m`.
pub open spec fn message_record_of(r: SessionRecord, m: MessageView) -> bool {
    r matches SessionRecord::Message { message } && message@ == m
}

/// Where the message records of a saved session start: after the meta record
/// and the compaction record, if any.
pub open spec fn record_offset(s: Session) -> int {
    if s.compaction is Some {
        2
    } else {
        1
    }
}

/// `recs` is what saving `s` writes: the meta record, the compaction when there
/// is one, then every message in order.
pub open spec fn saved_form(recs: Seq<SessionRecord>, s: Session) -> bool {
    let k = record_offset(s);
    &&& recs.len() == k + s.messages@.len()
    &&& recs[0] matches SessionRecord::Meta { session_id, model, version } && session_id@
        == s.session_id@ && opt_chars(model) == opt_chars(s.model) && version
        == SESSION_FORMAT_VERSION
    &&& s.compaction matches Some(c) ==> recs[1] == (SessionRecord::Compaction { compaction: c })
    &&& forall|i: int|
        0 <= i < s.messages@.len() ==> message_record_of(#[trigger] recs[k + i], s.messages@[i]@)
}

/// What loading keeps of a sequence of read lines (`None` for a blank or
/// malformed line): the model of the last meta record, the last compaction,
/// and every message in order.
pub open spec fn load_scan(recs: Seq<Option<SessionRecord>>) -> (
    Option<Seq<char>>,
    Option<SessionCompaction>,
    Seq<MessageView>,
)
    decreases recs.len(),
{
    if recs.len() == 0 {
        (None, None, seq![])
    } else {
        let st = load_scan(recs.drop_last());
        match recs.last() {
            None => st,
            Some(SessionRecord::Meta { model, .. }) => (opt_chars(model), st.1, st.2),
            Some(SessionRecord::Message { message }) => (st.0, st.1, st.2.push(message@)),
            Some(SessionRecord::Compaction { compaction }) => (st.0, Some(compaction), st.2),
        }
    }
}

/// Bytes of a text in UTF-8.
pub open spec fn text_bytes(t: Seq<char>) -> nat {
    vstd::utf8::encode_utf8(t).len()
}

/// Bytes a block counts for in the token estimate: its text, the JSON text of a
/// tool input, or a tool's output.
pub open spec fn block_bytes(b: ContentBlock) -> nat {
    match b {
        ContentBlock::Text { text } => text_bytes(text@),
        ContentBlock::ToolUse { input, .. } => text_bytes(json_text(input)),
        ContentBlock::ToolResult { output, .. } => text_bytes(output@),
    }
}

pub open spec fn blocks_bytes(bs: Seq<ContentBlock>) -> nat
    decreases bs.len(),
{
    if bs.len() == 0 {
        0
    } else {
        blocks_bytes(bs.drop_last()) + block_bytes(bs.last())
    }
}

pub open spec fn messages_bytes(ms: Seq<MessageView>) -> nat
    decreases ms.len(),
{
    if ms.len() == 0 {
        0
    } else {
        messages_bytes(ms.drop_last()) + blocks_bytes(ms.last().1)
    }
}

fn saturating_usize_add(a: usize, b: usize) -> (r: usize)
    ensures
        r == (if a + b <= usize::MAX { a + b } else { usize::MAX as int }),
{
    match a.checked_add(b) {
        Some(v) => v,
        None => usize::MAX,
    }
}

fn block_len(b: &ContentBlock) -> (n: usize)
    ensures
        block_bytes(*b) <= usize::MAX ==> n == block_bytes(*b),
{
    match b {
        ContentBlock::Text { text } => text.as_str().len(),
        ContentBlock::ToolUse { input, .. } => {
            let t = json_to_string(input);
            t.as_str().len()
        },
        ContentBlock::ToolResult { output, .. } => output.as_str().len(),
    }
}

impl Session {
    /// The records that saving the session writes, in order.
    pub fn records(&self) -> (r: Vec<SessionRecord>)
        ensures
            saved_form(r@, *self),
    {
        let mut out: Vec<SessionRecord> = Vec::new();
        out.push(
            SessionRecord::Meta {
                session_id: self.session_id.clone(),
                model: clone_opt_string(&self.model),
                version: SESSION_FORMAT_VERSION,
            },
        );
        if let Some(c) = &self.compaction {
            out.push(SessionRecord::Compaction { compaction: c.clone() });
        }
        let ghost k: int = out@.len() as int;
        let mut i: usize = 0;
        while i < self.messages.len()
            invariant
                i <= self.messages.len(),
                k == record_offset(*self),
                out@.len() == k + i,
                out@[0] matches SessionRecord::Meta { session_id, model, version } && session_id@
                    == self.session_id@ && opt_chars(model) == opt_chars(self.model) && version
                    == SESSION_FORMAT_VERSION,
                self.compaction matches Some(c) ==> out@[1] == (SessionRecord::Compaction {
                    compaction: c,
                }),
                forall|j: int|
                    0 <= j < i ==> message_record_of(#[trigger] out@[k + j], self.messages@[j]@),
            decreases self.messages.len() - i,
        {
            out.push(SessionRecord::Message { message: self.messages[i].clone() });
            i = i + 1;
        }
        out
    }

    /// The session that loading a file of records gives: named `session_id`,
    /// rooted at `workspace`, with the model, compaction and messages that the
    /// records hold; `None` stands for a line that was blank or could not be
    /// read, and is skipped.
    pub fn from_records(
        session_id: &str,
        workspace: &std::path::PathBuf,
        records: Vec<Option<SessionRecord>>,
    ) -> (r: Self)
        ensures
            r.session_id@ == session_id@,
            r.workspace_root == Some(*workspace),
            r.prompt_history@.len() == 0,
            opt_chars(r.model) == load_scan(records@).0,
            r.compaction == load_scan(records@).1,
            msgs_view(r.messages@) == load_scan(records@).2,
    {
        let mut session = Session {
            session_id: String::from_str(session_id),
            messages: Vec::new(),
            compaction: None,
            workspace_root: Some(clone_path(workspace)),
            prompt_history: Vec::new(),
            model: None,
        };
        let ghost all = records@;
        let mut recs = records;
        let mut rest: Vec<Option<SessionRecord>> = Vec::new();
        // Take the records in order: reverse once, then pop from the back.
        while recs.len() > 0
            invariant
                rest@.len() + recs@.len() == all.len(),
                recs@ == all.take(recs@.len() as int),
                forall|j: int| 0 <= j < rest@.len() ==> #[trigger] rest@[j] == all[all.len() - 1 - j],
            decreases recs.len(),
        {
            let ghost n = recs@.len();
            let x = recs.pop().unwrap();
            proof {
                assert(recs@ =~= all.take(n - 1));
            }
            rest.push(x);
        }
        let ghost mut done: int = 0;
        proof {
            assert(all.take(0) =~= Seq::<Option<SessionRecord>>::empty());
        }
        while rest.len() > 0
            invariant
                0 <= done <= all.len(),
                rest@.len() == all.len() - done,
                forall|j: int| 0 <= j < rest@.len() ==> #[trigger] rest@[j] == all[all.len() - 1 - j],
                session.session_id@ == session_id@,
                session.workspace_root == Some(*workspace),
                session.prompt_history@.len() == 0,
                opt_chars(session.model) == load_scan(all.take(done)).0,
                session.compaction == load_scan(all.take(done)).1,
                msgs_view(session.messages@) == load_scan(all.take(done)).2,
            decreases rest.len(),
        {
            let ghost before = session.messages@;
            let x = rest.pop().unwrap();
            proof {
                assert(x == all[done]);
                assert(all.take(done + 1).drop_last() =~= all.take(done));
                assert(all.take(done + 1).last() == all[done]);
            }
            match x {
                None => {},
                Some(SessionRecord::Meta { model, .. }) => {
                    session.model = model;
                },
                Some(SessionRecord::Message { message }) => {
                    session.messages.push(message);
                    proof {
                        assert(msgs_view(session.messages@) =~= msgs_view(before).push(
                            session.messages@.last()@,
                        ));
                    }
                },
                Some(SessionRecord::Compaction { compaction }) => {
                    session.compaction = Some(compaction);
                },
            }
            proof {
                done = done + 1;
            }
        }
        proof {
            assert(all.take(all.len() as int) =~= all);
        }
        session
    }

    /// Rough count of input tokens: a quarter of the UTF-8 bytes of every text,
    /// tool input and tool output in the conversation.
    pub fn estimate_input_tokens(&self) -> (r: u32)
        ensures
            messages_bytes(msgs_view(self.messages@)) <= usize::MAX ==> r == (messages_bytes(
                msgs_view(self.messages@),
            ) / 4) as u32,
    {
        let ghost ms = msgs_view(self.messages@);
        let ghost fits = messages_bytes(ms) <= usize::MAX;
        let mut total: usize = 0;
        let mut i: usize = 0;
        while i < self.messages.len()
            invariant
                i <= self.messages.len(),
                ms == msgs_view(self.messages@),
                fits == (messages_bytes(ms) <= usize::MAX),
                fits ==> total == messages_bytes(ms.take(i as int)),
            decreases self.messages.len() - i,
        {
            let blocks = &self.messages[i].content;
            proof {
                assert(ms.take(i + 1).drop_last() =~= ms.take(i as int));
                assert(ms.take(i + 1).last().1 == blocks@);
                lemma_messages_bytes_prefix(ms, i + 1);
            }
            let mut sub: usize = 0;
            let mut j: usize = 0;
            while j < blocks.len()
                invariant
                    j <= blocks.len(),
                    fits == (messages_bytes(ms) <= usize::MAX),
                    blocks_bytes(blocks@) <= messages_bytes(ms),
                    fits ==> sub == blocks_bytes(blocks@.take(j as int)),
                decreases blocks.len() - j,
            {
                proof {
                    assert(blocks@.take(j + 1).drop_last() =~= blocks@.take(j as int));
                    lemma_blocks_bytes_prefix(blocks@, j + 1);
                }
                let n = block_len(&blocks[j]);
                sub = saturating_usize_add(sub, n);
                j = j + 1;
            }
            proof {
                assert(blocks@.take(blocks.len() as int) =~= blocks@);
            }
            total = saturating_usize_add(total, sub);
            i = i + 1;
        }
        proof {
            assert(ms.take(ms.len() as int) =~= ms);
        }
        (total / 4) as u32
    }
}

proof fn lemma_blocks_bytes_prefix(bs: Seq<ContentBlock>, a: int)
    requires
        0 <= a <= bs.len(),
    ensures
        blocks_bytes(bs.take(a)) <= blocks_bytes(bs),
    decreases bs.len() - a,
{
    if a < bs.len() {
        lemma_blocks_bytes_prefix(bs, a + 1);
        assert(bs.take(a + 1).drop_last() =~= bs.take(a));
    } else {
        assert(bs.take(a) =~= bs);
    }
}

proof fn lemma_messages_bytes_prefix(ms: Seq<MessageView>, a: int)
    requires
        0 <= a <= ms.len(),
    ensures
        messages_bytes(ms.take(a)) <= messages_bytes(ms),
    decreases ms.len() - a,
{
    if a < ms.len() {
        lemma_messages_bytes_prefix(ms, a + 1);
        assert(ms.take(a + 1).drop_last() =~= ms.take(a));
    } else {
        assert(ms.take(a) =~= ms);
    }
}

proof fn lemma_load_saved_prefix(recs: Seq<SessionRecord>, s: Session, i: int)
    requires
        saved_form(recs, s),
        0 <= i <= s.messages@.len(),
    ensures
        load_scan(
            recs.map_values(|r: SessionRecord| Some(r)).take(record_offset(s) + i),
        ) == (opt_chars(s.model), s.compaction, msgs_view(s.messages@).take(i)),
    decreases i,
{
    let k = record_offset(s);
    let lifted = recs.map_values(|r: SessionRecord| Some(r));
    let ms = msgs_view(s.messages@);
    if i == 0 {
        assert(load_scan(lifted.take(0)) == (
            None::<Seq<char>>,
            None::<SessionCompaction>,
            Seq::<MessageView>::empty(),
        ));
        assert(lifted.take(0) =~= Seq::<Option<SessionRecord>>::empty());
        assert(lifted.take(1).drop_last() =~= lifted.take(0));
        assert(lifted.take(1).last() == Some(recs[0]));
        assert(load_scan(lifted.take(1)).0 == opt_chars(s.model));
        assert(load_scan(lifted.take(1)).1 == None::<SessionCompaction>);
        assert(load_scan(lifted.take(1)).2 =~= Seq::<MessageView>::empty());
        if s.compaction is Some {
            assert(lifted.take(2).drop_last() =~= lifted.take(1));
            assert(lifted.take(2).last() == Some(recs[1]));
        }
        assert(ms.take(0) =~= Seq::<MessageView>::empty());
    } else {
        let j = i - 1;
        lemma_load_saved_prefix(recs, s, j);
        assert(lifted.take(k + i).drop_last() =~= lifted.take(k + j));
        assert(lifted.take(k + i).last() == Some(recs[k + j]));
        assert(message_record_of(recs[k + j], s.messages@[j]@));
        assert(ms.take(i) =~= ms.take(j).push(s.messages@[j]@));
    }
}

/// Loading what saving wrote gives back the session's model, its compaction and
/// its messages, in order.
pub proof fn lemma_load_restores_saved(recs: Seq<SessionRecord>, s: Session)
    requires
        saved_form(recs, s),
    ensures
        load_scan(recs.map_values(|r: SessionRecord| Some(r))) == (
            opt_chars(s.model),
            s.compaction,
            msgs_view(s.messages@),
        ),
{
    let lifted = recs.map_values(|r: SessionRecord| Some(r));
    let ms = msgs_view(s.messages@);
    lemma_load_saved_prefix(recs, s, s.messages@.len() as int);
    assert(lifted.take(lifted.len() as int) =~= lifted);
    assert(ms.take(ms.len() as int) =~= ms);
}

} // verus!
