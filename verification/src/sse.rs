//! SSE (Server-Sent Events) frame parser for streaming LLM responses.
use vstd::prelude::*;
use crate::text::{
    from_chars, has_prefix_str, lines, slice_from, split_lines, starts_with, to_chars, trim,
    trim_chars,
};

verus! {

broadcast use vstd::string::group_string_axioms;

/// One server-sent event: its `event:` type (empty when absent) and its `data:` payload.
#[derive(Debug, Clone)]
pub struct SseEvent {
    pub event_type: String,
    pub data: String,
}

impl View for SseEvent {
    type V = (Seq<char>, Seq<char>);

    open spec fn view(&self) -> (Seq<char>, Seq<char>) {
        (self.event_type@, self.data@)
    }
}

/// Parser state: the events emitted so far, the pending event type and the pending data.
pub type SseState = (Seq<(Seq<char>, Seq<char>)>, Seq<char>, Seq<char>);

/// What one line does to the parser state: `event: ` sets the (trimmed) type,
/// `data: ` sets the payload, and a blank line emits the pending event when it
/// has data, resetting both fields.  Any other line is ignored.
pub open spec fn sse_step(st: SseState, line: Seq<char>) -> SseState {
    if starts_with(line, "event: "@) {
        (st.0, trim(line.skip("event: "@.len() as int)), st.2)
    } else if starts_with(line, "data: "@) {
        (st.0, st.1, line.skip("data: "@.len() as int))
    } else if line.len() == 0 && st.2.len() > 0 {
        (st.0.push((st.1, st.2)), seq![], seq![])
    } else {
        st
    }
}

pub open spec fn sse_scan(ls: Seq<Seq<char>>) -> SseState
    decreases ls.len(),
{
    if ls.len() == 0 {
        (seq![], seq![], seq![])
    } else {
        sse_step(sse_scan(ls.drop_last()), ls.last())
    }
}

/// The events of a sequence of lines; a pending event with data is emitted at the end.
pub open spec fn sse_events(ls: Seq<Seq<char>>) -> Seq<(Seq<char>, Seq<char>)> {
    let st = sse_scan(ls);
    if st.2.len() > 0 {
        st.0.push((st.1, st.2))
    } else {
        st.0
    }
}

pub open spec fn events_view(v: Seq<SseEvent>) -> Seq<(Seq<char>, Seq<char>)> {
    v.map_values(|e: SseEvent| e@)
}

proof fn lemma_scan_data_nonempty(ls: Seq<Seq<char>>)
    ensures
        forall|i: int| 0 <= i < sse_scan(ls).0.len() ==> (#[trigger] sse_scan(ls).0[i]).1.len() > 0,
    decreases ls.len(),
{
    if ls.len() > 0 {
        lemma_scan_data_nonempty(ls.drop_last());
        let prev = sse_scan(ls.drop_last());
        let cur = sse_scan(ls);
        assert(cur == sse_step(prev, ls.last()));
        assert forall|i: int| 0 <= i < cur.0.len() implies (#[trigger] cur.0[i]).1.len() > 0 by {
            if i < prev.0.len() {
                assert(cur.0[i] == prev.0[i]);
            }
        }
    }
}

/// Every parsed event carries a non-empty payload.
pub proof fn lemma_events_have_data(ls: Seq<Seq<char>>)
    ensures
        forall|i: int| 0 <= i < sse_events(ls).len() ==> (#[trigger] sse_events(ls)[i]).1.len() > 0,
{
    lemma_scan_data_nonempty(ls);
}

fn events_from_lines(ls: &Vec<Vec<char>>) -> (r: Vec<SseEvent>)
    ensures
        events_view(r@) == sse_events(ls@.map_values(|l: Vec<char>| l@)),
{
    let ghost lv = ls@.map_values(|l: Vec<char>| l@);
    let mut events: Vec<SseEvent> = Vec::new();
    let mut cur_event: Vec<char> = Vec::new();
    let mut cur_data: Vec<char> = Vec::new();
    let mut i: usize = 0;
    while i < ls.len()
        invariant
            i <= ls.len(),
            lv == ls@.map_values(|l: Vec<char>| l@),
            events_view(events@) == sse_scan(lv.take(i as int)).0,
            cur_event@ == sse_scan(lv.take(i as int)).1,
            cur_data@ == sse_scan(lv.take(i as int)).2,
        decreases ls.len() - i,
    {
        let line = &ls[i];
        assert(lv.take(i + 1).drop_last() == lv.take(i as int));
        assert(lv.take(i + 1).last() == line@);
        proof {
            reveal_strlit("event: ");
            reveal_strlit("data: ");
        }
        if has_prefix_str(line.as_slice(), "event: ") {
            let rest = slice_from(line.as_slice(), 7);
            cur_event = trim_chars(rest.as_slice());
        } else if has_prefix_str(line.as_slice(), "data: ") {
            cur_data = slice_from(line.as_slice(), 6);
        } else if line.len() == 0 && cur_data.len() > 0 {
            let ev = SseEvent {
                event_type: from_chars(cur_event.as_slice()),
                data: from_chars(cur_data.as_slice()),
            };
            events.push(ev);
            cur_event = Vec::new();
            cur_data = Vec::new();
        }
        i = i + 1;
    }
    assert(lv.take(ls.len() as int) == lv);
    if cur_data.len() > 0 {
        let ev = SseEvent {
            event_type: from_chars(cur_event.as_slice()),
            data: from_chars(cur_data.as_slice()),
        };
        events.push(ev);
    }
    events
}

/// Parse a full SSE response body into individual events.
pub fn parse_sse_body(body: &str) -> (r: Vec<SseEvent>)
    ensures
        events_view(r@) == sse_events(lines(body@)),
{
    let chars = to_chars(body);
    let ls = split_lines(chars.as_slice());
    assert(ls@.map_values(|l: Vec<char>| l@) =~= lines(body@));
    events_from_lines(&ls)
}

/// Parse SSE from a sequence of lines, as a line-by-line reader yields them.
pub fn parse_sse_lines(lines_in: Vec<String>) -> (r: Vec<SseEvent>)
    ensures
        events_view(r@) == sse_events(lines_in@.map_values(|l: String| l@)),
{
    let mut ls: Vec<Vec<char>> = Vec::new();
    let mut i: usize = 0;
    while i < lines_in.len()
        invariant
            i <= lines_in.len(),
            ls@.len() == i,
            forall|k: int| 0 <= k < i ==> #[trigger] ls@[k]@ == lines_in@[k]@,
        decreases lines_in.len() - i,
    {
        let v = to_chars(lines_in[i].as_str());
        ls.push(v);
        i = i + 1;
    }
    assert(ls@.map_values(|l: Vec<char>| l@) =~= lines_in@.map_values(|l: String| l@));
    events_from_lines(&ls)
}

} // verus!
