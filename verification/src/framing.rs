//! Cutting a streamed SSE response into events as its chunks arrive, and
//! writing collected events back out as an SSE body.
use vstd::prelude::*;
use crate::sse::{events_view, sse_events, sse_scan, sse_step, SseEvent, SseState};
use crate::text::{
    from_chars, has_prefix_str, lines, lines_scan, lines_step, slice_from, strip_cr, slice_range, split_lines, starts_with, to_chars,
    trim, trim_chars,
};

verus! {

broadcast use vstd::string::group_string_axioms;

/// Where the first blank line (`\n\n`) of `s` starts.
pub open spec fn first_break(s: Seq<char>) -> Option<int>
    decreases s.len(),
{
    if s.len() < 2 {
        None
    } else if s[0] == '\n' && s[1] == '\n' {
        Some(0)
    } else {
        match first_break(s.drop_first()) {
            Some(i) => Some(i + 1),
            None => None,
        }
    }
}

/// The complete frames of `s` (each ended by `\n\n`, which is dropped) and what
/// is left after the last of them.
pub open spec fn split_frames(s: Seq<char>) -> (Seq<Seq<char>>, Seq<char>)
    decreases s.len(),
{
    match first_break(s) {
        None => (seq![], s),
        Some(i) => if 0 <= i && i + 2 <= s.len() {
            let rest = split_frames(s.skip(i + 2));
            (seq![s.take(i)].add(rest.0), rest.1)
        } else {
            (seq![], s)
        },
    }
}

/// The type and payload a frame's lines set (the last `event: ` line, trimmed,
/// and the last `data: ` line win).
pub open spec fn frame_fields(ls: Seq<Seq<char>>) -> (Seq<char>, Seq<char>)
    decreases ls.len(),
{
    if ls.len() == 0 {
        (seq![], seq![])
    } else {
        let st = frame_fields(ls.drop_last());
        let line = ls.last();
        if starts_with(line, "event: "@) {
            (trim(line.skip(7)), st.1)
        } else if starts_with(line, "data: "@) {
            (st.0, line.skip(6))
        } else {
            st
        }
    }
}

/// The event of one frame: none when the frame is blank or carries no data.
pub open spec fn frame_event(raw: Seq<char>) -> Option<(Seq<char>, Seq<char>)> {
    if trim(raw).len() == 0 {
        None
    } else {
        let f = frame_fields(lines(raw));
        if f.1.len() == 0 {
            None
        } else {
            Some(f)
        }
    }
}

/// The events of a sequence of frames, in order.
pub open spec fn frames_events(frames: Seq<Seq<char>>) -> Seq<(Seq<char>, Seq<char>)>
    decreases frames.len(),
{
    if frames.len() == 0 {
        seq![]
    } else {
        let prev = frames_events(frames.drop_last());
        match frame_event(frames.last()) {
            Some(e) => prev.push(e),
            None => prev,
        }
    }
}

/// Collects the text of a streamed response and hands out its events as soon
/// as their frames are complete.
pub struct SseFramer {
    buffer: Vec<char>,
}

impl View for SseFramer {
    type V = Seq<char>;

    /// The text received that does not yet form a complete frame.
    closed spec fn view(&self) -> Seq<char> {
        self.buffer@
    }
}

fn find_break(v: &Vec<char>) -> (r: Option<usize>)
    ensures
        match r {
            Some(i) => first_break(v@) == Some(i as int) && i + 2 <= v@.len(),
            None => first_break(v@) is None,
        },
{
    let mut i: usize = 0;
    assert(v@.skip(0) =~= v@);
    while v.len() >= 2 && i <= v.len() - 2
        invariant
            i <= v.len(),
            first_break(v@) == (match first_break(v@.skip(i as int)) {
                Some(j) => Some(j + i),
                None => None,
            }),
        decreases v.len() - i,
    {
        proof {
            assert(v@.skip(i as int).drop_first() =~= v@.skip(i + 1));
            assert(v@.skip(i as int)[0] == v@[i as int]);
            assert(v@.skip(i as int)[1] == v@[i + 1]);
        }
        if v[i] == '\n' && v[i + 1] == '\n' {
            return Some(i);
        }
        i = i + 1;
    }
    proof {
        assert(v@.skip(i as int).len() < 2);
    }
    None
}

fn frame_event_of(raw: &[char]) -> (r: Option<SseEvent>)
    ensures
        match r {
            Some(e) => frame_event(raw@) == Some(e@),
            None => frame_event(raw@) is None,
        },
{
    let t = trim_chars(raw);
    if t.len() == 0 {
        return None;
    }
    let ls = split_lines(raw);
    let ghost lv = ls@.map_values(|l: Vec<char>| l@);
    assert(lv =~= lines(raw@));
    let mut event_type: Vec<char> = Vec::new();
    let mut data: Vec<char> = Vec::new();
    let mut i: usize = 0;
    proof {
        reveal_strlit("event: ");
        reveal_strlit("data: ");
        assert(lv.take(0) =~= Seq::<Seq<char>>::empty());
    }
    while i < ls.len()
        invariant
            i <= ls.len(),
            lv == ls@.map_values(|l: Vec<char>| l@),
            (event_type@, data@) == frame_fields(lv.take(i as int)),
            "event: "@.len() == 7,
            "data: "@.len() == 6,
        decreases ls.len() - i,
    {
        let line = &ls[i];
        proof {
            assert(lv.take(i + 1).drop_last() =~= lv.take(i as int));
            assert(lv.take(i + 1).last() == line@);
        }
        if has_prefix_str(line.as_slice(), "event: ") {
            let rest = slice_from(line.as_slice(), 7);
            event_type = trim_chars(rest.as_slice());
        } else if has_prefix_str(line.as_slice(), "data: ") {
            data = slice_from(line.as_slice(), 6);
        }
        i = i + 1;
    }
    proof {
        assert(lv.take(ls.len() as int) =~= lv);
    }
    if data.len() == 0 {
        return None;
    }
    Some(SseEvent { event_type: from_chars(event_type.as_slice()), data: from_chars(data.as_slice()) })
}

impl SseFramer {
    pub fn new() -> (r: Self)
        ensures
            r@ == Seq::<char>::empty(),
    {
        SseFramer { buffer: Vec::new() }
    }

    /// Takes the next chunk of text and returns the events of the frames it
    /// completes; what follows the last complete frame is kept for later.
    pub fn feed(&mut self, chunk: &str) -> (r: Vec<SseEvent>)
        ensures
            events_view(r@) == frames_events(split_frames(old(self)@ + chunk@).0),
            final(self)@ == split_frames(old(self)@ + chunk@).1,
    {
        let c = to_chars(chunk);
        self.buffer.extend_from_slice(c.as_slice());
        let ghost all = self.buffer@;
        assert(all =~= old(self)@ + chunk@);
        let mut out: Vec<SseEvent> = Vec::new();
        let ghost mut done: Seq<Seq<char>> = seq![];
        assert(done + split_frames(all).0 =~= split_frames(all).0);
        loop
            invariant
                split_frames(all).0 == done + split_frames(self.buffer@).0,
                split_frames(all).1 == split_frames(self.buffer@).1,
                events_view(out@) == frames_events(done),
            ensures
                split_frames(all).0 == done,
                split_frames(all).1 == self.buffer@,
                events_view(out@) == frames_events(done),
            decreases self.buffer@.len(),
        {
            match find_break(&self.buffer) {
                None => {
                    proof {
                        assert(split_frames(self.buffer@).0 =~= Seq::<Seq<char>>::empty());
                        assert(done + Seq::<Seq<char>>::empty() =~= done);
                    }
                    break;
                },
                Some(i) => {
                    let n = self.buffer.len();
                    assert(i + 2 <= n);
                    let ghost buf = self.buffer@;
                    let raw = slice_range(self.buffer.as_slice(), 0, i);
                    let rest = slice_from(self.buffer.as_slice(), i + 2);
                    let ev = frame_event_of(raw.as_slice());
                    proof {
                        let sf = split_frames(buf.skip(i + 2));
                        assert(split_frames(buf).0 =~= seq![buf.take(i as int)].add(sf.0));
                        assert(done + split_frames(buf).0 =~= done.push(buf.take(i as int)) + sf.0);
                        assert(done.push(buf.take(i as int)).drop_last() =~= done);
                    }
                    match ev {
                        Some(e) => out.push(e),
                        None => {},
                    }
                    self.buffer = rest;
                    proof {
                        done = done.push(buf.take(i as int));
                    }
                },
            }
        }
        out
    }
}

/// The SSE body of a sequence of events: for each, an `event:` line when it has
/// a type, its `data:` line, and a blank line.
pub open spec fn encode_events(evs: Seq<(Seq<char>, Seq<char>)>) -> Seq<char>
    decreases evs.len(),
{
    if evs.len() == 0 {
        seq![]
    } else {
        let e = evs.last();
        encode_events(evs.drop_last()) + (if e.0.len() > 0 {
            "event: "@ + e.0 + "\n"@
        } else {
            seq![]
        }) + "data: "@ + e.1 + "\n\n"@
    }
}

/// Writes collected events back out as an SSE body.
pub fn encode_sse_body(events: &Vec<SseEvent>) -> (r: String)
    ensures
        r@ == encode_events(events_view(events@)),
{
    let ghost ev = events_view(events@);
    let mut out = String::new();
    let mut i: usize = 0;
    while i < events.len()
        invariant
            i <= events.len(),
            ev == events_view(events@),
            out@ == encode_events(ev.take(i as int)),
        decreases events.len() - i,
    {
        proof {
            assert(ev.take(i + 1).drop_last() =~= ev.take(i as int));
            assert(ev.take(i + 1).last() == events@[i as int]@);
        }
        let e = &events[i];
        if !e.event_type.as_str().is_empty() {
            out.append("event: ");
            out.append(e.event_type.as_str());
            out.append("\n");
        }
        out.append("data: ");
        out.append(e.data.as_str());
        out.append("\n\n");
        i = i + 1;
    }
    proof {
        assert(ev.take(ev.len() as int) =~= ev);
    }
    out
}

// ─── Writing events out and reading them back ───

/// An event that writing out and reading back keeps as it is: a non-empty
/// payload, neither field holding a line break, the type already trimmed, and
/// the payload not ending in a carriage return.
pub open spec fn encodable(e: (Seq<char>, Seq<char>)) -> bool {
    &&& e.1.len() > 0
    &&& !e.1.contains('\n')
    &&& e.1.last() != '\r'
    &&& !e.0.contains('\n')
    &&& trim(e.0) == e.0
}

/// The lines one event is written as.
pub open spec fn event_lines(e: (Seq<char>, Seq<char>)) -> Seq<Seq<char>> {
    if e.0.len() > 0 {
        seq!["event: "@ + e.0, "data: "@ + e.1, seq![]]
    } else {
        seq!["data: "@ + e.1, seq![]]
    }
}

pub open spec fn events_lines(evs: Seq<(Seq<char>, Seq<char>)>) -> Seq<Seq<char>>
    decreases evs.len(),
{
    if evs.len() == 0 {
        seq![]
    } else {
        events_lines(evs.drop_last()) + event_lines(evs.last())
    }
}

proof fn lemma_lines_scan_no_break(x: Seq<char>)
    requires
        !x.contains('\n'),
    ensures
        lines_scan(x) == (Seq::<Seq<char>>::empty(), x),
    decreases x.len(),
{
    if x.len() > 0 {
        assert(!x.drop_last().contains('\n')) by {
            if x.drop_last().contains('\n') {
                let i = choose|i: int| 0 <= i < x.drop_last().len() && x.drop_last()[i] == '\n';
                assert(x[i] == '\n');
            }
        }
        lemma_lines_scan_no_break(x.drop_last());
        assert(x.last() != '\n') by {
            if x.last() == '\n' {
                assert(x[x.len() - 1] == '\n');
            }
        }
        assert(x.drop_last().push(x.last()) =~= x);
    }
}

proof fn lemma_lines_scan_append(p: Seq<char>, q: Seq<char>)
    requires
        lines_scan(p).1.len() == 0,
    ensures
        lines_scan(p + q) == (lines_scan(p).0 + lines_scan(q).0, lines_scan(q).1),
    decreases q.len(),
{
    if q.len() == 0 {
        assert(p + q =~= p);
        assert(lines_scan(p).1 =~= Seq::<char>::empty());
        assert(lines_scan(p).0 + Seq::<Seq<char>>::empty() =~= lines_scan(p).0);
    } else {
        lemma_lines_scan_append(p, q.drop_last());
        assert((p + q).drop_last() =~= p + q.drop_last());
        assert((p + q).last() == q.last());
        let a = lines_scan(p).0;
        let b = lines_scan(q.drop_last());
        if q.last() == '\n' {
            assert((a + b.0).push(strip_cr(b.1)) =~= a + b.0.push(strip_cr(b.1)));
        }
    }
}

/// The lines of a text line that ends in a line break.
proof fn lemma_lines_of_line(x: Seq<char>)
    requires
        !x.contains('\n'),
        x.len() == 0 || x.last() != '\r',
    ensures
        lines_scan(x + seq!['\n']) == (seq![x], Seq::<char>::empty()),
{
    lemma_lines_scan_no_break(x);
    assert((x + seq!['\n']).drop_last() =~= x);
    assert((x + seq!['\n']).last() == '\n');
    assert(strip_cr(x) == x);
    assert(Seq::<Seq<char>>::empty().push(x) =~= seq![x]);
}

proof fn lemma_no_break_concat(a: Seq<char>, b: Seq<char>)
    requires
        !a.contains('\n'),
        !b.contains('\n'),
    ensures
        !(a + b).contains('\n'),
{
    if (a + b).contains('\n') {
        let i = choose|i: int| 0 <= i < (a + b).len() && (a + b)[i] == '\n';
        if i < a.len() {
            assert(a[i] == '\n');
        } else {
            assert(b[i - a.len()] == '\n');
        }
    }
}

proof fn lemma_event_text_lines(e: (Seq<char>, Seq<char>))
    requires
        encodable(e),
    ensures
        lines_scan(
            (if e.0.len() > 0 {
                "event: "@ + e.0 + "\n"@
            } else {
                seq![]
            }) + "data: "@ + e.1 + "\n\n"@,
        ) == (event_lines(e), Seq::<char>::empty()),
{
    reveal_strlit("event: ");
    reveal_strlit("data: ");
    reveal_strlit("\n");
    reveal_strlit("\n\n");
    assert(!"event: "@.contains('\n')) by {
        assert("event: "@ =~= seq!['e', 'v', 'e', 'n', 't', ':', ' ']);
    }
    assert(!"data: "@.contains('\n')) by {
        assert("data: "@ =~= seq!['d', 'a', 't', 'a', ':', ' ']);
    }
    let dl = "data: "@ + e.1;
    lemma_no_break_concat("data: "@, e.1);
    assert(dl.last() == e.1.last());
    lemma_lines_of_line(dl);
    lemma_lines_of_line(Seq::<char>::empty());
    assert(Seq::<char>::empty() + seq!['\n'] =~= seq!['\n']);
    lemma_lines_scan_append(dl + seq!['\n'], seq!['\n']);
    assert(dl + "\n\n"@ =~= (dl + seq!['\n']) + seq!['\n']);
    assert(seq![dl] + seq![Seq::<char>::empty()] =~= seq![dl, Seq::<char>::empty()]);
    if e.0.len() > 0 {
        let el = "event: "@ + e.0;
        lemma_no_break_concat("event: "@, e.0);
        assert(el.last() == e.0.last());
        assert(e.0.last() != '\r') by {
            crate::text::lemma_trim_last_not_ws(e.0);
        }
        lemma_lines_of_line(el);
        lemma_lines_scan_append(el + seq!['\n'], dl + "\n\n"@);
        assert(el + "\n"@ + "data: "@ + e.1 + "\n\n"@ =~= (el + seq!['\n']) + (dl + "\n\n"@));
        assert(seq![el] + seq![dl, Seq::<char>::empty()] =~= seq![el, dl, Seq::<char>::empty()]);
    } else {
        assert(Seq::<char>::empty() + "data: "@ + e.1 + "\n\n"@ =~= dl + "\n\n"@);
    }
}

proof fn lemma_encoded_lines(evs: Seq<(Seq<char>, Seq<char>)>)
    requires
        forall|i: int| 0 <= i < evs.len() ==> encodable(#[trigger] evs[i]),
    ensures
        lines_scan(encode_events(evs)) == (events_lines(evs), Seq::<char>::empty()),
    decreases evs.len(),
{
    if evs.len() == 0 {
        assert(lines_scan(Seq::<char>::empty()) == (Seq::<Seq<char>>::empty(), Seq::<char>::empty()));
    } else {
        let init = evs.drop_last();
        assert forall|i: int| 0 <= i < init.len() implies encodable(#[trigger] init[i]) by {
            assert(init[i] == evs[i]);
        }
        lemma_encoded_lines(init);
        let e = evs.last();
        assert(encodable(evs[evs.len() - 1]));
        lemma_event_text_lines(e);
        let piece = (if e.0.len() > 0 {
            "event: "@ + e.0 + "\n"@
        } else {
            seq![]
        }) + "data: "@ + e.1 + "\n\n"@;
        lemma_lines_scan_append(encode_events(init), piece);
        assert(encode_events(evs) =~= encode_events(init) + piece);
    }
}

/// The parser state after `ls`, started from `st`.
pub open spec fn sse_run(st: SseState, ls: Seq<Seq<char>>) -> SseState
    decreases ls.len(),
{
    if ls.len() == 0 {
        st
    } else {
        sse_step(sse_run(st, ls.drop_last()), ls.last())
    }
}

proof fn lemma_sse_run_append(st: SseState, a: Seq<Seq<char>>, b: Seq<Seq<char>>)
    ensures
        sse_run(st, a + b) == sse_run(sse_run(st, a), b),
    decreases b.len(),
{
    if b.len() == 0 {
        assert(a + b =~= a);
    } else {
        lemma_sse_run_append(st, a, b.drop_last());
        assert((a + b).drop_last() =~= a + b.drop_last());
        assert((a + b).last() == b.last());
    }
}

proof fn lemma_sse_scan_is_run(ls: Seq<Seq<char>>)
    ensures
        sse_scan(ls) == sse_run((seq![], seq![], seq![]), ls),
    decreases ls.len(),
{
    if ls.len() > 0 {
        lemma_sse_scan_is_run(ls.drop_last());
    }
}

proof fn lemma_event_lines_run(evs: Seq<(Seq<char>, Seq<char>)>, e: (Seq<char>, Seq<char>))
    requires
        encodable(e),
    ensures
        sse_run((evs, seq![], seq![]), event_lines(e)) == (evs.push(e), Seq::<char>::empty(), Seq::<char>::empty()),
{
    reveal_strlit("event: ");
    reveal_strlit("data: ");
    let st0: SseState = (evs, seq![], seq![]);
    let dl = "data: "@ + e.1;
    assert(dl.take(6) =~= "data: "@);
    assert(dl.skip(6) =~= e.1);
    assert(!crate::text::starts_with(dl, "event: "@)) by {
        assert(dl[0] == 'd');
        assert("event: "@[0] == 'e');
        if dl.len() >= 7 {
            assert(dl.take(7)[0] == 'd');
        }
    }
    if e.0.len() > 0 {
        let el = "event: "@ + e.0;
        assert(el.take(7) =~= "event: "@);
        assert(el.skip(7) =~= e.0);
        let ls = event_lines(e);
        assert(ls.drop_last().drop_last().drop_last() =~= Seq::<Seq<char>>::empty());
        assert(ls.drop_last().drop_last().last() == el);
        assert(ls.drop_last().last() == dl);
        assert(ls.last() =~= Seq::<char>::empty());
        assert(sse_run(st0, ls.drop_last().drop_last().drop_last()) == st0);
        assert(crate::text::starts_with(el, "event: "@));
        assert(sse_step(st0, el) == (evs, e.0, Seq::<char>::empty()));
        assert(sse_run(st0, ls.drop_last().drop_last()) == (evs, e.0, Seq::<char>::empty()));
        assert(crate::text::starts_with(dl, "data: "@));
        assert(sse_step((evs, e.0, Seq::<char>::empty()), dl) == (evs, e.0, e.1));
        assert(sse_run(st0, ls.drop_last()) == (evs, e.0, e.1));
    } else {
        let ls = event_lines(e);
        assert(ls.drop_last().drop_last() =~= Seq::<Seq<char>>::empty());
        assert(ls.drop_last().last() == dl);
        assert(ls.last() =~= Seq::<char>::empty());
        assert(e.0 =~= Seq::<char>::empty());
        assert(sse_run(st0, ls.drop_last().drop_last()) == st0);
        assert(crate::text::starts_with(dl, "data: "@));
        assert(sse_step(st0, dl) == (evs, e.0, e.1));
        assert(sse_run(st0, ls.drop_last()) == (evs, e.0, e.1));
    }
}

proof fn lemma_events_lines_run(evs: Seq<(Seq<char>, Seq<char>)>)
    requires
        forall|i: int| 0 <= i < evs.len() ==> encodable(#[trigger] evs[i]),
    ensures
        sse_run((seq![], seq![], seq![]), events_lines(evs)) == (evs, Seq::<char>::empty(), Seq::<char>::empty()),
    decreases evs.len(),
{
    if evs.len() == 0 {
        assert(events_lines(evs) =~= Seq::<Seq<char>>::empty());
    } else {
        let init = evs.drop_last();
        assert forall|i: int| 0 <= i < init.len() implies encodable(#[trigger] init[i]) by {
            assert(init[i] == evs[i]);
        }
        lemma_events_lines_run(init);
        assert(encodable(evs[evs.len() - 1]));
        lemma_sse_run_append((seq![], seq![], seq![]), events_lines(init), event_lines(evs.last()));
        lemma_event_lines_run(init, evs.last());
        assert(init.push(evs.last()) =~= evs);
    }
}

/// Writing events out as an SSE body and parsing that body gives back the same
/// events, for events that survive the trip (see `encodable`).
pub proof fn lemma_encode_then_parse(evs: Seq<(Seq<char>, Seq<char>)>)
    requires
        forall|i: int| 0 <= i < evs.len() ==> encodable(#[trigger] evs[i]),
    ensures
        sse_events(lines(encode_events(evs))) == evs,
{
    lemma_encoded_lines(evs);
    assert(lines(encode_events(evs)) == events_lines(evs));
    lemma_sse_scan_is_run(events_lines(evs));
    lemma_events_lines_run(evs);
}

proof fn lemma_first_break_extend(a: Seq<char>, b: Seq<char>)
    requires
        first_break(a) is Some,
    ensures
        first_break(a + b) == first_break(a),
    decreases a.len(),
{
    if a.len() >= 2 && !(a[0] == '\n' && a[1] == '\n') {
        assert((a + b).drop_first() =~= a.drop_first() + b);
        lemma_first_break_extend(a.drop_first(), b);
    }
}

proof fn lemma_first_break_bound(a: Seq<char>)
    ensures
        first_break(a) matches Some(i) ==> 0 <= i && i + 2 <= a.len(),
    decreases a.len(),
{
    if a.len() >= 2 && !(a[0] == '\n' && a[1] == '\n') {
        lemma_first_break_bound(a.drop_first());
    }
}

proof fn lemma_split_frames_append(a: Seq<char>, b: Seq<char>)
    ensures
        split_frames(a + b) == (
            split_frames(a).0 + split_frames(split_frames(a).1 + b).0,
            split_frames(split_frames(a).1 + b).1,
        ),
    decreases a.len(),
{
    lemma_first_break_bound(a);
    match first_break(a) {
        None => {
            assert(split_frames(a) == (Seq::<Seq<char>>::empty(), a));
            assert(Seq::<Seq<char>>::empty() + split_frames(a + b).0 =~= split_frames(a + b).0);
        },
        Some(i) => {
            lemma_first_break_extend(a, b);
            lemma_first_break_bound(a + b);
            assert((a + b).skip(i + 2) =~= a.skip(i + 2) + b);
            assert((a + b).take(i) =~= a.take(i));
            lemma_split_frames_append(a.skip(i + 2), b);
            let ra = split_frames(a.skip(i + 2));
            let rb = split_frames(ra.1 + b);
            assert(seq![a.take(i)].add(ra.0 + rb.0) =~= seq![a.take(i)].add(ra.0) + rb.0);
        },
    }
}

proof fn lemma_frames_events_append(f: Seq<Seq<char>>, g: Seq<Seq<char>>)
    ensures
        frames_events(f + g) == frames_events(f) + frames_events(g),
    decreases g.len(),
{
    if g.len() == 0 {
        assert(f + g =~= f);
        assert(frames_events(f) + frames_events(g) =~= frames_events(f));
    } else {
        lemma_frames_events_append(f, g.drop_last());
        assert((f + g).drop_last() =~= f + g.drop_last());
        assert((f + g).last() == g.last());
        match frame_event(g.last()) {
            Some(e) => {
                assert((frames_events(f) + frames_events(g.drop_last())).push(e) =~= frames_events(f)
                    + frames_events(g.drop_last()).push(e));
            },
            None => {},
        }
    }
}

/// Feeding a stream in two chunks gives the events that feeding it whole
/// gives, and leaves the same text pending: where the chunks are cut does not
/// matter.
pub proof fn lemma_chunking_does_not_matter(pending: Seq<char>, a: Seq<char>, b: Seq<char>)
    ensures
        frames_events(split_frames(pending + a).0) + frames_events(
            split_frames(split_frames(pending + a).1 + b).0,
        ) == frames_events(split_frames(pending + a + b).0),
        split_frames(split_frames(pending + a).1 + b).1 == split_frames(pending + a + b).1,
{
    lemma_split_frames_append(pending + a, b);
    lemma_frames_events_append(
        split_frames(pending + a).0,
        split_frames(split_frames(pending + a).1 + b).0,
    );
}

} // verus!
