//! Assembly of a streamed model response (Anthropic SSE events) into
//! `AssistantEvent`s.
use vstd::prelude::*;
use crate::conversation::wadd;
use crate::text::{chars_eq_str, to_chars};
use crate::types::{AssistantEvent, ContentBlock, TokenUsage};

verus! {

broadcast use vstd::string::group_string_axioms;

/// The JSON value a text holds, as `serde_json` reads it; `None` when the
/// text is not JSON.
pub uninterp spec fn json_of_text(s: Seq<char>) -> Option<serde_json::Value>;

/// `serde_json::from_str::<serde_json::Value>(s)`, its error dropped: named
/// `json_of_text`.  The text `{}` is JSON (the empty object).
#[verifier::external_body]
pub(crate) fn parse_json(s: &str) -> (r: Option<serde_json::Value>)
    ensures
        r == json_of_text(s@),
        s@ == "{}"@ ==> r is Some,
{
    serde_json::from_str(s).ok()
}

/// The input of a streamed tool call: the JSON its input text holds, or the
/// empty object `{}` when that text is not JSON.
pub open spec fn tool_input(json: Seq<char>) -> serde_json::Value {
    match json_of_text(json) {
        Some(v) => v,
        None => json_of_text("{}"@)->0,
    }
}

/// The input of a streamed tool call from its accumulated JSON text.
pub fn tool_input_of(json: &str) -> (r: serde_json::Value)
    ensures
        r == tool_input(json@),
{
    match parse_json(json) {
        Some(v) => v,
        None => {
            let empty = parse_json("{}");
            proof {
                reveal_strlit("{}");
            }
            empty.unwrap()
        },
    }
}

/// The kinds of SSE event a response stream carries.
#[derive(Debug, Clone, Copy, PartialEq, Eq, Structural)]
pub enum SseKind {
    MessageStart,
    ContentBlockStart,
    ContentBlockDelta,
    ContentBlockStop,
    MessageDelta,
    MessageStop,
    Ping,
    Unknown,
}

pub open spec fn spec_sse_kind(t: Seq<char>) -> SseKind {
    if t == "message_start"@ {
        SseKind::MessageStart
    } else if t == "content_block_start"@ {
        SseKind::ContentBlockStart
    } else if t == "content_block_delta"@ {
        SseKind::ContentBlockDelta
    } else if t == "content_block_stop"@ {
        SseKind::ContentBlockStop
    } else if t == "message_delta"@ {
        SseKind::MessageDelta
    } else if t == "message_stop"@ {
        SseKind::MessageStop
    } else if t == "ping"@ {
        SseKind::Ping
    } else {
        SseKind::Unknown
    }
}

/// The event type that names each kind; `Unknown` is named by none.
pub open spec fn sse_kind_name(k: SseKind) -> Option<Seq<char>> {
    match k {
        SseKind::MessageStart => Some("message_start"@),
        SseKind::ContentBlockStart => Some("content_block_start"@),
        SseKind::ContentBlockDelta => Some("content_block_delta"@),
        SseKind::ContentBlockStop => Some("content_block_stop"@),
        SseKind::MessageDelta => Some("message_delta"@),
        SseKind::MessageStop => Some("message_stop"@),
        SseKind::Ping => Some("ping"@),
        SseKind::Unknown => None,
    }
}

proof fn lemma_sse_names_distinct()
    ensures
        forall|a: SseKind, b: SseKind|
            a != b && #[trigger] sse_kind_name(a) is Some && #[trigger] sse_kind_name(b) is Some
                ==> sse_kind_name(a) != sse_kind_name(b),
{
    reveal_strlit("message_start");
    reveal_strlit("content_block_start");
    reveal_strlit("content_block_delta");
    reveal_strlit("content_block_stop");
    reveal_strlit("message_delta");
    reveal_strlit("message_stop");
    reveal_strlit("ping");
    assert("message_start"@[8] != "message_delta"@[8]);
    assert("content_block_start"@[14] != "content_block_delta"@[14]);
    assert forall|a: SseKind, b: SseKind|
        a != b && #[trigger] sse_kind_name(a) is Some && #[trigger] sse_kind_name(b) is Some implies sse_kind_name(a)
            != sse_kind_name(b) by {
        let x = sse_kind_name(a)->0;
        let y = sse_kind_name(b)->0;
        if x.len() == y.len() {
            if x == "message_start"@ || x == "message_delta"@ {
                assert(x[8] != y[8]);
            } else {
                assert(x[14] != y[14]);
            }
        }
    }
}

/// An event type decodes to the kind it names, and a kind other than
/// `Unknown` comes only from the type that names it.
pub proof fn law_sse_kind_names(t: Seq<char>, q: SseKind)
    ensures
        sse_kind_name(q) == Some(t) ==> spec_sse_kind(t) == q,
        spec_sse_kind(t) != SseKind::Unknown ==> sse_kind_name(spec_sse_kind(t)) == Some(t),
{
    lemma_sse_names_distinct();
    assert(sse_kind_name(SseKind::MessageStart) is Some);
    assert(sse_kind_name(SseKind::ContentBlockStart) is Some);
    assert(sse_kind_name(SseKind::ContentBlockDelta) is Some);
    assert(sse_kind_name(SseKind::ContentBlockStop) is Some);
    assert(sse_kind_name(SseKind::MessageDelta) is Some);
    assert(sse_kind_name(SseKind::MessageStop) is Some);
    assert(sse_kind_name(SseKind::Ping) is Some);
}

/// The kind of an SSE event, by its `event:` type.
pub fn sse_kind(event_type: &str) -> (k: SseKind)
    ensures
        k == spec_sse_kind(event_type@),
        k != SseKind::Unknown ==> sse_kind_name(k) == Some(event_type@),
        forall|q: SseKind| #[trigger] sse_kind_name(q) == Some(event_type@) ==> k == q,
{
    proof {
        law_sse_kind_names(event_type@, spec_sse_kind(event_type@));
        assert forall|q: SseKind| #[trigger] sse_kind_name(q) == Some(event_type@) implies spec_sse_kind(event_type@) == q by {
            law_sse_kind_names(event_type@, q);
        }
    }
    let t = to_chars(event_type);
    let t = t.as_slice();
    if chars_eq_str(t, "message_start") {
        SseKind::MessageStart
    } else if chars_eq_str(t, "content_block_start") {
        SseKind::ContentBlockStart
    } else if chars_eq_str(t, "content_block_delta") {
        SseKind::ContentBlockDelta
    } else if chars_eq_str(t, "content_block_stop") {
        SseKind::ContentBlockStop
    } else if chars_eq_str(t, "message_delta") {
        SseKind::MessageDelta
    } else if chars_eq_str(t, "message_stop") {
        SseKind::MessageStop
    } else if chars_eq_str(t, "ping") {
        SseKind::Ping
    } else {
        SseKind::Unknown
    }
}

/// Token counts as a stream reports them; either may be absent.
#[derive(Debug, Clone, Copy)]
pub struct UsageInfo {
    pub input_tokens: Option<u32>,
    pub output_tokens: Option<u32>,
}

/// One decoded stream event.  Events that carry nothing for the response
/// (`content_block_stop`, `message_stop`, `ping`, unknown types, payloads that do
/// not decode) are `Skip`.
#[derive(Debug)]
pub enum StreamItem {
    MessageStart { usage: Option<UsageInfo> },
    BlockStart {
        index: usize,
        block_type: String,
        text: Option<String>,
        id: Option<String>,
        name: Option<String>,
    },
    BlockDelta {
        index: usize,
        delta_type: String,
        text: Option<String>,
        partial_json: Option<String>,
    },
    MessageDelta { stop_reason: Option<String>, usage: Option<UsageInfo> },
    Skip,
}

/// A content block being assembled.
#[derive(Debug)]
pub enum BlockAccumulator {
    Text { index: usize, text: String },
    ToolUse { index: usize, id: String, name: String, input_json: String },
}

/// A block being assembled, as a value: whether it is text, its index, its text
/// (or the JSON of a tool call's input), the tool call's id and name.
pub type AccView = (bool, usize, Seq<char>, Seq<char>, Seq<char>);

impl View for BlockAccumulator {
    type V = AccView;

    open spec fn view(&self) -> AccView {
        match self {
            BlockAccumulator::Text { index, text } => (true, *index, text@, seq![], seq![]),
            BlockAccumulator::ToolUse { index, id, name, input_json } => (
                false,
                *index,
                input_json@,
                id@,
                name@,
            ),
        }
    }
}

impl BlockAccumulator {
    pub fn index(&self) -> (r: usize)
        ensures
            r == self@.1,
    {
        match self {
            BlockAccumulator::Text { index, .. } | BlockAccumulator::ToolUse { index, .. } => *index,
        }
    }
}

pub open spec fn opt_text(o: Option<String>) -> Seq<char> {
    match o {
        Some(s) => s@,
        None => seq![],
    }
}

pub open spec fn opt_count(o: Option<u32>) -> u32 {
    match o {
        Some(n) => n,
        None => 0,
    }
}

/// Assembly state: stop reasons (in order), blocks, input and output tokens.
pub type StreamState = (Seq<Seq<char>>, Seq<AccView>, u32, u32);

/// The position of the first block with the given index, if any.
pub open spec fn first_with_index(accs: Seq<AccView>, index: usize) -> Option<int>
    decreases accs.len(),
{
    if accs.len() == 0 {
        None
    } else {
        match first_with_index(accs.drop_last(), index) {
            Some(p) => Some(p),
            None => if accs.last().1 == index {
                Some(accs.len() - 1)
            } else {
                None
            },
        }
    }
}

/// What a delta does to the first block with its index: a `text_delta` extends a
/// text block, an `input_json_delta` extends a tool call's input; anything else
/// changes nothing.
pub open spec fn apply_delta(
    accs: Seq<AccView>,
    index: usize,
    kind: Seq<char>,
    text: Option<String>,
    pj: Option<String>,
) -> Seq<AccView> {
    match first_with_index(accs, index) {
        None => accs,
        Some(p) => {
            let a = accs[p];
            if kind == "text_delta"@ && a.0 && text is Some {
                accs.update(p, (a.0, a.1, a.2 + opt_text(text), a.3, a.4))
            } else if kind == "input_json_delta"@ && !a.0 && pj is Some {
                accs.update(p, (a.0, a.1, a.2 + opt_text(pj), a.3, a.4))
            } else {
                accs
            }
        },
    }
}

pub open spec fn stream_step(st: StreamState, item: StreamItem) -> StreamState {
    match item {
        StreamItem::MessageStart { usage } => match usage {
            Some(u) => (st.0, st.1, wadd(st.2, opt_count(u.input_tokens)), wadd(st.3, opt_count(u.output_tokens))),
            None => st,
        },
        StreamItem::BlockStart { index, block_type, text, id, name } => if block_type@ == "text"@ {
            (st.0, st.1.push((true, index, opt_text(text), seq![], seq![])), st.2, st.3)
        } else if block_type@ == "tool_use"@ {
            (st.0, st.1.push((false, index, seq![], opt_text(id), opt_text(name))), st.2, st.3)
        } else {
            st
        },
        StreamItem::BlockDelta { index, delta_type, text, partial_json } => (
            st.0,
            apply_delta(st.1, index, delta_type@, text, partial_json),
            st.2,
            st.3,
        ),
        StreamItem::MessageDelta { stop_reason, usage } => {
            let stops = match stop_reason {
                Some(r) => st.0.push(r@),
                None => st.0,
            };
            let out = match usage {
                Some(u) => wadd(st.3, opt_count(u.output_tokens)),
                None => st.3,
            };
            (stops, st.1, st.2, out)
        },
        StreamItem::Skip => st,
    }
}

pub open spec fn stream_scan(items: Seq<StreamItem>) -> StreamState
    decreases items.len(),
{
    if items.len() == 0 {
        (seq![], seq![], 0, 0)
    } else {
        stream_step(stream_scan(items.drop_last()), items.last())
    }
}

/// The blocks that become content: tool calls, and text blocks that are not empty.
pub open spec fn emitted(accs: Seq<AccView>) -> Seq<AccView>
    decreases accs.len(),
{
    if accs.len() == 0 {
        seq![]
    } else {
        let a = accs.last();
        if a.0 && a.2.len() == 0 {
            emitted(accs.drop_last())
        } else {
            emitted(accs.drop_last()).push(a)
        }
    }
}

/// Whether `e` is the content block assembled as `a` (a tool call's input is the
/// JSON parsed from its text, or `{}` when that text is not JSON).
pub open spec fn block_matches(e: AssistantEvent, a: AccView) -> bool {
    if a.0 {
        e matches AssistantEvent::ContentBlock(ContentBlock::Text { text }) && text@ == a.2
    } else {
        e matches AssistantEvent::ContentBlock(ContentBlock::ToolUse { id, name, input }) && id@
            == a.3 && name@ == a.4 && input == tool_input(a.2)
    }
}

/// The events of an assembled response: its stop reasons, then its content
/// blocks in order of their start, then one usage event with the token totals.
pub open spec fn assembled(r: Seq<AssistantEvent>, items: Seq<StreamItem>) -> bool {
    let st = stream_scan(items);
    let blocks = emitted(st.1);
    &&& r.len() == st.0.len() + blocks.len() + 1
    &&& forall|i: int|
        0 <= i < st.0.len() ==> (#[trigger] r[i] matches AssistantEvent::StopReason(s) && s@
            == st.0[i])
    &&& forall|j: int|
        0 <= j < blocks.len() ==> block_matches(#[trigger] r[st.0.len() + j], blocks[j])
    &&& r.last() matches AssistantEvent::Usage(u) && u.input_tokens == st.2 && u.output_tokens
        == st.3
}

fn opt_string(o: &Option<String>) -> (r: String)
    ensures
        r@ == opt_text(*o),
{
    match o {
        Some(s) => s.clone(),
        None => String::new(),
    }
}

fn find_index(accs: &Vec<BlockAccumulator>, index: usize) -> (r: Option<usize>)
    ensures
        match first_with_index(accs@.map_values(|a: BlockAccumulator| a@), index) {
            Some(p) => r == Some(p as usize),
            None => r is None,
        },
        r matches Some(p) ==> first_with_index(accs@.map_values(|a: BlockAccumulator| a@), index)
            == Some(p as int),
{
    let ghost av = accs@.map_values(|a: BlockAccumulator| a@);
    let mut i: usize = 0;
    while i < accs.len()
        invariant
            i <= accs.len(),
            av == accs@.map_values(|a: BlockAccumulator| a@),
            first_with_index(av.take(i as int), index) is None,
        decreases accs.len() - i,
    {
        assert(av.take(i + 1).drop_last() == av.take(i as int));
        if accs[i].index() == index {
            proof {
                lemma_first_prefix(av, i + 1, i as int, index);
            }
            return Some(i);
        }
        i = i + 1;
    }
    assert(av.take(accs.len() as int) == av);
    None
}

proof fn lemma_first_prefix(accs: Seq<AccView>, k: int, p: int, index: usize)
    requires
        0 < k <= accs.len(),
        first_with_index(accs.take(k), index) == Some(p),
    ensures
        first_with_index(accs, index) == Some(p),
    decreases accs.len() - k,
{
    if k < accs.len() {
        assert(accs.take(k + 1).drop_last() == accs.take(k));
        lemma_first_prefix(accs, k + 1, p, index);
    } else {
        assert(accs.take(k) =~= accs);
    }
}

proof fn lemma_first_in_range(accs: Seq<AccView>, index: usize)
    ensures
        first_with_index(accs, index) matches Some(p) ==> 0 <= p < accs.len() && accs[p].1 == index,
    decreases accs.len(),
{
    if accs.len() > 0 {
        lemma_first_in_range(accs.drop_last(), index);
    }
}

/// Assemble decoded stream events into the response's events.
pub fn assemble_stream(items: &Vec<StreamItem>) -> (r: Vec<AssistantEvent>)
    ensures
        assembled(r@, items@),
{
    let mut stops: Vec<String> = Vec::new();
    let mut accs: Vec<BlockAccumulator> = Vec::new();
    let mut input_tokens: u32 = 0;
    let mut output_tokens: u32 = 0;
    let mut i: usize = 0;
    while i < items.len()
        invariant
            i <= items.len(),
            stops@.map_values(|s: String| s@) == stream_scan(items@.take(i as int)).0,
            accs@.map_values(|a: BlockAccumulator| a@) == stream_scan(items@.take(i as int)).1,
            input_tokens == stream_scan(items@.take(i as int)).2,
            output_tokens == stream_scan(items@.take(i as int)).3,
        decreases items.len() - i,
    {
        assert(items@.take(i + 1).drop_last() == items@.take(i as int));
        let ghost av0 = accs@.map_values(|a: BlockAccumulator| a@);
        let ghost sv0 = stops@.map_values(|s: String| s@);
        match &items[i] {
            StreamItem::MessageStart { usage } => {
                if let Some(u) = usage {
                    input_tokens = input_tokens.wrapping_add(
                        match u.input_tokens {
                            Some(n) => n,
                            None => 0,
                        },
                    );
                    output_tokens = output_tokens.wrapping_add(
                        match u.output_tokens {
                            Some(n) => n,
                            None => 0,
                        },
                    );
                }
            },
            StreamItem::BlockStart { index, block_type, text, id, name } => {
                let bt = to_chars(block_type.as_str());
                if chars_eq_str(bt.as_slice(), "text") {
                    let acc = BlockAccumulator::Text { index: *index, text: opt_string(text) };
                    accs.push(acc);
                    assert(accs@.map_values(|a: BlockAccumulator| a@) =~= av0.push(
                        (true, *index, opt_text(*text), seq![], seq![]),
                    ));
                } else if chars_eq_str(bt.as_slice(), "tool_use") {
                    let acc = BlockAccumulator::ToolUse {
                        index: *index,
                        id: opt_string(id),
                        name: opt_string(name),
                        input_json: String::new(),
                    };
                    accs.push(acc);
                    assert(accs@.map_values(|a: BlockAccumulator| a@) =~= av0.push(
                        (false, *index, seq![], opt_text(*id), opt_text(*name)),
                    ));
                }
            },
            StreamItem::BlockDelta { index, delta_type, text, partial_json } => {
                let dt = to_chars(delta_type.as_str());
                proof {
                    lemma_first_in_range(av0, *index);
                }
                match find_index(&accs, *index) {
                    None => {},
                    Some(p) => {
                        let is_text_delta = chars_eq_str(dt.as_slice(), "text_delta");
                        let is_json_delta = chars_eq_str(dt.as_slice(), "input_json_delta");
                        let ghost old_accs = accs@;
                        let mut acc = accs.remove(p);
                        let ghost before = acc@;
                        assert(before == av0[p as int]);
                        match &mut acc {
                            BlockAccumulator::Text { text: t, .. } => {
                                if is_text_delta {
                                    if let Some(x) = text {
                                        t.append(x.as_str());
                                    }
                                }
                            },
                            BlockAccumulator::ToolUse { input_json, .. } => {
                                if is_json_delta {
                                    if let Some(x) = partial_json {
                                        input_json.append(x.as_str());
                                    }
                                }
                            },
                        }
                        let ghost after = acc@;
                        proof {
                            assert(first_with_index(av0, *index) == Some(p as int));
                            if delta_type@ == "text_delta"@ && before.0 && text is Some {
                                assert(after == (
                                    before.0,
                                    before.1,
                                    before.2 + opt_text(*text),
                                    before.3,
                                    before.4,
                                ));
                            } else if delta_type@ == "input_json_delta"@ && !before.0
                                && partial_json is Some {
                                assert(after == (
                                    before.0,
                                    before.1,
                                    before.2 + opt_text(*partial_json),
                                    before.3,
                                    before.4,
                                ));
                            } else {
                                assert(after == before);
                            }
                        }
                        accs.insert(p, acc);
                        assert(accs@ == old_accs.remove(p as int).insert(p as int, acc));
                        assert(accs@.map_values(|a: BlockAccumulator| a@) =~= av0.update(
                            p as int,
                            after,
                        ));
                        assert(accs@.map_values(|a: BlockAccumulator| a@) =~= apply_delta(
                            av0,
                            *index,
                            delta_type@,
                            *text,
                            *partial_json,
                        ));
                    },
                }
            },
            StreamItem::MessageDelta { stop_reason, usage } => {
                if let Some(r) = stop_reason {
                    stops.push(r.clone());
                    assert(stops@.map_values(|s: String| s@) =~= sv0.push(r@));
                }
                if let Some(u) = usage {
                    output_tokens = output_tokens.wrapping_add(
                        match u.output_tokens {
                            Some(n) => n,
                            None => 0,
                        },
                    );
                }
            },
            StreamItem::Skip => {},
        }
        i = i + 1;
    }
    assert(items@.take(items.len() as int) == items@);
    let ghost st = stream_scan(items@);
    let mut result: Vec<AssistantEvent> = Vec::new();
    let mut k: usize = 0;
    while k < stops.len()
        invariant
            k <= stops.len(),
            stops@.map_values(|s: String| s@) == st.0,
            result@.len() == k,
            forall|q: int|
                0 <= q < k ==> (#[trigger] result@[q] matches AssistantEvent::StopReason(s) && s@
                    == st.0[q]),
        decreases stops.len() - k,
    {
        result.push(AssistantEvent::StopReason(stops[k].clone()));
        assert(st.0[k as int] == stops@[k as int]@);
        k = k + 1;
    }
    let ghost av = accs@.map_values(|a: BlockAccumulator| a@);
    let ghost n0 = result@.len();
    let mut j: usize = 0;
    while j < accs.len()
        invariant
            j <= accs.len(),
            av == accs@.map_values(|a: BlockAccumulator| a@),
            av == st.1,
            n0 == st.0.len(),
            result@.len() == n0 + emitted(av.take(j as int)).len(),
            forall|q: int|
                0 <= q < n0 ==> (#[trigger] result@[q] matches AssistantEvent::StopReason(s) && s@
                    == st.0[q]),
            forall|q: int|
                0 <= q < emitted(av.take(j as int)).len() ==> block_matches(
                    #[trigger] result@[n0 + q],
                    emitted(av.take(j as int))[q],
                ),
        decreases accs.len() - j,
    {
        assert(av.take(j + 1).drop_last() == av.take(j as int));
        let ghost before = result@;
        match &accs[j] {
            BlockAccumulator::Text { text, .. } => {
                if !text.as_str().is_empty() {
                    result.push(
                        AssistantEvent::ContentBlock(ContentBlock::Text { text: text.clone() }),
                    );
                }
            },
            BlockAccumulator::ToolUse { id, name, input_json, .. } => {
                let input = tool_input_of(input_json.as_str());
                result.push(
                    AssistantEvent::ContentBlock(
                        ContentBlock::ToolUse { id: id.clone(), name: name.clone(), input },
                    ),
                );
            },
        }
        proof {
            assert forall|q: int| 0 <= q < n0 implies (#[trigger] result@[q] matches AssistantEvent::StopReason(s) && s@ == st.0[q]) by {
                assert(result@[q] == before[q]);
            }
            let e = emitted(av.take(j + 1));
            assert forall|q: int| 0 <= q < e.len() implies block_matches(
                #[trigger] result@[n0 + q],
                e[q],
            ) by {
                if q < emitted(av.take(j as int)).len() {
                    assert(result@[n0 + q] == before[n0 + q]);
                }
            }
        }
        j = j + 1;
    }
    assert(av.take(accs.len() as int) == av);
    result.push(AssistantEvent::Usage(TokenUsage { input_tokens, output_tokens }));
    proof {
        let blocks = emitted(st.1);
        let r = result@;
        assert forall|i: int| 0 <= i < st.0.len() implies (#[trigger] r[i] matches AssistantEvent::StopReason(s) && s@ == st.0[i]) by {
            assert(r[i] == result@.drop_last()[i]);
        }
        assert forall|q: int| 0 <= q < blocks.len() implies block_matches(#[trigger] r[st.0.len() + q], blocks[q]) by {
            assert(r[st.0.len() + q] == result@.drop_last()[n0 + q]);
        }
    }
    result
}

} // verus!
