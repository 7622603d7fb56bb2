//! `ConversationRuntime` — the agent loop: user input → model → tool calls → answer.
use vstd::prelude::*;
use crate::clock::{now_millis, now_rfc3339};
use crate::compaction::{build_compaction_summary, compaction_summary, KEEP_RECENT};
use crate::session::session_id_for;
use crate::toolbox::ToolBox;
use crate::text::{chars_eq_str, to_chars};
use crate::types::{
    clone_json, clone_messages, error_text, json_text, json_to_string, msgs_view, ApiClient, ApiRequest,
    AssistantEvent, ContentBlock, ConversationMessage, HookResult, HookRunner, MessageRole,
    MessageView, PermissionPolicy, RuntimeError, Session, SessionCompaction, TokenUsage,
    ToolEvent, ToolEventSink, ToolEventView, ToolExecutor, ToolSpec, TurnSummary, UsageTracker,
};

verus! {

broadcast use vstd::string::group_string_axioms;

pub open spec fn wadd(a: u32, b: u32) -> u32 {
    vstd::wrapping::u32_specs::wrapping_add(a, b)
}

// ─── What one model response says ───

/// The content blocks of a response, in order.
pub open spec fn blocks_of(evs: Seq<AssistantEvent>) -> Seq<ContentBlock>
    decreases evs.len(),
{
    if evs.len() == 0 {
        seq![]
    } else {
        match evs.last() {
            AssistantEvent::ContentBlock(b) => blocks_of(evs.drop_last()).push(b),
            _ => blocks_of(evs.drop_last()),
        }
    }
}

/// The usage reported by a response, summed over its usage events (wrapping).
pub open spec fn usage_of(evs: Seq<AssistantEvent>) -> (u32, u32)
    decreases evs.len(),
{
    if evs.len() == 0 {
        (0, 0)
    } else {
        let u = usage_of(evs.drop_last());
        match evs.last() {
            AssistantEvent::Usage(t) => (wadd(u.0, t.input_tokens), wadd(u.1, t.output_tokens)),
            _ => u,
        }
    }
}

/// The last stop reason of a response; empty when there is none.
pub open spec fn stop_of(evs: Seq<AssistantEvent>) -> Seq<char>
    decreases evs.len(),
{
    if evs.len() == 0 {
        seq![]
    } else {
        match evs.last() {
            AssistantEvent::StopReason(r) => r@,
            _ => stop_of(evs.drop_last()),
        }
    }
}

/// The ids of the tool calls among some blocks, in order.
pub open spec fn tool_use_ids(bs: Seq<ContentBlock>) -> Seq<Seq<char>>
    decreases bs.len(),
{
    if bs.len() == 0 {
        seq![]
    } else {
        match bs.last() {
            ContentBlock::ToolUse { id, .. } => tool_use_ids(bs.drop_last()).push(id@),
            _ => tool_use_ids(bs.drop_last()),
        }
    }
}

/// Whether every block is a tool result, the i-th answering the i-th id.
pub open spec fn answers(bs: Seq<ContentBlock>, ids: Seq<Seq<char>>) -> bool {
    &&& bs.len() == ids.len()
    &&& forall|i: int|
        0 <= i < bs.len() ==> (#[trigger] bs[i] matches ContentBlock::ToolResult {
            tool_use_id,
            ..
        } && tool_use_id@ == ids[i])
}

// ─── What a turn adds to the session ───

/// Text accumulated from one more text block: joined with a newline.
pub open spec fn append_text(acc: Seq<char>, t: Seq<char>) -> Seq<char> {
    if acc.len() == 0 {
        t
    } else {
        acc.push('\n') + t
    }
}

pub open spec fn text_of_blocks(acc: Seq<char>, bs: Seq<ContentBlock>) -> Seq<char>
    decreases bs.len(),
{
    if bs.len() == 0 {
        acc
    } else {
        let a = text_of_blocks(acc, bs.drop_last());
        match bs.last() {
            ContentBlock::Text { text } => append_text(a, text@),
            _ => a,
        }
    }
}

/// Text accumulated from blocks never loses what it held: the earlier text is
/// a prefix of the later.
pub proof fn law_text_keeps_earlier(acc: Seq<char>, bs: Seq<ContentBlock>)
    ensures
        acc.is_prefix_of(text_of_blocks(acc, bs)),
    decreases bs.len(),
{
    if bs.len() > 0 {
        law_text_keeps_earlier(acc, bs.drop_last());
        let a = text_of_blocks(acc, bs.drop_last());
        if let ContentBlock::Text { text } = bs.last() {
            if a.len() > 0 {
                assert((a.push('\n') + text@).subrange(0, a.len() as int) =~= a);
                assert(acc =~= (a.push('\n') + text@).subrange(0, acc.len() as int));
            } else {
                assert(acc.len() == 0);
                assert(acc =~= text@.subrange(0, 0));
            }
        }
    }
}

/// One more text block joins the text so far with a newline: `{text}\n{t}`,
/// or just `{t}` when there was no text yet; other blocks add nothing.
pub proof fn law_text_joins_with_newline(acc: Seq<char>, bs: Seq<ContentBlock>, b: ContentBlock)
    ensures
        ({
            let before = text_of_blocks(acc, bs);
            let after = text_of_blocks(acc, bs.push(b));
            match b {
                ContentBlock::Text { text } => if before.len() > 0 {
                    after == before + seq!['\n'] + text@
                } else {
                    after == text@
                },
                _ => after == before,
            }
        }),
{
    assert(bs.push(b).drop_last() =~= bs);
    let before = text_of_blocks(acc, bs);
    if let ContentBlock::Text { text } = b {
        if before.len() > 0 {
            assert(before.push('\n') + text@ =~= before + seq!['\n'] + text@);
        }
    }
}

/// The assistant's text over some messages: its text blocks joined by newlines.
pub open spec fn text_of_messages(ms: Seq<MessageView>) -> Seq<char>
    decreases ms.len(),
{
    if ms.len() == 0 {
        seq![]
    } else if ms.last().0 == MessageRole::Assistant {
        text_of_blocks(text_of_messages(ms.drop_last()), ms.last().1)
    } else {
        text_of_messages(ms.drop_last())
    }
}

/// The text of a turn only grows: the text of its first `k` messages is a
/// prefix of the text of all of them, so no earlier text is dropped.
pub proof fn law_turn_text_keeps_earlier(ms: Seq<MessageView>, k: int)
    requires
        0 <= k <= ms.len(),
    ensures
        text_of_messages(ms.take(k)).is_prefix_of(text_of_messages(ms)),
    decreases ms.len() - k,
{
    if k == ms.len() {
        assert(ms.take(k) =~= ms);
    } else {
        law_turn_text_keeps_earlier(ms, k + 1);
        let m = ms.take(k + 1);
        assert(m.drop_last() =~= ms.take(k));
        if m.last().0 == MessageRole::Assistant {
            law_text_keeps_earlier(text_of_messages(ms.take(k)), m.last().1);
        }
    }
}

/// Input tokens reported by some messages, added to `start` (wrapping).
pub open spec fn input_fold(start: u32, ms: Seq<MessageView>) -> u32
    decreases ms.len(),
{
    if ms.len() == 0 {
        start
    } else {
        match ms.last().2 {
            Some(u) => wadd(input_fold(start, ms.drop_last()), u.input_tokens),
            None => input_fold(start, ms.drop_last()),
        }
    }
}

/// Output tokens reported by some messages, added to `start` (wrapping).
pub open spec fn output_fold(start: u32, ms: Seq<MessageView>) -> u32
    decreases ms.len(),
{
    if ms.len() == 0 {
        start
    } else {
        match ms.last().2 {
            Some(u) => wadd(output_fold(start, ms.drop_last()), u.output_tokens),
            None => output_fold(start, ms.drop_last()),
        }
    }
}

/// Tool calls answered in some messages: the blocks of the user messages.
pub open spec fn calls_in(ms: Seq<MessageView>) -> nat
    decreases ms.len(),
{
    if ms.len() == 0 {
        0
    } else if ms.last().0 == MessageRole::User {
        calls_in(ms.drop_last()) + ms.last().1.len()
    } else {
        calls_in(ms.drop_last())
    }
}

/// The messages a turn adds after the prompt alternate: an assistant response
/// (with its usage, asking for tools) and a user message answering each of its
/// tool calls in order.
pub open spec fn turn_shape(added: Seq<MessageView>) -> bool {
    forall|j: int|
        0 <= j < added.len() ==> {
            &&& j % 2 == 0 ==> (#[trigger] added[j]).0 == MessageRole::Assistant && added[j].2 is Some
            &&& j % 2 == 1 ==> {
                &&& added[j].0 == MessageRole::User
                &&& added[j].2 is None
                &&& answers(added[j].1, tool_use_ids(added[j - 1].1))
            }
        }
}

/// The user message that opens a turn.
pub open spec fn is_prompt(m: MessageView, input: Seq<char>) -> bool {
    &&& m.0 == MessageRole::User
    &&& m.2 is None
    &&& m.1.len() == 1
    &&& m.1[0] matches ContentBlock::Text { text } && text@ == input
}

/// The messages after compaction: the last four of `all` when the input tokens
/// reach the threshold and there are more than four; otherwise all of them.
pub open spec fn after_compaction(all: Seq<MessageView>, total: u32, threshold: u32) -> Seq<
    MessageView,
> {
    if total >= threshold && all.len() > KEEP_RECENT {
        all.skip(all.len() - KEEP_RECENT)
    } else {
        all
    }
}

/// A count kept in a `usize`, saturating at `usize::MAX`.
pub open spec fn satu(n: nat) -> usize {
    if n > usize::MAX {
        usize::MAX
    } else {
        n as usize
    }
}

/// What a successful turn reports of the messages it added.
pub open spec fn turn_report(added: Seq<MessageView>, max_iterations: usize, s: TurnSummary) -> bool {
    &&& turn_shape(added)
    &&& added.len() <= 2 * max_iterations
    &&& s.assistant_text@ == text_of_messages(added)
    &&& s.input_tokens == input_fold(0, added)
    &&& s.output_tokens == output_fold(0, added)
    &&& s.tool_calls_made == satu(calls_in(added))
}

/// The compaction record after a turn over `all`.
pub open spec fn compaction_after(
    all: Seq<MessageView>,
    total: u32,
    threshold: u32,
    before: Option<SessionCompaction>,
    after: Option<SessionCompaction>,
) -> bool {
    if total >= threshold && all.len() > KEEP_RECENT {
        after matches Some(c) && c.original_message_count == all.len() && c.summary@
            == compaction_summary(all.take(all.len() - KEEP_RECENT), all.len())
    } else {
        after == before
    }
}

// ─── What the model client and the tool executor answered ───

/// `r` is an answer that the model client gives to `req`: the result of a
/// call of its `stream`.
#[verifier::opaque]
pub open spec fn streamed<C: ApiClient>(
    req: ApiRequest,
    r: Result<Vec<AssistantEvent>, RuntimeError>,
) -> bool {
    exists|m: &mut C| #[trigger] call_ensures(C::stream, (m, req), r)
}

/// `r` is an answer that the tool executor gives when it runs the tool `name`
/// on the input text `input`: the result of a call of its `execute`.
#[verifier::opaque]
pub open spec fn executed<T: ToolExecutor>(
    name: Seq<char>,
    input: Seq<char>,
    r: Result<String, RuntimeError>,
) -> bool {
    exists|m: &mut T, n: &str, i: &str|
        n@ == name && i@ == input && #[trigger] call_ensures(T::execute, (m, n, i), r)
}

/// `tools` is a list that the tool executor gives when asked for its tools.
#[verifier::opaque]
pub open spec fn offered<T: ToolExecutor>(tools: Vec<ToolSpec>) -> bool {
    exists|t: T| #[trigger] call_ensures(T::tool_specs, (&t,), tools)
}

/// The tool calls among some blocks, in order: id, tool name, and the
/// compact JSON text of the input.
pub open spec fn tool_calls(bs: Seq<ContentBlock>) -> Seq<(Seq<char>, Seq<char>, Seq<char>)>
    decreases bs.len(),
{
    if bs.len() == 0 {
        seq![]
    } else {
        match bs.last() {
            ContentBlock::ToolUse { id, name, input } => tool_calls(bs.drop_last()).push(
                (id@, name@, json_text(input)),
            ),
            _ => tool_calls(bs.drop_last()),
        }
    }
}

/// The assistant message that a response becomes: its blocks, with its usage.
pub open spec fn assistant_view(evs: Seq<AssistantEvent>) -> MessageView {
    (
        MessageRole::Assistant,
        blocks_of(evs),
        Some(TokenUsage { input_tokens: usage_of(evs).0, output_tokens: usage_of(evs).1 }),
    )
}

/// A response asks for tools: it holds tool calls and stops with `tool_use`.
pub open spec fn asks_tools(evs: Seq<AssistantEvent>) -> bool {
    tool_calls(blocks_of(evs)).len() > 0 && stop_of(evs) == "tool_use"@
}

/// The result block answering the tool call `id` whose run gave `o`: the
/// output unchanged, or `Error: {message}` marked as an error.
pub open spec fn result_for(b: ContentBlock, id: Seq<char>, o: Result<String, RuntimeError>) -> bool {
    match b {
        ContentBlock::ToolResult { tool_use_id, output, is_error } => tool_use_id@ == id && match o {
            Ok(out) => output@ == out@ && !is_error,
            Err(e) => is_error && match error_text(e) {
                Some(t) => output@ == "Error: "@ + t,
                None => "Error: "@.is_prefix_of(output@),
            },
        },
        _ => false,
    }
}

/// The user message that answers `calls`: the k-th block is the result of
/// running the k-th call, whose run gave `outcomes[k]`.
pub open spec fn tool_message<T: ToolExecutor>(
    m: MessageView,
    calls: Seq<(Seq<char>, Seq<char>, Seq<char>)>,
    outcomes: Seq<Result<String, RuntimeError>>,
) -> bool {
    &&& m.0 == MessageRole::User
    &&& m.2 is None
    &&& m.1.len() == calls.len()
    &&& outcomes.len() == calls.len()
    &&& forall|k: int|
        0 <= k < calls.len() ==> executed::<T>(calls[k].1, calls[k].2, #[trigger] outcomes[k])
    &&& forall|k: int| 0 <= k < calls.len() ==> result_for(#[trigger] m.1[k], calls[k].0, outcomes[k])
}

/// The runs of some tool calls: tool name and input text, in order.
pub open spec fn runs_of(calls: Seq<(Seq<char>, Seq<char>, Seq<char>)>) -> Seq<(Seq<char>, Seq<char>)> {
    calls.map_values(|c: (Seq<char>, Seq<char>, Seq<char>)| (c.1, c.2))
}

/// One round of a turn: the request sent, the client's answer, and what
/// each tool run gave.
pub type TurnRound = (ApiRequest, Result<Vec<AssistantEvent>, RuntimeError>, Seq<Result<String, RuntimeError>>);

/// The request of a round: the session's messages at that point, with the
/// runtime's model and system prompt, the executor's tools and 4096 tokens.
pub open spec fn round_request<T: ToolExecutor>(
    req: ApiRequest,
    model: Seq<char>,
    system: Seq<char>,
    msgs: Seq<MessageView>,
) -> bool {
    &&& req.model@ == model
    &&& req.system@ == system
    &&& msgs_view(req.messages@) == msgs
    &&& req.max_tokens == 4096
    &&& offered::<T>(req.tools)
}

/// Round `i` asked for tools: its response is the `2i`-th added message and
/// the answers to its tool calls the next one.
pub open spec fn answered_round<T: ToolExecutor>(
    round: TurnRound,
    added: Seq<MessageView>,
    i: int,
) -> bool {
    &&& round.1 matches Ok(evs)
    &&& asks_tools(evs@)
    &&& added[2 * i] == assistant_view(evs@)
    &&& tool_message::<T>(added[2 * i + 1], tool_calls(blocks_of(evs@)), round.2)
}

/// The tools a round ran: those its response asked for, in order; none when
/// the client failed or the response asked for no tools.
pub open spec fn round_runs(round: TurnRound) -> Seq<(Seq<char>, Seq<char>)> {
    match round.1 {
        Ok(evs) => if asks_tools(evs@) {
            runs_of(tool_calls(blocks_of(evs@)))
        } else {
            seq![]
        },
        Err(_) => seq![],
    }
}

/// The tools the rounds of a turn ran, round after round.
pub open spec fn turn_runs(rounds: Seq<TurnRound>) -> Seq<(Seq<char>, Seq<char>)>
    decreases rounds.len(),
{
    if rounds.len() == 0 {
        seq![]
    } else {
        turn_runs(rounds.drop_last()) + round_runs(rounds.last())
    }
}

/// The events of running the first `n` of some tool calls, whose runs gave
/// `outcomes`: for each, its start and then its finish, successful where its
/// run gave `Ok`.
pub open spec fn run_events(
    calls: Seq<(Seq<char>, Seq<char>, Seq<char>)>,
    outcomes: Seq<Result<String, RuntimeError>>,
    n: nat,
) -> Seq<ToolEventView>
    decreases n,
{
    if n == 0 {
        seq![]
    } else {
        run_events(calls, outcomes, (n - 1) as nat) + seq![
            (true, calls[n - 1].1, false),
            (false, calls[n - 1].1, outcomes[n - 1] is Ok),
        ]
    }
}

/// The tool events of a round: those of the tools its response asked for.
pub open spec fn round_events(round: TurnRound) -> Seq<ToolEventView> {
    match round.1 {
        Ok(evs) => if asks_tools(evs@) {
            let calls = tool_calls(blocks_of(evs@));
            run_events(calls, round.2, calls.len())
        } else {
            seq![]
        },
        Err(_) => seq![],
    }
}

/// The tool events of the rounds of a turn, round after round.
pub open spec fn turn_events(rounds: Seq<TurnRound>) -> Seq<ToolEventView>
    decreases rounds.len(),
{
    if rounds.len() == 0 {
        seq![]
    } else {
        turn_events(rounds.drop_last()) + round_events(rounds.last())
    }
}

proof fn lemma_run_events_prefix(
    calls: Seq<(Seq<char>, Seq<char>, Seq<char>)>,
    o1: Seq<Result<String, RuntimeError>>,
    o2: Seq<Result<String, RuntimeError>>,
    n: nat,
)
    requires
        n <= o1.len(),
        n <= o2.len(),
        forall|i: int| 0 <= i < n ==> o1[i] == o2[i],
    ensures
        run_events(calls, o1, n) == run_events(calls, o2, n),
    decreases n,
{
    if n > 0 {
        lemma_run_events_prefix(calls, o1, o2, (n - 1) as nat);
    }
}

/// The rounds of a turn over the messages `base` (which end with the prompt),
/// and the messages `added` after them.  Each round sends the session as it
/// then stands and gets the client's answer; every round but the last asked
/// for tools and was answered.  The turn stops at the first failed call of
/// the client (`failed`), at the first response that asks for no tools, or
/// after `max_it` rounds.
pub open spec fn turn_rounds<C: ApiClient, T: ToolExecutor>(
    base: Seq<MessageView>,
    model: Seq<char>,
    system: Seq<char>,
    max_it: usize,
    rounds: Seq<TurnRound>,
    added: Seq<MessageView>,
    failed: Option<RuntimeError>,
) -> bool {
    let n = rounds.len();
    &&& n <= max_it
    &&& forall|i: int|
        0 <= i < n ==> round_request::<T>(
            (#[trigger] rounds[i]).0,
            model,
            system,
            base + added.take(2 * i),
        ) && streamed::<C>(rounds[i].0, rounds[i].1)
    &&& forall|i: int| 0 <= i < n - 1 ==> answered_round::<T>(#[trigger] rounds[i], added, i)
    &&& match failed {
        Some(e) => {
            &&& n > 0
            &&& rounds[n - 1].1 == Err::<Vec<AssistantEvent>, RuntimeError>(e)
            &&& added.len() == 2 * (n - 1)
        },
        None => if n == 0 {
            max_it == 0 && added.len() == 0
        } else {
            ||| {
                &&& rounds[n - 1].1 matches Ok(evs)
                &&& !asks_tools(evs@)
                &&& added.len() == 2 * n - 1
                &&& added[2 * n - 2] == assistant_view(evs@)
            }
            ||| {
                &&& n == max_it
                &&& added.len() == 2 * n
                &&& answered_round::<T>(rounds[n - 1], added, n - 1)
            }
        },
    }
}

/// What a failed turn did: the client's error ended round `n`; the prompt and
/// the messages of the earlier rounds stay, their usage is counted, and no
/// compaction ran.
pub open spec fn turn_failed<C: ApiClient, T: ToolExecutor>(
    before: ConversationRuntime<C, T>,
    after: ConversationRuntime<C, T>,
    input: Seq<char>,
    e: RuntimeError,
    events_before: Seq<ToolEventView>,
    events_after: Seq<ToolEventView>,
) -> bool {
    exists|prompt: MessageView, added: Seq<MessageView>, rounds: Seq<TurnRound>|
        #![trigger turn_rounds::<C, T>(msgs_view(before.spec_session().messages@).push(prompt), before.spec_model(), before.spec_system_prompt(), before.spec_max_iterations(), rounds, added, Some(e))]
        {
            let base = msgs_view(before.spec_session().messages@).push(prompt);
            &&& is_prompt(prompt, input)
            &&& turn_rounds::<C, T>(
                base,
                before.spec_model(),
                before.spec_system_prompt(),
                before.spec_max_iterations(),
                rounds,
                added,
                Some(e),
            )
            &&& turn_shape(added)
            &&& msgs_view(after.spec_session().messages@) == base + added
            &&& after.spec_total_input() == input_fold(before.spec_total_input(), added)
            &&& after.spec_total_output() == output_fold(before.spec_total_output(), added)
            &&& after.spec_tool_calls() == before.spec_tool_calls() + turn_runs(rounds)
            &&& events_after == events_before + turn_events(rounds)
            &&& after.spec_session().compaction == before.spec_session().compaction
        }
}

/// What a successful turn did: it appended the prompt and the messages it
/// reports, added their usage to the totals, and compacted when due.
pub open spec fn turn_ok<C: ApiClient, T: ToolExecutor>(
    before: ConversationRuntime<C, T>,
    after: ConversationRuntime<C, T>,
    input: Seq<char>,
    s: TurnSummary,
    events_before: Seq<ToolEventView>,
    events_after: Seq<ToolEventView>,
) -> bool {
    exists|prompt: MessageView, added: Seq<MessageView>, rounds: Seq<TurnRound>|
        #![trigger turn_rounds::<C, T>(msgs_view(before.spec_session().messages@).push(prompt), before.spec_model(), before.spec_system_prompt(), before.spec_max_iterations(), rounds, added, None)]
        {
            let all = msgs_view(before.spec_session().messages@).push(prompt) + added;
            &&& is_prompt(prompt, input)
            &&& turn_rounds::<C, T>(
                msgs_view(before.spec_session().messages@).push(prompt),
                before.spec_model(),
                before.spec_system_prompt(),
                before.spec_max_iterations(),
                rounds,
                added,
                None,
            )
            &&& turn_report(added, before.spec_max_iterations(), s)
            &&& after.spec_total_input() == input_fold(before.spec_total_input(), added)
            &&& after.spec_total_output() == output_fold(before.spec_total_output(), added)
            &&& after.spec_tool_calls() == before.spec_tool_calls() + turn_runs(rounds)
            &&& events_after == events_before + turn_events(rounds)
            &&& msgs_view(after.spec_session().messages@) == after_compaction(
                all,
                after.spec_total_input(),
                before.spec_threshold(),
            )
            &&& compaction_after(
                all,
                after.spec_total_input(),
                before.spec_threshold(),
                before.spec_session().compaction,
                after.spec_session().compaction,
            )
        }
}

// ─── Executable pieces ───

/// Splits a response into its blocks, summed usage and last stop reason.
pub fn digest_events(events: &Vec<AssistantEvent>) -> (r: (Vec<ContentBlock>, TokenUsage, String))
    ensures
        r.0@ == blocks_of(events@),
        (r.1.input_tokens, r.1.output_tokens) == usage_of(events@),
        r.2@ == stop_of(events@),
{
    let mut blocks: Vec<ContentBlock> = Vec::new();
    let mut usage = TokenUsage { input_tokens: 0, output_tokens: 0 };
    let mut stop = String::new();
    let mut i: usize = 0;
    while i < events.len()
        invariant
            i <= events.len(),
            blocks@ == blocks_of(events@.take(i as int)),
            (usage.input_tokens, usage.output_tokens) == usage_of(events@.take(i as int)),
            stop@ == stop_of(events@.take(i as int)),
        decreases events.len() - i,
    {
        assert(events@.take(i + 1).drop_last() == events@.take(i as int));
        match &events[i] {
            AssistantEvent::ContentBlock(b) => {
                blocks.push(b.clone());
            },
            AssistantEvent::Usage(u) => {
                usage.input_tokens = usage.input_tokens.wrapping_add(u.input_tokens);
                usage.output_tokens = usage.output_tokens.wrapping_add(u.output_tokens);
            },
            AssistantEvent::StopReason(s) => {
                stop = s.clone();
            },
        }
        i = i + 1;
    }
    assert(events@.take(events.len() as int) == events@);
    (blocks, usage, stop)
}

/// Appends the text blocks of a response to the turn's text, newline-separated.
pub fn append_block_texts(acc: &mut String, blocks: &Vec<ContentBlock>)
    ensures
        final(acc)@ == text_of_blocks(old(acc)@, blocks@),
        old(acc)@.is_prefix_of(final(acc)@),
{
    let ghost start = acc@;
    let mut i: usize = 0;
    while i < blocks.len()
        invariant
            i <= blocks.len(),
            start == old(acc)@,
            acc@ == text_of_blocks(start, blocks@.take(i as int)),
        decreases blocks.len() - i,
    {
        assert(blocks@.take(i + 1).drop_last() == blocks@.take(i as int));
        if let ContentBlock::Text { text } = &blocks[i] {
            if !acc.as_str().is_empty() {
                crate::text::push_char(acc, '\n');
            }
            acc.append(text.as_str());
        }
        i = i + 1;
    }
    assert(blocks@.take(blocks.len() as int) == blocks@);
    proof {
        law_text_keeps_earlier(start, blocks@);
    }
}

/// The tool calls among some blocks: (id, name, input) in order.
pub fn tool_uses_of(blocks: &Vec<ContentBlock>) -> (r: Vec<(String, String, serde_json::Value)>)
    ensures
        r@.len() == tool_use_ids(blocks@).len(),
        r@.len() == tool_calls(blocks@).len(),
        forall|k: int|
            0 <= k < r@.len() ==> {
                &&& (#[trigger] r@[k]).0@ == tool_use_ids(blocks@)[k]
                &&& r@[k].0@ == tool_calls(blocks@)[k].0
                &&& r@[k].1@ == tool_calls(blocks@)[k].1
                &&& json_text(r@[k].2) == tool_calls(blocks@)[k].2
            },
{
    let mut out: Vec<(String, String, serde_json::Value)> = Vec::new();
    let mut i: usize = 0;
    while i < blocks.len()
        invariant
            i <= blocks.len(),
            out@.len() == tool_use_ids(blocks@.take(i as int)).len(),
            out@.len() == tool_calls(blocks@.take(i as int)).len(),
            forall|k: int|
                0 <= k < out@.len() ==> {
                    &&& (#[trigger] out@[k]).0@ == tool_use_ids(blocks@.take(i as int))[k]
                    &&& out@[k].0@ == tool_calls(blocks@.take(i as int))[k].0
                    &&& out@[k].1@ == tool_calls(blocks@.take(i as int))[k].1
                    &&& json_text(out@[k].2) == tool_calls(blocks@.take(i as int))[k].2
                },
        decreases blocks.len() - i,
    {
        assert(blocks@.take(i + 1).drop_last() == blocks@.take(i as int));
        if let ContentBlock::ToolUse { id, name, input } = &blocks[i] {
            out.push((id.clone(), name.clone(), clone_json(input)));
        }
        i = i + 1;
    }
    assert(blocks@.take(blocks.len() as int) == blocks@);
    out
}

/// The assistant message that a response becomes, and its last stop reason.
pub fn response_message(events: &Vec<AssistantEvent>) -> (r: (ConversationMessage, String))
    ensures
        r.0@ == assistant_view(events@),
        r.1@ == stop_of(events@),
{
    let (content, usage, stop) = digest_events(events);
    (ConversationMessage { role: MessageRole::Assistant, content, usage: Some(usage) }, stop)
}

/// The block that answers the tool call `id` from what running the tool gave:
/// `Ok(output)` becomes the output, `Err(e)` the text `Error: {e}` marked as
/// an error.
pub fn tool_result_block(id: &String, outcome: Result<String, RuntimeError>) -> (r: ContentBlock)
    ensures
        result_for(r, id@, outcome),
{
    match outcome {
        Ok(output) => ContentBlock::ToolResult { tool_use_id: id.clone(), output, is_error: false },
        Err(e) => {
            let msg = e.message();
            ContentBlock::ToolResult {
                tool_use_id: id.clone(),
                output: concat_str("Error: ", msg.as_str()),
                is_error: true,
            }
        },
    }
}

/// Why a tool call was not let through.
#[derive(Debug)]
pub enum ToolRefusal {
    /// The hook run before the tool denied it, with this reason.
    PreHook(String),
    /// The permission policy does not allow the tool.
    Permission,
    /// The hook run after the tool rejected its result, with this reason.
    PostHook(String),
}

/// The error text of a refused call of the tool `name`.
pub open spec fn refusal_text(name: Seq<char>, refusal: ToolRefusal) -> Seq<char> {
    match refusal {
        ToolRefusal::PreHook(reason) => "Tool denied by hook: "@ + reason@,
        ToolRefusal::Permission => "Permission denied for tool: "@ + name,
        ToolRefusal::PostHook(reason) => "Tool result rejected by hook: "@ + reason@,
    }
}

/// The block that answers the tool call `id` of the tool `name` when it was
/// refused: the refusal's text, marked as an error.
pub fn refusal_block(id: &String, name: &str, refusal: ToolRefusal) -> (r: ContentBlock)
    ensures
        r matches ContentBlock::ToolResult { tool_use_id, output, is_error } && tool_use_id@
            == id@ && is_error && output@ == refusal_text(name@, refusal),
{
    let output = match refusal {
        ToolRefusal::PreHook(reason) => concat_str("Tool denied by hook: ", reason.as_str()),
        ToolRefusal::Permission => concat_str("Permission denied for tool: ", name),
        ToolRefusal::PostHook(reason) => concat_str("Tool result rejected by hook: ", reason.as_str()),
    };
    ContentBlock::ToolResult { tool_use_id: id.clone(), output, is_error: true }
}

/// Hands the sink the finish of the tool `name`, whose answer is `block`:
/// successful unless the block is an error, with the size of its output and
/// the milliseconds since `started`.
fn finish_event<F: Fn(&ToolEvent)>(
    events: &mut ToolEventSink<F>,
    name: &String,
    block: &ContentBlock,
    started: i64,
)
    requires
        forall|e: &ToolEvent| call_requires(old(events).callback(), (e,)),
    ensures
        final(events).callback() == old(events).callback(),
        final(events).events() == old(events).events().push(
            (
                false,
                name@,
                match *block {
                    ContentBlock::ToolResult { is_error, .. } => !is_error,
                    _ => true,
                },
            ),
        ),
{
    let (ok, output_chars) = match block {
        ContentBlock::ToolResult { output, is_error, .. } => (!*is_error, to_chars(output.as_str()).len()),
        _ => (true, 0),
    };
    let now = now_millis();
    let elapsed = now.wrapping_sub(started);
    let elapsed_ms: u64 = if elapsed < 0 {
        0
    } else {
        elapsed as u64
    };
    events.emit(&ToolEvent::Finish { name: name.clone(), ok, output_chars, elapsed_ms });
}

/// `text == "tool_use"`.
pub fn is_tool_use_stop(stop: &String) -> (r: bool)
    ensures
        r == (stop@ == "tool_use"@),
{
    let v = to_chars(stop.as_str());
    chars_eq_str(v.as_slice(), "tool_use")
}

fn concat_str(a: &str, b: &str) -> (r: String)
    ensures
        r@ == a@ + b@,
{
    let mut s = String::from_str(a);
    s.append(b);
    s
}

/// The `ConversationRuntime` — the core agent loop, generic over the model client
/// and the tool executor.
pub struct ConversationRuntime<C, T> {
    pub session: Session,
    api_client: C,
    tool_executor: ToolBox<T>,
    permission_policy: PermissionPolicy,
    system_prompt: String,
    max_iterations: usize,
    usage_tracker: UsageTracker,
    hook_runner: HookRunner,
    auto_compaction_threshold: u32,
    model: String,
}

impl<C, T> ConversationRuntime<C, T> {
    /// The session (the public `session` field).
    pub closed spec fn spec_session(self) -> Session {
        self.session
    }

    pub closed spec fn spec_max_iterations(self) -> usize {
        self.max_iterations
    }

    pub closed spec fn spec_threshold(self) -> u32 {
        self.auto_compaction_threshold
    }

    pub closed spec fn spec_total_input(self) -> u32 {
        self.usage_tracker.total_input_tokens
    }

    pub closed spec fn spec_total_output(self) -> u32 {
        self.usage_tracker.total_output_tokens
    }

    pub closed spec fn spec_model(self) -> Seq<char> {
        self.model@
    }

    /// The tool calls the runtime has made: tool name and input text, in order.
    pub closed spec fn spec_tool_calls(self) -> Seq<(Seq<char>, Seq<char>)> {
        self.tool_executor.calls()
    }

    pub closed spec fn spec_system_prompt(self) -> Seq<char> {
        self.system_prompt@
    }
}

impl<C: ApiClient, T: ToolExecutor> ConversationRuntime<C, T> {
    /// `r` is a list of tool specifications that the runtime's executor
    /// can answer when asked for its tools.
    pub closed spec fn offers_tools(self, r: Vec<ToolSpec>) -> bool {
        call_ensures(T::tool_specs, (&self.tool_executor.executor(),), r)
    }

    pub fn new(
        api_client: C,
        tool_executor: T,
        model: String,
        system_prompt: String,
        max_iterations: usize,
    ) -> (r: Self)
        ensures
            r.spec_session().messages@.len() == 0,
            r.spec_session().model matches Some(m) && m@ == model@,
            r.spec_session().compaction is None,
            r.spec_max_iterations() == max_iterations,
            r.spec_threshold() == 100_000,
            r.spec_total_input() == 0,
            r.spec_total_output() == 0,
            r.spec_model() == model@,
            r.spec_system_prompt() == system_prompt@,
            r.spec_tool_calls() == Seq::<(Seq<char>, Seq<char>)>::empty(),
    {
        ConversationRuntime {
            session: Session::new(Some(model.clone())),
            api_client,
            tool_executor: ToolBox::new(tool_executor),
            permission_policy: PermissionPolicy::new_allow_all(),
            system_prompt,
            max_iterations,
            usage_tracker: UsageTracker::new(),
            hook_runner: HookRunner::new(),
            auto_compaction_threshold: 100_000,
            model,
        }
    }

    /// The model that requests are sent to.
    pub fn model(&self) -> (r: &String)
        ensures
            r@ == self.spec_model(),
    {
        &self.model
    }

    /// Switches the model for later requests.
    pub fn set_model(&mut self, model: String)
        ensures
            final(self).spec_model() == model@,
            final(self).spec_session() == old(self).spec_session(),
            final(self).spec_total_input() == old(self).spec_total_input(),
            final(self).spec_total_output() == old(self).spec_total_output(),
    {
        self.model = model;
    }

    /// The usage accumulated over all turns.
    pub fn usage(&self) -> (r: &UsageTracker)
        ensures
            r.total_input_tokens == self.spec_total_input(),
            r.total_output_tokens == self.spec_total_output(),
    {
        &self.usage_tracker
    }

    /// The tools the executor offers.
    pub fn tools(&self) -> (r: Vec<ToolSpec>)
        ensures
            self.offers_tools(r),
    {
        self.tool_executor.tool_specs()
    }

    /// Starts a new, empty session for the same model.
    pub fn reset_session(&mut self)
        ensures
            final(self).spec_session().messages@.len() == 0,
            final(self).spec_session().compaction is None,
            final(self).spec_session().prompt_history@.len() == 0,
            final(self).spec_session().model matches Some(m) && m@ == old(self).spec_model(),
            exists|millis: i64| final(self).spec_session().session_id@ == session_id_for(millis),
            final(self).spec_session().workspace_root == old(self).spec_session().workspace_root,
            final(self).spec_model() == old(self).spec_model(),
            final(self).spec_system_prompt() == old(self).spec_system_prompt(),
            final(self).spec_max_iterations() == old(self).spec_max_iterations(),
            final(self).spec_threshold() == old(self).spec_threshold(),
            final(self).spec_total_input() == old(self).spec_total_input(),
            final(self).spec_total_output() == old(self).spec_total_output(),
    {
        let root = match &self.session.workspace_root {
            Some(p) => Some(crate::types::clone_path(p)),
            None => None,
        };
        let mut fresh = Session::new(Some(self.model.clone()));
        fresh.workspace_root = root;
        self.session = fresh;
    }

    /// Keeps the last four messages and records a summary of the rest.
    fn compact_session(&mut self)
        ensures
            ({
                let all = msgs_view(old(self).session.messages@);
                &&& all.len() <= KEEP_RECENT ==> final(self).session == old(self).session
                &&& all.len() > KEEP_RECENT ==> {
                    &&& msgs_view(final(self).session.messages@) == all.skip(
                        all.len() - KEEP_RECENT,
                    )
                    &&& final(self).session.compaction matches Some(c) && c.original_message_count
                        == all.len() && c.summary@ == compaction_summary(
                        all.take(all.len() - KEEP_RECENT),
                        all.len(),
                    )
                }
            }),
            final(self).session.session_id == old(self).session.session_id,
            final(self).session.prompt_history == old(self).session.prompt_history,
            final(self).session.workspace_root == old(self).session.workspace_root,
            final(self).session.model == old(self).session.model,
            final(self).max_iterations == old(self).max_iterations,
            final(self).auto_compaction_threshold == old(self).auto_compaction_threshold,
            final(self).usage_tracker == old(self).usage_tracker,
            final(self).model == old(self).model,
            final(self).system_prompt == old(self).system_prompt,
            final(self).tool_executor == old(self).tool_executor,
    {
        let msg_count = self.session.messages.len();
        if msg_count <= KEEP_RECENT {
            return;
        }
        let ghost all = msgs_view(self.session.messages@);
        let recent = self.session.messages.split_off(msg_count - KEEP_RECENT);
        assert(msgs_view(self.session.messages@) =~= all.take(all.len() - KEEP_RECENT));
        assert(msgs_view(recent@) =~= all.skip(all.len() - KEEP_RECENT));
        let summary = build_compaction_summary(self.session.messages.as_slice(), msg_count);
        self.session.compaction = Some(
            SessionCompaction {
                summary,
                original_message_count: msg_count,
                compacted_at: now_rfc3339(),
            },
        );
        self.session.messages = recent;
    }

    /// Run a single turn with no one watching the tools: as `run_turn_observed`,
    /// with the tool events dropped.
    pub fn run_turn(&mut self, user_input: &str) -> (r: Result<TurnSummary, RuntimeError>)
        ensures
            final(self).spec_session().prompt_history@.len() == old(
                self,
            ).spec_session().prompt_history@.len() + 1,
            final(self).spec_session().prompt_history@.take(
                old(self).spec_session().prompt_history@.len() as int,
            ) == old(self).spec_session().prompt_history@,
            final(self).spec_session().prompt_history@.last().text@ == user_input@,
            final(self).spec_session().session_id == old(self).spec_session().session_id,
            final(self).spec_session().workspace_root == old(self).spec_session().workspace_root,
            final(self).spec_session().model == old(self).spec_session().model,
            final(self).spec_max_iterations() == old(self).spec_max_iterations(),
            final(self).spec_threshold() == old(self).spec_threshold(),
            final(self).spec_model() == old(self).spec_model(),
            final(self).spec_system_prompt() == old(self).spec_system_prompt(),
            match r {
                Ok(s) => exists|eb: Seq<ToolEventView>, ea: Seq<ToolEventView>|
                    turn_ok(*old(self), *final(self), user_input@, s, eb, ea),
                Err(e) => exists|eb: Seq<ToolEventView>, ea: Seq<ToolEventView>|
                    turn_failed(*old(self), *final(self), user_input@, e, eb, ea),
            },
    {
        let mut quiet = ToolEventSink::new(|_e: &ToolEvent| {});
        let ghost eb = quiet.events();
        let r = self.run_turn_observed(user_input, &mut quiet);
        let ghost ea = quiet.events();
        proof {
            if r is Ok {
                assert(turn_ok(*old(self), *self, user_input@, r->Ok_0, eb, ea));
            } else {
                assert(turn_failed(*old(self), *self, user_input@, r->Err_0, eb, ea));
            }
        }
        r
    }

    /// Run a single turn: user input → model → (tool loop) → assistant text.
    ///
    /// The prompt is recorded and appended as a user message.  Each iteration, up
    /// to the iteration limit, sends the session as it stands (with the model,
    /// the system prompt, the executor's tools and 4096 tokens) to the client and
    /// appends its response; when the response asks for tools (it holds tool
    /// calls and stops with `tool_use`), every call is run with the compact JSON
    /// of its input and a user message answering each call in order is appended
    /// (a failing tool answers `Error: …`), and the loop goes on; otherwise it
    /// stops.  A failed call of the client ends the turn with its error, the
    /// earlier rounds kept.  After a successful turn, once the input tokens of
    /// all turns reach the threshold, the session is compacted to its last four
    /// messages.  Each tool runs once, in order, through the executor; `events`
    /// sees each tool start and then finish (successful unless it failed).
    pub fn run_turn_observed<F: Fn(&ToolEvent)>(
        &mut self,
        user_input: &str,
        events: &mut ToolEventSink<F>,
    ) -> (r: Result<TurnSummary, RuntimeError>)
        requires
            forall|e: &ToolEvent| call_requires(old(events).callback(), (e,)),
        ensures
            final(events).callback() == old(events).callback(),
            final(self).spec_session().prompt_history@.len() == old(
                self,
            ).spec_session().prompt_history@.len() + 1,
            final(self).spec_session().prompt_history@.take(
                old(self).spec_session().prompt_history@.len() as int,
            ) == old(self).spec_session().prompt_history@,
            final(self).spec_session().prompt_history@.last().text@ == user_input@,
            final(self).spec_session().session_id == old(self).spec_session().session_id,
            final(self).spec_session().workspace_root == old(self).spec_session().workspace_root,
            final(self).spec_session().model == old(self).spec_session().model,
            final(self).spec_max_iterations() == old(self).spec_max_iterations(),
            final(self).spec_threshold() == old(self).spec_threshold(),
            final(self).spec_model() == old(self).spec_model(),
            final(self).spec_system_prompt() == old(self).spec_system_prompt(),
            match r {
                Ok(s) => turn_ok(
                    *old(self),
                    *final(self),
                    user_input@,
                    s,
                    old(events).events(),
                    final(events).events(),
                ),
                Err(e) => turn_failed(
                    *old(self),
                    *final(self),
                    user_input@,
                    e,
                    old(events).events(),
                    final(events).events(),
                ),
            },
    {
        self.session.push_user_prompt(user_input);
        let ghost ph = self.session.prompt_history;
        let user_msg = ConversationMessage {
            role: MessageRole::User,
            content: vec![ContentBlock::Text { text: String::from_str(user_input) }],
            usage: None,
        };
        let ghost prompt = user_msg@;
        self.session.push_message(user_msg);
        let ghost base = msgs_view(self.session.messages@);
        assert(base =~= msgs_view(old(self).session.messages@).push(prompt));
        let ghost start_in = self.usage_tracker.total_input_tokens;
        let ghost start_out = self.usage_tracker.total_output_tokens;
        let ghost model = old(self).model@;
        let ghost system = old(self).system_prompt@;

        let mut total_tool_calls: usize = 0;
        let mut turn_input_tokens: u32 = 0;
        let mut turn_output_tokens: u32 = 0;
        let mut assistant_text = String::new();
        let ghost mut added: Seq<MessageView> = seq![];
        let ghost mut rounds: Seq<TurnRound> = seq![];
        let mut iteration: usize = 0;
        let mut done = false;
        assert(msgs_view(self.session.messages@) =~= base + added);
        while iteration < self.max_iterations && !done
            invariant
                iteration <= self.max_iterations,
                self.max_iterations == old(self).max_iterations,
                self.auto_compaction_threshold == old(self).auto_compaction_threshold,
                self.model == old(self).model,
                self.system_prompt == old(self).system_prompt,
                model == old(self).model@,
                system == old(self).system_prompt@,
                self.session.prompt_history == ph,
                ph@.len() == old(self).session.prompt_history@.len() + 1,
                ph@.take(old(self).session.prompt_history@.len() as int)
                    == old(self).session.prompt_history@,
                ph@.last().text@ == user_input@,
                base == msgs_view(old(self).session.messages@).push(prompt),
                is_prompt(prompt, user_input@),
                start_in == old(self).usage_tracker.total_input_tokens,
                start_out == old(self).usage_tracker.total_output_tokens,
                self.session.session_id == old(self).session.session_id,
                self.session.workspace_root == old(self).session.workspace_root,
                self.session.model == old(self).session.model,
                self.session.compaction == old(self).session.compaction,
                msgs_view(self.session.messages@) == base + added,
                turn_shape(added),
                added.len() <= 2 * iteration,
                !done ==> added.len() == 2 * iteration,
                assistant_text@ == text_of_messages(added),
                turn_input_tokens == input_fold(0, added),
                turn_output_tokens == output_fold(0, added),
                self.usage_tracker.total_input_tokens == input_fold(start_in, added),
                self.usage_tracker.total_output_tokens == output_fold(start_out, added),
                total_tool_calls == satu(calls_in(added)),
                self.tool_executor.calls() == old(self).tool_executor.calls() + turn_runs(rounds),
                events.callback() == old(events).callback(),
                forall|e: &ToolEvent| call_requires(events.callback(), (e,)),
                events.events() == old(events).events() + turn_events(rounds),
                rounds.len() == iteration,
                forall|i: int|
                    0 <= i < rounds.len() ==> round_request::<T>(
                        (#[trigger] rounds[i]).0,
                        model,
                        system,
                        base + added.take(2 * i),
                    ) && streamed::<C>(rounds[i].0, rounds[i].1),
                forall|i: int|
                    0 <= i < rounds.len() && (i < rounds.len() - 1 || !done)
                        ==> answered_round::<T>(#[trigger] rounds[i], added, i),
                done ==> {
                    &&& rounds.len() > 0
                    &&& rounds[rounds.len() - 1].1 matches Ok(evs)
                    &&& !asks_tools(evs@)
                    &&& added.len() == 2 * rounds.len() - 1
                    &&& added[2 * rounds.len() - 2] == assistant_view(evs@)
                },
            decreases self.max_iterations - iteration,
        {
            let tools = self.tool_executor.tool_specs();
            let request = ApiRequest {
                model: self.model.clone(),
                system: self.system_prompt.clone(),
                messages: clone_messages(&self.session.messages),
                tools,
                max_tokens: 4096,
            };
            let ghost req = request;
            proof {
                assert(added.take(2 * iteration as int) =~= added);
                assert(offered::<T>(req.tools)) by {
                    reveal(offered);
                }
            }
            let response = self.api_client.stream(request);
            let ghost resp = response;
            assert(streamed::<C>(req, resp)) by {
                reveal(streamed);
            }
            let ghost rounds0 = rounds;
            let evs_got = match response {
                Ok(evs) => evs,
                Err(e) => {
                    proof {
                        rounds = rounds.push((req, resp, seq![]));
                        assert(rounds.drop_last() =~= rounds0);
                        assert(turn_runs(rounds) =~= turn_runs(rounds0));
                    assert(turn_events(rounds) =~= turn_events(rounds0));
                        assert forall|i: int| 0 <= i < rounds.len() implies round_request::<T>(
                            (#[trigger] rounds[i]).0,
                            model,
                            system,
                            base + added.take(2 * i),
                        ) && streamed::<C>(rounds[i].0, rounds[i].1) by {
                            if i < rounds0.len() {
                                assert(rounds[i] == rounds0[i]);
                            }
                        }
                        assert forall|i: int| 0 <= i < rounds.len() - 1 implies answered_round::<T>(
                            #[trigger] rounds[i],
                            added,
                            i,
                        ) by {
                            assert(rounds[i] == rounds0[i]);
                        }
                        assert(turn_rounds::<C, T>(
                            base,
                            model,
                            system,
                            old(self).max_iterations,
                            rounds,
                            added,
                            Some(e),
                        ));
                        assert(turn_rounds::<C, T>(
                            msgs_view(old(self).spec_session().messages@).push(prompt),
                            old(self).spec_model(),
                            old(self).spec_system_prompt(),
                            old(self).spec_max_iterations(),
                            rounds,
                            added,
                            Some(e),
                        ));
                        assert(msgs_view(self.spec_session().messages@) == msgs_view(
                            old(self).spec_session().messages@,
                        ).push(prompt) + added);
                        assert(self.spec_total_input() == input_fold(
                            old(self).spec_total_input(),
                            added,
                        ));
                        assert(self.spec_total_output() == output_fold(
                            old(self).spec_total_output(),
                            added,
                        ));
                    }
                    return Err(e);
                },
            };
            let (assistant_msg, stop_reason) = response_message(&evs_got);
            let usage = assistant_msg.usage.unwrap();
            turn_input_tokens = turn_input_tokens.wrapping_add(usage.input_tokens);
            turn_output_tokens = turn_output_tokens.wrapping_add(usage.output_tokens);
            self.usage_tracker.add(&usage);
            append_block_texts(&mut assistant_text, &assistant_msg.content);
            let tool_uses = tool_uses_of(&assistant_msg.content);
            let ghost am = assistant_msg@;
            let ghost prev = added;
            let ghost before_msgs = self.session.messages@;
            let ghost text_before = text_of_messages(prev);
            self.session.push_message(assistant_msg);
            proof {
                added = added.push(am);
                assert(added.drop_last() == prev);
                assert(msgs_view(self.session.messages@) =~= msgs_view(before_msgs).push(am));
                assert(text_of_messages(added) == text_of_blocks(text_before, am.1));
                assert(input_fold(0, added) == wadd(input_fold(0, prev), usage.input_tokens));
                assert(output_fold(0, added) == wadd(output_fold(0, prev), usage.output_tokens));
                assert(input_fold(start_in, added) == wadd(
                    input_fold(start_in, prev),
                    usage.input_tokens,
                ));
                assert(output_fold(start_out, added) == wadd(
                    output_fold(start_out, prev),
                    usage.output_tokens,
                ));
                assert(calls_in(added) == calls_in(prev));
                assert(msgs_view(self.session.messages@) =~= base + added);
                assert forall|j: int| 0 <= j < added.len() implies {
                    &&& j % 2 == 0 ==> (#[trigger] added[j]).0 == MessageRole::Assistant
                        && added[j].2 is Some
                    &&& j % 2 == 1 ==> {
                        &&& added[j].0 == MessageRole::User
                        &&& added[j].2 is None
                        &&& answers(added[j].1, tool_use_ids(added[j - 1].1))
                    }
                } by {
                    if j < prev.len() {
                        assert(added[j] == prev[j]);
                        if j % 2 == 1 {
                            assert(added[j - 1] == prev[j - 1]);
                        }
                    }
                }
            }
            if tool_uses.len() == 0 || !is_tool_use_stop(&stop_reason) {
                done = true;
                proof {
                    rounds = rounds.push((req, resp, seq![]));
                    assert(rounds.drop_last() =~= rounds0);
                    assert(turn_runs(rounds) =~= turn_runs(rounds0));
                    assert(turn_events(rounds) =~= turn_events(rounds0));
                    assert forall|i: int| 0 <= i < rounds.len() implies round_request::<T>(
                        (#[trigger] rounds[i]).0,
                        model,
                        system,
                        base + added.take(2 * i),
                    ) && streamed::<C>(rounds[i].0, rounds[i].1) by {
                        if i < rounds0.len() {
                            assert(rounds[i] == rounds0[i]);
                            assert(added.take(2 * i) =~= prev.take(2 * i));
                        } else {
                            assert(added.take(2 * i) =~= prev);
                        }
                    }
                    assert forall|i: int| 0 <= i < rounds.len() && (i < rounds.len() - 1 || !done)
                        implies answered_round::<T>(#[trigger] rounds[i], added, i) by {
                        assert(rounds[i] == rounds0[i]);
                        assert(added[2 * i] == prev[2 * i]);
                        assert(added[2 * i + 1] == prev[2 * i + 1]);
                    }
                }
            } else {
                let ghost calls = tool_calls(am.1);
                let ghost calls_before = calls_in(added);
                let (tool_results, Ghost(outcomes)) = self.run_tools(
                    &tool_uses,
                    Ghost(calls),
                    Ghost(tool_use_ids(am.1)),
                    events,
                );
                total_tool_calls = total_tool_calls.saturating_add(tool_uses.len());
                assert(total_tool_calls == satu((calls_before + calls.len()) as nat));
                let tool_msg = ConversationMessage {
                    role: MessageRole::User,
                    content: tool_results,
                    usage: None,
                };
                let ghost tm = tool_msg@;
                let ghost prev2 = added;
                let ghost before_msgs2 = self.session.messages@;
                self.session.push_message(tool_msg);
                proof {
                    added = added.push(tm);
                    assert(added.drop_last() == prev2);
                    assert(msgs_view(self.session.messages@) =~= msgs_view(before_msgs2).push(tm));
                    assert(text_of_messages(added) == text_of_messages(prev2));
                    assert(calls_in(added) == calls_in(prev2) + tm.1.len());
                    assert(input_fold(0, added) == input_fold(0, prev2));
                    assert(output_fold(0, added) == output_fold(0, prev2));
                    assert(input_fold(start_in, added) == input_fold(start_in, prev2));
                    assert(output_fold(start_out, added) == output_fold(start_out, prev2));
                    assert(msgs_view(self.session.messages@) =~= base + added);
                    assert forall|j: int| 0 <= j < added.len() implies {
                        &&& j % 2 == 0 ==> (#[trigger] added[j]).0 == MessageRole::Assistant
                            && added[j].2 is Some
                        &&& j % 2 == 1 ==> {
                            &&& added[j].0 == MessageRole::User
                            &&& added[j].2 is None
                            &&& answers(added[j].1, tool_use_ids(added[j - 1].1))
                        }
                    } by {
                        if j < prev2.len() {
                            assert(added[j] == prev2[j]);
                            if j % 2 == 1 {
                                assert(added[j - 1] == prev2[j - 1]);
                            }
                        } else {
                            assert(added[j - 1] == am);
                        }
                    }
                    rounds = rounds.push((req, resp, outcomes));
                    assert(rounds.drop_last() =~= rounds0);
                    assert(turn_runs(rounds) =~= turn_runs(rounds0) + runs_of(calls));
                    assert(turn_events(rounds) =~= turn_events(rounds0) + run_events(
                        calls,
                        outcomes,
                        calls.len(),
                    ));
                    assert forall|q: int| 0 <= q < calls.len() implies result_for(
                        #[trigger] tm.1[q],
                        calls[q].0,
                        outcomes[q],
                    ) by {
                        assert(tm.1[q] == tool_results@[q]);
                    }
                    assert(tm.1.len() == calls.len());
                    assert(outcomes.len() == calls.len());
                    assert(tool_message::<T>(tm, calls, outcomes));
                    assert forall|i: int| 0 <= i < rounds.len() implies round_request::<T>(
                        (#[trigger] rounds[i]).0,
                        model,
                        system,
                        base + added.take(2 * i),
                    ) && streamed::<C>(rounds[i].0, rounds[i].1) by {
                        if i < rounds0.len() {
                            assert(rounds[i] == rounds0[i]);
                            assert(added.take(2 * i) =~= prev.take(2 * i));
                        } else {
                            assert(added.take(2 * i) =~= prev);
                        }
                    }
                    assert forall|i: int| 0 <= i < rounds.len() && (i < rounds.len() - 1 || !done)
                        implies answered_round::<T>(#[trigger] rounds[i], added, i) by {
                        if i < rounds0.len() {
                            assert(rounds[i] == rounds0[i]);
                            assert(added[2 * i] == prev[2 * i]);
                            assert(added[2 * i + 1] == prev[2 * i + 1]);
                        } else {
                            assert(added[2 * i] == am);
                            assert(added[2 * i + 1] == tm);
                        }
                    }
                }
            }
            iteration = iteration + 1;
        }
        proof {
            assert(turn_rounds::<C, T>(
                base,
                model,
                system,
                old(self).max_iterations,
                rounds,
                added,
                None,
            ));
        }
        let ghost all = base + added;
        if self.usage_tracker.total_input_tokens >= self.auto_compaction_threshold {
            self.compact_session();
        }
        let summary = TurnSummary {
            assistant_text,
            tool_calls_made: total_tool_calls,
            input_tokens: turn_input_tokens,
            output_tokens: turn_output_tokens,
        };
        assert(turn_report(added, old(self).max_iterations, summary));
        assert(turn_report(added, old(self).spec_max_iterations(), summary));
        assert(is_prompt(prompt, user_input@));
        assert(all == msgs_view(old(self).session.messages@).push(prompt) + added);
        assert(self.usage_tracker.total_input_tokens == input_fold(
            old(self).usage_tracker.total_input_tokens,
            added,
        ));
        assert(msgs_view(self.session.messages@) == after_compaction(
            all,
            self.usage_tracker.total_input_tokens,
            old(self).auto_compaction_threshold,
        ));
        assert(compaction_after(
            all,
            self.usage_tracker.total_input_tokens,
            old(self).auto_compaction_threshold,
            old(self).session.compaction,
            self.session.compaction,
        ));
        assert(self.spec_total_input() == input_fold(old(self).spec_total_input(), added));
        assert(self.spec_total_output() == output_fold(old(self).spec_total_output(), added));
        assert(msgs_view(self.spec_session().messages@) == after_compaction(
            msgs_view(old(self).spec_session().messages@).push(prompt) + added,
            self.spec_total_input(),
            old(self).spec_threshold(),
        ));
        assert(compaction_after(
            msgs_view(old(self).spec_session().messages@).push(prompt) + added,
            self.spec_total_input(),
            old(self).spec_threshold(),
            old(self).spec_session().compaction,
            self.spec_session().compaction,
        ));
        assert(turn_rounds::<C, T>(
            msgs_view(old(self).spec_session().messages@).push(prompt),
            old(self).spec_model(),
            old(self).spec_system_prompt(),
            old(self).spec_max_iterations(),
            rounds,
            added,
            None,
        ));
        assert(turn_ok(
            *old(self),
            *self,
            user_input@,
            summary,
            old(events).events(),
            events.events(),
        ));
        Ok(summary)
    }

    /// Runs the tool calls of one response in order: the k-th block answers
    /// the k-th call with what the executor gave for it.
    fn run_tools<F: Fn(&ToolEvent)>(
        &mut self,
        tool_uses: &Vec<(String, String, serde_json::Value)>,
        Ghost(calls): Ghost<Seq<(Seq<char>, Seq<char>, Seq<char>)>>,
        Ghost(ids): Ghost<Seq<Seq<char>>>,
        events: &mut ToolEventSink<F>,
    ) -> (r: (Vec<ContentBlock>, Ghost<Seq<Result<String, RuntimeError>>>))
        requires
            forall|e: &ToolEvent| call_requires(old(events).callback(), (e,)),
            tool_uses@.len() == calls.len(),
            ids.len() == calls.len(),
            forall|q: int|
                0 <= q < tool_uses@.len() ==> {
                    &&& (#[trigger] tool_uses@[q]).0@ == ids[q]
                    &&& tool_uses@[q].0@ == calls[q].0
                    &&& tool_uses@[q].1@ == calls[q].1
                    &&& json_text(tool_uses@[q].2) == calls[q].2
                },
        ensures
            r.0@.len() == calls.len(),
            r.1@.len() == calls.len(),
            answers(r.0@, ids),
            forall|q: int| 0 <= q < calls.len() ==> executed::<T>(calls[q].1, calls[q].2, #[trigger] r.1@[q]),
            forall|q: int| 0 <= q < calls.len() ==> result_for(#[trigger] r.0@[q], calls[q].0, r.1@[q]),
            final(self).tool_executor.calls() == old(self).tool_executor.calls() + runs_of(calls),
            final(events).callback() == old(events).callback(),
            final(events).events() == old(events).events() + run_events(calls, r.1@, calls.len()),
            final(self).session == old(self).session,
            final(self).usage_tracker == old(self).usage_tracker,
            final(self).max_iterations == old(self).max_iterations,
            final(self).auto_compaction_threshold == old(self).auto_compaction_threshold,
            final(self).model == old(self).model,
            final(self).system_prompt == old(self).system_prompt,
    {
        let mut tool_results: Vec<ContentBlock> = Vec::new();
        let ghost mut outcomes: Seq<Result<String, RuntimeError>> = seq![];
        let ghost ev0 = events.events();
        let mut k: usize = 0;
        while k < tool_uses.len()
            invariant
                k <= tool_uses.len(),
                tool_uses@.len() == calls.len(),
                ids.len() == calls.len(),
                forall|q: int|
                    0 <= q < tool_uses@.len() ==> {
                        &&& (#[trigger] tool_uses@[q]).0@ == ids[q]
                        &&& tool_uses@[q].0@ == calls[q].0
                        &&& tool_uses@[q].1@ == calls[q].1
                        &&& json_text(tool_uses@[q].2) == calls[q].2
                    },
                tool_results@.len() == k,
                outcomes.len() == k,
                forall|q: int| 0 <= q < k ==> executed::<T>(calls[q].1, calls[q].2, #[trigger] outcomes[q]),
                forall|q: int| 0 <= q < k ==> result_for(#[trigger] tool_results@[q], calls[q].0, outcomes[q]),
                self.tool_executor.calls() == old(self).tool_executor.calls() + runs_of(
                    calls.take(k as int),
                ),
                ev0 == old(events).events(),
                events.callback() == old(events).callback(),
                forall|e: &ToolEvent| call_requires(events.callback(), (e,)),
                events.events() == ev0 + run_events(calls, outcomes, k as nat),
                self.session == old(self).session,
                self.usage_tracker == old(self).usage_tracker,
                self.max_iterations == old(self).max_iterations,
                self.auto_compaction_threshold == old(self).auto_compaction_threshold,
                self.model == old(self).model,
                self.system_prompt == old(self).system_prompt,
            decreases tool_uses.len() - k,
        {
            let (id, name, input) = &tool_uses[k];
            let ghost evb = events.events();
            let block = self.run_tool(id, name, input, events);
            let ghost o = choose|o: Result<String, RuntimeError>|
                executed::<T>(name@, json_text(*input), o) && #[trigger] result_for(block, id@, o)
                    && events.events() == evb + seq![(true, name@, false), (false, name@, o is Ok)];
            proof {
                assert(executed::<T>(name@, json_text(*input), o));
                assert(result_for(block, id@, o));
                assert(tool_uses@[k as int].1@ == calls[k as int].1);
                assert(json_text(tool_uses@[k as int].2) == calls[k as int].2);
                assert(tool_uses@[k as int].0@ == calls[k as int].0);
            }
            let ghost before_results = tool_results@;
            let ghost before_outcomes = outcomes;
            tool_results.push(block);
            k = k + 1;
            proof {
                let ob = outcomes;
                outcomes = outcomes.push(o);
                lemma_run_events_prefix(calls, ob, outcomes, (k - 1) as nat);
                assert(outcomes[k - 1] == o);
                assert(events.events() =~= ev0 + run_events(calls, outcomes, k as nat));
                assert(runs_of(calls.take(k as int)) =~= runs_of(calls.take(k - 1)).push(
                    (calls[k - 1].1, calls[k - 1].2),
                ));
                assert forall|q: int| 0 <= q < k implies executed::<T>(
                    calls[q].1,
                    calls[q].2,
                    outcomes[q],
                ) && result_for(#[trigger] tool_results@[q], calls[q].0, outcomes[q]) by {
                    if q < k - 1 {
                        assert(tool_results@[q] == before_results[q]);
                        assert(outcomes[q] == before_outcomes[q]);
                    } else {
                        assert(tool_results@[q] == block);
                        assert(outcomes[q] == o);
                        assert(executed::<T>(calls[q].1, calls[q].2, o));
                    }
                }
            }
        }
        proof {
            assert(calls.take(calls.len() as int) =~= calls);
            assert forall|q: int| 0 <= q < tool_results@.len() implies (
            #[trigger] tool_results@[q] matches ContentBlock::ToolResult { tool_use_id, .. }
                && tool_use_id@ == ids[q]) by {
                assert(result_for(tool_results@[q], calls[q].0, outcomes[q]));
                assert(tool_uses@[q].0@ == ids[q]);
            }
        }
        (tool_results, Ghost(outcomes))
    }

    /// Runs one tool call; every call is allowed by the hooks and the policy,
    /// so the block answers `id` with what the executor gave for the tool
    /// `name` on the compact JSON text of `input`.  The sink sees the tool
    /// start, then finish.
    fn run_tool<F: Fn(&ToolEvent)>(
        &mut self,
        id: &String,
        name: &String,
        input: &serde_json::Value,
        events: &mut ToolEventSink<F>,
    ) -> (r: ContentBlock)
        requires
            forall|e: &ToolEvent| call_requires(old(events).callback(), (e,)),
        ensures
            exists|o: Result<String, RuntimeError>|
                executed::<T>(name@, json_text(*input), o) && #[trigger] result_for(r, id@, o)
                    && final(events).events() == old(events).events() + seq![
                    (true, name@, false),
                    (false, name@, o is Ok),
                ],
            final(events).callback() == old(events).callback(),
            final(self).tool_executor.calls() == old(self).tool_executor.calls().push(
                (name@, json_text(*input)),
            ),
            final(self).session == old(self).session,
            final(self).usage_tracker == old(self).usage_tracker,
            final(self).max_iterations == old(self).max_iterations,
            final(self).auto_compaction_threshold == old(self).auto_compaction_threshold,
            final(self).model == old(self).model,
            final(self).system_prompt == old(self).system_prompt,
    {
        let ghost ev0 = events.events();
        let started = now_millis();
        events.emit(&ToolEvent::Start { name: name.clone(), input: clone_json(input) });
        let input_str = json_to_string(input);
        if let HookResult::Deny(reason) = self.hook_runner.pre_tool_use(
            name.as_str(),
            input_str.as_str(),
        ) {
            let r = refusal_block(id, name.as_str(), ToolRefusal::PreHook(reason));
            finish_event(events, name, &r, started);
            return r;
        }
        if !self.permission_policy.check(name.as_str()) {
            let r = refusal_block(id, name.as_str(), ToolRefusal::Permission);
            finish_event(events, name, &r, started);
            return r;
        }
        let outcome = self.tool_executor.call(name.as_str(), input_str.as_str());
        let ghost o = outcome;
        assert(executed::<T>(name@, json_text(*input), o)) by {
            reveal(executed);
        }
        if let Ok(output) = &outcome {
            if let HookResult::Deny(reason) = self.hook_runner.post_tool_use(
                name.as_str(),
                output.as_str(),
            ) {
                let r = refusal_block(id, name.as_str(), ToolRefusal::PostHook(reason));
                finish_event(events, name, &r, started);
                return r;
            }
        }
        let r = tool_result_block(id, outcome);
        assert(result_for(r, id@, o));
        finish_event(events, name, &r, started);
        assert(events.events() =~= ev0 + seq![(true, name@, false), (false, name@, o is Ok)]);
        r
    }
}

} // verus!
