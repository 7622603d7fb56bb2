//! Conversation, session, tool and error types of the agent runtime.
use vstd::prelude::*;
use crate::text::{push_decimal, decimal};

verus! {

broadcast use vstd::string::group_string_axioms;

// ─── Outside types carried through the runtime ───

/// A JSON value (`serde_json::Value`), carried as tool input and schema.
#[verifier::external_type_specification]
#[verifier::external_body]
pub struct ExJsonValue(serde_json::Value);

/// An error of the `anyhow` crate.
#[verifier::external_type_specification]
#[verifier::external_body]
pub struct ExAnyhowError(anyhow::Error);

/// A file-system path (`std::path::PathBuf`).
#[verifier::external_type_specification]
#[verifier::external_body]
pub struct ExPathBuf(std::path::PathBuf);

/// `<serde_json::Value as Clone>::clone`: the derived, field-by-field copy, so the
/// result is the same value.
#[verifier::external_body]
pub(crate) fn clone_json(v: &serde_json::Value) -> (r: serde_json::Value)
    ensures
        r == *v,
{
    v.clone()
}

/// The compact JSON text that `serde_json::Value`'s `Display` writes for a value.
pub uninterp spec fn json_text(v: serde_json::Value) -> Seq<char>;

/// `<serde_json::Value as Display>`: the compact JSON text of the value, named
/// `json_text`.
#[verifier::external_body]
pub(crate) fn json_to_string(v: &serde_json::Value) -> (r: String)
    ensures
        r@ == json_text(*v),
{
    v.to_string()
}

/// The indented JSON text that `serde_json::to_string_pretty` writes for a
/// value; `None` where it fails.
pub uninterp spec fn json_pretty_text(v: serde_json::Value) -> Option<Seq<char>>;

/// `serde_json::to_string_pretty(v)`, its error dropped: named
/// `json_pretty_text`.
#[verifier::external_body]
pub(crate) fn json_to_pretty(v: &serde_json::Value) -> (r: Option<String>)
    ensures
        match r {
            Some(t) => json_pretty_text(*v) == Some(t@),
            None => json_pretty_text(*v) is None,
        },
{
    serde_json::to_string_pretty(v).ok()
}

/// `<anyhow::Error as Display>`: the outermost message of the error.  That
/// text is whatever the wrapped error's own `Display` writes (for an OS error,
/// the C library's message for its code), so nothing is stated of it.
#[verifier::external_body]
pub(crate) fn anyhow_message(e: &anyhow::Error) -> String {
    e.to_string()
}

/// `<std::path::PathBuf as Clone>::clone`: the same path.
#[verifier::external_body]
pub(crate) fn clone_path(p: &std::path::PathBuf) -> (r: std::path::PathBuf)
    ensures
        r == *p,
{
    p.clone()
}

// ─── Message Types ───

#[derive(Debug, Clone, Copy, PartialEq, Eq, Structural)]
pub enum MessageRole {
    User,
    Assistant,
}

#[derive(Debug)]
pub enum ContentBlock {
    Text { text: String },
    ToolUse { id: String, name: String, input: serde_json::Value },
    ToolResult { tool_use_id: String, output: String, is_error: bool },
}

impl Clone for ContentBlock {
    fn clone(&self) -> (r: Self)
        ensures
            r == *self,
    {
        match self {
            ContentBlock::Text { text } => ContentBlock::Text { text: text.clone() },
            ContentBlock::ToolUse { id, name, input } => ContentBlock::ToolUse {
                id: id.clone(),
                name: name.clone(),
                input: clone_json(input),
            },
            ContentBlock::ToolResult { tool_use_id, output, is_error } => ContentBlock::ToolResult {
                tool_use_id: tool_use_id.clone(),
                output: output.clone(),
                is_error: *is_error,
            },
        }
    }
}

#[derive(Debug, Clone, Copy)]
pub struct TokenUsage {
    pub input_tokens: u32,
    pub output_tokens: u32,
}

impl Default for TokenUsage {
    fn default() -> (r: Self)
        ensures
            r.input_tokens == 0 && r.output_tokens == 0,
    {
        TokenUsage { input_tokens: 0, output_tokens: 0 }
    }
}

#[derive(Debug)]
pub struct ConversationMessage {
    pub role: MessageRole,
    pub content: Vec<ContentBlock>,
    pub usage: Option<TokenUsage>,
}

/// Clones a list of content blocks; the copy holds the same blocks.
pub fn clone_blocks(v: &Vec<ContentBlock>) -> (r: Vec<ContentBlock>)
    ensures
        r@ == v@,
{
    let mut out: Vec<ContentBlock> = Vec::new();
    let mut i: usize = 0;
    while i < v.len()
        invariant
            i <= v.len(),
            out@ == v@.take(i as int),
        decreases v.len() - i,
    {
        out.push(v[i].clone());
        i = i + 1;
        assert(v@.take(i as int) == v@.take(i - 1).push(v@[i - 1]));
    }
    assert(v@.take(v.len() as int) == v@);
    out
}

/// A message as a value: its role, its blocks and its usage.
pub type MessageView = (MessageRole, Seq<ContentBlock>, Option<TokenUsage>);

impl View for ConversationMessage {
    type V = MessageView;

    open spec fn view(&self) -> MessageView {
        (self.role, self.content@, self.usage)
    }
}

/// The values of a list of messages.
pub open spec fn msgs_view(s: Seq<ConversationMessage>) -> Seq<MessageView> {
    s.map_values(|m: ConversationMessage| m@)
}

impl Clone for ConversationMessage {
    fn clone(&self) -> (r: Self)
        ensures
            r@ == self@,
    {
        let content = clone_blocks(&self.content);
        ConversationMessage { role: self.role, content, usage: self.usage }
    }
}

/// Clones a list of messages; the copy holds the same messages.
pub fn clone_messages(v: &Vec<ConversationMessage>) -> (r: Vec<ConversationMessage>)
    ensures
        msgs_view(r@) == msgs_view(v@),
{
    let mut out: Vec<ConversationMessage> = Vec::new();
    let mut i: usize = 0;
    while i < v.len()
        invariant
            i <= v.len(),
            out@.len() == i,
            forall|k: int| 0 <= k < i ==> #[trigger] out@[k]@ == v@[k]@,
        decreases v.len() - i,
    {
        out.push(v[i].clone());
        i = i + 1;
    }
    assert(msgs_view(out@) =~= msgs_view(v@));
    out
}

// ─── Session Types ───

#[derive(Debug)]
pub struct SessionCompaction {
    pub summary: String,
    pub original_message_count: usize,
    pub compacted_at: String,
}

impl Clone for SessionCompaction {
    fn clone(&self) -> (r: Self)
        ensures
            r == *self,
    {
        SessionCompaction {
            summary: self.summary.clone(),
            original_message_count: self.original_message_count,
            compacted_at: self.compacted_at.clone(),
        }
    }
}

#[derive(Debug)]
pub struct SessionPromptEntry {
    pub text: String,
    pub timestamp: String,
}

#[derive(Debug)]
pub struct Session {
    pub session_id: String,
    pub messages: Vec<ConversationMessage>,
    pub compaction: Option<SessionCompaction>,
    pub workspace_root: Option<std::path::PathBuf>,
    pub prompt_history: Vec<SessionPromptEntry>,
    pub model: Option<String>,
}

// ─── Tool Types ───

#[derive(Debug)]
pub struct ToolSpec {
    pub name: String,
    pub description: String,
    pub input_schema: serde_json::Value,
}

impl Clone for ToolSpec {
    fn clone(&self) -> (r: Self)
        ensures
            r == *self,
    {
        ToolSpec {
            name: self.name.clone(),
            description: self.description.clone(),
            input_schema: clone_json(&self.input_schema),
        }
    }
}

/// The tools known to the runtime, in registration order.
#[derive(Debug)]
pub struct GlobalToolRegistry {
    tools: Vec<ToolSpec>,
}

impl View for GlobalToolRegistry {
    type V = Seq<ToolSpec>;

    closed spec fn view(&self) -> Seq<ToolSpec> {
        self.tools@
    }
}

impl GlobalToolRegistry {
    pub fn new() -> (r: Self)
        ensures
            r@ == Seq::<ToolSpec>::empty(),
    {
        GlobalToolRegistry { tools: Vec::new() }
    }

    pub fn register(&mut self, spec: ToolSpec)
        ensures
            final(self)@ == old(self)@.push(spec),
    {
        self.tools.push(spec);
    }

    pub fn specs(&self) -> (r: &[ToolSpec])
        ensures
            r@ == self@,
    {
        self.tools.as_slice()
    }

    pub fn to_vec(&self) -> (r: Vec<ToolSpec>)
        ensures
            r@ == self@,
    {
        let mut out: Vec<ToolSpec> = Vec::new();
        let mut i: usize = 0;
        while i < self.tools.len()
            invariant
                i <= self.tools.len(),
                out@ == self.tools@.take(i as int),
            decreases self.tools.len() - i,
        {
            out.push(self.tools[i].clone());
            i = i + 1;
            assert(self.tools@.take(i as int) == self.tools@.take(i - 1).push(
                self.tools@[i - 1],
            ));
        }
        assert(self.tools@.take(self.tools.len() as int) == self.tools@);
        out
    }
}

impl Default for GlobalToolRegistry {
    fn default() -> (r: Self)
        ensures
            r@ == Seq::<ToolSpec>::empty(),
    {
        Self::new()
    }
}

// ─── API Types ───

#[derive(Debug)]
pub struct ApiRequest {
    pub model: String,
    pub system: String,
    pub messages: Vec<ConversationMessage>,
    pub tools: Vec<ToolSpec>,
    pub max_tokens: u32,
}

#[derive(Debug)]
pub enum AssistantEvent {
    ContentBlock(ContentBlock),
    Usage(TokenUsage),
    StopReason(String),
}

// ─── Turn Summary ───

#[derive(Debug)]
pub struct TurnSummary {
    pub assistant_text: String,
    pub tool_calls_made: usize,
    pub input_tokens: u32,
    pub output_tokens: u32,
}

// ─── Error Types ───

#[derive(Debug)]
pub enum RuntimeError {
    Api(String),
    Tool { tool_name: String, message: String },
    MaxIterations(usize),
    Session(String),
    Other(anyhow::Error),
}

/// The text `Display` gives an error; `None` for `Other`, whose text is the
/// outside error's own message.
pub open spec fn error_text(e: RuntimeError) -> Option<Seq<char>> {
    match e {
        RuntimeError::Api(msg) => Some("API error: "@ + msg@),
        RuntimeError::Tool { tool_name, message } => Some("Tool '"@ + tool_name@ + "': "@ + message@),
        RuntimeError::MaxIterations(n) => Some("Max iterations ("@ + decimal(n as nat) + ") exceeded"@),
        RuntimeError::Session(msg) => Some("Session error: "@ + msg@),
        RuntimeError::Other(_) => None,
    }
}

impl RuntimeError {
    /// The error's message, as `Display` writes it.
    pub fn message(&self) -> (r: String)
        ensures
            error_text(*self) matches Some(t) ==> r@ == t,
    {
        match self {
            RuntimeError::Api(msg) => {
                let mut s = String::from_str("API error: ");
                s.append(msg.as_str());
                s
            },
            RuntimeError::Tool { tool_name, message } => {
                let mut s = String::from_str("Tool '");
                s.append(tool_name.as_str());
                s.append("': ");
                s.append(message.as_str());
                s
            },
            RuntimeError::MaxIterations(n) => {
                let mut s = String::from_str("Max iterations (");
                push_decimal(&mut s, *n as u64);
                s.append(") exceeded");
                s
            },
            RuntimeError::Session(msg) => {
                let mut s = String::from_str("Session error: ");
                s.append(msg.as_str());
                s
            },
            RuntimeError::Other(e) => anyhow_message(e),
        }
    }
}

impl vstd::std_specs::convert::FromSpecImpl<anyhow::Error> for RuntimeError {
    open spec fn obeys_from_spec() -> bool {
        true
    }

    open spec fn from_spec(e: anyhow::Error) -> Self {
        RuntimeError::Other(e)
    }
}

impl From<anyhow::Error> for RuntimeError {
    fn from(e: anyhow::Error) -> (r: Self)
        ensures
            r == RuntimeError::Other(e),
    {
        RuntimeError::Other(e)
    }
}

// ─── Permission (allow-all) ───

pub struct PermissionPolicy;

impl PermissionPolicy {
    pub fn new_allow_all() -> (r: Self) {
        PermissionPolicy
    }

    /// Every tool is permitted.
    pub fn check(&self, _tool_name: &str) -> (r: bool)
        ensures
            r,
    {
        true
    }
}

// ─── Usage Tracker ───

#[derive(Debug)]
pub struct UsageTracker {
    pub total_input_tokens: u32,
    pub total_output_tokens: u32,
}

impl Default for UsageTracker {
    fn default() -> (r: Self)
        ensures
            r.total_input_tokens == 0 && r.total_output_tokens == 0,
    {
        UsageTracker { total_input_tokens: 0, total_output_tokens: 0 }
    }
}

impl UsageTracker {
    pub fn new() -> (r: Self)
        ensures
            r.total_input_tokens == 0 && r.total_output_tokens == 0,
    {
        UsageTracker { total_input_tokens: 0, total_output_tokens: 0 }
    }

    /// Adds one response's usage to the running totals (wrapping at `u32::MAX`).
    pub fn add(&mut self, usage: &TokenUsage)
        ensures
            final(self).total_input_tokens == vstd::wrapping::u32_specs::wrapping_add(
                old(self).total_input_tokens,
                usage.input_tokens,
            ),
            final(self).total_output_tokens == vstd::wrapping::u32_specs::wrapping_add(
                old(self).total_output_tokens,
                usage.output_tokens,
            ),
    {
        self.total_input_tokens = self.total_input_tokens.wrapping_add(usage.input_tokens);
        self.total_output_tokens = self.total_output_tokens.wrapping_add(usage.output_tokens);
    }
}

// ─── Hook System ───

#[derive(Debug)]
pub enum HookResult {
    Allow,
    Deny(String),
}

pub struct HookRunner;

impl Default for HookRunner {
    fn default() -> (r: Self) {
        Self::new()
    }
}

impl HookRunner {
    pub fn new() -> (r: Self) {
        HookRunner
    }

    /// Every tool call is allowed to run.
    pub fn pre_tool_use(&self, _tool_name: &str, _input: &str) -> (r: HookResult)
        ensures
            r is Allow,
    {
        HookResult::Allow
    }

    /// Every tool result is let through.
    pub fn post_tool_use(&self, _tool_name: &str, _output: &str) -> (r: HookResult)
        ensures
            r is Allow,
    {
        HookResult::Allow
    }
}

// ─── Tool observation events ───

/// A tool call event, observed read-only: a tool starts, or it finishes
/// (successfully or not), with the size of its output and the time it took.
#[derive(Debug)]
pub enum ToolEvent {
    Start { name: String, input: serde_json::Value },
    Finish { name: String, ok: bool, output_chars: usize, elapsed_ms: u64 },
}

/// What an observer learns of a tool event: whether it is the start, the
/// tool's name, and (for a finish) whether the tool succeeded.
pub type ToolEventView = (bool, Seq<char>, bool);

/// The view of a tool event.
pub open spec fn tool_event_view(e: ToolEvent) -> ToolEventView {
    match e {
        ToolEvent::Start { name, .. } => (true, name@, false),
        ToolEvent::Finish { name, ok, .. } => (false, name@, ok),
    }
}

/// Where tool events go as they happen: a callback, with the record of the
/// events handed to it.
pub struct ToolEventSink<F: Fn(&ToolEvent)> {
    callback: F,
    events: Ghost<Seq<ToolEventView>>,
}

impl<F: Fn(&ToolEvent)> ToolEventSink<F> {
    /// The callback that receives the events.
    pub closed spec fn callback(self) -> F {
        self.callback
    }

    /// The events handed to the callback so far, in order.
    pub closed spec fn events(self) -> Seq<ToolEventView> {
        self.events@
    }

    /// A sink that hands each event to `callback`; none handed yet.
    pub fn new(callback: F) -> (r: Self)
        ensures
            r.callback() == callback,
            r.events() == Seq::<ToolEventView>::empty(),
    {
        ToolEventSink { callback, events: Ghost(Seq::empty()) }
    }

    /// Hands one event to the callback, and records it.
    pub fn emit(&mut self, event: &ToolEvent)
        requires
            forall|e: &ToolEvent| call_requires(old(self).callback(), (e,)),
        ensures
            final(self).callback() == old(self).callback(),
            final(self).events() == old(self).events().push(tool_event_view(*event)),
            call_ensures(old(self).callback(), (event,), ()),
    {
        (self.callback)(event);
        self.events = Ghost(self.events@.push(tool_event_view(*event)));
    }
}

// ─── Streamed text ───

/// The texts of the text blocks among some events, in order.
pub open spec fn text_pieces(evs: Seq<AssistantEvent>) -> Seq<Seq<char>>
    decreases evs.len(),
{
    if evs.len() == 0 {
        seq![]
    } else {
        match evs.last() {
            AssistantEvent::ContentBlock(ContentBlock::Text { text }) => text_pieces(
                evs.drop_last(),
            ).push(text@),
            _ => text_pieces(evs.drop_last()),
        }
    }
}

/// Where the text of a streamed answer goes, piece by piece: a callback, with
/// the record of the pieces handed to it.
pub struct TextDeltaSink<F: Fn(&str)> {
    callback: F,
    pieces: Ghost<Seq<Seq<char>>>,
}

impl<F: Fn(&str)> TextDeltaSink<F> {
    /// The callback that receives the pieces.
    pub closed spec fn callback(self) -> F {
        self.callback
    }

    /// The pieces handed to the callback so far, in order.
    pub closed spec fn pieces(self) -> Seq<Seq<char>> {
        self.pieces@
    }

    /// A sink that hands each piece to `callback`; none handed yet.
    pub fn new(callback: F) -> (r: Self)
        ensures
            r.callback() == callback,
            r.pieces() == Seq::<Seq<char>>::empty(),
    {
        TextDeltaSink { callback, pieces: Ghost(Seq::empty()) }
    }

    /// Hands one piece of text to the callback, and records it.
    pub fn emit(&mut self, text: &str)
        requires
            forall|t: &str| call_requires(old(self).callback(), (t,)),
        ensures
            final(self).callback() == old(self).callback(),
            final(self).pieces() == old(self).pieces().push(text@),
            call_ensures(old(self).callback(), (text,), ()),
    {
        (self.callback)(text);
        self.pieces = Ghost(self.pieces@.push(text@));
    }
}

// ─── Traits ───

/// API client trait — abstracts LLM providers.
pub trait ApiClient {
    fn stream(&mut self, request: ApiRequest) -> Result<Vec<AssistantEvent>, RuntimeError>;

    /// The streaming form: the sink sees each piece of text as it arrives, and
    /// the whole answer still comes back.  By default the answer is fetched
    /// with `stream`, and each of its text blocks is handed to the sink as one
    /// piece, in order; a client that streams for real overrides this.
    fn stream_with_text_delta<F: Fn(&str)>(
        &mut self,
        request: ApiRequest,
        sink: &mut TextDeltaSink<F>,
    ) -> (r: Result<Vec<AssistantEvent>, RuntimeError>)
        requires
            forall|t: &str| call_requires(old(sink).callback(), (t,)),
        default_ensures
            exists|m: &mut Self| #[trigger] call_ensures(Self::stream, (m, request), r),
            final(sink).callback() == old(sink).callback(),
            match r {
                Ok(evs) => final(sink).pieces() == old(sink).pieces() + text_pieces(evs@),
                Err(_) => final(sink).pieces() == old(sink).pieces(),
            },
    {
        let events = match self.stream(request) {
            Ok(evs) => evs,
            Err(e) => {
                return Err(e);
            },
        };
        let ghost start = sink.pieces();
        let mut i: usize = 0;
        while i < events.len()
            invariant
                i <= events.len(),
                sink.callback() == old(sink).callback(),
                forall|t: &str| call_requires(sink.callback(), (t,)),
                sink.pieces() == start + text_pieces(events@.take(i as int)),
            decreases events.len() - i,
        {
            assert(events@.take(i + 1).drop_last() =~= events@.take(i as int));
            if let AssistantEvent::ContentBlock(ContentBlock::Text { text }) = &events[i] {
                sink.emit(text.as_str());
            }
            i = i + 1;
        }
        assert(events@.take(events.len() as int) =~= events@);
        Ok(events)
    }
}

/// Tool executor trait — dispatches tool calls to handlers.
pub trait ToolExecutor {
    fn execute(&mut self, tool_name: &str, input: &str) -> Result<String, RuntimeError>;

    fn tool_specs(&self) -> Vec<ToolSpec>;
}

} // verus!
