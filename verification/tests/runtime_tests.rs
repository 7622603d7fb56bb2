use cctraveler::compaction::build_compaction_summary;
use cctraveler::conversation::ConversationRuntime;
use cctraveler::prompt::{SystemPromptBuilder, DYNAMIC_BOUNDARY, PROJECT_CONTEXT};
use cctraveler::stream::{assemble_stream, StreamItem, UsageInfo};
use cctraveler::types::{
    ApiClient, ApiRequest, AssistantEvent, ContentBlock, ConversationMessage, GlobalToolRegistry,
    HookResult, HookRunner, MessageRole, PermissionPolicy, RuntimeError, TokenUsage, ToolExecutor,
    ToolSpec, UsageTracker,
};
use std::collections::VecDeque;

struct ScriptedClient {
    replies: VecDeque<Vec<AssistantEvent>>,
    seen_systems: Vec<String>,
}

impl ApiClient for ScriptedClient {
    fn stream(&mut self, request: ApiRequest) -> Result<Vec<AssistantEvent>, RuntimeError> {
        self.seen_systems.push(request.system.clone());
        match self.replies.pop_front() {
            Some(r) => Ok(r),
            None => Err(RuntimeError::Api("no more replies".to_string())),
        }
    }
}

struct RecordingTools {
    calls: Vec<(String, String)>,
}

impl ToolExecutor for RecordingTools {
    fn execute(&mut self, tool_name: &str, input: &str) -> Result<String, RuntimeError> {
        self.calls.push((tool_name.to_string(), input.to_string()));
        if tool_name == "broken" {
            Err(RuntimeError::Tool { tool_name: tool_name.to_string(), message: "boom".to_string() })
        } else {
            Ok(format!("{tool_name} <- {input}"))
        }
    }

    fn tool_specs(&self) -> Vec<ToolSpec> {
        Vec::new()
    }
}

fn tool_use(id: &str, name: &str, json: &str) -> AssistantEvent {
    AssistantEvent::ContentBlock(ContentBlock::ToolUse {
        id: id.to_string(),
        name: name.to_string(),
        input: serde_json::from_str(json).unwrap(),
    })
}

#[test]
fn a_turn_with_one_tool_round() {
    let replies = VecDeque::from(vec![
        vec![
            tool_use("t1", "search_hotels", "{\"city\": \"北京\"}"),
            AssistantEvent::Usage(TokenUsage { input_tokens: 10, output_tokens: 2 }),
            AssistantEvent::StopReason("tool_use".to_string()),
        ],
        vec![
            AssistantEvent::ContentBlock(ContentBlock::Text { text: "done".to_string() }),
            AssistantEvent::Usage(TokenUsage { input_tokens: 5, output_tokens: 3 }),
            AssistantEvent::StopReason("end_turn".to_string()),
        ],
    ]);
    let client = ScriptedClient { replies, seen_systems: Vec::new() };
    let tools = RecordingTools { calls: Vec::new() };
    let mut rt = ConversationRuntime::new(client, tools, "m".to_string(), "sys".to_string(), 5);
    let s = rt.run_turn("找酒店").unwrap();
    assert_eq!(s.assistant_text, "done");
    assert_eq!(s.tool_calls_made, 1);
    assert_eq!(s.input_tokens, 15);
    assert_eq!(s.output_tokens, 5);
    assert_eq!(rt.usage().total_input_tokens, 15);
    assert_eq!(rt.usage().total_output_tokens, 5);
    // prompt, assistant tool call, tool result, final answer
    assert_eq!(rt.session.messages.len(), 4);
    assert_eq!(rt.session.messages[0].role, MessageRole::User);
    match &rt.session.messages[2].content[0] {
        ContentBlock::ToolResult { tool_use_id, output, is_error } => {
            assert_eq!(tool_use_id, "t1");
            assert_eq!(output, "search_hotels <- {\"city\":\"北京\"}");
            assert!(!is_error);
        }
        _ => panic!("tool result expected"),
    }
    assert_eq!(rt.session.prompt_history.len(), 1);
    assert_eq!(rt.session.prompt_history[0].text, "找酒店");
}

#[test]
fn tools_receive_the_compact_json_of_their_input() {
    let replies = VecDeque::from(vec![
        vec![tool_use("t1", "search_hotels", "{ \"city\" : \"北京\" }"), AssistantEvent::StopReason("tool_use".into())],
        vec![AssistantEvent::StopReason("end_turn".into())],
    ]);
    let client = ScriptedClient { replies, seen_systems: Vec::new() };
    let mut rt = ConversationRuntime::new(client, RecordingTools { calls: Vec::new() }, "m".into(), "sys".into(), 3);
    rt.run_turn("q").unwrap();
    match &rt.session.messages[2].content[0] {
        ContentBlock::ToolResult { output, .. } => {
            assert_eq!(output, "search_hotels <- {\"city\":\"北京\"}")
        }
        _ => panic!("tool result expected"),
    }
}

#[test]
fn a_failing_tool_is_reported_as_an_error_result() {
    let replies = VecDeque::from(vec![
        vec![tool_use("b1", "broken", "{}"), AssistantEvent::StopReason("tool_use".into())],
        vec![AssistantEvent::ContentBlock(ContentBlock::Text { text: "sorry".into() })],
    ]);
    let client = ScriptedClient { replies, seen_systems: Vec::new() };
    let mut rt = ConversationRuntime::new(client, RecordingTools { calls: Vec::new() }, "m".into(), "sys".into(), 3);
    let s = rt.run_turn("q").unwrap();
    assert_eq!(s.assistant_text, "sorry");
    match &rt.session.messages[2].content[0] {
        ContentBlock::ToolResult { output, is_error, .. } => {
            assert_eq!(output, "Error: Tool 'broken': boom");
            assert!(is_error);
        }
        _ => panic!("tool result expected"),
    }
}

#[test]
fn a_turn_stops_after_the_iteration_limit() {
    let mut replies = VecDeque::new();
    for i in 0..3 {
        replies.push_back(vec![
            tool_use(&format!("t{i}"), "search_hotels", "{}"),
            AssistantEvent::StopReason("tool_use".into()),
        ]);
    }
    let client = ScriptedClient { replies, seen_systems: Vec::new() };
    let mut rt = ConversationRuntime::new(client, RecordingTools { calls: Vec::new() }, "m".into(), "sys".into(), 2);
    let s = rt.run_turn("q").unwrap();
    assert_eq!(s.tool_calls_made, 2);
    assert_eq!(s.assistant_text, "");
    // the prompt, then two rounds of a tool call and its result
    assert_eq!(rt.session.messages.len(), 5);
}

#[test]
fn api_errors_keep_the_prompt() {
    let client = ScriptedClient { replies: VecDeque::new(), seen_systems: Vec::new() };
    let mut rt = ConversationRuntime::new(client, RecordingTools { calls: Vec::new() }, "m".into(), "sys".into(), 2);
    let e = rt.run_turn("hello").unwrap_err();
    assert_eq!(e.message(), "API error: no more replies");
    assert_eq!(rt.session.messages.len(), 1);
}

#[test]
fn model_can_be_switched_and_session_reset() {
    let client = ScriptedClient { replies: VecDeque::new(), seen_systems: Vec::new() };
    let mut rt = ConversationRuntime::new(client, RecordingTools { calls: Vec::new() }, "m1".into(), "sys".into(), 2);
    assert_eq!(rt.model(), "m1");
    rt.set_model("m2".to_string());
    assert_eq!(rt.model(), "m2");
    rt.session.workspace_root = Some(std::path::PathBuf::from("/w"));
    let _ = rt.run_turn("x");
    rt.reset_session();
    assert!(rt.session.messages.is_empty());
    assert_eq!(rt.session.workspace_root, Some(std::path::PathBuf::from("/w")));
}

#[test]
fn error_messages() {
    assert_eq!(RuntimeError::Api("x".into()).message(), "API error: x");
    assert_eq!(
        RuntimeError::Tool { tool_name: "t".into(), message: "m".into() }.message(),
        "Tool 't': m"
    );
    assert_eq!(RuntimeError::MaxIterations(25).message(), "Max iterations (25) exceeded");
    assert_eq!(RuntimeError::Session("s".into()).message(), "Session error: s");
    let e: RuntimeError = anyhow::Error::msg("outer problem").into();
    assert_eq!(e.message(), "outer problem");
}

#[test]
fn usage_tracker_wraps() {
    let mut u = UsageTracker::new();
    u.add(&TokenUsage { input_tokens: 3, output_tokens: 4 });
    u.add(&TokenUsage { input_tokens: u32::MAX, output_tokens: 1 });
    assert_eq!(u.total_input_tokens, 2);
    assert_eq!(u.total_output_tokens, 5);
}

#[test]
fn hooks_and_policy_allow_everything() {
    assert!(PermissionPolicy::new_allow_all().check("anything"));
    assert!(matches!(HookRunner::new().pre_tool_use("t", "{}"), HookResult::Allow));
    assert!(matches!(HookRunner::new().post_tool_use("t", "out"), HookResult::Allow));
}

#[test]
fn registry_keeps_registration_order() {
    let mut r = GlobalToolRegistry::new();
    for n in ["a", "b"] {
        r.register(ToolSpec {
            name: n.to_string(),
            description: String::new(),
            input_schema: serde_json::Value::Null,
        });
    }
    let names: Vec<String> = r.specs().iter().map(|s| s.name.clone()).collect();
    assert_eq!(names, vec!["a".to_string(), "b".to_string()]);
    assert_eq!(r.to_vec().len(), 2);
}

#[test]
fn prompt_segments_are_joined_by_blank_lines() {
    let mut b = SystemPromptBuilder::new();
    b.add_segment("one");
    b.add_segment("");
    b.add_segment("two");
    assert_eq!(b.assemble(), "one\n\ntwo");
    assert_eq!(
        SystemPromptBuilder::environment_info("2026-05-01", "linux"),
        "## 环境信息\n- 当前日期: 2026-05-01\n- 平台: linux\n- 运行模式: CLI REPL"
    );
}

#[test]
fn default_prompt_layout() {
    let p = SystemPromptBuilder::build_default_on("2026-05-01", "macos");
    assert!(p.starts_with("你是 CCTraveler AI 出行规划助手"));
    assert!(p.contains(&format!("\n\n{DYNAMIC_BOUNDARY}\n\n## 环境信息\n- 当前日期: 2026-05-01\n- 平台: macos")));
    assert!(p.contains(&format!("运行模式: CLI REPL\n\n{PROJECT_CONTEXT}\n\n## 回复规范")));
    let today = SystemPromptBuilder::build_default("linux");
    assert!(today.contains("- 平台: linux"));
}

#[test]
fn compaction_summary_lists_tools_and_timeline() {
    let msgs = vec![
        ConversationMessage {
            role: MessageRole::User,
            content: vec![ContentBlock::Text { text: "hi".into() }],
            usage: None,
        },
        ConversationMessage {
            role: MessageRole::Assistant,
            content: vec![
                ContentBlock::ToolUse { id: "1".into(), name: "wiki".into(), input: serde_json::Value::Null },
                ContentBlock::ToolUse { id: "2".into(), name: "wiki".into(), input: serde_json::Value::Null },
                ContentBlock::Text { text: "ok".into() },
            ],
            usage: None,
        },
    ];
    assert_eq!(
        build_compaction_summary(&msgs, 6),
        "Session summary (6 messages compacted to 4):\nTools used: wiki\nTimeline:\n[User] hi\n[Assistant] ok"
    );
}

#[test]
fn stream_assembly() {
    let items = vec![
        StreamItem::MessageStart { usage: Some(UsageInfo { input_tokens: Some(12), output_tokens: None }) },
        StreamItem::BlockStart { index: 0, block_type: "text".into(), text: Some(String::new()), id: None, name: None },
        StreamItem::BlockDelta { index: 0, delta_type: "text_delta".into(), text: Some("Hel".into()), partial_json: None },
        StreamItem::BlockDelta { index: 0, delta_type: "text_delta".into(), text: Some("lo".into()), partial_json: None },
        StreamItem::BlockStart { index: 1, block_type: "tool_use".into(), text: None, id: Some("tu".into()), name: Some("wiki".into()) },
        StreamItem::BlockDelta { index: 1, delta_type: "input_json_delta".into(), text: None, partial_json: Some("{\"a\":".into()) },
        StreamItem::BlockDelta { index: 1, delta_type: "input_json_delta".into(), text: None, partial_json: Some("1}".into()) },
        StreamItem::MessageDelta { stop_reason: Some("tool_use".into()), usage: Some(UsageInfo { input_tokens: None, output_tokens: Some(7) }) },
    ];
    let evs = assemble_stream(&items);
    let mut texts = Vec::new();
    let mut tool = None;
    let mut stop = None;
    let mut usage = None;
    for e in &evs {
        match e {
            AssistantEvent::ContentBlock(ContentBlock::Text { text }) => texts.push(text.clone()),
            AssistantEvent::ContentBlock(ContentBlock::ToolUse { id, name, input }) => {
                tool = Some((id.clone(), name.clone(), input.clone()))
            }
            AssistantEvent::StopReason(s) => stop = Some(s.clone()),
            AssistantEvent::Usage(u) => usage = Some((u.input_tokens, u.output_tokens)),
            _ => {}
        }
    }
    assert_eq!(texts, vec!["Hello".to_string()]);
    let (id, name, input) = tool.unwrap();
    assert_eq!((id.as_str(), name.as_str()), ("tu", "wiki"));
    assert_eq!(input, serde_json::from_str::<serde_json::Value>("{\"a\":1}").unwrap());
    assert_eq!(stop.as_deref(), Some("tool_use"));
    assert_eq!(usage, Some((12, 7)));
}
