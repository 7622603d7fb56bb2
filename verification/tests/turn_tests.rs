use cctraveler::conversation::{refusal_block, response_message, tool_result_block, ConversationRuntime, ToolRefusal};
use cctraveler::slash::{oneshot_prompt, prompt_from_stdin};
use cctraveler::stream::tool_input_of;
use cctraveler::tomltree::{layer_config_texts, TomlNode};
use cctraveler::toolcalls::{travel_tool, HotelTool, TravelTool};
use cctraveler::types::{
    ApiClient, ApiRequest, AssistantEvent, ContentBlock, MessageRole, RuntimeError, TextDeltaSink,
    TokenUsage, ToolEvent, ToolEventSink, ToolExecutor, ToolSpec,
};
use std::cell::RefCell;
use std::rc::Rc;

type RequestLog = Rc<RefCell<Vec<(String, String, usize, usize, u32)>>>;

struct OneReply {
    reply: Option<Vec<AssistantEvent>>,
    requests: RequestLog,
}

impl ApiClient for OneReply {
    fn stream(&mut self, request: ApiRequest) -> Result<Vec<AssistantEvent>, RuntimeError> {
        self.requests.borrow_mut().push((
            request.model.clone(),
            request.system.clone(),
            request.messages.len(),
            request.tools.len(),
            request.max_tokens,
        ));
        match self.reply.take() {
            Some(r) => Ok(r),
            None => Err(RuntimeError::Api("gone".to_string())),
        }
    }
}

struct TwoTools;

impl ToolExecutor for TwoTools {
    fn execute(&mut self, tool_name: &str, _input: &str) -> Result<String, RuntimeError> {
        Ok(tool_name.to_string())
    }

    fn tool_specs(&self) -> Vec<ToolSpec> {
        vec![
            ToolSpec { name: "a".to_string(), description: "A".to_string(), input_schema: serde_json::Value::Null },
            ToolSpec { name: "b".to_string(), description: "B".to_string(), input_schema: serde_json::Value::Null },
        ]
    }
}

fn text(t: &str) -> AssistantEvent {
    AssistantEvent::ContentBlock(ContentBlock::Text { text: t.to_string() })
}

#[test]
fn zero_iterations_give_an_empty_summary() {
    let client = OneReply { reply: Some(vec![text("hi")]), requests: RequestLog::default() };
    let mut rt = ConversationRuntime::new(client, TwoTools, "m".to_string(), "s".to_string(), 0);
    let s = rt.run_turn("hello").unwrap();
    assert_eq!(s.assistant_text, "");
    assert_eq!(s.tool_calls_made, 0);
    assert_eq!(s.input_tokens, 0);
    assert_eq!(s.output_tokens, 0);
    assert_eq!(rt.session.messages.len(), 1);
}

#[test]
fn the_request_carries_session_model_system_tools_and_token_limit() {
    let log = RequestLog::default();
    let client = OneReply {
        reply: Some(vec![text("hi"), AssistantEvent::StopReason("end_turn".to_string())]),
        requests: log.clone(),
    };
    let mut rt = ConversationRuntime::new(client, TwoTools, "model-x".to_string(), "sys-y".to_string(), 3);
    let s = rt.run_turn("hello").unwrap();
    assert_eq!(
        *log.borrow(),
        vec![("model-x".to_string(), "sys-y".to_string(), 1, 2, 4096)]
    );
    assert_eq!(s.assistant_text, "hi");
    assert_eq!(rt.tools().len(), 2);
    assert_eq!(rt.session.messages.len(), 2);
    assert_eq!(rt.session.messages[1].role, MessageRole::Assistant);
}

#[test]
fn the_client_error_comes_back_unchanged() {
    let client = OneReply { reply: None, requests: RequestLog::default() };
    let mut rt = ConversationRuntime::new(client, TwoTools, "m".to_string(), "s".to_string(), 3);
    match rt.run_turn("hello") {
        Err(RuntimeError::Api(m)) => assert_eq!(m, "gone"),
        other => panic!("unexpected: {other:?}"),
    }
    assert_eq!(rt.session.messages.len(), 1);
    assert_eq!(rt.usage().total_input_tokens, 0);
}

#[test]
fn tool_results_from_outcomes() {
    let id = "t9".to_string();
    match tool_result_block(&id, Ok("out".to_string())) {
        ContentBlock::ToolResult { tool_use_id, output, is_error } => {
            assert_eq!(tool_use_id, "t9");
            assert_eq!(output, "out");
            assert!(!is_error);
        }
        other => panic!("unexpected: {other:?}"),
    }
    let e = RuntimeError::Tool { tool_name: "x".to_string(), message: "boom".to_string() };
    let expected = format!("Error: {}", e.message());
    match tool_result_block(&id, Err(e)) {
        ContentBlock::ToolResult { output, is_error, .. } => {
            assert_eq!(output, expected);
            assert!(is_error);
        }
        other => panic!("unexpected: {other:?}"),
    }
}

#[test]
fn refusal_texts() {
    let id = "t1".to_string();
    let cases = [
        (ToolRefusal::PreHook("no".to_string()), "Tool denied by hook: no"),
        (ToolRefusal::Permission, "Permission denied for tool: wiki"),
        (ToolRefusal::PostHook("bad".to_string()), "Tool result rejected by hook: bad"),
    ];
    for (refusal, want) in cases {
        match refusal_block(&id, "wiki", refusal) {
            ContentBlock::ToolResult { tool_use_id, output, is_error } => {
                assert_eq!(tool_use_id, "t1");
                assert_eq!(output, want);
                assert!(is_error);
            }
            other => panic!("unexpected: {other:?}"),
        }
    }
}

#[test]
fn a_response_becomes_an_assistant_message() {
    let events = vec![
        text("a"),
        AssistantEvent::Usage(TokenUsage { input_tokens: 3, output_tokens: 4 }),
        AssistantEvent::StopReason("tool_use".to_string()),
        text("b"),
        AssistantEvent::Usage(TokenUsage { input_tokens: 1, output_tokens: 1 }),
        AssistantEvent::StopReason("end_turn".to_string()),
    ];
    let (msg, stop) = response_message(&events);
    assert_eq!(msg.role, MessageRole::Assistant);
    assert_eq!(msg.content.len(), 2);
    let u = msg.usage.unwrap();
    assert_eq!((u.input_tokens, u.output_tokens), (4, 5));
    assert_eq!(stop, "end_turn");
}

#[test]
fn text_deltas_by_default_come_from_the_text_blocks() {
    let mut client = OneReply {
        reply: Some(vec![text("one"), AssistantEvent::StopReason("end_turn".to_string()), text("two")]),
        requests: RequestLog::default(),
    };
    let seen = RefCell::new(Vec::new());
    let request = ApiRequest {
        model: "m".to_string(),
        system: "s".to_string(),
        messages: Vec::new(),
        tools: Vec::new(),
        max_tokens: 4096,
    };
    let mut sink = TextDeltaSink::new(|t: &str| seen.borrow_mut().push(t.to_string()));
    let events = client.stream_with_text_delta(request, &mut sink).unwrap();
    assert_eq!(events.len(), 3);
    assert_eq!(*seen.borrow(), vec!["one".to_string(), "two".to_string()]);
}

#[test]
fn tool_names_dispatch() {
    assert_eq!(travel_tool("wiki").unwrap(), TravelTool::Wiki);
    assert_eq!(travel_tool("plan_trip").unwrap(), TravelTool::PlanTrip);
    assert_eq!(travel_tool("search_hotels").unwrap(), TravelTool::Hotel(HotelTool::Search));
    match travel_tool("nonexistent_tool") {
        Err(RuntimeError::Tool { tool_name, message }) => {
            assert_eq!(tool_name, "nonexistent_tool");
            assert_eq!(message, "Unknown tool");
        }
        other => panic!("unexpected: {other:?}"),
    }
}

#[test]
fn oneshot_prompt_choice() {
    assert!(prompt_from_stdin(None));
    assert!(prompt_from_stdin(Some("   ")));
    assert!(!prompt_from_stdin(Some(" hi ")));
    assert_eq!(oneshot_prompt("  去上海 \n").unwrap(), "去上海");
    assert!(oneshot_prompt(" \n\t").is_none());
}

#[test]
fn tool_input_falls_back_to_an_empty_object() {
    let parsed: serde_json::Value = serde_json::from_str("{\"a\":1}").unwrap();
    assert_eq!(tool_input_of("{\"a\":1}"), parsed);
    assert_eq!(tool_input_of("{\"a\":"), serde_json::Value::Object(serde_json::Map::new()));
}

fn lookup<'a>(n: &'a TomlNode, key: &str) -> Option<&'a TomlNode> {
    match n {
        TomlNode::Table(es) => es.iter().find(|e| e.key == key).map(|e| &e.value),
        TomlNode::Leaf(_) => None,
    }
}

#[test]
fn config_texts_are_laid_over_in_order() {
    let texts = vec![
        "[agent]\nmodel = \"a\"\nmax_turns = 5\n".to_string(),
        "[agent]\nmodel = \"b\"\n".to_string(),
    ];
    let merged = layer_config_texts(&texts).unwrap();
    let agent = lookup(&merged, "agent").unwrap();
    match lookup(agent, "model").unwrap() {
        TomlNode::Leaf(v) => assert_eq!(v.as_str(), Some("b")),
        _ => panic!("model is a table"),
    }
    match lookup(agent, "max_turns").unwrap() {
        TomlNode::Leaf(v) => assert_eq!(v.as_integer(), Some(5)),
        _ => panic!("max_turns is a table"),
    }
}

#[test]
fn the_first_bad_config_text_is_named() {
    let texts = vec!["a = 1\n".to_string(), "[broken\n".to_string(), "also broken [".to_string()];
    assert_eq!(layer_config_texts(&texts).unwrap_err(), 1);
}

struct ToolThenAnswer {
    replies: Vec<Vec<AssistantEvent>>,
}

impl ApiClient for ToolThenAnswer {
    fn stream(&mut self, _request: ApiRequest) -> Result<Vec<AssistantEvent>, RuntimeError> {
        if self.replies.is_empty() {
            Err(RuntimeError::Api("done".to_string()))
        } else {
            Ok(self.replies.remove(0))
        }
    }
}

struct CountingTools {
    runs: Rc<RefCell<Vec<String>>>,
}

impl ToolExecutor for CountingTools {
    fn execute(&mut self, tool_name: &str, input: &str) -> Result<String, RuntimeError> {
        self.runs.borrow_mut().push(format!("{tool_name} {input}"));
        if tool_name == "broken" {
            Err(RuntimeError::Tool { tool_name: tool_name.to_string(), message: "boom".to_string() })
        } else {
            Ok("fine".to_string())
        }
    }

    fn tool_specs(&self) -> Vec<ToolSpec> {
        Vec::new()
    }
}

fn call(id: &str, name: &str) -> AssistantEvent {
    AssistantEvent::ContentBlock(ContentBlock::ToolUse {
        id: id.to_string(),
        name: name.to_string(),
        input: serde_json::from_str("{\"x\":1}").unwrap(),
    })
}

#[test]
fn tool_events_and_runs_follow_the_calls_in_order() {
    let client = ToolThenAnswer {
        replies: vec![
            vec![call("1", "wiki"), call("2", "broken"), AssistantEvent::StopReason("tool_use".to_string())],
            vec![text("ok"), AssistantEvent::StopReason("end_turn".to_string())],
        ],
    };
    let runs = Rc::new(RefCell::new(Vec::new()));
    let tools = CountingTools { runs: runs.clone() };
    let mut rt = ConversationRuntime::new(client, tools, "m".to_string(), "s".to_string(), 5);
    let seen: RefCell<Vec<String>> = RefCell::new(Vec::new());
    let mut sink = ToolEventSink::new(|ev: &ToolEvent| {
        let line = match ev {
            ToolEvent::Start { name, .. } => format!("start {name}"),
            ToolEvent::Finish { name, ok, .. } => format!("finish {name} {ok}"),
        };
        seen.borrow_mut().push(line);
    });
    let s = rt.run_turn_observed("go", &mut sink).unwrap();
    assert_eq!(s.assistant_text, "ok");
    assert_eq!(s.tool_calls_made, 2);
    assert_eq!(*runs.borrow(), vec!["wiki {\"x\":1}".to_string(), "broken {\"x\":1}".to_string()]);
    assert_eq!(
        *seen.borrow(),
        vec![
            "start wiki".to_string(),
            "finish wiki true".to_string(),
            "start broken".to_string(),
            "finish broken false".to_string(),
        ]
    );
}
