use cctraveler::session::{needs_rotation, rotated_excess, SessionRecord, SESSION_FORMAT_VERSION};
use cctraveler::transcript::session_to_markdown;
use cctraveler::types::{
    ContentBlock, ConversationMessage, MessageRole, Session, SessionCompaction, TokenUsage,
};
use std::path::PathBuf;

fn text_msg(role: MessageRole, t: &str) -> ConversationMessage {
    ConversationMessage {
        role,
        content: vec![ContentBlock::Text { text: t.to_string() }],
        usage: None,
    }
}

#[test]
fn new_session_is_named_after_its_start() {
    let s = Session::new_at(1700000000123, Some("m".to_string()));
    assert_eq!(s.session_id, "session-1700000000123");
    assert!(s.messages.is_empty());
    assert_eq!(s.model.as_deref(), Some("m"));
    let neg = Session::new_at(-5, None);
    assert_eq!(neg.session_id, "session--5");
}

#[test]
fn records_then_from_records_restores_the_session() {
    let mut s = Session::new_at(1, Some("sonnet".to_string()));
    s.push_message(text_msg(MessageRole::User, "hi"));
    s.push_message(text_msg(MessageRole::Assistant, "hello"));
    s.compaction = Some(SessionCompaction {
        summary: "sum".to_string(),
        original_message_count: 7,
        compacted_at: "now".to_string(),
    });
    let recs = s.records();
    assert_eq!(recs.len(), 4);
    match &recs[0] {
        SessionRecord::Meta { session_id, model, version } => {
            assert_eq!(session_id, "session-1");
            assert_eq!(model.as_deref(), Some("sonnet"));
            assert_eq!(*version, SESSION_FORMAT_VERSION);
        }
        _ => panic!("meta record first"),
    }
    assert!(matches!(recs[1], SessionRecord::Compaction { .. }));
    let ws = PathBuf::from("/tmp/ws");
    let loaded = Session::from_records("session-1", &ws, recs.into_iter().map(Some).collect());
    assert_eq!(loaded.session_id, "session-1");
    assert_eq!(loaded.model.as_deref(), Some("sonnet"));
    assert_eq!(loaded.workspace_root, Some(ws));
    assert_eq!(loaded.compaction.as_ref().map(|c| c.summary.as_str()), Some("sum"));
    assert_eq!(loaded.messages.len(), 2);
    match &loaded.messages[1].content[0] {
        ContentBlock::Text { text } => assert_eq!(text, "hello"),
        _ => panic!("text block"),
    }
}

#[test]
fn unreadable_lines_are_skipped_and_last_meta_wins() {
    let recs = vec![
        None,
        Some(SessionRecord::Meta { session_id: "x".into(), model: Some("a".into()), version: 1 }),
        Some(SessionRecord::Message { message: text_msg(MessageRole::User, "q") }),
        None,
        Some(SessionRecord::Meta { session_id: "x".into(), model: None, version: 1 }),
    ];
    let s = Session::from_records("x", &PathBuf::from("."), recs);
    assert_eq!(s.model, None);
    assert_eq!(s.messages.len(), 1);
    assert!(s.compaction.is_none());
}

#[test]
fn token_estimate_is_a_quarter_of_the_bytes() {
    let mut s = Session::new_at(0, None);
    s.push_message(text_msg(MessageRole::User, "abcdefgh"));
    s.push_message(ConversationMessage {
        role: MessageRole::User,
        content: vec![ContentBlock::ToolResult {
            tool_use_id: "t".into(),
            output: "你好".into(),
            is_error: false,
        }],
        usage: None,
    });
    // 8 bytes + 6 bytes = 14 bytes -> 3 tokens
    assert_eq!(s.estimate_input_tokens(), 3);
    let input: serde_json::Value = serde_json::from_str("{\"a\":1}").unwrap();
    s.push_message(ConversationMessage {
        role: MessageRole::Assistant,
        content: vec![ContentBlock::ToolUse { id: "i".into(), name: "n".into(), input }],
        usage: Some(TokenUsage { input_tokens: 1, output_tokens: 1 }),
    });
    // + 7 bytes of `{"a":1}` -> 21 bytes -> 5 tokens
    assert_eq!(s.estimate_input_tokens(), 5);
}

#[test]
fn prompt_history_records_text() {
    let mut s = Session::new_at(0, None);
    s.push_user_prompt("去遵义");
    assert_eq!(s.prompt_history.len(), 1);
    assert_eq!(s.prompt_history[0].text, "去遵义");
}

#[test]
fn markdown_transcript_names_tool_results() {
    let input: serde_json::Value = serde_json::from_str("{\"city\":\"北京\"}").unwrap();
    let msgs = vec![
        text_msg(MessageRole::User, "找酒店"),
        ConversationMessage {
            role: MessageRole::Assistant,
            content: vec![ContentBlock::ToolUse {
                id: "t1".into(),
                name: "search_hotels".into(),
                input,
            }],
            usage: None,
        },
        ConversationMessage {
            role: MessageRole::User,
            content: vec![
                ContentBlock::ToolResult { tool_use_id: "t1".into(), output: "ok".into(), is_error: false },
                ContentBlock::ToolResult { tool_use_id: "zz".into(), output: "bad".into(), is_error: true },
            ],
            usage: None,
        },
    ];
    let md = session_to_markdown("s-1", "sonnet", 10, 20, &msgs);
    let expected = "# CCTraveler Session `s-1`\n\n- model: `sonnet`\n- tokens: 10 in / 20 out\n\n---\n\n\
**User:** 找酒店\n\n\
**Assistant** → 调用 `search_hotels`：\n```json\n{\n  \"city\": \"北京\"\n}\n```\n\n\
**Tool ✓ search_hotels:**\n```\nok\n```\n\n\
**Tool ✗ ?:**\n```\nbad\n```\n\n";
    assert_eq!(md, expected);
}

#[test]
fn rotation_rules() {
    assert!(!needs_rotation(256 * 1024));
    assert!(needs_rotation(256 * 1024 + 1));
    assert_eq!(rotated_excess(2), 0);
    assert_eq!(rotated_excess(3), 0);
    assert_eq!(rotated_excess(5), 2);
}
