use cctraveler::display::{
    short_value, summarize_input, tool_line, tools_heading, truncate, InputShape, JsonShape, HELP_TEXT,
};
use cctraveler::models::{parse_sort_by, SortBy};
use cctraveler::slash::{classify_input, Command, ReplInput};

#[test]
fn slash_commands() {
    assert!(matches!(Command::parse("/help"), Some(Command::Help)));
    assert!(matches!(Command::parse("  /?  "), Some(Command::Help)));
    assert!(matches!(Command::parse("/new"), Some(Command::New)));
    assert!(matches!(Command::parse("/clear"), Some(Command::Clear)));
    assert!(matches!(Command::parse("/cost"), Some(Command::Cost)));
    assert!(matches!(Command::parse("/tools"), Some(Command::Tools)));
    assert!(matches!(Command::parse("/sessions"), Some(Command::Sessions)));
    assert!(matches!(Command::parse("/q"), Some(Command::Quit)));
    assert!(matches!(Command::parse("/model"), Some(Command::Model(None))));
    match Command::parse("/model   sonnet-x  ") {
        Some(Command::Model(Some(m))) => assert_eq!(m, "sonnet-x"),
        other => panic!("{other:?}"),
    }
    match Command::parse("/export") {
        Some(Command::Export(f)) => assert_eq!(f, "md"),
        other => panic!("{other:?}"),
    }
    match Command::parse("/export json") {
        Some(Command::Export(f)) => assert_eq!(f, "json"),
        other => panic!("{other:?}"),
    }
    match Command::parse("/frob x") {
        Some(Command::Unknown(n)) => assert_eq!(n, "frob"),
        other => panic!("{other:?}"),
    }
    assert!(Command::parse("hello /help").is_none());
}

#[test]
fn repl_input_classes() {
    assert!(matches!(classify_input("   "), ReplInput::Blank));
    assert!(matches!(classify_input("quit"), ReplInput::Quit));
    assert!(matches!(classify_input(" exit "), ReplInput::Quit));
    assert!(matches!(classify_input("/cost"), ReplInput::Slash(Command::Cost)));
    match classify_input("  read @notes.md ") {
        ReplInput::Prompt { text, expand } => {
            assert_eq!(text, "read @notes.md");
            assert!(expand);
        }
        other => panic!("{other:?}"),
    }
    match classify_input("plain") {
        ReplInput::Prompt { expand, .. } => assert!(!expand),
        other => panic!("{other:?}"),
    }
}

#[test]
fn sort_keys() {
    assert!(matches!(parse_sort_by("rating"), SortBy::Rating));
    assert!(matches!(parse_sort_by("star"), SortBy::Star));
    assert!(matches!(parse_sort_by("whatever"), SortBy::Price));
}

#[test]
fn names_are_truncated_with_dots() {
    assert_eq!(truncate("short", 30), "short");
    assert_eq!(truncate("abcdef", 5), "abc..");
    assert_eq!(truncate("北京王府井大饭店", 6), "北京王府..");
    assert_eq!(truncate("ab", 2), "ab");
}

#[test]
fn short_values() {
    assert_eq!(short_value(&JsonShape::Text("北京".into())), "\"北京\"");
    assert_eq!(
        short_value(&JsonShape::Text("abcdefghijklmnopqrstuvwxyz".into())),
        "\"abcdefghijklmnopqr..\""
    );
    assert_eq!(short_value(&JsonShape::Null), "null");
    assert_eq!(short_value(&JsonShape::Bool(true)), "true");
    assert_eq!(short_value(&JsonShape::Number("4.5".into())), "4.5");
    assert_eq!(short_value(&JsonShape::Array(3)), "[3]");
    assert_eq!(short_value(&JsonShape::Object(0)), "{0}");
}

#[test]
fn input_summaries() {
    let obj = InputShape::Object(vec![
        ("city".into(), JsonShape::Text("北京".into())),
        ("min_star".into(), JsonShape::Number("4".into())),
        ("a".into(), JsonShape::Null),
        ("b".into(), JsonShape::Bool(false)),
        ("c".into(), JsonShape::Array(2)),
    ]);
    assert_eq!(summarize_input(&obj), "city=\"北京\", min_star=4, a=null, b=false");
    let long = InputShape::Object(vec![
        ("query".into(), JsonShape::Text("x".repeat(19))),
        ("other".into(), JsonShape::Text("y".repeat(19))),
        ("third".into(), JsonShape::Text("z".repeat(19))),
    ]);
    let s = summarize_input(&long);
    assert_eq!(s.chars().count(), 60);
    assert!(s.ends_with(".."));
    assert_eq!(summarize_input(&InputShape::Other(JsonShape::Array(7))), "[7]");
}

#[test]
fn tool_list_lines() {
    assert_eq!(tool_line("wiki", "Remember things\nmore"), format!("  · wiki{} Remember things", " ".repeat(18)));
    let long_desc = "d".repeat(70);
    let line = tool_line("a_very_long_tool_name_here", &long_desc);
    assert_eq!(line, format!("  · a_very_long_tool_name_here {}..", "d".repeat(58)));
    assert_eq!(tools_heading(12), "已加载 12 个工具：");
    assert!(HELP_TEXT.starts_with("可用斜杠命令：\n  /help, /h, /?"));
}
