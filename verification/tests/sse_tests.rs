use cctraveler::framing::{encode_sse_body, SseFramer};
use cctraveler::sse::{parse_sse_body, parse_sse_lines, SseEvent};

fn pairs(evs: &[SseEvent]) -> Vec<(String, String)> {
    evs.iter().map(|e| (e.event_type.clone(), e.data.clone())).collect()
}

#[test]
fn body_with_two_events() {
    let body = "event: message_start\ndata: {\"a\":1}\n\nevent:  ping \ndata: {}\n\n";
    let evs = parse_sse_body(body);
    assert_eq!(
        pairs(&evs),
        vec![
            ("message_start".to_string(), "{\"a\":1}".to_string()),
            ("ping".to_string(), "{}".to_string())
        ]
    );
}

#[test]
fn final_event_without_blank_line_is_kept() {
    let evs = parse_sse_body("data: last");
    assert_eq!(pairs(&evs), vec![(String::new(), "last".to_string())]);
}

#[test]
fn events_without_data_are_dropped() {
    let evs = parse_sse_body("event: ping\n\n: comment\n\n");
    assert!(evs.is_empty());
}

#[test]
fn lines_reader() {
    let lines = vec![
        "event: a".to_string(),
        "data: 1".to_string(),
        String::new(),
        "data: 2".to_string(),
    ];
    let evs = parse_sse_lines(lines);
    assert_eq!(
        pairs(&evs),
        vec![("a".to_string(), "1".to_string()), (String::new(), "2".to_string())]
    );
}

#[test]
fn framer_waits_for_complete_frames() {
    let mut f = SseFramer::new();
    assert!(f.feed("event: a\nda").is_empty());
    assert!(f.feed("ta: 1\n").is_empty());
    let evs = f.feed("\nevent: b\ndata: 2\n\n\n\ndata: 3");
    assert_eq!(
        pairs(&evs),
        vec![("a".to_string(), "1".to_string()), ("b".to_string(), "2".to_string())]
    );
    let evs = f.feed("\n\n");
    assert_eq!(pairs(&evs), vec![(String::new(), "3".to_string())]);
}

#[test]
fn framer_chunking_does_not_matter() {
    let text = "event: x\ndata: 1\n\nevent: y\ndata: 2\n\n";
    let mut whole = SseFramer::new();
    let all = pairs(&whole.feed(text));
    let mut split = SseFramer::new();
    let mut got = Vec::new();
    for i in 0..text.len() {
        got.extend(pairs(&split.feed(&text[i..i + 1])));
    }
    assert_eq!(all, got);
    assert_eq!(all.len(), 2);
}

#[test]
fn encode_then_parse_round_trip() {
    let evs = vec![
        SseEvent { event_type: "message_start".to_string(), data: "{\"x\":1}".to_string() },
        SseEvent { event_type: String::new(), data: "plain".to_string() },
    ];
    let body = encode_sse_body(&evs);
    assert_eq!(body, "event: message_start\ndata: {\"x\":1}\n\ndata: plain\n\n");
    assert_eq!(pairs(&parse_sse_body(&body)), pairs(&evs));
}
