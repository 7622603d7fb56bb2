use cctraveler::actions::{
    channels_for_webhooks, forgotten_text, log_only_channels, monitor_op, not_found_text,
    remembered_text, route_text, subscription_expired, ticket_kind, transport_key,
    transport_kind, webhook_channels, wiki_op, MonitorOp, NotifyChannel, TransportKind, WikiOp,
};
use cctraveler::records::{hotels_csv, normalize_city_name, CsvHotel};
use cctraveler::retry::{
    backoff_secs, default_source, is_retryable_status, next_action, scrape_url, AttemptOutcome,
    RetryAction,
};
use cctraveler::toolcalls::{
    build_scrape_summary, cancellation_policy, check_analyze_count, check_search,
    export_file_name, export_format, export_too_large, hotel_tool, room_id, scrape_pages,
    search_limit, stay_nights, stay_nights_between, ExportFormat, HotelLine, HotelTool,
};
use cctraveler::travel::{
    chosen_label, comfort_note, comfort_score, day_attraction_range, day_theme, duration_text,
    flight_time_text, flight_total_minutes, pick_transport, recommend, recommendation_reason,
    route_priority, train_label, travelers_count, trip_days, trip_days_between, RoutePriority,
    RouteSummary, TransportPick,
};
use cctraveler::types::RuntimeError;

fn tool_msg(e: RuntimeError) -> (String, String) {
    match e {
        RuntimeError::Tool { tool_name, message } => (tool_name, message),
        other => panic!("tool error expected, got {}", other.message()),
    }
}

#[test]
fn retryable_statuses() {
    assert!(is_retryable_status(429));
    assert!(is_retryable_status(500));
    assert!(is_retryable_status(503));
    assert!(!is_retryable_status(404));
    assert!(!is_retryable_status(200));
    assert!(!is_retryable_status(600));
}

#[test]
fn backoff_doubles_up_to_thirty_seconds() {
    let waits: Vec<u64> = (0..9).map(backoff_secs).collect();
    assert_eq!(waits, vec![1, 1, 2, 4, 8, 16, 30, 30, 30]);
    assert_eq!(backoff_secs(u64::MAX), 30);
}

#[test]
fn retry_decisions() {
    assert_eq!(next_action(1, AttemptOutcome::Response(200)), RetryAction::Accept);
    assert_eq!(next_action(1, AttemptOutcome::Response(404)), RetryAction::Fail);
    assert_eq!(next_action(3, AttemptOutcome::Response(502)), RetryAction::Wait(4));
    assert_eq!(next_action(1, AttemptOutcome::ConnectFailed), RetryAction::Fail);
    assert_eq!(next_action(7, AttemptOutcome::NetworkFailed), RetryAction::Wait(30));
    assert_eq!(default_source(), "trip");
    assert_eq!(scrape_url("http://localhost:8300", "trains"), "http://localhost:8300/scrape/trains");
}

#[test]
fn trains_are_rated_and_named() {
    assert_eq!(comfort_score("G"), 9);
    assert_eq!(comfort_score("D"), 8);
    assert_eq!(comfort_score("C"), 8);
    assert_eq!(comfort_score("Z"), 7);
    assert_eq!(comfort_score("T"), 6);
    assert_eq!(comfort_score("K"), 5);
    assert_eq!(train_label("G"), "高铁");
    assert_eq!(train_label("K"), "火车");
    assert_eq!(comfort_note("D"), "较舒适，市区直达");
    assert_eq!(comfort_note("T"), "经济实惠，适合不赶时间的行程");
}

#[test]
fn durations_read_in_hours_and_minutes() {
    assert_eq!(duration_text(270), "4小时30分");
    assert_eq!(duration_text(45), "0小时45分");
    assert_eq!(duration_text(-75), "-1小时-15分");
    assert_eq!(flight_total_minutes(135), 255);
    assert_eq!(flight_time_text(135), "2小时15分飞行 + 2小时机场时间 = 4小时15分");
}

#[test]
fn recommendation_by_priority() {
    let routes = vec![
        RouteSummary { total_minutes: 270, cost_rank: 553, comfort: 9 },
        RouteSummary { total_minutes: 255, cost_rank: 900, comfort: 7 },
        RouteSummary { total_minutes: 255, cost_rank: 553, comfort: 9 },
    ];
    assert_eq!(recommend(RoutePriority::Time, &routes), Some(1));
    assert_eq!(recommend(RoutePriority::Cost, &routes), Some(0));
    assert_eq!(recommend(RoutePriority::Other, &routes), Some(0));
    assert_eq!(recommend(RoutePriority::Comfort, &routes), Some(2));
    assert_eq!(recommend(RoutePriority::Time, &[]), None);
    assert_eq!(route_priority(None), RoutePriority::Cost);
    assert_eq!(route_priority(Some("time")), RoutePriority::Time);
    assert_eq!(route_priority(Some("comfort")), RoutePriority::Comfort);
    assert_eq!(route_priority(Some("fun")), RoutePriority::Other);
    assert_eq!(recommendation_reason(RoutePriority::Time, "高铁"), "高铁总时间最短，适合赶时间的行程");
    assert_eq!(recommendation_reason(RoutePriority::Other, "飞机"), "飞机综合性价比最优");
    let labels = vec!["高铁".to_string(), "飞机".to_string()];
    assert_eq!(chosen_label(Some(1), &[true, true], &labels), "飞机");
    assert_eq!(chosen_label(Some(1), &[true, false], &labels), "未知");
    assert_eq!(chosen_label(None, &[true, true], &labels), "未知");
}

#[test]
fn trip_dates_are_checked() {
    assert_eq!(trip_days_between("2026-05-01", "2026-05-04").unwrap(), 3);
    assert_eq!(
        tool_msg(trip_days_between("2026-5-x", "2026-05-04").unwrap_err()),
        ("plan_trip".to_string(), "出发日期格式错误，应为 YYYY-MM-DD".to_string())
    );
    assert_eq!(
        tool_msg(trip_days_between("2026-05-01", "bad").unwrap_err()).1,
        "返回日期格式错误，应为 YYYY-MM-DD"
    );
    assert_eq!(
        tool_msg(trip_days_between("2026-05-04", "2026-05-04").unwrap_err()).1,
        "返回日期必须晚于出发日期"
    );
    assert_eq!(
        tool_msg(trip_days_between("2026-05-01", "2026-06-01").unwrap_err()).1,
        "行程不能超过 30 天"
    );
    assert_eq!(trip_days(Some(10), Some(40)).unwrap(), 30);
    assert_eq!(travelers_count(None), 1);
    assert_eq!(travelers_count(Some(0)), 1);
    assert_eq!(travelers_count(Some(3)), 3);
}

#[test]
fn trip_days_are_laid_out() {
    assert_eq!(day_theme(0, 3), "抵达 & 初探");
    assert_eq!(day_theme(1, 3), "深度游览");
    assert_eq!(day_theme(2, 3), "返程");
    assert_eq!(day_attraction_range(0, 5), (0, 2));
    assert_eq!(day_attraction_range(2, 5), (4, 5));
    assert_eq!(day_attraction_range(3, 5), (5, 5));
    assert_eq!(pick_transport(RoutePriority::Cost, true, true, false), Some(TransportPick::Flight));
    assert_eq!(pick_transport(RoutePriority::Comfort, true, true, false), Some(TransportPick::Train));
    assert_eq!(pick_transport(RoutePriority::Time, true, true, true), Some(TransportPick::Train));
    assert_eq!(pick_transport(RoutePriority::Cost, false, true, true), Some(TransportPick::Flight));
    assert_eq!(pick_transport(RoutePriority::Cost, false, false, true), None);
}

#[test]
fn wiki_requests() {
    match wiki_op("remember", Some("t".into()), Some("k".into()), Some("v".into()), None).unwrap() {
        WikiOp::Remember { topic, key, value, metadata } => {
            assert_eq!((topic.as_str(), key.as_str(), value.as_str()), ("t", "k", "v"));
            assert!(metadata.is_none());
        }
        other => panic!("{other:?}"),
    }
    assert!(matches!(wiki_op("list", None, None, None, None).unwrap(), WikiOp::List { topic: None }));
    assert!(matches!(wiki_op("forget", Some("t".into()), Some("k".into()), None, None).unwrap(), WikiOp::Forget { .. }));
    assert_eq!(
        tool_msg(wiki_op("remember", Some("t".into()), None, None, None).unwrap_err()),
        ("wiki".to_string(), "remember requires key".to_string())
    );
    assert_eq!(tool_msg(wiki_op("recall", None, None, None, None).unwrap_err()).1, "recall requires topic");
    assert_eq!(
        tool_msg(wiki_op("dance", None, None, None, None).unwrap_err()).1,
        "Unknown action: dance. Use remember/recall/list/forget."
    );
    assert_eq!(remembered_text("prefs", "budget", "800"), "已记住: [prefs] budget = 800");
    assert_eq!(not_found_text("prefs", "x"), "未找到 [prefs] x 的记录。");
    assert_eq!(forgotten_text("prefs", "star"), "已删除: [prefs] star");
}

#[test]
fn price_monitor_requests() {
    match monitor_op("subscribe", Some("北京".into()), Some("上海".into()), None, true, None, None).unwrap() {
        MonitorOp::Subscribe { from_city, to_city, transport_type, user_id } => {
            assert_eq!(from_city, "北京");
            assert_eq!(to_city, "上海");
            assert_eq!(transport_type, "train");
            assert_eq!(user_id, "default");
        }
        other => panic!("{other:?}"),
    }
    assert_eq!(
        tool_msg(monitor_op("subscribe", Some("a".into()), Some("b".into()), None, false, None, None).unwrap_err()),
        ("price_monitor".to_string(), "subscribe 需要 threshold（价格阈值）".to_string())
    );
    assert_eq!(
        tool_msg(monitor_op("unsubscribe", None, None, None, false, None, None).unwrap_err()).1,
        "unsubscribe 需要 subscription_id"
    );
    assert!(matches!(monitor_op("check", None, None, None, false, None, Some("u".into())).unwrap(), MonitorOp::Check { .. }));
    assert_eq!(
        tool_msg(monitor_op("x", None, None, None, false, None, None).unwrap_err()).1,
        "Unknown action: x. Use subscribe/list/unsubscribe/check."
    );
    assert_eq!(ticket_kind("train"), "火车票");
    assert_eq!(ticket_kind("flight"), "机票");
    assert_eq!(route_text("北京", "上海"), "北京 → 上海");
}

#[test]
fn subscriptions_expire_by_date_order() {
    assert!(subscription_expired("2026-01-07T00:00:00+00:00", "2026-01-08"));
    assert!(!subscription_expired("2026-01-08T00:00:00+00:00", "2026-01-08"));
    assert!(!subscription_expired("2026-01-09", "2026-01-08"));
    assert!(subscription_expired("", "2026-01-08"));
    assert!(!subscription_expired("2026", "2026"));
    assert_eq!(transport_kind("train"), TransportKind::Train);
    assert_eq!(transport_kind("flight"), TransportKind::Flight);
    assert_eq!(transport_kind("bus"), TransportKind::Unknown);
}

#[test]
fn notification_channels() {
    assert!(matches!(log_only_channels().as_slice(), [NotifyChannel::LogOnly]));
    match webhook_channels("http://hook".into()).as_slice() {
        [NotifyChannel::Webhook { url }, NotifyChannel::LogOnly] => assert_eq!(url, "http://hook"),
        other => panic!("{other:?}"),
    }
    let cs = channels_for_webhooks(vec!["a".into(), "b".into()]);
    assert_eq!(cs.len(), 3);
    assert!(matches!(cs[2], NotifyChannel::LogOnly));
    assert_eq!(transport_key("train", "北京", "上海", "2026-05-01"), "train:北京:上海:2026-05-01");
}

#[test]
fn hotel_tool_checks() {
    assert_eq!(hotel_tool("search_hotels").unwrap(), HotelTool::Search);
    assert_eq!(hotel_tool("export_report").unwrap(), HotelTool::Export);
    assert_eq!(
        tool_msg(hotel_tool("nonexistent_tool").unwrap_err()),
        ("nonexistent_tool".to_string(), "Unknown tool".to_string())
    );
    assert_eq!(stay_nights_between("2026-05-01", "2026-05-03").unwrap(), 2);
    assert_eq!(
        tool_msg(stay_nights_between("05/01/2026", "2026-05-03").unwrap_err()),
        ("scrape_hotels".to_string(), "入住日期格式错误，应为 YYYY-MM-DD".to_string())
    );
    assert_eq!(tool_msg(stay_nights(Some(5), Some(5)).unwrap_err()).1, "退房日期必须晚于入住日期");
    assert_eq!(tool_msg(stay_nights(Some(0), Some(31)).unwrap_err()).1, "住宿天数不能超过 30 天");
    assert_eq!(scrape_pages(None), 10);
    assert_eq!(scrape_pages(Some(2)), 2);
    assert_eq!(scrape_pages(Some(50)), 50);
    assert_eq!(scrape_pages(Some(51)), 50);
    assert_eq!(search_limit(None), 20);
    assert_eq!(search_limit(Some(500)), 100);
    assert!(check_search(false, false, false, Some(4), false).is_none());
    assert_eq!(tool_msg(check_search(false, false, false, Some(6), false).unwrap()).1, "星级必须在 1-5 之间");
    assert_eq!(tool_msg(check_search(true, true, false, None, false).unwrap()).1, "最低价格不能为负数");
    assert_eq!(tool_msg(check_search(false, false, true, None, true).unwrap()).1, "最高价格不能低于最低价格");
    assert_eq!(tool_msg(check_analyze_count(0).unwrap()).1, "至少需要提供一个酒店 ID");
    assert_eq!(tool_msg(check_analyze_count(11).unwrap()).1, "最多只能同时分析 10 个酒店");
    assert!(check_analyze_count(10).is_none());
    assert_eq!(export_format("csv").unwrap(), ExportFormat::Csv);
    assert_eq!(tool_msg(export_format("xml").unwrap_err()).1, "Unsupported format: xml. Use csv or json.");
    assert!(export_too_large(50 * 1024 * 1024 + 1));
    assert!(!export_too_large(50 * 1024 * 1024));
    assert_eq!(export_file_name("20260501_120000", "csv"), "hotels_export_20260501_120000.csv");
    assert_eq!(room_id("h1", 2), "h1-room-2");
    assert_eq!(cancellation_policy(Some(true)).as_deref(), Some("免费取消"));
    assert_eq!(cancellation_policy(Some(false)), None);
}

#[test]
fn scrape_summary_lists_first_ten() {
    let hotels: Vec<HotelLine> = (0..12)
        .map(|i| HotelLine {
            name: format!("H{i}"),
            star: if i == 0 { Some(3) } else { None },
            rating_text: "4.5".into(),
            price_text: "¥300".into(),
            room_count: 2,
        })
        .collect();
    let s = build_scrape_summary(&hotels, "上海");
    assert!(s.starts_with("成功爬取 上海 的 12 家酒店：\n1. H0 ★★★ 评分:4.5 ¥300 (2个房型)\n2. H1 - 评分:4.5"));
    assert!(s.contains("\n10. H9 "));
    assert!(!s.contains("H10"));
    assert!(s.ends_with("\n... 还有 2 家酒店\n\n数据已存入本地数据库，可用 search_hotels 进一步筛选。"));
}

#[test]
fn city_names_are_normalised() {
    assert_eq!(normalize_city_name("  北京 "), "北京");
    assert_eq!(normalize_city_name("遵义 (贵州)"), "遵义");
    assert_eq!(normalize_city_name("遵义（贵州）"), "遵义");
    assert_eq!(normalize_city_name("a(b"), "a(b");
    assert_eq!(normalize_city_name("x) y"), "x) y");
}

#[test]
fn csv_export_lines() {
    let rows = vec![CsvHotel {
        id: "h1".into(),
        name: "Inn, Central".into(),
        city: "北京".into(),
        star: Some(4),
        rating_text: "4.6".into(),
        price_text: "320".into(),
        room: None,
    }];
    assert_eq!(
        hotels_csv(&rows),
        "id,name,city,star,rating,price,room\nh1,Inn  Central,北京,4,4.6,320,-\n"
    );
}
