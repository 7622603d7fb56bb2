use cctraveler::geo::{city_info_kind, district_recommendation, metro_text, nearby_limit, CityInfoKind};
use cctraveler::types::RuntimeError;

#[test]
fn city_info_kinds_and_default() {
    assert_eq!(city_info_kind(None).unwrap(), CityInfoKind::Overview);
    assert_eq!(city_info_kind(Some("districts")).unwrap(), CityInfoKind::Districts);
    assert_eq!(city_info_kind(Some("attractions")).unwrap(), CityInfoKind::Attractions);
    assert_eq!(city_info_kind(Some("transport")).unwrap(), CityInfoKind::Transport);
    assert_eq!(city_info_kind(Some("overview")).unwrap(), CityInfoKind::Overview);
}

#[test]
fn unknown_info_type_is_a_tool_error() {
    match city_info_kind(Some("weather")) {
        Err(RuntimeError::Tool { tool_name, message }) => {
            assert_eq!(tool_name, "query_city_info");
            assert_eq!(message, "Unknown info_type: weather");
        }
        other => panic!("unexpected: {other:?}"),
    }
}

#[test]
fn metro_cities() {
    assert_eq!(metro_text("北京"), "有地铁");
    assert_eq!(metro_text("上海"), "有地铁");
    assert_eq!(metro_text("深圳"), "有地铁");
    assert_eq!(metro_text("杭州"), "无地铁");
}

#[test]
fn district_advice() {
    assert_eq!(district_recommendation(Some("静安区")), "建议住静安区，交通便利");
    assert_eq!(district_recommendation(None), "建议住市中心，交通便利");
}

#[test]
fn nearby_limit_defaults_and_caps() {
    assert_eq!(nearby_limit(None), 10);
    assert_eq!(nearby_limit(Some(7)), 7);
    assert_eq!(nearby_limit(Some(50)), 50);
    assert_eq!(nearby_limit(Some(500)), 50);
}
