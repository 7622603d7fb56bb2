use cctraveler::config::{
    default_redis_ttl, default_redis_url, layered_sources, legacy_config_names,
    missing_config_message, pick_first_present, project_config_path, AgentConfig, ConfigSource,
    NotificationConfig, RedisConfig,
};
use cctraveler::tomltree::{merge_toml, TomlEntry, TomlNode};

fn agent(key: &str, url: &str) -> AgentConfig {
    AgentConfig {
        model: "m".to_string(),
        max_turns: 5,
        api_key: key.to_string(),
        base_url: url.to_string(),
    }
}

#[test]
fn api_key_prefers_the_configuration() {
    assert_eq!(agent("k1", "").resolve_api_key(Some("env".into())), Some("k1".to_string()));
    assert_eq!(agent("", "").resolve_api_key(Some("env".into())), Some("env".to_string()));
    assert_eq!(agent("", "").resolve_api_key(None), None);
}

#[test]
fn base_url_falls_back_to_env_then_official() {
    assert_eq!(agent("", "http://cfg").resolve_base_url(Some("http://env".into())), "http://cfg");
    assert_eq!(agent("", "").resolve_base_url(Some("http://env".into())), "http://env");
    assert_eq!(agent("", "").resolve_base_url(None), "https://api.anthropic.com");
}

#[test]
fn defaults() {
    assert_eq!(default_redis_url(), "redis://127.0.0.1:6379");
    assert_eq!(default_redis_ttl(), 3600);
    let r = RedisConfig::default();
    assert!(!r.enabled);
    assert_eq!(r.url, "redis://127.0.0.1:6379");
    assert_eq!(r.ttl_seconds, 3600);
    let n = NotificationConfig::default();
    assert!(!n.enabled && n.webhook_urls.is_empty());
    assert_eq!(project_config_path(), std::path::PathBuf::from(".cctraveler/config.toml"));
    assert_eq!(legacy_config_names(), vec!["config.toml".to_string(), "cctraveler.toml".to_string()]);
}

#[test]
fn first_present_candidate() {
    assert_eq!(pick_first_present(&[false, true, true]), Some(1));
    assert_eq!(pick_first_present(&[false, false]), None);
    assert_eq!(pick_first_present(&[]), None);
}

#[test]
fn layered_order_lowest_first() {
    assert_eq!(
        layered_sources(true, true, &[false, true], true),
        vec![ConfigSource::User, ConfigSource::Project, ConfigSource::Legacy(1), ConfigSource::Explicit]
    );
    assert_eq!(layered_sources(false, false, &[true, true], false), vec![ConfigSource::Legacy(0)]);
    assert!(layered_sources(false, false, &[false, false], false).is_empty());
}

#[test]
fn missing_configuration_message() {
    let m = missing_config_message(Some("/home/u/.cctraveler/config.toml".into()));
    assert!(m.contains("  - /home/u/.cctraveler/config.toml\n  - ./.cctraveler/config.toml\n  - ./config.toml"));
    assert!(m.starts_with("未找到配置文件。"));
    let m2 = missing_config_message(None);
    assert!(m2.contains("  - ~/.cctraveler/config.toml\n"));
}

fn leaf(s: &str) -> TomlNode {
    TomlNode::Leaf(toml::Value::String(s.to_string()))
}

fn table(entries: Vec<(&str, TomlNode)>) -> TomlNode {
    TomlNode::Table(
        entries
            .into_iter()
            .map(|(k, v)| TomlEntry { key: k.to_string(), value: v })
            .collect(),
    )
}

fn get<'a>(n: &'a TomlNode, k: &str) -> Option<&'a TomlNode> {
    match n {
        TomlNode::Table(es) => es.iter().find(|e| e.key == k).map(|e| &e.value),
        TomlNode::Leaf(_) => None,
    }
}

fn leaf_str(n: Option<&TomlNode>) -> Option<String> {
    match n {
        Some(TomlNode::Leaf(toml::Value::String(s))) => Some(s.clone()),
        _ => None,
    }
}

#[test]
fn later_source_overrides_earlier_one() {
    let mut base = table(vec![
        ("agent", table(vec![("model", leaf("old")), ("api_key", leaf("k"))])),
        ("storage", table(vec![("db_path", leaf("a.db"))])),
    ]);
    let overlay = table(vec![
        ("agent", table(vec![("model", leaf("new"))])),
        ("redis", table(vec![("url", leaf("redis://x"))])),
    ]);
    merge_toml(&mut base, overlay);
    let agent = get(&base, "agent");
    assert_eq!(leaf_str(agent.and_then(|a| get(a, "model"))), Some("new".to_string()));
    assert_eq!(leaf_str(agent.and_then(|a| get(a, "api_key"))), Some("k".to_string()));
    assert_eq!(leaf_str(get(&base, "storage").and_then(|s| get(s, "db_path"))), Some("a.db".to_string()));
    assert_eq!(leaf_str(get(&base, "redis").and_then(|s| get(s, "url"))), Some("redis://x".to_string()));
}

#[test]
fn a_value_replaces_a_table_and_back() {
    let mut base = table(vec![("x", table(vec![("y", leaf("1"))]))]);
    merge_toml(&mut base, table(vec![("x", leaf("flat"))]));
    assert_eq!(leaf_str(get(&base, "x")), Some("flat".to_string()));
    let mut top = leaf("v");
    merge_toml(&mut top, table(vec![("k", leaf("w"))]));
    assert_eq!(leaf_str(get(&top, "k")), Some("w".to_string()));
}
