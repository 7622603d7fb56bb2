//! Runtime configuration: its sections, their defaults, how the API key and base
//! URL are resolved, and which configuration files are layered in which order.
use vstd::prelude::*;

verus! {

broadcast use vstd::string::group_string_axioms;

#[derive(Debug)]
pub struct RuntimeConfig {
    pub agent: AgentConfig,
    pub scraper: ScraperConfig,
    pub storage: StorageConfig,
    pub ctrip: CtripConfig,
    pub redis: RedisConfig,
    pub notification: NotificationConfig,
}

#[derive(Debug)]
pub struct AgentConfig {
    pub model: String,
    pub max_turns: u32,
    pub api_key: String,
    pub base_url: String,
}

/// The API endpoint used when neither the configuration nor the environment
/// names one.
pub open spec fn official_base_url() -> Seq<char> {
    "https://api.anthropic.com"@
}

impl AgentConfig {
    /// The API key: the configured one when it is set, else the value of the
    /// environment variable `ANTHROPIC_API_KEY` (`env_api_key`).
    pub fn resolve_api_key(&self, env_api_key: Option<String>) -> (r: Option<String>)
        ensures
            self.api_key@.len() > 0 ==> (r matches Some(k) && k@ == self.api_key@),
            self.api_key@.len() == 0 ==> r == env_api_key,
    {
        if !self.api_key.as_str().is_empty() {
            return Some(self.api_key.clone());
        }
        env_api_key
    }

    /// The base URL: the configured one when it is set, else the value of the
    /// environment variable `ANTHROPIC_BASE_URL` (`env_base_url`), else the
    /// official endpoint.
    pub fn resolve_base_url(&self, env_base_url: Option<String>) -> (r: String)
        ensures
            r@ == (if self.base_url@.len() > 0 {
                self.base_url@
            } else {
                match env_base_url {
                    Some(u) => u@,
                    None => official_base_url(),
                }
            }),
    {
        if !self.base_url.as_str().is_empty() {
            return self.base_url.clone();
        }
        match env_base_url {
            Some(u) => u,
            None => String::from_str("https://api.anthropic.com"),
        }
    }
}

#[derive(Debug)]
pub struct ScraperConfig {
    pub base_url: String,
    pub timeout_secs: u64,
    pub max_retries: u32,
}

#[derive(Debug)]
pub struct StorageConfig {
    pub db_path: String,
}

#[derive(Debug)]
pub struct CtripConfig {
    pub default_city: String,
    pub default_adults: u8,
    pub default_children: u8,
    pub request_delay_ms: u64,
    pub max_concurrent: u8,
    pub proxy_pool: Vec<String>,
}

#[derive(Debug)]
pub struct RedisConfig {
    pub enabled: bool,
    pub url: String,
    pub ttl_seconds: u64,
}

/// The Redis URL used when none is configured.
pub open spec fn spec_default_redis_url() -> Seq<char> {
    "redis://127.0.0.1:6379"@
}

pub fn default_redis_url() -> (r: String)
    ensures
        r@ == spec_default_redis_url(),
{
    String::from_str("redis://127.0.0.1:6379")
}

/// Seconds a cached entry lives when no TTL is configured.
pub fn default_redis_ttl() -> (r: u64)
    ensures
        r == 3600,
{
    3600
}

impl Default for RedisConfig {
    fn default() -> (r: Self)
        ensures
            !r.enabled,
            r.url@ == spec_default_redis_url(),
            r.ttl_seconds == 3600,
    {
        RedisConfig { enabled: false, url: default_redis_url(), ttl_seconds: default_redis_ttl() }
    }
}

#[derive(Debug)]
pub struct NotificationConfig {
    pub enabled: bool,
    pub webhook_urls: Vec<String>,
}

impl Default for NotificationConfig {
    fn default() -> (r: Self)
        ensures
            !r.enabled,
            r.webhook_urls@.len() == 0,
    {
        NotificationConfig { enabled: false, webhook_urls: Vec::new() }
    }
}

/// The path that `std::path::PathBuf::from` makes of a text.
pub uninterp spec fn path_from_text(s: Seq<char>) -> std::path::PathBuf;

/// `std::path::PathBuf::from(&str)`: the path of the text, named `path_from_text`.
#[verifier::external_body]
fn path_buf_from(s: &str) -> (r: std::path::PathBuf)
    ensures
        r == path_from_text(s@),
{
    std::path::PathBuf::from(s)
}

/// Project-level config: `./.cctraveler/config.toml`.
pub fn project_config_path() -> (r: std::path::PathBuf)
    ensures
        r == path_from_text(".cctraveler/config.toml"@),
{
    path_buf_from(".cctraveler/config.toml")
}

/// The names tried, in order, for the configuration in the current directory.
pub open spec fn spec_legacy_config_names() -> Seq<Seq<char>> {
    seq!["config.toml"@, "cctraveler.toml"@]
}

pub fn legacy_config_names() -> (r: Vec<String>)
    ensures
        r@.map_values(|s: String| s@) == spec_legacy_config_names(),
{
    let mut v: Vec<String> = Vec::new();
    v.push(String::from_str("config.toml"));
    v.push(String::from_str("cctraveler.toml"));
    assert(v@.map_values(|s: String| s@) =~= spec_legacy_config_names());
    v
}

/// The first position whose file exists.
pub open spec fn first_present(present: Seq<bool>) -> Option<int>
    decreases present.len(),
{
    if present.len() == 0 {
        None
    } else if present[0] {
        Some(0)
    } else {
        match first_present(present.drop_first()) {
            Some(i) => Some(i + 1),
            None => None,
        }
    }
}

/// The first of the candidates that exists, as `load_default` picks it.
pub fn pick_first_present(present: &[bool]) -> (r: Option<usize>)
    ensures
        match r {
            Some(i) => first_present(present@) == Some(i as int),
            None => first_present(present@) is None,
        },
{
    let mut i: usize = 0;
    assert(present@.skip(0) =~= present@);
    while i < present.len()
        invariant
            i <= present.len(),
            first_present(present@) == (match first_present(present@.skip(i as int)) {
                Some(j) => Some(j + i),
                None => None,
            }),
        decreases present.len() - i,
    {
        proof {
            assert(present@.skip(i as int).drop_first() =~= present@.skip(i + 1));
            assert(present@.skip(i as int)[0] == present@[i as int]);
        }
        if present[i] {
            return Some(i);
        }
        i = i + 1;
    }
    proof {
        assert(present@.skip(i as int).len() == 0);
        assert(present@.skip(0) =~= present@);
    }
    None
}

/// A configuration file in the layered search.
#[derive(Debug, Clone, Copy, PartialEq, Eq, Structural)]
pub enum ConfigSource {
    /// `~/.cctraveler/config.toml`.
    User,
    /// `./.cctraveler/config.toml`.
    Project,
    /// `./config.toml` or `./cctraveler.toml`, by its position among the names.
    Legacy(usize),
    /// The path given on the command line.
    Explicit,
}

/// The sources that the layered loader reads, lowest precedence first: the
/// user's file, the project's, the first legacy name present, then the
/// explicit path; each only when it exists.
pub open spec fn spec_layered_sources(
    user_exists: bool,
    project_exists: bool,
    legacy_present: Seq<bool>,
    explicit_exists: bool,
) -> Seq<ConfigSource> {
    let a: Seq<ConfigSource> = if user_exists {
        seq![ConfigSource::User]
    } else {
        seq![]
    };
    let b: Seq<ConfigSource> = if project_exists {
        a.push(ConfigSource::Project)
    } else {
        a
    };
    let c: Seq<ConfigSource> = match first_present(legacy_present) {
        Some(i) => b.push(ConfigSource::Legacy(i as usize)),
        None => b,
    };
    if explicit_exists {
        c.push(ConfigSource::Explicit)
    } else {
        c
    }
}

/// The order in which the layered loader reads its sources (later ones win).
pub fn layered_sources(
    user_exists: bool,
    project_exists: bool,
    legacy_present: &[bool],
    explicit_exists: bool,
) -> (r: Vec<ConfigSource>)
    ensures
        r@ == spec_layered_sources(user_exists, project_exists, legacy_present@, explicit_exists),
{
    let mut v: Vec<ConfigSource> = Vec::new();
    if user_exists {
        v.push(ConfigSource::User);
    }
    if project_exists {
        v.push(ConfigSource::Project);
    }
    match pick_first_present(legacy_present) {
        Some(i) => v.push(ConfigSource::Legacy(i)),
        None => {},
    }
    if explicit_exists {
        v.push(ConfigSource::Explicit);
    }
    proof {
        let a: Seq<ConfigSource> = if user_exists {
            seq![ConfigSource::User]
        } else {
            seq![]
        };
        assert(a =~= (if user_exists { seq![ConfigSource::User] } else { Seq::empty() }));
    }
    v
}

/// The message given when no configuration file is found; `user_path` is where
/// the user's file would be, when the home directory is known.
pub fn missing_config_message(user_path: Option<String>) -> (r: String)
    ensures
        r@ == "未找到配置文件。\n请运行 `cctraveler init` 初始化配置，或在以下任一位置创建 config.toml：\n  - "@
            + (match user_path {
            Some(p) => p@,
            None => "~/.cctraveler/config.toml"@,
        }) + "\n  - ./.cctraveler/config.toml\n  - ./config.toml"@,
{
    let mut s = String::from_str(
        "未找到配置文件。\n请运行 `cctraveler init` 初始化配置，或在以下任一位置创建 config.toml：\n  - ",
    );
    match &user_path {
        Some(p) => s.append(p.as_str()),
        None => s.append("~/.cctraveler/config.toml"),
    }
    s.append("\n  - ./.cctraveler/config.toml\n  - ./config.toml");
    s
}

} // verus!
