//! What the knowledge wiki and the price monitor are asked to do, what they
//! answer, when a subscription has expired, where alerts go, and how cached
//! transport queries are keyed.
use vstd::prelude::*;
use crate::text::str_eq;
use crate::types::RuntimeError;

verus! {

broadcast use vstd::string::group_string_axioms;

/// `r` is a tool error of `tool` with message `m`.
pub open spec fn tool_error(r: RuntimeError, tool: Seq<char>, m: Seq<char>) -> bool {
    r matches RuntimeError::Tool { tool_name, message } && tool_name@ == tool && message@ == m
}

fn tool_err(tool: &str, message: String) -> (r: RuntimeError)
    ensures
        tool_error(r, tool@, message@),
{
    RuntimeError::Tool { tool_name: String::from_str(tool), message }
}

fn text(s: &str) -> (r: String)
    ensures
        r@ == s@,
{
    String::from_str(s)
}

fn concat2(a: &str, b: &str) -> (r: String)
    ensures
        r@ == a@ + b@,
{
    let mut s = String::from_str(a);
    s.append(b);
    s
}

fn concat3(a: &str, b: &str, c: &str) -> (r: String)
    ensures
        r@ == a@ + b@ + c@,
{
    let mut s = String::from_str(a);
    s.append(b);
    s.append(c);
    s
}

/// An optional text by its characters.
pub open spec fn opt_view(o: Option<String>) -> Option<Seq<char>> {
    match o {
        Some(s) => Some(s@),
        None => None,
    }
}

// ─── Wiki ───

/// One operation on the knowledge wiki.
#[derive(Debug)]
pub enum WikiOp {
    Remember { topic: String, key: String, value: String, metadata: Option<String> },
    Recall { topic: String, key: String },
    List { topic: Option<String> },
    Forget { topic: String, key: String },
}

/// The operation a wiki request asks for, or the message of its error: the
/// action must be known and the fields it needs present, checked in order.
pub open spec fn spec_wiki_op(
    action: Seq<char>,
    topic: Option<Seq<char>>,
    key: Option<Seq<char>>,
    value: Option<Seq<char>>,
) -> Result<Seq<char>, Seq<char>> {
    if action == "remember"@ {
        if topic is None {
            Err("remember requires topic"@)
        } else if key is None {
            Err("remember requires key"@)
        } else if value is None {
            Err("remember requires value"@)
        } else {
            Ok(action)
        }
    } else if action == "recall"@ || action == "forget"@ {
        if topic is None {
            Err(action + " requires topic"@)
        } else if key is None {
            Err(action + " requires key"@)
        } else {
            Ok(action)
        }
    } else if action == "list"@ {
        Ok(action)
    } else {
        Err("Unknown action: "@ + action + ". Use remember/recall/list/forget."@)
    }
}

/// `op` carries what the request gave for `action`.
pub open spec fn wiki_op_matches(
    op: WikiOp,
    action: Seq<char>,
    topic: Option<Seq<char>>,
    key: Option<Seq<char>>,
    value: Option<Seq<char>>,
    metadata: Option<Seq<char>>,
) -> bool {
    match op {
        WikiOp::Remember { topic: t, key: k, value: v, metadata: m } => action == "remember"@
            && topic == Some(t@) && key == Some(k@) && value == Some(v@) && opt_view(m) == metadata,
        WikiOp::Recall { topic: t, key: k } => action == "recall"@ && topic == Some(t@) && key
            == Some(k@),
        WikiOp::List { topic: t } => action == "list"@ && opt_view(t) == topic,
        WikiOp::Forget { topic: t, key: k } => action == "forget"@ && topic == Some(t@) && key
            == Some(k@),
    }
}

proof fn lemma_wiki_words_distinct()
    ensures
        "remember"@ != "recall"@,
        "remember"@ != "list"@,
        "remember"@ != "forget"@,
        "recall"@ != "list"@,
        "recall"@ != "forget"@,
        "list"@ != "forget"@,
{
    reveal_strlit("remember");
    reveal_strlit("recall");
    reveal_strlit("list");
    reveal_strlit("forget");
    assert("remember"@.len() != "recall"@.len());
    assert("remember"@.len() != "list"@.len());
    assert("remember"@.len() != "forget"@.len());
    assert("recall"@.len() != "list"@.len());
    assert("recall"@[0] != "forget"@[0]);
    assert("list"@.len() != "forget"@.len());
}

/// Each wiki action is accepted once the fields it needs are given: `remember`
/// needs topic, key and value; `recall` and `forget` need topic and key;
/// `list` needs nothing.  Any other action is refused, naming it.
pub proof fn law_wiki_actions(
    action: Seq<char>,
    topic: Option<Seq<char>>,
    key: Option<Seq<char>>,
    value: Option<Seq<char>>,
)
    ensures
        action == "remember"@ && topic is Some && key is Some && value is Some ==> spec_wiki_op(
            action,
            topic,
            key,
            value,
        ) is Ok,
        (action == "recall"@ || action == "forget"@) && topic is Some && key is Some
            ==> spec_wiki_op(action, topic, key, value) is Ok,
        action == "list"@ ==> spec_wiki_op(action, topic, key, value) is Ok,
        action != "remember"@ && action != "recall"@ && action != "forget"@ && action != "list"@
            ==> spec_wiki_op(action, topic, key, value) == Err::<Seq<char>, Seq<char>>(
            "Unknown action: "@ + action + ". Use remember/recall/list/forget."@,
        ),
{
    lemma_wiki_words_distinct();
}

/// Reads a wiki request: its operation, or the `wiki` tool error.
pub fn wiki_op(
    action: &str,
    topic: Option<String>,
    key: Option<String>,
    value: Option<String>,
    metadata: Option<String>,
) -> (r: Result<WikiOp, RuntimeError>)
    ensures
        match spec_wiki_op(action@, opt_view(topic), opt_view(key), opt_view(value)) {
            Ok(_) => r matches Ok(op) && wiki_op_matches(
                op,
                action@,
                opt_view(topic),
                opt_view(key),
                opt_view(value),
                opt_view(metadata),
            ),
            Err(m) => r matches Err(e) && tool_error(e, "wiki"@, m),
        },
        action@ == "list"@ ==> (r matches Ok(op) && op is List),
        action@ == "remember"@ && topic is Some && key is Some && value is Some ==> (r matches Ok(
            op,
        ) && op is Remember),
        action@ == "recall"@ && topic is Some && key is Some ==> (r matches Ok(op) && op is Recall),
        action@ == "forget"@ && topic is Some && key is Some ==> (r matches Ok(op) && op is Forget),
{
    proof {
        law_wiki_actions(action@, opt_view(topic), opt_view(key), opt_view(value));
        lemma_wiki_words_distinct();
    }
    if str_eq(action, "remember") {
        match (topic, key, value) {
            (None, _, _) => Err(tool_err("wiki", text("remember requires topic"))),
            (Some(_), None, _) => Err(tool_err("wiki", text("remember requires key"))),
            (Some(_), Some(_), None) => Err(tool_err("wiki", text("remember requires value"))),
            (Some(t), Some(k), Some(v)) => Ok(
                WikiOp::Remember { topic: t, key: k, value: v, metadata },
            ),
        }
    } else if str_eq(action, "recall") || str_eq(action, "forget") {
        let is_recall = str_eq(action, "recall");
        match (topic, key) {
            (None, _) => Err(tool_err("wiki", concat2(action, " requires topic"))),
            (Some(_), None) => Err(tool_err("wiki", concat2(action, " requires key"))),
            (Some(t), Some(k)) => if is_recall {
                Ok(WikiOp::Recall { topic: t, key: k })
            } else {
                Ok(WikiOp::Forget { topic: t, key: k })
            },
        }
    } else if str_eq(action, "list") {
        Ok(WikiOp::List { topic })
    } else {
        Err(
            tool_err("wiki", concat3("Unknown action: ", action, ". Use remember/recall/list/forget.")),
        )
    }
}

/// `已记住: [{topic}] {key} = {value}`.
pub fn remembered_text(topic: &str, key: &str, value: &str) -> (r: String)
    ensures
        r@ == "已记住: ["@ + topic@ + "] "@ + key@ + " = "@ + value@,
{
    let mut s = String::from_str("已记住: [");
    s.append(topic);
    s.append("] ");
    s.append(key);
    s.append(" = ");
    s.append(value);
    s
}

/// `未找到 [{topic}] {key} 的记录。`.
pub fn not_found_text(topic: &str, key: &str) -> (r: String)
    ensures
        r@ == "未找到 ["@ + topic@ + "] "@ + key@ + " 的记录。"@,
{
    let mut s = String::from_str("未找到 [");
    s.append(topic);
    s.append("] ");
    s.append(key);
    s.append(" 的记录。");
    s
}

/// `已删除: [{topic}] {key}`.
pub fn forgotten_text(topic: &str, key: &str) -> (r: String)
    ensures
        r@ == "已删除: ["@ + topic@ + "] "@ + key@,
{
    let mut s = String::from_str("已删除: [");
    s.append(topic);
    s.append("] ");
    s.append(key);
    s
}

// ─── Price monitor ───

/// One operation of the price monitor.
#[derive(Debug)]
pub enum MonitorOp {
    Subscribe { from_city: String, to_city: String, transport_type: String, user_id: String },
    List { user_id: Option<String> },
    Unsubscribe { subscription_id: String },
    Check { user_id: Option<String> },
}

/// The error message of a price-monitor request, if it has one: the action must
/// be known and the fields it needs present, checked in order.
pub open spec fn spec_monitor_error(
    action: Seq<char>,
    from_city: Option<Seq<char>>,
    to_city: Option<Seq<char>>,
    has_threshold: bool,
    subscription_id: Option<Seq<char>>,
) -> Option<Seq<char>> {
    if action == "subscribe"@ {
        if from_city is None {
            Some("subscribe 需要 from_city"@)
        } else if to_city is None {
            Some("subscribe 需要 to_city"@)
        } else if !has_threshold {
            Some("subscribe 需要 threshold（价格阈值）"@)
        } else {
            None
        }
    } else if action == "unsubscribe"@ {
        if subscription_id is None {
            Some("unsubscribe 需要 subscription_id"@)
        } else {
            None
        }
    } else if action == "list"@ || action == "check"@ {
        None
    } else {
        Some("Unknown action: "@ + action + ". Use subscribe/list/unsubscribe/check."@)
    }
}

/// `op` carries what the request gave: a subscription defaults to trains and to
/// the user `default`.
pub open spec fn monitor_op_matches(
    op: MonitorOp,
    action: Seq<char>,
    from_city: Option<Seq<char>>,
    to_city: Option<Seq<char>>,
    transport_type: Option<Seq<char>>,
    subscription_id: Option<Seq<char>>,
    user_id: Option<Seq<char>>,
) -> bool {
    match op {
        MonitorOp::Subscribe { from_city: f, to_city: t, transport_type: k, user_id: u } => action
            == "subscribe"@ && from_city == Some(f@) && to_city == Some(t@) && k@ == (match transport_type {
            Some(x) => x,
            None => "train"@,
        }) && u@ == (match user_id {
            Some(x) => x,
            None => "default"@,
        }),
        MonitorOp::List { user_id: u } => action == "list"@ && opt_view(u) == user_id,
        MonitorOp::Unsubscribe { subscription_id: s } => action == "unsubscribe"@ && subscription_id
            == Some(s@),
        MonitorOp::Check { user_id: u } => action == "check"@ && opt_view(u) == user_id,
    }
}

fn or_default(o: Option<String>, d: &str) -> (r: String)
    ensures
        r@ == (match o {
            Some(x) => x@,
            None => d@,
        }),
{
    match o {
        Some(x) => x,
        None => String::from_str(d),
    }
}

/// Reads a price-monitor request (`has_threshold`: whether a threshold was
/// given): its operation, or the `price_monitor` tool error.
pub fn monitor_op(
    action: &str,
    from_city: Option<String>,
    to_city: Option<String>,
    transport_type: Option<String>,
    has_threshold: bool,
    subscription_id: Option<String>,
    user_id: Option<String>,
) -> (r: Result<MonitorOp, RuntimeError>)
    ensures
        match spec_monitor_error(
            action@,
            opt_view(from_city),
            opt_view(to_city),
            has_threshold,
            opt_view(subscription_id),
        ) {
            None => r matches Ok(op) && monitor_op_matches(
                op,
                action@,
                opt_view(from_city),
                opt_view(to_city),
                opt_view(transport_type),
                opt_view(subscription_id),
                opt_view(user_id),
            ),
            Some(m) => r matches Err(e) && tool_error(e, "price_monitor"@, m),
        },
{
    if str_eq(action, "subscribe") {
        match (from_city, to_city) {
            (None, _) => Err(tool_err("price_monitor", text("subscribe 需要 from_city"))),
            (Some(_), None) => Err(tool_err("price_monitor", text("subscribe 需要 to_city"))),
            (Some(f), Some(t)) => {
                if !has_threshold {
                    Err(tool_err("price_monitor", text("subscribe 需要 threshold（价格阈值）")))
                } else {
                    Ok(
                        MonitorOp::Subscribe {
                            from_city: f,
                            to_city: t,
                            transport_type: or_default(transport_type, "train"),
                            user_id: or_default(user_id, "default"),
                        },
                    )
                }
            },
        }
    } else if str_eq(action, "unsubscribe") {
        match subscription_id {
            None => Err(tool_err("price_monitor", text("unsubscribe 需要 subscription_id"))),
            Some(s) => Ok(MonitorOp::Unsubscribe { subscription_id: s }),
        }
    } else if str_eq(action, "list") {
        Ok(MonitorOp::List { user_id })
    } else if str_eq(action, "check") {
        Ok(MonitorOp::Check { user_id })
    } else {
        Err(
            tool_err(
                "price_monitor",
                concat3("Unknown action: ", action, ". Use subscribe/list/unsubscribe/check."),
            ),
        )
    }
}

/// What a subscription watches: train tickets, or otherwise plane tickets.
pub fn ticket_kind(transport_type: &str) -> (r: String)
    ensures
        r@ == (if transport_type@ == "train"@ {
            "火车票"@
        } else {
            "机票"@
        }),
{
    if str_eq(transport_type, "train") {
        String::from_str("火车票")
    } else {
        String::from_str("机票")
    }
}

/// `{from} → {to}`.
pub fn route_text(from_city: &str, to_city: &str) -> (r: String)
    ensures
        r@ == from_city@ + " → "@ + to_city@,
{
    concat3(from_city, " → ", to_city)
}

// ─── Scheduler ───

/// `a` sorts before `b` (`str`'s order: by characters, a prefix first).
pub open spec fn text_less(a: Seq<char>, b: Seq<char>) -> bool
    decreases a.len(),
{
    if b.len() == 0 {
        false
    } else if a.len() == 0 {
        true
    } else if (a[0] as u32) != (b[0] as u32) {
        (a[0] as u32) < (b[0] as u32)
    } else {
        text_less(a.drop_first(), b.drop_first())
    }
}

/// Whether a subscription that expires at `expires_at` has expired on `today`:
/// its expiry sorts before today's date.
pub fn subscription_expired(expires_at: &str, today: &str) -> (r: bool)
    ensures
        r == text_less(expires_at@, today@),
{
    let a = crate::text::to_chars(expires_at);
    let b = crate::text::to_chars(today);
    let mut i: usize = 0;
    assert(a@.skip(0) =~= a@);
    assert(b@.skip(0) =~= b@);
    while i < a.len() && i < b.len()
        invariant
            i <= a.len(),
            i <= b.len(),
            a@ == expires_at@,
            b@ == today@,
            text_less(a@, b@) == text_less(a@.skip(i as int), b@.skip(i as int)),
        decreases a.len() - i,
    {
        let x = a[i];
        let y = b[i];
        proof {
            assert(a@.skip(i as int)[0] == x);
            assert(b@.skip(i as int)[0] == y);
            assert(a@.skip(i as int).drop_first() =~= a@.skip(i + 1));
            assert(b@.skip(i as int).drop_first() =~= b@.skip(i + 1));
        }
        if (x as u32) != (y as u32) {
            return (x as u32) < (y as u32);
        }
        i = i + 1;
    }
    i < b.len()
}

/// What a subscription's transport names.
#[derive(Debug, Clone, Copy, PartialEq, Eq, Structural)]
pub enum TransportKind {
    Train,
    Flight,
    Unknown,
}

pub fn transport_kind(t: &str) -> (r: TransportKind)
    ensures
        r == (if t@ == "train"@ {
            TransportKind::Train
        } else if t@ == "flight"@ {
            TransportKind::Flight
        } else {
            TransportKind::Unknown
        }),
{
    if str_eq(t, "train") {
        TransportKind::Train
    } else if str_eq(t, "flight") {
        TransportKind::Flight
    } else {
        TransportKind::Unknown
    }
}

// ─── Notifications ───

/// Where a price alert is delivered.
#[derive(Debug, Clone)]
pub enum NotifyChannel {
    /// POSTed to a webhook URL.
    Webhook { url: String },
    /// Written to the log only.
    LogOnly,
}

/// The channels of a notifier that only logs.
pub fn log_only_channels() -> (r: Vec<NotifyChannel>)
    ensures
        r@.len() == 1,
        r@[0] is LogOnly,
{
    let mut v: Vec<NotifyChannel> = Vec::new();
    v.push(NotifyChannel::LogOnly);
    v
}

/// The channels of a notifier with a webhook: the webhook, then the log.
pub fn webhook_channels(url: String) -> (r: Vec<NotifyChannel>)
    ensures
        r@.len() == 2,
        r@[0] matches NotifyChannel::Webhook { url: u } && u@ == url@,
        r@[1] is LogOnly,
{
    let mut v: Vec<NotifyChannel> = Vec::new();
    v.push(NotifyChannel::Webhook { url });
    v.push(NotifyChannel::LogOnly);
    v
}

/// `c` is a webhook channel to `url`.
pub open spec fn webhook_of(c: NotifyChannel, url: Seq<char>) -> bool {
    c matches NotifyChannel::Webhook { url: u } && u@ == url
}

/// The channels of the scheduler's notifier: one webhook per URL, then the log.
pub fn channels_for_webhooks(urls: Vec<String>) -> (r: Vec<NotifyChannel>)
    ensures
        r@.len() == urls@.len() + 1,
        forall|i: int|
            0 <= i < urls@.len() ==> webhook_of(#[trigger] r@[i], urls@[i]@),
        r@[urls@.len() as int] is LogOnly,
{
    let ghost us = urls@;
    let mut v: Vec<NotifyChannel> = Vec::new();
    let mut i: usize = 0;
    while i < urls.len()
        invariant
            i <= urls.len(),
            us == urls@,
            v@.len() == i,
            forall|j: int|
                0 <= j < i ==> webhook_of(#[trigger] v@[j], us[j]@),
        decreases urls.len() - i,
    {
        v.push(NotifyChannel::Webhook { url: urls[i].clone() });
        i = i + 1;
    }
    v.push(NotifyChannel::LogOnly);
    v
}

// ─── Cache ───

/// The cache key of a transport query: `{type}:{from}:{to}:{date}`.
pub fn transport_key(transport_type: &str, from: &str, to: &str, date: &str) -> (r: String)
    ensures
        r@ == transport_type@ + ":"@ + from@ + ":"@ + to@ + ":"@ + date@,
{
    let mut s = String::from_str(transport_type);
    s.append(":");
    s.append(from);
    s.append(":");
    s.append(to);
    s.append(":");
    s.append(date);
    s
}

} // verus!
