//! Decisions of the route comparison and the trip planner: how a train is rated
//! and named, how durations read, which route is recommended for a priority,
//! and how the dates of a trip are checked and its days laid out.
use vstd::prelude::*;
use chrono::Datelike;
use crate::text::{chars_eq_str, push_signed_decimal, signed_decimal, to_chars};
use crate::types::RuntimeError;

verus! {

broadcast use vstd::string::group_string_axioms;

// ─── Trains ───

/// Comfort score of a train by its type letter.
pub open spec fn spec_comfort_score(t: Seq<char>) -> u32 {
    if t == "G"@ {
        9
    } else if t == "D"@ || t == "C"@ {
        8
    } else if t == "Z"@ {
        7
    } else if t == "T"@ {
        6
    } else {
        5
    }
}

/// The train classes by their type letter: comfort score and kind of transport.
pub open spec fn train_classes() -> Seq<(Seq<char>, u32, Seq<char>)> {
    seq![
        ("G"@, 9u32, "高铁"@),
        ("D"@, 8u32, "动车"@),
        ("C"@, 8u32, "城际"@),
        ("Z"@, 7u32, "火车"@),
        ("T"@, 6u32, "火车"@),
    ]
}

proof fn lemma_train_classes()
    ensures
        train_classes().len() == 5,
        forall|a: int, b: int|
            0 <= a < 5 && 0 <= b < 5 && a != b ==> (#[trigger] train_classes()[a]).0
                != (#[trigger] train_classes()[b]).0,
{
    reveal_strlit("G");
    reveal_strlit("D");
    reveal_strlit("C");
    reveal_strlit("Z");
    reveal_strlit("T");
    let t = train_classes();
    assert forall|a: int, b: int|
        0 <= a < 5 && 0 <= b < 5 && a != b implies (#[trigger] t[a]).0 != (#[trigger] t[b]).0 by {
        assert(t[a].0[0] != t[b].0[0]);
    }
}

/// Each train class has its score and kind; any other type scores 5 and is a
/// plain train.
pub proof fn law_train_classes(t: Seq<char>)
    ensures
        forall|k: int|
            0 <= k < train_classes().len() && t == (#[trigger] train_classes()[k]).0 ==> (
            spec_comfort_score(t) == train_classes()[k].1 && spec_train_label(t)
                == train_classes()[k].2),
        (forall|k: int| 0 <= k < train_classes().len() ==> t != (#[trigger] train_classes()[k]).0)
            ==> (spec_comfort_score(t) == 5 && spec_train_label(t) == "火车"@),
{
    lemma_train_classes();
    let c = train_classes();
    assert forall|k: int| 0 <= k < c.len() && t == (#[trigger] c[k]).0 implies (spec_comfort_score(t)
        == c[k].1 && spec_train_label(t) == c[k].2) by {
        assert(c[k] == train_classes()[k]);
    }
    if forall|k: int| 0 <= k < c.len() ==> t != (#[trigger] c[k]).0 {
        assert(t != c[0].0);
        assert(t != c[1].0);
        assert(t != c[2].0);
        assert(t != c[3].0);
        assert(t != c[4].0);
    }
}

pub fn comfort_score(train_type: &str) -> (r: u32)
    ensures
        r == spec_comfort_score(train_type@),
        forall|k: int|
            0 <= k < train_classes().len() && train_type@ == (#[trigger] train_classes()[k]).0 ==> r
                == train_classes()[k].1,
        (forall|k: int| 0 <= k < train_classes().len() ==> train_type@ != (#[trigger] train_classes()[k]).0)
            ==> r == 5,
{
    proof {
        law_train_classes(train_type@);
    }
    let t = to_chars(train_type);
    let v = t.as_slice();
    if chars_eq_str(v, "G") {
        9
    } else if chars_eq_str(v, "D") || chars_eq_str(v, "C") {
        8
    } else if chars_eq_str(v, "Z") {
        7
    } else if chars_eq_str(v, "T") {
        6
    } else {
        5
    }
}

/// The kind of transport a train type names.
pub open spec fn spec_train_label(t: Seq<char>) -> Seq<char> {
    if t == "G"@ {
        "高铁"@
    } else if t == "D"@ {
        "动车"@
    } else if t == "C"@ {
        "城际"@
    } else {
        "火车"@
    }
}

pub fn train_label(train_type: &str) -> (r: String)
    ensures
        r@ == spec_train_label(train_type@),
        forall|k: int|
            0 <= k < train_classes().len() && train_type@ == (#[trigger] train_classes()[k]).0 ==> r@
                == train_classes()[k].2,
{
    proof {
        law_train_classes(train_type@);
    }
    let t = to_chars(train_type);
    let v = t.as_slice();
    if chars_eq_str(v, "G") {
        String::from_str("高铁")
    } else if chars_eq_str(v, "D") {
        String::from_str("动车")
    } else if chars_eq_str(v, "C") {
        String::from_str("城际")
    } else {
        String::from_str("火车")
    }
}

/// What the comparison says of a train's comfort.
pub open spec fn spec_comfort_note(t: Seq<char>) -> Seq<char> {
    if t == "G"@ {
        "舒适，市区直达，准点率高"@
    } else if t == "D"@ {
        "较舒适，市区直达"@
    } else {
        "经济实惠，适合不赶时间的行程"@
    }
}

pub fn comfort_note(train_type: &str) -> (r: String)
    ensures
        r@ == spec_comfort_note(train_type@),
{
    let t = to_chars(train_type);
    let v = t.as_slice();
    if chars_eq_str(v, "G") {
        String::from_str("舒适，市区直达，准点率高")
    } else if chars_eq_str(v, "D") {
        String::from_str("较舒适，市区直达")
    } else {
        String::from_str("经济实惠，适合不赶时间的行程")
    }
}

// ─── Durations ───

/// Whole hours of `m` minutes, rounded toward zero (Rust's `/`).
pub open spec fn hours_of(m: int) -> int {
    if m >= 0 {
        m / 60
    } else {
        -((-m) / 60)
    }
}

/// Minutes left over after the whole hours, with the sign of `m` (Rust's `%`).
pub open spec fn minutes_of(m: int) -> int {
    m - 60 * hours_of(m)
}

/// `{h}小时{m}分` for a duration in minutes.
pub open spec fn spec_duration_text(m: int) -> Seq<char> {
    signed_decimal(hours_of(m)) + "小时"@ + signed_decimal(minutes_of(m)) + "分"@
}

fn push_duration(s: &mut String, minutes: i64)
    requires
        -0x8000_0000 <= minutes <= 0x7fff_ffff + 120,
    ensures
        final(s)@ == old(s)@ + spec_duration_text(minutes as int),
{
    let a: i64 = if minutes < 0 {
        -minutes
    } else {
        minutes
    };
    let (h, m) = if minutes < 0 {
        (-(a / 60), -(a % 60))
    } else {
        (a / 60, a % 60)
    };
    assert(h == hours_of(minutes as int));
    assert(m == minutes_of(minutes as int));
    push_signed_decimal(s, h);
    s.append("小时");
    push_signed_decimal(s, m);
    s.append("分");
}

/// How a train journey's time reads.
pub fn duration_text(minutes: i32) -> (r: String)
    ensures
        r@ == spec_duration_text(minutes as int),
{
    let mut s = String::new();
    push_duration(&mut s, minutes as i64);
    s
}

/// Minutes added to a flight for getting to and through the airports.
pub const AIRPORT_MINUTES: i32 = 120;

/// The door-to-door minutes of a flight: flight time plus airport time.
pub fn flight_total_minutes(duration: i32) -> (r: i32)
    requires
        duration + AIRPORT_MINUTES <= i32::MAX,
    ensures
        r == duration + AIRPORT_MINUTES,
{
    duration + AIRPORT_MINUTES
}

/// How a flight's time reads: flight time, airport time, and the total.
pub open spec fn spec_flight_time_text(duration: int) -> Seq<char> {
    spec_duration_text(duration) + "飞行 + 2小时机场时间 = "@ + spec_duration_text(
        duration + 120,
    )
}

pub fn flight_time_text(duration: i32) -> (r: String)
    requires
        duration + AIRPORT_MINUTES <= i32::MAX,
    ensures
        r@ == spec_flight_time_text(duration as int),
{
    let mut s = String::new();
    push_duration(&mut s, duration as i64);
    s.append("飞行 + 2小时机场时间 = ");
    push_duration(&mut s, duration as i64 + 120);
    s
}

// ─── Recommendation ───

/// What a route is judged by: door-to-door minutes, an integer that orders as
/// its total cost does, and its comfort score.
#[derive(Debug, Clone, Copy)]
pub struct RouteSummary {
    pub total_minutes: i64,
    pub cost_rank: i64,
    pub comfort: i64,
}

/// What the traveller asked to optimise.
#[derive(Debug, Clone, Copy, PartialEq, Eq, Structural)]
pub enum RoutePriority {
    Time,
    Cost,
    Comfort,
    /// Any other word: judged by cost, with its own wording.
    Other,
}

/// The priority a request names; none given means cost.
pub open spec fn spec_route_priority(p: Option<Seq<char>>) -> RoutePriority {
    match p {
        None => RoutePriority::Cost,
        Some(w) => if w == "time"@ {
            RoutePriority::Time
        } else if w == "cost"@ {
            RoutePriority::Cost
        } else if w == "comfort"@ {
            RoutePriority::Comfort
        } else {
            RoutePriority::Other
        },
    }
}

proof fn lemma_priority_words_distinct()
    ensures
        "time"@ != "cost"@,
        "time"@ != "comfort"@,
        "cost"@ != "comfort"@,
{
    reveal_strlit("time");
    reveal_strlit("cost");
    reveal_strlit("comfort");
    assert("time"@[0] != "cost"@[0]);
    assert("time"@.len() != "comfort"@.len());
    assert("cost"@.len() != "comfort"@.len());
}

/// The word that asks for each priority; `Other` is asked for by no word of
/// its own.
pub open spec fn priority_word(p: RoutePriority) -> Option<Seq<char>> {
    match p {
        RoutePriority::Time => Some("time"@),
        RoutePriority::Cost => Some("cost"@),
        RoutePriority::Comfort => Some("comfort"@),
        RoutePriority::Other => None,
    }
}

pub fn route_priority(p: Option<&str>) -> (r: RoutePriority)
    ensures
        r == spec_route_priority(
            match p {
                Some(w) => Some(w@),
                None => None,
            },
        ),
        p is None ==> r == RoutePriority::Cost,
        forall|q: RoutePriority|
            (p matches Some(w) && #[trigger] priority_word(q) == Some(w@)) ==> r == q,
        match p {
            Some(w) => r != RoutePriority::Other ==> priority_word(r) == Some(w@),
            None => true,
        },
{
    proof {
        lemma_priority_words_distinct();
    }
    match p {
        None => RoutePriority::Cost,
        Some(w) => {
            let t = to_chars(w);
            let v = t.as_slice();
            if chars_eq_str(v, "time") {
                RoutePriority::Time
            } else if chars_eq_str(v, "cost") {
                RoutePriority::Cost
            } else if chars_eq_str(v, "comfort") {
                RoutePriority::Comfort
            } else {
                RoutePriority::Other
            }
        },
    }
}

/// The key a priority judges a route by, smaller being better.
pub open spec fn route_key(p: RoutePriority, r: RouteSummary) -> int {
    match p {
        RoutePriority::Time => r.total_minutes as int,
        RoutePriority::Comfort => -(r.comfort as int),
        _ => r.cost_rank as int,
    }
}

/// `i` is the route recommended for `p`: the best by the priority's key; of
/// equally good routes, the first, except for comfort, where it is the last
/// (`min_by_key` and `max_by_key`).
pub open spec fn is_recommended(p: RoutePriority, routes: Seq<RouteSummary>, i: int) -> bool {
    &&& 0 <= i < routes.len()
    &&& forall|j: int| 0 <= j < routes.len() ==> route_key(p, routes[i]) <= route_key(p, #[trigger] routes[j])
    &&& p != RoutePriority::Comfort ==> forall|j: int|
        0 <= j < i ==> route_key(p, routes[i]) < route_key(p, #[trigger] routes[j])
    &&& p == RoutePriority::Comfort ==> forall|j: int|
        i < j < routes.len() ==> route_key(p, routes[i]) < route_key(p, #[trigger] routes[j])
}

/// Asking for a priority by its word gives that priority, and a word that
/// gives a named priority is that priority's word.
pub proof fn law_priority_words(p: RoutePriority, w: Seq<char>)
    ensures
        priority_word(p) == Some(w) ==> spec_route_priority(Some(w)) == p,
        spec_route_priority(Some(w)) != RoutePriority::Other ==> priority_word(
            spec_route_priority(Some(w)),
        ) == Some(w),
        spec_route_priority(None) == RoutePriority::Cost,
{
    lemma_priority_words_distinct();
}

/// The route recommended for the word `cost` (or for no word) costs no more
/// than any other; for `time` it takes no longer than any other; for
/// `comfort` it is at least as comfortable as any other.
pub proof fn law_priority_meaning(routes: Seq<RouteSummary>, i: int)
    ensures
        is_recommended(spec_route_priority(Some("cost"@)), routes, i) ==> forall|j: int|
            0 <= j < routes.len() ==> routes[i].cost_rank <= #[trigger] routes[j].cost_rank,
        is_recommended(spec_route_priority(None), routes, i) ==> forall|j: int|
            0 <= j < routes.len() ==> routes[i].cost_rank <= #[trigger] routes[j].cost_rank,
        is_recommended(spec_route_priority(Some("time"@)), routes, i) ==> forall|j: int|
            0 <= j < routes.len() ==> routes[i].total_minutes <= #[trigger] routes[j].total_minutes,
        is_recommended(spec_route_priority(Some("comfort"@)), routes, i) ==> forall|j: int|
            0 <= j < routes.len() ==> routes[i].comfort >= #[trigger] routes[j].comfort,
{
    lemma_priority_words_distinct();
    let c = spec_route_priority(Some("cost"@));
    let t = spec_route_priority(Some("time"@));
    let f = spec_route_priority(Some("comfort"@));
    if is_recommended(c, routes, i) {
        assert forall|j: int| 0 <= j < routes.len() implies routes[i].cost_rank <= #[trigger] routes[j].cost_rank by {
            assert(route_key(c, routes[i]) <= route_key(c, routes[j]));
        }
    }
    if is_recommended(spec_route_priority(None), routes, i) {
        assert forall|j: int| 0 <= j < routes.len() implies routes[i].cost_rank <= #[trigger] routes[j].cost_rank by {
            assert(route_key(RoutePriority::Cost, routes[i]) <= route_key(RoutePriority::Cost, routes[j]));
        }
    }
    if is_recommended(t, routes, i) {
        assert forall|j: int| 0 <= j < routes.len() implies routes[i].total_minutes <= #[trigger] routes[j].total_minutes by {
            assert(route_key(t, routes[i]) <= route_key(t, routes[j]));
        }
    }
    if is_recommended(f, routes, i) {
        assert forall|j: int| 0 <= j < routes.len() implies routes[i].comfort >= #[trigger] routes[j].comfort by {
            assert(route_key(f, routes[i]) <= route_key(f, routes[j]));
        }
    }
}

fn key_of(p: RoutePriority, r: &RouteSummary) -> (k: i128)
    ensures
        k == route_key(p, *r),
{
    match p {
        RoutePriority::Time => r.total_minutes as i128,
        RoutePriority::Comfort => -(r.comfort as i128),
        _ => r.cost_rank as i128,
    }
}

/// The route to recommend for a priority; none when there is no route.
pub fn recommend(p: RoutePriority, routes: &[RouteSummary]) -> (r: Option<usize>)
    ensures
        match r {
            Some(i) => is_recommended(p, routes@, i as int),
            None => routes@.len() == 0,
        },
{
    if routes.len() == 0 {
        return None;
    }
    let mut best: usize = 0;
    let mut best_key = key_of(p, &routes[0]);
    let mut i: usize = 1;
    while i < routes.len()
        invariant
            1 <= i <= routes.len(),
            best < i,
            best_key == route_key(p, routes@[best as int]),
            forall|j: int| 0 <= j < i ==> best_key <= route_key(p, #[trigger] routes@[j]),
            p != RoutePriority::Comfort ==> forall|j: int|
                0 <= j < best ==> best_key < route_key(p, #[trigger] routes@[j]),
            p == RoutePriority::Comfort ==> forall|j: int|
                best < j < i ==> best_key < route_key(p, #[trigger] routes@[j]),
        decreases routes.len() - i,
    {
        let k = key_of(p, &routes[i]);
        let better = match p {
            RoutePriority::Comfort => k <= best_key,
            _ => k < best_key,
        };
        if better {
            best = i;
            best_key = k;
        }
        i = i + 1;
    }
    Some(best)
}

/// Why the choice was made, by priority.
pub open spec fn spec_reason(p: RoutePriority, choice: Seq<char>) -> Seq<char> {
    match p {
        RoutePriority::Time => choice + "总时间最短，适合赶时间的行程"@,
        RoutePriority::Cost => choice + "性价比最高，费用最低"@,
        RoutePriority::Comfort => choice + "舒适度最高"@,
        RoutePriority::Other => choice + "综合性价比最优"@,
    }
}

/// The reason names the chosen route first, then what the asked-for word
/// optimises: the lowest cost for `cost` (and for no word), the shortest time
/// for `time`, the most comfort for `comfort`.
pub proof fn law_priority_reasons(choice: Seq<char>)
    ensures
        spec_reason(spec_route_priority(Some("cost"@)), choice) == choice + "性价比最高，费用最低"@,
        spec_reason(spec_route_priority(None), choice) == choice + "性价比最高，费用最低"@,
        spec_reason(spec_route_priority(Some("time"@)), choice) == choice
            + "总时间最短，适合赶时间的行程"@,
        spec_reason(spec_route_priority(Some("comfort"@)), choice) == choice + "舒适度最高"@,
        forall|p: RoutePriority| choice.is_prefix_of(#[trigger] spec_reason(p, choice)),
{
    lemma_priority_words_distinct();
    assert forall|p: RoutePriority| choice.is_prefix_of(#[trigger] spec_reason(p, choice)) by {
        let r = spec_reason(p, choice);
        assert(r.subrange(0, choice.len() as int) =~= choice);
    }
}

pub fn recommendation_reason(p: RoutePriority, choice: &str) -> (r: String)
    ensures
        r@ == spec_reason(p, choice@),
        choice@.is_prefix_of(r@),
        p == RoutePriority::Cost ==> r@ == choice@ + "性价比最高，费用最低"@,
        p == RoutePriority::Time ==> r@ == choice@ + "总时间最短，适合赶时间的行程"@,
        p == RoutePriority::Comfort ==> r@ == choice@ + "舒适度最高"@,
{
    proof {
        law_priority_reasons(choice@);
    }
    let mut s = String::from_str(choice);
    match p {
        RoutePriority::Time => s.append("总时间最短，适合赶时间的行程"),
        RoutePriority::Cost => s.append("性价比最高，费用最低"),
        RoutePriority::Comfort => s.append("舒适度最高"),
        RoutePriority::Other => s.append("综合性价比最优"),
    }
    s
}

/// The label of the recommended route when it is still listed after the
/// budget filter (`kept`), else `未知`.
pub fn chosen_label(recommended: Option<usize>, kept: &[bool], labels: &[String]) -> (r: String)
    requires
        kept@.len() == labels@.len(),
    ensures
        r@ == (match recommended {
            Some(i) => if i < kept@.len() && kept@[i as int] {
                labels@[i as int]@
            } else {
                "未知"@
            },
            None => "未知"@,
        }),
{
    match recommended {
        Some(i) => {
            if i < kept.len() && kept[i] {
                labels[i].clone()
            } else {
                String::from_str("未知")
            }
        },
        None => String::from_str("未知"),
    }
}

// ─── Trips ───

/// The day number (days from the start of the common era) of a `YYYY-MM-DD`
/// date, as `chrono` reads it; none when the text is not such a date.
pub uninterp spec fn ymd_day_number(s: Seq<char>) -> Option<int>;

/// `chrono::NaiveDate::parse_from_str(s, "%Y-%m-%d")`, then the date's day number
/// (`num_days_from_ce`): named `ymd_day_number`.
#[verifier::external_body]
pub(crate) fn parse_ymd(s: &str) -> (r: Option<i32>)
    ensures
        match r {
            Some(d) => ymd_day_number(s@) == Some(d as int),
            None => ymd_day_number(s@) is None,
        },
{
    match chrono::NaiveDate::parse_from_str(s, "%Y-%m-%d") {
        Ok(d) => Some(d.num_days_from_ce()),
        Err(_) => None,
    }
}

/// The longest trip the planner lays out, in days.
pub const MAX_TRIP_DAYS: i64 = 30;

fn plan_error(message: &str) -> (r: RuntimeError)
    ensures
        r matches RuntimeError::Tool { tool_name, message: m } && tool_name@ == "plan_trip"@ && m@
            == message@,
{
    RuntimeError::Tool { tool_name: String::from_str("plan_trip"), message: String::from_str(message) }
}

/// The number of days of a trip from its start and end day numbers (`None`
/// where the text was not a date): the errors of the planner, in its order.
pub open spec fn spec_trip_days(start: Option<int>, end: Option<int>) -> Result<int, Seq<char>> {
    match start {
        None => Err("出发日期格式错误，应为 YYYY-MM-DD"@),
        Some(s) => match end {
            None => Err("返回日期格式错误，应为 YYYY-MM-DD"@),
            Some(e) => if e <= s {
                Err("返回日期必须晚于出发日期"@)
            } else if e - s > 30 {
                Err("行程不能超过 30 天"@)
            } else {
                Ok(e - s)
            },
        },
    }
}

/// `r` is the planner's answer `expected`: the days, or a `plan_trip` tool error
/// with the message.
pub open spec fn plan_result(r: Result<i64, RuntimeError>, expected: Result<int, Seq<char>>) -> bool {
    match expected {
        Ok(d) => r == Ok::<i64, RuntimeError>(d as i64),
        Err(m) => r matches Err(RuntimeError::Tool { tool_name, message }) && tool_name@
            == "plan_trip"@ && message@ == m,
    }
}

/// The days of a trip between two parsed dates, or the planner's error.
pub fn trip_days(start: Option<i32>, end: Option<i32>) -> (r: Result<i64, RuntimeError>)
    ensures
        plan_result(
            r,
            spec_trip_days(
                match start {
                    Some(s) => Some(s as int),
                    None => None,
                },
                match end {
                    Some(e) => Some(e as int),
                    None => None,
                },
            ),
        ),
{
    match start {
        None => Err(plan_error("出发日期格式错误，应为 YYYY-MM-DD")),
        Some(s) => match end {
            None => Err(plan_error("返回日期格式错误，应为 YYYY-MM-DD")),
            Some(e) => {
                if e <= s {
                    Err(plan_error("返回日期必须晚于出发日期"))
                } else if e as i64 - s as i64 > MAX_TRIP_DAYS {
                    Err(plan_error("行程不能超过 30 天"))
                } else {
                    Ok(e as i64 - s as i64)
                }
            },
        },
    }
}

/// The days of a trip between two `YYYY-MM-DD` texts, or the planner's error.
pub fn trip_days_between(start: &str, end: &str) -> (r: Result<i64, RuntimeError>)
    ensures
        plan_result(r, spec_trip_days(ymd_day_number(start@), ymd_day_number(end@))),
{
    let s = parse_ymd(start);
    let e = parse_ymd(end);
    trip_days(s, e)
}

/// The number of travellers: as given, but at least one.
pub fn travelers_count(t: Option<i32>) -> (r: i32)
    ensures
        r == (match t {
            Some(n) => if n >= 1 {
                n
            } else {
                1
            },
            None => 1,
        }),
{
    match t {
        Some(n) => if n >= 1 {
            n
        } else {
            1
        },
        None => 1,
    }
}

/// The theme of day `day` (from 0) of a trip of `days` days.
pub open spec fn spec_day_theme(day: int, days: int) -> Seq<char> {
    if day == 0 {
        "抵达 & 初探"@
    } else if day == days - 1 {
        "返程"@
    } else {
        "深度游览"@
    }
}

pub fn day_theme(day: i64, days: i64) -> (r: String)
    requires
        days > i64::MIN,
    ensures
        r@ == spec_day_theme(day as int, days as int),
{
    if day == 0 {
        String::from_str("抵达 & 初探")
    } else if day == days - 1 {
        String::from_str("返程")
    } else {
        String::from_str("深度游览")
    }
}

/// The attractions of day `day`: the two after the `2 * day` of earlier days,
/// as far as there are any (`skip(2 * day).take(2)`).
pub fn day_attraction_range(day: usize, count: usize) -> (r: (usize, usize))
    ensures
        r.0 == (if 2 * day <= count { 2 * day } else { count as int }),
        r.1 == (if 2 * day + 2 <= count { 2 * day + 2 } else { count as int }),
{
    let start: usize = if day <= count / 2 {
        2 * day
    } else {
        count
    };
    let end: usize = if count >= 2 && start <= count - 2 {
        start + 2
    } else {
        count
    };
    (start, end)
}

/// The mode of transport the planner picks.
#[derive(Debug, Clone, Copy, PartialEq, Eq, Structural)]
pub enum TransportPick {
    Train,
    Flight,
}

/// Picks the train or the flight: with both, comfort takes the train and any
/// other priority the one that is not dearer (the train on a tie); with one,
/// that one.
pub fn pick_transport(
    p: RoutePriority,
    has_train: bool,
    has_flight: bool,
    train_not_dearer: bool,
) -> (r: Option<TransportPick>)
    ensures
        r == (if has_train && has_flight {
            if p == RoutePriority::Comfort || train_not_dearer {
                Some(TransportPick::Train)
            } else {
                Some(TransportPick::Flight)
            }
        } else if has_train {
            Some(TransportPick::Train)
        } else if has_flight {
            Some(TransportPick::Flight)
        } else {
            None
        }),
{
    if has_train && has_flight {
        match p {
            RoutePriority::Comfort => Some(TransportPick::Train),
            _ => if train_not_dearer {
                Some(TransportPick::Train)
            } else {
                Some(TransportPick::Flight)
            },
        }
    } else if has_train {
        Some(TransportPick::Train)
    } else if has_flight {
        Some(TransportPick::Flight)
    } else {
        None
    }
}

// ─── Transport searches ───

/// Results returned at most per train or flight search: as asked, twenty by
/// default, never more than fifty.
pub fn transport_limit(requested: Option<usize>) -> (r: usize)
    ensures
        r == (match requested {
            Some(n) => if n < 50 {
                n
            } else {
                50
            },
            None => 20,
        }),
{
    match requested {
        Some(n) => if n < 50 {
            n
        } else {
            50
        },
        None => 20,
    }
}

/// The cabin a filter names, in the scraper's words: `economy`, `business` and
/// `first` are translated, anything else is taken as it is.
pub open spec fn spec_cabin_label(c: Seq<char>) -> Seq<char> {
    if c == "economy"@ {
        "经济舱"@
    } else if c == "business"@ {
        "商务舱"@
    } else if c == "first"@ {
        "头等舱"@
    } else {
        c
    }
}

/// The cabins a filter can name, each with the scraper's name for it.
pub open spec fn cabin_names() -> Seq<(Seq<char>, Seq<char>)> {
    seq![("economy"@, "经济舱"@), ("business"@, "商务舱"@), ("first"@, "头等舱"@)]
}

/// Each named cabin is translated to its own name, different named cabins to
/// different names, and any other word is kept as it is.
proof fn lemma_cabin_table()
    ensures
        cabin_names().len() == 3,
        cabin_names()[0] == ("economy"@, "经济舱"@),
        cabin_names()[1] == ("business"@, "商务舱"@),
        cabin_names()[2] == ("first"@, "头等舱"@),
        "economy"@ != "business"@,
        "economy"@ != "first"@,
        "business"@ != "first"@,
        "经济舱"@ != "商务舱"@,
        "经济舱"@ != "头等舱"@,
        "商务舱"@ != "头等舱"@,
{
    reveal_strlit("economy");
    reveal_strlit("business");
    reveal_strlit("first");
    reveal_strlit("经济舱");
    reveal_strlit("商务舱");
    reveal_strlit("头等舱");
    assert("economy"@.len() != "business"@.len());
    assert("economy"@.len() != "first"@.len());
    assert("business"@.len() != "first"@.len());
    assert("经济舱"@[0] != "商务舱"@[0]);
    assert("经济舱"@[0] != "头等舱"@[0]);
    assert("商务舱"@[0] != "头等舱"@[0]);
}

/// Each named cabin is translated to its own name, different named cabins to
/// different names, and any other word is kept as it is.
pub proof fn law_cabin_names(a: Seq<char>, b: Seq<char>)
    ensures
        forall|k: int|
            0 <= k < cabin_names().len() && a == (#[trigger] cabin_names()[k]).0 ==> spec_cabin_label(a)
                == cabin_names()[k].1,
        (forall|k: int| 0 <= k < cabin_names().len() ==> a != (#[trigger] cabin_names()[k]).0)
            ==> spec_cabin_label(a) == a,
        (exists|k: int| 0 <= k < cabin_names().len() && a == (#[trigger] cabin_names()[k]).0) && (
        exists|k: int| 0 <= k < cabin_names().len() && b == (#[trigger] cabin_names()[k]).0) && a
            != b ==> spec_cabin_label(a) != spec_cabin_label(b),
{
    lemma_cabin_table();
    assert forall|k: int|
        0 <= k < cabin_names().len() && a == (#[trigger] cabin_names()[k]).0 implies spec_cabin_label(a)
            == cabin_names()[k].1 by {
        if k == 0 {
        } else if k == 1 {
        } else {
            assert(k == 2);
        }
    }
    if (forall|k: int| 0 <= k < cabin_names().len() ==> a != (#[trigger] cabin_names()[k]).0) {
        assert(a != cabin_names()[0].0);
        assert(a != cabin_names()[1].0);
        assert(a != cabin_names()[2].0);
    }
}

pub fn cabin_label(cabin: &str) -> (r: String)
    ensures
        r@ == spec_cabin_label(cabin@),
        forall|k: int|
            0 <= k < cabin_names().len() && cabin@ == (#[trigger] cabin_names()[k]).0 ==> r@
                == cabin_names()[k].1,
{
    proof {
        lemma_cabin_table();
        assert forall|k: int|
            0 <= k < cabin_names().len() && cabin@ == (#[trigger] cabin_names()[k]).0 implies spec_cabin_label(
                cabin@,
            ) == cabin_names()[k].1 by {
            if k == 0 {
            } else if k == 1 {
            } else {
                assert(k == 2);
            }
        }
    }
    let t = to_chars(cabin);
    let v = t.as_slice();
    if chars_eq_str(v, "economy") {
        String::from_str("经济舱")
    } else if chars_eq_str(v, "business") {
        String::from_str("商务舱")
    } else if chars_eq_str(v, "first") {
        String::from_str("头等舱")
    } else {
        String::from_str(cabin)
    }
}

/// How transport results are ordered.
#[derive(Debug, Clone, Copy, PartialEq, Eq, Structural)]
pub enum TransportOrder {
    Price,
    Duration,
    DepartTime,
}

/// The order a search asks for: `price`, `duration`, or otherwise departure
/// time; with none given, `default_by_price` picks price over departure time.
pub fn transport_order(sort_by: Option<&str>, default_by_price: bool) -> (r: TransportOrder)
    ensures
        r == (match sort_by {
            Some(w) => if w@ == "price"@ {
                TransportOrder::Price
            } else if w@ == "duration"@ {
                TransportOrder::Duration
            } else {
                TransportOrder::DepartTime
            },
            None => if default_by_price {
                TransportOrder::Price
            } else {
                TransportOrder::DepartTime
            },
        }),
{
    match sort_by {
        Some(w) => {
            let t = to_chars(w);
            let v = t.as_slice();
            if chars_eq_str(v, "price") {
                TransportOrder::Price
            } else if chars_eq_str(v, "duration") {
                TransportOrder::Duration
            } else {
                TransportOrder::DepartTime
            }
        },
        None => if default_by_price {
            TransportOrder::Price
        } else {
            TransportOrder::DepartTime
        },
    }
}

/// A travel date must read `YYYY-MM-DD`; otherwise the tool `tool` answers
/// with an error.
pub fn check_travel_date(tool: &str, date: &str) -> (r: Option<RuntimeError>)
    ensures
        ymd_day_number(date@) is Some ==> r is None,
        ymd_day_number(date@) is None ==> (r matches Some(RuntimeError::Tool { tool_name, message })
            && tool_name@ == tool@ && message@ == "出行日期格式错误，应为 YYYY-MM-DD"@),
{
    match parse_ymd(date) {
        Some(_) => None,
        None => Some(
            RuntimeError::Tool {
                tool_name: String::from_str(tool),
                message: String::from_str("出行日期格式错误，应为 YYYY-MM-DD"),
            },
        ),
    }
}

} // verus!
