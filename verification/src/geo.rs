//! What a city-information request asks for, and the fixed parts of its
//! answer that do not come from the database.
use vstd::prelude::*;
use crate::actions::tool_error;
use crate::text::str_eq;
use crate::types::RuntimeError;

verus! {

broadcast use vstd::string::group_string_axioms;

/// The part of a city's information that a request asks for.
#[derive(Debug, Clone, Copy, PartialEq, Eq, Structural)]
pub enum CityInfoKind {
    Overview,
    Districts,
    Attractions,
    Transport,
}

/// The kind that an `info_type` names, if any.
pub open spec fn spec_city_info_kind(t: Seq<char>) -> Option<CityInfoKind> {
    if t == "overview"@ {
        Some(CityInfoKind::Overview)
    } else if t == "districts"@ {
        Some(CityInfoKind::Districts)
    } else if t == "attractions"@ {
        Some(CityInfoKind::Attractions)
    } else if t == "transport"@ {
        Some(CityInfoKind::Transport)
    } else {
        None
    }
}

/// The `info_type` word of each kind.
pub open spec fn info_kind_name(k: CityInfoKind) -> Seq<char> {
    match k {
        CityInfoKind::Overview => "overview"@,
        CityInfoKind::Districts => "districts"@,
        CityInfoKind::Attractions => "attractions"@,
        CityInfoKind::Transport => "transport"@,
    }
}

/// A kind asked for by its word is that kind, and a word that gives a kind is
/// that kind's word.
pub proof fn law_info_kind_names(k: CityInfoKind, t: Seq<char>)
    ensures
        spec_city_info_kind(info_kind_name(k)) == Some(k),
        spec_city_info_kind(t) matches Some(j) ==> info_kind_name(j) == t,
{
    reveal_strlit("overview");
    reveal_strlit("districts");
    reveal_strlit("attractions");
    reveal_strlit("transport");
    assert("overview"@.len() != "districts"@.len());
    assert("overview"@.len() != "attractions"@.len());
    assert("overview"@.len() != "transport"@.len());
    assert("districts"@[0] != "transport"@[0]);
    assert("districts"@.len() != "attractions"@.len());
    assert("attractions"@.len() != "transport"@.len());
}

/// The `info_type` of a request, `overview` where it gives none.
pub open spec fn info_type_or_default(info_type: Option<Seq<char>>) -> Seq<char> {
    match info_type {
        Some(t) => t,
        None => "overview"@,
    }
}

/// The kind of information a `query_city_info` request asks for; an
/// `info_type` that names none of them is the tool error
/// `Unknown info_type: {info_type}`.
pub fn city_info_kind(info_type: Option<&str>) -> (r: Result<CityInfoKind, RuntimeError>)
    ensures
        ({
            let t = info_type_or_default(
                match info_type {
                    Some(s) => Some(s@),
                    None => None,
                },
            );
            match spec_city_info_kind(t) {
                Some(k) => r == Ok::<CityInfoKind, RuntimeError>(k),
                None => r matches Err(e) && tool_error(
                    e,
                    "query_city_info"@,
                    "Unknown info_type: "@ + t,
                ),
            }
        }),
        info_type is None ==> r == Ok::<CityInfoKind, RuntimeError>(CityInfoKind::Overview),
        forall|k: CityInfoKind|
            (info_type matches Some(w) && #[trigger] info_kind_name(k) == w@) ==> r == Ok::<
                CityInfoKind,
                RuntimeError,
            >(k),
{
    proof {
        law_info_kind_names(CityInfoKind::Overview, "overview"@);
        if let Some(w) = info_type {
            assert forall|k: CityInfoKind| #[trigger] info_kind_name(k) == w@ implies spec_city_info_kind(w@) == Some(k) by {
                law_info_kind_names(k, w@);
            }
        }
    }
    let t: &str = match info_type {
        Some(s) => s,
        None => "overview",
    };
    if str_eq(t, "overview") {
        Ok(CityInfoKind::Overview)
    } else if str_eq(t, "districts") {
        Ok(CityInfoKind::Districts)
    } else if str_eq(t, "attractions") {
        Ok(CityInfoKind::Attractions)
    } else if str_eq(t, "transport") {
        Ok(CityInfoKind::Transport)
    } else {
        let mut m = String::from_str("Unknown info_type: ");
        m.append(t);
        Err(RuntimeError::Tool { tool_name: String::from_str("query_city_info"), message: m })
    }
}

/// The cities that the transport answer lists as having a metro.
pub open spec fn metro_city(city: Seq<char>) -> bool {
    city == "北京"@ || city == "上海"@ || city == "深圳"@
}

/// The transport answer's metro line: `有地铁` for a metro city, else `无地铁`.
pub fn metro_text(city: &str) -> (r: &'static str)
    ensures
        r@ == (if metro_city(city@) {
            "有地铁"@
        } else {
            "无地铁"@
        }),
{
    if str_eq(city, "北京") || str_eq(city, "上海") || str_eq(city, "深圳") {
        "有地铁"
    } else {
        "无地铁"
    }
}

/// The districts answer's advice: `建议住{first}，交通便利`, where `first`
/// is the first district's name, or `市中心` where it has none.
pub fn district_recommendation(first: Option<&str>) -> (r: String)
    ensures
        r@ == "建议住"@ + (match first {
            Some(n) => n@,
            None => "市中心"@,
        }) + "，交通便利"@,
{
    let mut s = String::from_str("建议住");
    match first {
        Some(n) => s.append(n),
        None => s.append("市中心"),
    }
    s.append("，交通便利");
    s
}

/// How many nearby cities a distance request lists: the `limit` it gives,
/// 10 where it gives none, and never more than 50.
pub fn nearby_limit(limit: Option<usize>) -> (r: usize)
    ensures
        r == (match limit {
            Some(n) => if n < 50 { n } else { 50 },
            None => 10,
        }),
{
    match limit {
        Some(n) => if n < 50 { n } else { 50 },
        None => 10,
    }
}

} // verus!
