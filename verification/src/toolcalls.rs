//! The tools' dispatch and the hotel tools' checks: which tool a call names, which requests are
//! refused and with what message, the limits applied, and the summary of a
//! scrape.
use vstd::prelude::*;
use crate::text::{decimal, push_decimal, str_eq};
use crate::actions::tool_error;
use crate::travel::{parse_ymd, ymd_day_number};
use crate::types::RuntimeError;

verus! {

broadcast use vstd::string::group_string_axioms;

/// A tool of the hotel executor.
#[derive(Debug, Clone, Copy, PartialEq, Eq, Structural)]
pub enum HotelTool {
    Scrape,
    Search,
    Analyze,
    Export,
}

/// The tool a name stands for.
pub open spec fn spec_hotel_tool(name: Seq<char>) -> Option<HotelTool> {
    if name == "scrape_hotels"@ {
        Some(HotelTool::Scrape)
    } else if name == "search_hotels"@ {
        Some(HotelTool::Search)
    } else if name == "analyze_prices"@ {
        Some(HotelTool::Analyze)
    } else if name == "export_report"@ {
        Some(HotelTool::Export)
    } else {
        None
    }
}

/// The tool a call names; any other name is refused with `Unknown tool`.
pub fn hotel_tool(name: &str) -> (r: Result<HotelTool, RuntimeError>)
    ensures
        match spec_hotel_tool(name@) {
            Some(t) => r == Ok::<HotelTool, RuntimeError>(t),
            None => r matches Err(e) && tool_error(e, name@, "Unknown tool"@),
        },
        forall|h: HotelTool|
            #[trigger] tool_name(TravelTool::Hotel(h)) == name@ ==> r == Ok::<HotelTool, RuntimeError>(h),
{
    proof {
        assert forall|h: HotelTool| #[trigger] tool_name(TravelTool::Hotel(h)) == name@ implies spec_hotel_tool(
            name@,
        ) == Some(h) by {
            law_tool_names(TravelTool::Hotel(h), name@);
        }
    }
    if str_eq(name, "scrape_hotels") {
        Ok(HotelTool::Scrape)
    } else if str_eq(name, "search_hotels") {
        Ok(HotelTool::Search)
    } else if str_eq(name, "analyze_prices") {
        Ok(HotelTool::Analyze)
    } else if str_eq(name, "export_report") {
        Ok(HotelTool::Export)
    } else {
        Err(
            RuntimeError::Tool {
                tool_name: String::from_str(name),
                message: String::from_str("Unknown tool"),
            },
        )
    }
}

/// A tool of the travel agent.
#[derive(Debug, Clone, Copy, PartialEq, Eq, Structural)]
pub enum TravelTool {
    Hotel(HotelTool),
    SearchTrains,
    SearchFlights,
    CompareRoutes,
    PlanTrip,
    QueryCityInfo,
    CityDistance,
    PriceMonitor,
    Wiki,
}

/// The tool a name calls, if any.
pub open spec fn spec_travel_tool(name: Seq<char>) -> Option<TravelTool> {
    if name == "search_trains"@ {
        Some(TravelTool::SearchTrains)
    } else if name == "search_flights"@ {
        Some(TravelTool::SearchFlights)
    } else if name == "compare_routes"@ {
        Some(TravelTool::CompareRoutes)
    } else if name == "plan_trip"@ {
        Some(TravelTool::PlanTrip)
    } else if name == "query_city_info"@ {
        Some(TravelTool::QueryCityInfo)
    } else if name == "city_distance"@ {
        Some(TravelTool::CityDistance)
    } else if name == "price_monitor"@ {
        Some(TravelTool::PriceMonitor)
    } else if name == "wiki"@ {
        Some(TravelTool::Wiki)
    } else {
        match spec_hotel_tool(name) {
            Some(h) => Some(TravelTool::Hotel(h)),
            None => None,
        }
    }
}

/// The name that calls each tool.
pub open spec fn tool_name(t: TravelTool) -> Seq<char> {
    match t {
        TravelTool::Hotel(HotelTool::Scrape) => "scrape_hotels"@,
        TravelTool::Hotel(HotelTool::Search) => "search_hotels"@,
        TravelTool::Hotel(HotelTool::Analyze) => "analyze_prices"@,
        TravelTool::Hotel(HotelTool::Export) => "export_report"@,
        TravelTool::SearchTrains => "search_trains"@,
        TravelTool::SearchFlights => "search_flights"@,
        TravelTool::CompareRoutes => "compare_routes"@,
        TravelTool::PlanTrip => "plan_trip"@,
        TravelTool::QueryCityInfo => "query_city_info"@,
        TravelTool::CityDistance => "city_distance"@,
        TravelTool::PriceMonitor => "price_monitor"@,
        TravelTool::Wiki => "wiki"@,
    }
}

/// Calling a tool by its name gives that tool, and a name that gives a tool
/// is that tool's name; any other name is refused.
pub proof fn law_tool_names(t: TravelTool, name: Seq<char>)
    ensures
        spec_travel_tool(tool_name(t)) == Some(t),
        spec_travel_tool(name) matches Some(u) ==> tool_name(u) == name,
        (forall|u: TravelTool| #[trigger] tool_name(u) != name) ==> spec_travel_tool(name) is None,
{
    reveal_strlit("scrape_hotels");
    reveal_strlit("search_hotels");
    reveal_strlit("analyze_prices");
    reveal_strlit("export_report");
    reveal_strlit("search_trains");
    reveal_strlit("search_flights");
    reveal_strlit("compare_routes");
    reveal_strlit("plan_trip");
    reveal_strlit("query_city_info");
    reveal_strlit("city_distance");
    reveal_strlit("price_monitor");
    reveal_strlit("wiki");
    assert("scrape_hotels"@[0] == 's');
    assert("search_hotels"@[0] == 's');
    assert("analyze_prices"@[0] == 'a');
    assert("export_report"@[0] == 'e');
    assert("search_trains"@[0] == 's');
    assert("search_flights"@[0] == 's');
    assert("compare_routes"@[0] == 'c');
    assert("plan_trip"@[0] == 'p');
    assert("query_city_info"@[0] == 'q');
    assert("city_distance"@[0] == 'c');
    assert("price_monitor"@[0] == 'p');
    assert("wiki"@[0] == 'w');
    assert("scrape_hotels"@[1] == 'c');
    assert("search_hotels"@[1] == 'e');
    assert("search_trains"@[1] == 'e');
    assert("search_hotels"@[7] == 'h');
    assert("search_trains"@[7] == 't');
    assert("city_distance"@ != "scrape_hotels"@) by {
        assert("city_distance"@[0] != "scrape_hotels"@[0]);
    }
    assert("city_distance"@ != "search_hotels"@) by {
        assert("city_distance"@[0] != "search_hotels"@[0]);
    }
    assert("city_distance"@ != "analyze_prices"@) by {
        assert("city_distance"@[0] != "analyze_prices"@[0]);
    }
    assert("city_distance"@ != "export_report"@) by {
        assert("city_distance"@[0] != "export_report"@[0]);
    }
    assert("city_distance"@ != "search_trains"@) by {
        assert("city_distance"@[0] != "search_trains"@[0]);
    }
    assert("city_distance"@ != "search_flights"@) by {
        assert("city_distance"@[0] != "search_flights"@[0]);
    }
    assert("city_distance"@ != "compare_routes"@) by {
        assert("city_distance"@.len() != "compare_routes"@.len());
    }
    assert("city_distance"@ != "plan_trip"@) by {
        assert("city_distance"@[0] != "plan_trip"@[0]);
    }
    assert("city_distance"@ != "query_city_info"@) by {
        assert("city_distance"@[0] != "query_city_info"@[0]);
    }
    assert("price_monitor"@ != "scrape_hotels"@) by {
        assert("price_monitor"@[0] != "scrape_hotels"@[0]);
    }
    assert("price_monitor"@ != "search_hotels"@) by {
        assert("price_monitor"@[0] != "search_hotels"@[0]);
    }
    assert("price_monitor"@ != "analyze_prices"@) by {
        assert("price_monitor"@[0] != "analyze_prices"@[0]);
    }
    assert("price_monitor"@ != "export_report"@) by {
        assert("price_monitor"@[0] != "export_report"@[0]);
    }
    assert("price_monitor"@ != "search_trains"@) by {
        assert("price_monitor"@[0] != "search_trains"@[0]);
    }
    assert("price_monitor"@ != "search_flights"@) by {
        assert("price_monitor"@[0] != "search_flights"@[0]);
    }
    assert("price_monitor"@ != "compare_routes"@) by {
        assert("price_monitor"@[0] != "compare_routes"@[0]);
    }
    assert("price_monitor"@ != "plan_trip"@) by {
        assert("price_monitor"@.len() != "plan_trip"@.len());
    }
    assert("price_monitor"@ != "query_city_info"@) by {
        assert("price_monitor"@[0] != "query_city_info"@[0]);
    }
    assert("price_monitor"@ != "city_distance"@) by {
        assert("price_monitor"@[0] != "city_distance"@[0]);
    }
    assert(spec_travel_tool("scrape_hotels"@) == Some(TravelTool::Hotel(HotelTool::Scrape)));
    assert(spec_travel_tool("search_hotels"@) == Some(TravelTool::Hotel(HotelTool::Search)));
    assert(spec_travel_tool("analyze_prices"@) == Some(TravelTool::Hotel(HotelTool::Analyze)));
    assert(spec_travel_tool("export_report"@) == Some(TravelTool::Hotel(HotelTool::Export)));
    assert(spec_travel_tool("search_trains"@) == Some(TravelTool::SearchTrains));
    assert(spec_travel_tool("search_flights"@) == Some(TravelTool::SearchFlights));
    assert(spec_travel_tool("compare_routes"@) == Some(TravelTool::CompareRoutes));
    assert(spec_travel_tool("plan_trip"@) == Some(TravelTool::PlanTrip));
    assert(spec_travel_tool("query_city_info"@) == Some(TravelTool::QueryCityInfo));
    assert(spec_travel_tool("city_distance"@) == Some(TravelTool::CityDistance));
    assert(spec_travel_tool("price_monitor"@) == Some(TravelTool::PriceMonitor));
    assert(spec_travel_tool("wiki"@) == Some(TravelTool::Wiki));
    if forall|u: TravelTool| #[trigger] tool_name(u) != name {
        assert(tool_name(TravelTool::Hotel(HotelTool::Scrape)) != name);
        assert(tool_name(TravelTool::Hotel(HotelTool::Search)) != name);
        assert(tool_name(TravelTool::Hotel(HotelTool::Analyze)) != name);
        assert(tool_name(TravelTool::Hotel(HotelTool::Export)) != name);
        assert(tool_name(TravelTool::SearchTrains) != name);
        assert(tool_name(TravelTool::SearchFlights) != name);
        assert(tool_name(TravelTool::CompareRoutes) != name);
        assert(tool_name(TravelTool::PlanTrip) != name);
        assert(tool_name(TravelTool::QueryCityInfo) != name);
        assert(tool_name(TravelTool::CityDistance) != name);
        assert(tool_name(TravelTool::PriceMonitor) != name);
        assert(tool_name(TravelTool::Wiki) != name);
    }
}

/// The tool that a call names; any other name is the tool error `Unknown tool`
/// of that name.
pub fn travel_tool(name: &str) -> (r: Result<TravelTool, RuntimeError>)
    ensures
        match spec_travel_tool(name@) {
            Some(t) => r == Ok::<TravelTool, RuntimeError>(t),
            None => r matches Err(e) && tool_error(e, name@, "Unknown tool"@),
        },
        forall|t: TravelTool| #[trigger] tool_name(t) == name@ ==> r == Ok::<TravelTool, RuntimeError>(t),
        (forall|t: TravelTool| #[trigger] tool_name(t) != name@) ==> r is Err,
{
    proof {
        law_tool_names(TravelTool::Wiki, name@);
        assert forall|t: TravelTool| #[trigger] tool_name(t) == name@ implies spec_travel_tool(name@) == Some(t) by {
            law_tool_names(t, name@);
        }
    }
    if str_eq(name, "search_trains") {
        Ok(TravelTool::SearchTrains)
    } else if str_eq(name, "search_flights") {
        Ok(TravelTool::SearchFlights)
    } else if str_eq(name, "compare_routes") {
        Ok(TravelTool::CompareRoutes)
    } else if str_eq(name, "plan_trip") {
        Ok(TravelTool::PlanTrip)
    } else if str_eq(name, "query_city_info") {
        Ok(TravelTool::QueryCityInfo)
    } else if str_eq(name, "city_distance") {
        Ok(TravelTool::CityDistance)
    } else if str_eq(name, "price_monitor") {
        Ok(TravelTool::PriceMonitor)
    } else if str_eq(name, "wiki") {
        Ok(TravelTool::Wiki)
    } else {
        match hotel_tool(name) {
            Ok(h) => Ok(TravelTool::Hotel(h)),
            Err(e) => Err(e),
        }
    }
}

fn scrape_error(m: &str) -> (r: RuntimeError)
    ensures
        tool_error(r, "scrape_hotels"@, m@),
{
    RuntimeError::Tool { tool_name: String::from_str("scrape_hotels"), message: String::from_str(m) }
}

/// The nights of a stay between check-in and check-out day numbers (`None`
/// where the text was not a date), or the scraper's error, in its order.
pub open spec fn spec_stay_nights(checkin: Option<int>, checkout: Option<int>) -> Result<int, Seq<char>> {
    match checkin {
        None => Err("入住日期格式错误，应为 YYYY-MM-DD"@),
        Some(a) => match checkout {
            None => Err("退房日期格式错误，应为 YYYY-MM-DD"@),
            Some(b) => if b <= a {
                Err("退房日期必须晚于入住日期"@)
            } else if b - a > 30 {
                Err("住宿天数不能超过 30 天"@)
            } else {
                Ok(b - a)
            },
        },
    }
}

/// `r` is the scraper's answer `expected`.
pub open spec fn scrape_result(r: Result<i64, RuntimeError>, expected: Result<int, Seq<char>>) -> bool {
    match expected {
        Ok(n) => r == Ok::<i64, RuntimeError>(n as i64),
        Err(m) => r matches Err(e) && tool_error(e, "scrape_hotels"@, m),
    }
}

/// The nights of a stay between two parsed dates, or the scraper's error.
pub fn stay_nights(checkin: Option<i32>, checkout: Option<i32>) -> (r: Result<i64, RuntimeError>)
    ensures
        scrape_result(
            r,
            spec_stay_nights(
                match checkin {
                    Some(a) => Some(a as int),
                    None => None,
                },
                match checkout {
                    Some(b) => Some(b as int),
                    None => None,
                },
            ),
        ),
{
    match checkin {
        None => Err(scrape_error("入住日期格式错误，应为 YYYY-MM-DD")),
        Some(a) => match checkout {
            None => Err(scrape_error("退房日期格式错误，应为 YYYY-MM-DD")),
            Some(b) => {
                if b <= a {
                    Err(scrape_error("退房日期必须晚于入住日期"))
                } else if b as i64 - a as i64 > 30 {
                    Err(scrape_error("住宿天数不能超过 30 天"))
                } else {
                    Ok(b as i64 - a as i64)
                }
            },
        },
    }
}

/// The nights of a stay between two `YYYY-MM-DD` texts, or the scraper's error.
pub fn stay_nights_between(checkin: &str, checkout: &str) -> (r: Result<i64, RuntimeError>)
    ensures
        scrape_result(r, spec_stay_nights(ymd_day_number(checkin@), ymd_day_number(checkout@))),
{
    let a = parse_ymd(checkin);
    let b = parse_ymd(checkout);
    stay_nights(a, b)
}

/// Pages scraped at most per request: as asked, ten by default, never more
/// than fifty.
pub fn scrape_pages(requested: Option<u32>) -> (r: u32)
    ensures
        r == (match requested {
            Some(n) => if n < 50 {
                n
            } else {
                50
            },
            None => 10,
        }),
{
    match requested {
        Some(n) => if n < 50 {
            n
        } else {
            50
        },
        None => 10,
    }
}

fn search_error(m: &str) -> (r: RuntimeError)
    ensures
        tool_error(r, "search_hotels"@, m@),
{
    RuntimeError::Tool { tool_name: String::from_str("search_hotels"), message: String::from_str(m) }
}

/// The message of the first check a search fails: a negative minimum price, a
/// negative maximum price, a maximum below the minimum, a star outside 1–5, a
/// rating outside 0–5 (the price and rating comparisons are made by the caller).
pub open spec fn spec_search_error(
    min_price_negative: bool,
    max_price_negative: bool,
    max_below_min: bool,
    min_star: Option<u8>,
    rating_out_of_range: bool,
) -> Option<Seq<char>> {
    if min_price_negative {
        Some("最低价格不能为负数"@)
    } else if max_price_negative {
        Some("最高价格不能为负数"@)
    } else if max_below_min {
        Some("最高价格不能低于最低价格"@)
    } else if min_star matches Some(s) && !(1 <= s <= 5) {
        Some("星级必须在 1-5 之间"@)
    } else if rating_out_of_range {
        Some("评分必须在 0-5 之间"@)
    } else {
        None
    }
}

pub fn check_search(
    min_price_negative: bool,
    max_price_negative: bool,
    max_below_min: bool,
    min_star: Option<u8>,
    rating_out_of_range: bool,
) -> (r: Option<RuntimeError>)
    ensures
        match spec_search_error(
            min_price_negative,
            max_price_negative,
            max_below_min,
            min_star,
            rating_out_of_range,
        ) {
            Some(m) => r matches Some(e) && tool_error(e, "search_hotels"@, m),
            None => r is None,
        },
{
    if min_price_negative {
        return Some(search_error("最低价格不能为负数"));
    }
    if max_price_negative {
        return Some(search_error("最高价格不能为负数"));
    }
    if max_below_min {
        return Some(search_error("最高价格不能低于最低价格"));
    }
    if let Some(s) = min_star {
        if !(1 <= s && s <= 5) {
            return Some(search_error("星级必须在 1-5 之间"));
        }
    }
    if rating_out_of_range {
        return Some(search_error("评分必须在 0-5 之间"));
    }
    None
}

/// Results returned at most per search: as asked, twenty by default, never
/// more than a hundred.
pub fn search_limit(requested: Option<usize>) -> (r: usize)
    ensures
        r == (match requested {
            Some(n) => if n < 100 {
                n
            } else {
                100
            },
            None => 20,
        }),
{
    match requested {
        Some(n) => if n < 100 {
            n
        } else {
            100
        },
        None => 20,
    }
}

/// A price analysis covers one to ten hotels.
pub fn check_analyze_count(n: usize) -> (r: Option<RuntimeError>)
    ensures
        n == 0 ==> (r matches Some(e) && tool_error(e, "analyze_prices"@, "至少需要提供一个酒店 ID"@)),
        n > 10 ==> (r matches Some(e) && tool_error(e, "analyze_prices"@, "最多只能同时分析 10 个酒店"@)),
        1 <= n <= 10 ==> r is None,
{
    if n == 0 {
        Some(
            RuntimeError::Tool {
                tool_name: String::from_str("analyze_prices"),
                message: String::from_str("至少需要提供一个酒店 ID"),
            },
        )
    } else if n > 10 {
        Some(
            RuntimeError::Tool {
                tool_name: String::from_str("analyze_prices"),
                message: String::from_str("最多只能同时分析 10 个酒店"),
            },
        )
    } else {
        None
    }
}

/// The format of an export.
#[derive(Debug, Clone, Copy, PartialEq, Eq, Structural)]
pub enum ExportFormat {
    Csv,
    Json,
}

/// The format a name stands for.
pub open spec fn spec_export_format(format: Seq<char>) -> Option<ExportFormat> {
    if format == "csv"@ {
        Some(ExportFormat::Csv)
    } else if format == "json"@ {
        Some(ExportFormat::Json)
    } else {
        None
    }
}

/// The name of each export format.
pub open spec fn format_name(f: ExportFormat) -> Seq<char> {
    match f {
        ExportFormat::Csv => "csv"@,
        ExportFormat::Json => "json"@,
    }
}

/// A format asked for by its name is that format; any other name is refused.
pub proof fn law_format_names(f: ExportFormat, name: Seq<char>)
    ensures
        spec_export_format(format_name(f)) == Some(f),
        spec_export_format(name) matches Some(g) ==> format_name(g) == name,
{
    reveal_strlit("csv");
    reveal_strlit("json");
    assert("csv"@.len() != "json"@.len());
}

/// The export format named; anything but `csv` and `json` is refused.
pub fn export_format(format: &str) -> (r: Result<ExportFormat, RuntimeError>)
    ensures
        forall|f: ExportFormat| #[trigger] format_name(f) == format@ ==> r == Ok::<ExportFormat, RuntimeError>(f),
        r matches Ok(f) ==> format_name(f) == format@,
        match spec_export_format(format@) {
            Some(f) => r == Ok::<ExportFormat, RuntimeError>(f),
            None => r matches Err(e) && tool_error(
                e,
                "export_report"@,
                "Unsupported format: "@ + format@ + ". Use csv or json."@,
            ),
        },
{
    proof {
        law_format_names(ExportFormat::Csv, format@);
        law_format_names(ExportFormat::Json, format@);
    }
    if str_eq(format, "csv") {
        Ok(ExportFormat::Csv)
    } else if str_eq(format, "json") {
        Ok(ExportFormat::Json)
    } else {
        let mut m = String::from_str("Unsupported format: ");
        m.append(format);
        m.append(". Use csv or json.");
        Err(RuntimeError::Tool { tool_name: String::from_str("export_report"), message: m })
    }
}

/// The largest export written, in bytes (50 MB).
pub const MAX_EXPORT_BYTES: usize = 52428800;

/// Whether an export of `len` bytes is too large to write.
pub fn export_too_large(len: usize) -> (r: bool)
    ensures
        r == (len > 50 * 1024 * 1024),
{
    len > MAX_EXPORT_BYTES
}

/// The file name of an export made at `stamp` (`%Y%m%d_%H%M%S`).
pub fn export_file_name(stamp: &str, format: &str) -> (r: String)
    ensures
        r@ == "hotels_export_"@ + stamp@ + "."@ + format@,
{
    let mut s = String::from_str("hotels_export_");
    s.append(stamp);
    s.append(".");
    s.append(format);
    s
}

// ─── Scrape summary ───

/// One scraped hotel as the summary shows it; the rating and price are given
/// as the text to show (`-` and `价格未知` when unknown).
#[derive(Debug)]
pub struct HotelLine {
    pub name: String,
    pub star: Option<u8>,
    pub rating_text: String,
    pub price_text: String,
    pub room_count: usize,
}

/// `★` once per star, or `-` when the star is unknown.
pub open spec fn stars_text(star: Option<u8>) -> Seq<char> {
    match star {
        Some(s) => Seq::new(s as nat, |i: int| '★'),
        None => "-"@,
    }
}

/// The summary line of the hotel at position `i` (from 0).
pub open spec fn hotel_line_text(i: nat, h: HotelLine) -> Seq<char> {
    decimal(i + 1) + ". "@ + h.name@ + " "@ + stars_text(h.star) + " 评分:"@ + h.rating_text@ + " "@
        + h.price_text@ + " ("@ + decimal(h.room_count as nat) + "个房型)"@
}

/// The lines of the first `n` hotels, each after a line break.
pub open spec fn hotel_lines_text(hs: Seq<HotelLine>, n: int) -> Seq<char>
    decreases n,
{
    if n <= 0 {
        seq![]
    } else {
        hotel_lines_text(hs, n - 1) + "\n"@ + hotel_line_text((n - 1) as nat, hs[n - 1])
    }
}

/// What a scrape reports: the count for the city, the first ten hotels, how
/// many more there are, and a pointer to the search tool.
pub open spec fn spec_scrape_summary(city: Seq<char>, hs: Seq<HotelLine>) -> Seq<char> {
    let shown: int = if hs.len() < 10 {
        hs.len() as int
    } else {
        10
    };
    "成功爬取 "@ + city + " 的 "@ + decimal(hs.len()) + " 家酒店："@ + hotel_lines_text(hs, shown)
        + (if hs.len() > 10 {
        "\n... 还有 "@ + decimal((hs.len() - 10) as nat) + " 家酒店"@
    } else {
        seq![]
    }) + "\n\n数据已存入本地数据库，可用 search_hotels 进一步筛选。"@
}

fn push_stars(s: &mut String, star: Option<u8>)
    ensures
        final(s)@ == old(s)@ + stars_text(star),
{
    match star {
        Some(n) => {
            let ghost base = s@;
            let mut k: u8 = 0;
            while k < n
                invariant
                    k <= n,
                    s@ == base + Seq::new(k as nat, |i: int| '★'),
                decreases n - k,
            {
                crate::text::push_char(s, '★');
                k = k + 1;
                assert(s@ =~= base + Seq::new(k as nat, |i: int| '★'));
            }
        },
        None => s.append("-"),
    }
}

fn push_hotel_line(s: &mut String, i: usize, h: &HotelLine)
    requires
        i < 10,
    ensures
        final(s)@ == old(s)@ + "\n"@ + hotel_line_text(i as nat, *h),
{
    s.append("\n");
    push_decimal(s, i as u64 + 1);
    s.append(". ");
    s.append(h.name.as_str());
    s.append(" ");
    push_stars(s, h.star);
    s.append(" 评分:");
    s.append(h.rating_text.as_str());
    s.append(" ");
    s.append(h.price_text.as_str());
    s.append(" (");
    push_decimal(s, h.room_count as u64);
    s.append("个房型)");
}

/// The summary of a scrape of `city`.
pub fn build_scrape_summary(hotels: &Vec<HotelLine>, city: &str) -> (r: String)
    ensures
        r@ == spec_scrape_summary(city@, hotels@),
{
    let mut s = String::from_str("成功爬取 ");
    s.append(city);
    s.append(" 的 ");
    push_decimal(&mut s, hotels.len() as u64);
    s.append(" 家酒店：");
    let ghost head = s@;
    let shown: usize = if hotels.len() < 10 {
        hotels.len()
    } else {
        10
    };
    let mut i: usize = 0;
    while i < shown
        invariant
            i <= shown,
            shown <= hotels@.len(),
            shown <= 10,
            s@ == head + hotel_lines_text(hotels@, i as int),
        decreases shown - i,
    {
        push_hotel_line(&mut s, i, &hotels[i]);
        i = i + 1;
    }
    if hotels.len() > 10 {
        s.append("\n... 还有 ");
        push_decimal(&mut s, (hotels.len() - 10) as u64);
        s.append(" 家酒店");
    }
    s.append("\n\n数据已存入本地数据库，可用 search_hotels 进一步筛选。");
    s
}

/// The id of the `i`-th room of a hotel: `{hotel_id}-room-{i}`.
pub fn room_id(hotel_id: &str, i: usize) -> (r: String)
    ensures
        r@ == hotel_id@ + "-room-"@ + decimal(i as nat),
{
    let mut s = String::from_str(hotel_id);
    s.append("-room-");
    push_decimal(&mut s, i as u64);
    s
}

/// The cancellation policy recorded for a room: `免费取消` when it can be
/// cancelled for free, else none.
pub fn cancellation_policy(free_cancel: Option<bool>) -> (r: Option<String>)
    ensures
        r matches Some(p) ==> p@ == "免费取消"@,
        r is Some <==> free_cancel == Some(true),
{
    match free_cancel {
        Some(true) => Some(String::from_str("免费取消")),
        _ => None,
    }
}

} // verus!
