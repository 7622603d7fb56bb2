//! What the store does with text on its way in and out: how a city name is
//! normalised before it is looked up, and how hotels are written as CSV.
use vstd::prelude::*;
use crate::text::{ends_with, from_chars, push_decimal, decimal, slice_range, to_chars, trim, trim_chars};

verus! {

broadcast use vstd::string::group_string_axioms;

/// The position of the last `c` in `s`.
pub open spec fn last_index_of(s: Seq<char>, c: char) -> Option<int>
    decreases s.len(),
{
    if s.len() == 0 {
        None
    } else if s.last() == c {
        Some(s.len() - 1)
    } else {
        last_index_of(s.drop_last(), c)
    }
}

/// One bracket pair: when the name ends with `close` and holds `open`, what
/// follows the last `open` is cut off and the rest trimmed.
pub open spec fn cut_bracket(s: Seq<char>, open: char, close: char) -> Seq<char> {
    match last_index_of(s, open) {
        Some(i) => if s.len() > 0 && s.last() == close {
            trim(s.take(i))
        } else {
            s
        },
        None => s,
    }
}

/// A city name as it is looked up: trimmed, then without a trailing
/// parenthesised note, in ASCII and in full-width brackets.
pub open spec fn spec_normalize_city_name(name: Seq<char>) -> Seq<char> {
    cut_bracket(cut_bracket(trim(name), '(', ')'), '（', '）')
}

fn last_index(v: &[char], c: char) -> (r: Option<usize>)
    ensures
        match r {
            Some(i) => last_index_of(v@, c) == Some(i as int) && i < v@.len(),
            None => last_index_of(v@, c) is None,
        },
{
    let mut i: usize = v.len();
    assert(v@.take(i as int) =~= v@);
    while i > 0
        invariant
            i <= v.len(),
            last_index_of(v@, c) == last_index_of(v@.take(i as int), c),
        decreases i,
    {
        proof {
            assert(v@.take(i as int).drop_last() =~= v@.take(i - 1));
            assert(v@.take(i as int).last() == v@[i - 1]);
        }
        if v[i - 1] == c {
            return Some(i - 1);
        }
        i = i - 1;
    }
    None
}

fn cut_bracket_chars(v: Vec<char>, open: char, close: char) -> (r: Vec<char>)
    ensures
        r@ == cut_bracket(v@, open, close),
{
    match last_index(v.as_slice(), open) {
        Some(i) => {
            if v.len() > 0 && v[v.len() - 1] == close {
                let head = slice_range(v.as_slice(), 0, i);
                trim_chars(head.as_slice())
            } else {
                v
            }
        },
        None => v,
    }
}

/// Normalises a city name before it is looked up.
pub fn normalize_city_name(name: &str) -> (r: String)
    ensures
        r@ == spec_normalize_city_name(name@),
{
    let t = crate::text::trim_str(name);
    let a = cut_bracket_chars(t, '(', ')');
    let b = cut_bracket_chars(a, '（', '）');
    from_chars(b.as_slice())
}

/// `s` with every `from` replaced by `to`.
pub open spec fn replace_char(s: Seq<char>, from: char, to: char) -> Seq<char> {
    Seq::new(s.len(), |i: int| if s[i] == from { to } else { s[i] })
}

fn push_replacing(out: &mut String, s: &str, from: char, to: char)
    ensures
        final(out)@ == old(out)@ + replace_char(s@, from, to),
{
    let v = to_chars(s);
    let ghost base = out@;
    let mut i: usize = 0;
    while i < v.len()
        invariant
            i <= v.len(),
            v@ == s@,
            out@ == base + replace_char(v@.take(i as int), from, to),
        decreases v.len() - i,
    {
        let c = if v[i] == from {
            to
        } else {
            v[i]
        };
        crate::text::push_char(out, c);
        i = i + 1;
        assert(replace_char(v@.take(i as int), from, to) =~= replace_char(
            v@.take(i - 1),
            from,
            to,
        ).push(c));
    }
    assert(v@.take(v.len() as int) =~= v@);
}

/// The first line of a hotel export.
pub const CSV_HEADER: &'static str = "id,name,city,star,rating,price,room\n";

/// One hotel of a CSV export; the rating and the price are given as the text
/// to write (`-` when unknown).
#[derive(Debug)]
pub struct CsvHotel {
    pub id: String,
    pub name: String,
    pub city: String,
    pub star: Option<u8>,
    pub rating_text: String,
    pub price_text: String,
    pub room: Option<String>,
}

/// The CSV line of a hotel: commas in its name become spaces, and an unknown
/// star or room is written `-`.
pub open spec fn csv_line(h: CsvHotel) -> Seq<char> {
    h.id@ + ","@ + replace_char(h.name@, ',', ' ') + ","@ + h.city@ + ","@ + (match h.star {
        Some(s) => decimal(s as nat),
        None => "-"@,
    }) + ","@ + h.rating_text@ + ","@ + h.price_text@ + ","@ + (match h.room {
        Some(r) => r@,
        None => "-"@,
    }) + "\n"@
}

pub open spec fn csv_lines(hs: Seq<CsvHotel>) -> Seq<char>
    decreases hs.len(),
{
    if hs.len() == 0 {
        seq![]
    } else {
        csv_lines(hs.drop_last()) + csv_line(hs.last())
    }
}

fn push_csv_line(out: &mut String, h: &CsvHotel)
    ensures
        final(out)@ == old(out)@ + csv_line(*h),
{
    out.append(h.id.as_str());
    out.append(",");
    push_replacing(out, h.name.as_str(), ',', ' ');
    out.append(",");
    out.append(h.city.as_str());
    out.append(",");
    match h.star {
        Some(s) => push_decimal(out, s as u64),
        None => out.append("-"),
    }
    out.append(",");
    out.append(h.rating_text.as_str());
    out.append(",");
    out.append(h.price_text.as_str());
    out.append(",");
    match &h.room {
        Some(r) => out.append(r.as_str()),
        None => out.append("-"),
    }
    out.append("\n");
}

/// A CSV export of hotels: the header, then one line per hotel.
pub fn hotels_csv(hotels: &Vec<CsvHotel>) -> (r: String)
    ensures
        r@ == CSV_HEADER@ + csv_lines(hotels@),
{
    let mut out = String::from_str(CSV_HEADER);
    let ghost head = out@;
    let mut i: usize = 0;
    while i < hotels.len()
        invariant
            i <= hotels.len(),
            head == CSV_HEADER@,
            out@ == head + csv_lines(hotels@.take(i as int)),
        decreases hotels.len() - i,
    {
        proof {
            assert(hotels@.take(i + 1).drop_last() =~= hotels@.take(i as int));
            assert(hotels@.take(i + 1).last() == hotels@[i as int]);
        }
        push_csv_line(&mut out, &hotels[i]);
        i = i + 1;
    }
    assert(hotels@.take(hotels.len() as int) =~= hotels@);
    out
}

} // verus!
