use vstd::prelude::*;
use crate::text::{chars_eq_str, to_chars};

verus! {

/// Sort order for hotel searches.
#[derive(Debug, Clone, Copy, PartialEq, Eq, Structural)]
pub enum SortBy {
    Price,
    Rating,
    Star,
}

/// Maps a user-supplied sort key to a `SortBy`; anything unknown sorts by price.
pub open spec fn spec_parse_sort_by(s: Seq<char>) -> SortBy {
    if s == "rating"@ {
        SortBy::Rating
    } else if s == "star"@ {
        SortBy::Star
    } else {
        SortBy::Price
    }
}

/// The word that asks for each order; price is also what any other word gets.
pub open spec fn sort_word(b: SortBy) -> Seq<char> {
    match b {
        SortBy::Price => "price"@,
        SortBy::Rating => "rating"@,
        SortBy::Star => "star"@,
    }
}

proof fn lemma_sort_words_distinct()
    ensures
        "price"@ != "rating"@,
        "price"@ != "star"@,
        "rating"@ != "star"@,
{
    reveal_strlit("price");
    reveal_strlit("rating");
    reveal_strlit("star");
    assert("price"@.len() != "rating"@.len());
    assert("price"@.len() != "star"@.len());
    assert("rating"@.len() != "star"@.len());
}

/// Asking for an order by its word gives that order; a word that names no
/// order sorts by price.
pub proof fn law_sort_words(b: SortBy, w: Seq<char>)
    ensures
        spec_parse_sort_by(sort_word(b)) == b,
        (w != sort_word(SortBy::Rating) && w != sort_word(SortBy::Star)) ==> spec_parse_sort_by(w)
            == SortBy::Price,
{
    lemma_sort_words_distinct();
}

pub fn parse_sort_by(s: &str) -> (r: SortBy)
    ensures
        r == spec_parse_sort_by(s@),
        forall|b: SortBy| #[trigger] sort_word(b) == s@ ==> r == b,
        (s@ != "rating"@ && s@ != "star"@) ==> r == SortBy::Price,
{
    proof {
        lemma_sort_words_distinct();
    }
    let v = to_chars(s);
    if chars_eq_str(v.as_slice(), "rating") {
        SortBy::Rating
    } else if chars_eq_str(v.as_slice(), "star") {
        SortBy::Star
    } else {
        SortBy::Price
    }
}

} // verus!
