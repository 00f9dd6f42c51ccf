//! The decisions of the recipe page: which recipe a request for it asks for.
use vstd::prelude::*;

use crate::normalize::{char_is_white_space, is_white_space};

verus! {

/// The query parameters of a request for the recipe page.
#[derive(Debug)]
pub struct GetRecipeParams {
    pub id: Option<String>,
    pub cuisine: Option<String>,
}

/// What the recipe page shows, or where it sends the browser.
#[derive(Debug, PartialEq, Eq)]
pub enum PageRequest {
    /// Show the recipe of this id, or the placeholder where there is none.
    ById(i64),
    /// Show the placeholder recipe: the id given is not a number.
    Placeholder,
    /// Pick a random recipe of this cuisine and send the browser to it.
    ByCuisine(String),
    /// Send the browser to the page without parameters.
    Home,
    /// Pick a random recipe and send the browser to it.
    Random,
}

/// An ASCII decimal digit.
pub open spec fn is_digit(c: char) -> bool {
    48 <= (c as u32) <= 57
}

/// Every character of `d` is a decimal digit.
pub open spec fn all_digits(d: Seq<char>) -> bool {
    forall|i: int| 0 <= i < d.len() ==> is_digit(#[trigger] d[i])
}

/// The digits of `s`: what follows its sign, if it has one.
pub open spec fn unsigned_part(s: Seq<char>) -> Seq<char> {
    if s.len() > 0 && (s[0] == '-' || s[0] == '+') {
        s.drop_first()
    } else {
        s
    }
}

/// The value of the decimal digits `d`.
pub open spec fn digits_value(d: Seq<char>) -> int
    decreases d.len(),
{
    if d.len() == 0 {
        0
    } else {
        digits_value(d.drop_last()) * 10 + (d.last() as u32) - 48
    }
}

/// The number that `s` writes as a 64-bit signed integer: an optional sign
/// followed by at least one decimal digit, with a value in range.
pub open spec fn parsed_i64(s: Seq<char>) -> Option<int> {
    let neg = s.len() > 0 && s[0] == '-';
    let d = unsigned_part(s);
    let v = if neg {
        -digits_value(d)
    } else {
        digits_value(d)
    };
    if d.len() > 0 && all_digits(d) && i64::MIN <= v <= i64::MAX {
        Some(v)
    } else {
        None
    }
}

proof fn lemma_digits_grow(d: Seq<char>, i: int)
    requires
        0 <= i <= d.len(),
        forall|k: int| 0 <= k < d.len() ==> is_digit(#[trigger] d[k]),
    ensures
        digits_value(d) >= digits_value(d.take(i)) >= 0,
    decreases d.len() - i,
{
    if i < d.len() {
        assert(d.take(i + 1).drop_last() =~= d.take(i));
        lemma_digits_grow(d, i + 1);
    } else {
        assert(d.take(i) =~= d);
    }
    lemma_digits_nonneg(d.take(i));
}

proof fn lemma_digits_nonneg(d: Seq<char>)
    requires
        forall|k: int| 0 <= k < d.len() ==> is_digit(#[trigger] d[k]),
    ensures
        digits_value(d) >= 0,
    decreases d.len(),
{
    if d.len() > 0 {
        lemma_digits_nonneg(d.drop_last());
    }
}

/// Reads a recipe id written in decimal, with an optional sign, as
/// `parsed_i64` says; `None` where the text is no such number.
pub fn parse_id(s: &str) -> (r: Option<i64>)
    ensures
        r is Some <==> parsed_i64(s@) is Some,
        r matches Some(v) ==> parsed_i64(s@) == Some(v as int),
{
    let n = s.unicode_len();
    let mut start: usize = 0;
    let mut neg = false;
    if n > 0 {
        let c = s.get_char(0);
        if c == '-' || c == '+' {
            start = 1;
            neg = c == '-';
        }
    }
    let ghost d = s@.subrange(start as int, n as int);
    assert(d =~= unsigned_part(s@));
    if start == n {
        return None;
    }
    let limit: u128 = 9223372036854775808;
    let mut acc: u128 = 0;
    let mut i: usize = start;
    while i < n
        invariant
            start <= i <= n == s@.len(),
            d == s@.subrange(start as int, n as int),
            d == unsigned_part(s@),
            neg == (s@.len() > 0 && s@[0] == '-'),
            limit == 9223372036854775808,
            acc <= limit,
            acc == digits_value(d.take(i - start)),
            forall|k: int| 0 <= k < i - start ==> is_digit(#[trigger] d[k]),
        decreases n - i,
    {
        let c = s.get_char(i);
        let cv = c as u32;
        assert(d[i - start] == c);
        if !(48 <= cv && cv <= 57) {
            assert(!is_digit(d[i - start]));
            assert(!all_digits(d));
            return None;
        }
        assert(d.take(i - start + 1).drop_last() =~= d.take(i - start));
        assert(acc * 10 <= limit * 10) by (nonlinear_arith)
            requires
                acc <= limit,
        ;
        let digit: u128 = (cv - 48) as u128;
        let tens: u128 = acc * 10;
        acc = tens + digit;
        i = i + 1;
        if acc > limit {
            proof {
                if all_digits(d) {
                    lemma_digits_grow(d, i - start);
                }
            }
            return None;
        }
    }
    assert(d.take(n - start) =~= d);
    if neg {
        Some((0 - (acc as i128)) as i64)
    } else if acc < limit {
        Some(acc as i64)
    } else {
        None
    }
}

/// Whether `s` holds nothing but white space.
pub fn is_blank(s: &str) -> (r: bool)
    ensures
        r == (forall|i: int| 0 <= i < s@.len() ==> is_white_space(#[trigger] s@[i])),
{
    let n = s.unicode_len();
    let mut i: usize = 0;
    while i < n
        invariant
            i <= n == s@.len(),
            forall|k: int| 0 <= k < i ==> is_white_space(#[trigger] s@[k]),
        decreases n - i,
    {
        if !char_is_white_space(s.get_char(i)) {
            return false;
        }
        i = i + 1;
    }
    true
}

/// The page that the parameters ask for. An id comes first: it shows that
/// recipe, or the placeholder where it is no number. Else a cuisine that is
/// blank sends the browser home, and any other picks a recipe of that
/// cuisine. Without either a random recipe is picked.
pub fn plan_page(params: &GetRecipeParams) -> (r: PageRequest)
    ensures
        params.id matches Some(s) ==> (match parsed_i64(s@) {
            Some(v) => r == PageRequest::ById(v as i64),
            None => r == PageRequest::Placeholder,
        }),
        params.id is None ==> (params.cuisine matches Some(c) ==> (if forall|i: int|
            0 <= i < c@.len() ==> is_white_space(#[trigger] c@[i]) {
            r == PageRequest::Home
        } else {
            r matches PageRequest::ByCuisine(q) && q@ == c@
        })),
        params.id is None && params.cuisine is None ==> r == PageRequest::Random,
{
    match &params.id {
        Some(s) => match parse_id(s.as_str()) {
            Some(v) => PageRequest::ById(v),
            None => PageRequest::Placeholder,
        },
        None => match &params.cuisine {
            Some(c) => if is_blank(c.as_str()) {
                PageRequest::Home
            } else {
                PageRequest::ByCuisine(c.clone())
            },
            None => PageRequest::Random,
        },
    }
}

} // verus!
