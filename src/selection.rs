//! Selection of the recipe id that a random lookup answers with, optionally
//! among the recipes of one cuisine.
use vstd::prelude::*;

use crate::error::DatabaseError;

verus! {

/// A character under ASCII case folding, as SQLite's `NOCASE` collation
/// compares it: 'A' to 'Z' become 'a' to 'z', every other character stays.
pub open spec fn fold_ascii(c: char) -> u32 {
    if 'A' <= c && c <= 'Z' {
        (c as u32 + 32) as u32
    } else {
        c as u32
    }
}

/// Two cuisine names are the same up to ASCII letter case.
pub open spec fn same_cuisine(a: Seq<char>, b: Seq<char>) -> bool {
    a.len() == b.len() && forall|i: int| 0 <= i < a.len() ==> fold_ascii(a[i]) == fold_ascii(b[i])
}

/// Whether an entry with cuisine `stored` is a candidate under the filter.
pub open spec fn selected(stored: Seq<char>, cuisine: Option<Seq<char>>) -> bool {
    match cuisine {
        Some(q) => same_cuisine(stored, q),
        None => true,
    }
}

/// The ids of the entries that pass the filter, in the order of the entries.
pub open spec fn matching_ids(entries: Seq<(i64, String)>, cuisine: Option<Seq<char>>) -> Seq<i64>
    decreases entries.len(),
{
    if entries.len() == 0 {
        Seq::<i64>::empty()
    } else if selected(entries.last().1@, cuisine) {
        matching_ids(entries.drop_last(), cuisine).push(entries.last().0)
    } else {
        matching_ids(entries.drop_last(), cuisine)
    }
}

/// The view of an optional cuisine filter.
pub open spec fn filter_view(cuisine: Option<&str>) -> Option<Seq<char>> {
    match cuisine {
        Some(q) => Some(q@),
        None => None,
    }
}

fn fold_char(c: char) -> (r: u32)
    ensures
        r == fold_ascii(c),
{
    if 'A' <= c && c <= 'Z' {
        c as u32 + 32
    } else {
        c as u32
    }
}

/// Whether two cuisine names are the same up to ASCII letter case.
pub fn cuisine_matches(stored: &str, query: &str) -> (r: bool)
    ensures
        r == same_cuisine(stored@, query@),
{
    let n = stored.unicode_len();
    if n != query.unicode_len() {
        return false;
    }
    let mut i: usize = 0;
    while i < n
        invariant
            n == stored@.len() == query@.len(),
            i <= n,
            forall|k: int| 0 <= k < i ==> fold_ascii(stored@[k]) == fold_ascii(query@[k]),
        decreases n - i,
    {
        if fold_char(stored.get_char(i)) != fold_char(query.get_char(i)) {
            return false;
        }
        i = i + 1;
    }
    true
}

/// The ids of the entries, given as (id, cuisine), whose cuisine passes the
/// filter; `None` passes every entry.
pub fn candidate_ids(entries: &Vec<(i64, String)>, cuisine: Option<&str>) -> (r: Vec<i64>)
    ensures
        r@ == matching_ids(entries@, filter_view(cuisine)),
{
    let mut r: Vec<i64> = Vec::new();
    let mut i: usize = 0;
    while i < entries.len()
        invariant
            i <= entries@.len(),
            r@ == matching_ids(entries@.take(i as int), filter_view(cuisine)),
        decreases entries@.len() - i,
    {
        assert(entries@.take(i + 1).drop_last() =~= entries@.take(i as int));
        let keep = match cuisine {
            Some(q) => cuisine_matches(entries[i].1.as_str(), q),
            None => true,
        };
        if keep {
            r.push(entries[i].0);
        }
        i = i + 1;
    }
    assert(entries@.take(i as int) =~= entries@);
    r
}

/// The candidate at position `draw` modulo their number, or
/// `NoMatchingRecipe` where there is none.
pub fn pick_candidate(candidates: &Vec<i64>, draw: usize) -> (r: Result<i64, DatabaseError>)
    ensures
        candidates@.len() == 0 ==> r == Err::<i64, DatabaseError>(DatabaseError::NoMatchingRecipe),
        candidates@.len() > 0 ==> r == Ok::<i64, DatabaseError>(
            candidates@[draw as int % candidates@.len() as int],
        ),
{
    if candidates.len() == 0 {
        Err(DatabaseError::NoMatchingRecipe)
    } else {
        Ok(candidates[draw % candidates.len()])
    }
}

/// Relies on `fastrand::usize` over `0..n`: a value in that range, drawn
/// uniformly. It panics only on an empty range, which `requires` leaves out.
#[verifier::external_body]
fn random_index(n: usize) -> (r: usize)
    requires
        n > 0,
    ensures
        r < n,
{
    fastrand::usize(0..n)
}

/// Picks, uniformly at random, the id of one entry whose cuisine passes the
/// filter. It succeeds whenever some entry passes, and gives
/// `NoMatchingRecipe` where none does, in particular where there is no entry.
pub fn choose_random_id(entries: &Vec<(i64, String)>, cuisine: Option<&str>) -> (r: Result<
    i64,
    DatabaseError,
>)
    ensures
        entries@.len() == 0 ==> r == Err::<i64, DatabaseError>(DatabaseError::NoMatchingRecipe),
        matching_ids(entries@, filter_view(cuisine)).len() == 0 <==> r == Err::<
            i64,
            DatabaseError,
        >(DatabaseError::NoMatchingRecipe),
        matching_ids(entries@, filter_view(cuisine)).len() > 0 ==> r is Ok,
        r matches Ok(id) ==> matching_ids(entries@, filter_view(cuisine)).contains(id),
{
    let candidates = candidate_ids(entries, cuisine);
    if candidates.len() == 0 {
        return Err(DatabaseError::NoMatchingRecipe);
    }
    let draw = random_index(candidates.len());
    let r = pick_candidate(&candidates, draw);
    proof {
        vstd::arithmetic::div_mod::lemma_small_mod(draw as nat, candidates@.len());
        assert(candidates@.contains(candidates@[draw as int]));
    }
    r
}

/// A recipe is a candidate for every spelling of its cuisine that differs
/// from the stored one only in ASCII letter case.
pub proof fn lemma_cuisine_any_case(entries: Seq<(i64, String)>, i: int, query: Seq<char>)
    requires
        0 <= i < entries.len(),
        same_cuisine(entries[i].1@, query),
    ensures
        matching_ids(entries, Some(query)).contains(entries[i].0),
    decreases entries.len(),
{
    let rest = entries.drop_last();
    if i == entries.len() - 1 {
        let m = matching_ids(entries, Some(query));
        assert(m.last() == entries[i].0);
        assert(m.contains(m[m.len() - 1]));
    } else {
        assert(rest[i] == entries[i]);
        lemma_cuisine_any_case(rest, i, query);
        let m = matching_ids(rest, Some(query));
        let k = choose|k: int| 0 <= k < m.len() && m[k] == entries[i].0;
        if selected(entries.last().1@, Some(query)) {
            assert(m.push(entries.last().0)[k] == entries[i].0);
        }
    }
}

} // verus!
