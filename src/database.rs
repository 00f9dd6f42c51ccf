//! The location of the recipe database.
use vstd::prelude::*;

use crate::error::DatabaseError;

verus! {

/// The database used where neither the caller nor the environment names one.
pub const DEFAULT_DB_URI: &'static str = "sqlite://db/recipe.db";

/// The URI of the database: the one the caller gives, else the one the
/// environment gives, else `DEFAULT_DB_URI`.
pub fn get_db_uri(db_uri: Option<&str>, env_uri: Option<&str>) -> (r: String)
    ensures
        db_uri matches Some(u) ==> r@ == u@,
        db_uri is None ==> (env_uri matches Some(u) ==> r@ == u@),
        db_uri is None && env_uri is None ==> r@ == DEFAULT_DB_URI@,
{
    match db_uri {
        Some(u) => u.to_string(),
        None => match env_uri {
            Some(u) => u.to_string(),
            None => DEFAULT_DB_URI.to_string(),
        },
    }
}

/// Whether `s` begins with `prefix`.
pub fn has_prefix(s: &str, prefix: &str) -> (r: bool)
    ensures
        r == (prefix@.len() <= s@.len() && s@.take(prefix@.len() as int) == prefix@),
{
    let n = prefix.unicode_len();
    if n > s.unicode_len() {
        return false;
    }
    let mut i: usize = 0;
    while i < n
        invariant
            n == prefix@.len() <= s@.len(),
            i <= n,
            s@.take(i as int) == prefix@.take(i as int),
        decreases n - i,
    {
        if s.get_char(i) != prefix.get_char(i) {
            assert(s@.take(n as int)[i as int] != prefix@[i as int]);
            return false;
        }
        assert(s@.take(i + 1) =~= s@.take(i as int).push(s@[i as int]));
        assert(prefix@.take(i + 1) =~= prefix@.take(i as int).push(prefix@[i as int]));
        i = i + 1;
    }
    assert(prefix@.take(n as int) =~= prefix@);
    true
}

/// Whether `s` ends with `suffix`.
pub fn has_suffix(s: &str, suffix: &str) -> (r: bool)
    ensures
        r == (suffix@.len() <= s@.len() && s@.subrange(s@.len() - suffix@.len(), s@.len() as int)
            == suffix@),
{
    let n = suffix.unicode_len();
    let m = s.unicode_len();
    if n > m {
        return false;
    }
    let start = m - n;
    let mut i: usize = 0;
    while i < n
        invariant
            n == suffix@.len(),
            m == s@.len(),
            start == m - n,
            i <= n,
            s@.subrange(start as int, start + i) == suffix@.take(i as int),
        decreases n - i,
    {
        if s.get_char(start + i) != suffix.get_char(i) {
            assert(s@.subrange(start as int, m as int)[i as int] != suffix@[i as int]);
            return false;
        }
        assert(s@.subrange(start as int, start + i + 1) =~= s@.subrange(start as int, start + i).push(
            s@[start + i],
        ));
        assert(suffix@.take(i + 1) =~= suffix@.take(i as int).push(suffix@[i as int]));
        i = i + 1;
    }
    assert(suffix@.take(n as int) =~= suffix@);
    true
}

/// The scheme that a SQLite database URI starts with.
pub open spec fn sqlite_scheme() -> Seq<char> {
    seq!['s', 'q', 'l', 'i', 't', 'e', ':', '/', '/']
}

/// The extension of a SQLite database file.
pub open spec fn db_extension() -> Seq<char> {
    seq!['.', 'd', 'b']
}

/// `uri` names a SQLite database file.
pub open spec fn is_db_file_uri(uri: Seq<char>) -> bool {
    &&& uri.len() >= sqlite_scheme().len()
    &&& uri.take(sqlite_scheme().len() as int) == sqlite_scheme()
    &&& uri.len() >= db_extension().len()
    &&& uri.subrange(uri.len() - db_extension().len(), uri.len() as int) == db_extension()
}

/// The position of the last `c` in `s`, or -1 where there is none.
pub open spec fn last_index_of(s: Seq<char>, c: char) -> int
    decreases s.len(),
{
    if s.len() == 0 {
        -1
    } else if s.last() == c {
        s.len() - 1
    } else {
        last_index_of(s.drop_last(), c)
    }
}

/// The directory part of the path of a SQLite database URI: what stands
/// between the scheme and the last '/', or nothing where there is no '/'.
pub open spec fn db_dir(uri: Seq<char>) -> Seq<char> {
    let path = uri.subrange(sqlite_scheme().len() as int, uri.len() as int);
    let k = last_index_of(path, '/');
    if k >= 0 {
        path.take(k)
    } else {
        Seq::<char>::empty()
    }
}

proof fn lemma_last_index_bound(s: Seq<char>, c: char)
    ensures
        -1 <= last_index_of(s, c) < s.len(),
        last_index_of(s, c) >= 0 ==> s[last_index_of(s, c)] == c,
    decreases s.len(),
{
    if s.len() > 0 {
        lemma_last_index_bound(s.drop_last(), c);
    }
}

/// The directory that holds the database file of a SQLite URI such as
/// `sqlite://db/recipe.db` (here `db`); `InvalidDbUri` where the URI does
/// not start with `sqlite://` or does not end with `.db`.
pub fn extract_db_dir(db_uri: &str) -> (r: Result<&str, DatabaseError>)
    ensures
        is_db_file_uri(db_uri@) ==> (r matches Ok(d) && d@ == db_dir(db_uri@)),
        !is_db_file_uri(db_uri@) ==> (r matches Err(DatabaseError::InvalidDbUri(u)) && u@
            == db_uri@),
{
    proof {
        reveal_strlit("sqlite://");
        reveal_strlit(".db");
        assert("sqlite://"@ =~= sqlite_scheme());
        assert(".db"@ =~= db_extension());
    }
    if has_prefix(db_uri, "sqlite://") && has_suffix(db_uri, ".db") {
        let start: usize = 9;
        let n = db_uri.unicode_len();
        let ghost path = db_uri@.subrange(9, n as int);
        assert(path.take(n - start) =~= path);
        let mut end: usize = n;
        while end > start && db_uri.get_char(end - 1) != '/'
            invariant
                start == 9,
                start <= end <= n == db_uri@.len(),
                path == db_uri@.subrange(9, n as int),
                last_index_of(path, '/') == last_index_of(path.take(end - start), '/'),
            decreases end,
        {
            assert(path.take(end - start).drop_last() =~= path.take(end - start - 1));
            assert(path.take(end - start).last() == db_uri@[end - 1]);
            end = end - 1;
        }
        proof {
            lemma_last_index_bound(path.take(end - start), '/');
            if end > start {
                assert(path.take(end - start).last() == db_uri@[end - 1]);
                assert(path.take(end - start).last() == '/');
                assert(path.take(end - start - 1) =~= path.take(last_index_of(path, '/')));
            } else {
                assert(path.take(0) =~= Seq::<char>::empty());
            }
        }
        if end > start {
            let d = db_uri.substring_char(start, end - 1);
            assert(d@ =~= db_dir(db_uri@));
            Ok(d)
        } else {
            let d = db_uri.substring_char(start, start);
            assert(d@ =~= db_dir(db_uri@));
            Ok(d)
        }
    } else {
        Err(DatabaseError::InvalidDbUri(db_uri.to_string()))
    }
}

} // verus!
