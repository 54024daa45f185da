//! Parsing of the `TRSO_DSN` connection string.
//!
//! A DSN has the shape `libsql://host?authToken=<token>&...`: a non-empty
//! base URL, a `?`, and `&`-separated `key=value` pairs among which an
//! `authToken` with a non-empty value must appear.

use vstd::prelude::*;

verus! {

use vstd::string::StrSliceExecFns;

/// Index of the first occurrence of `c` in `s`, if any.
pub open spec fn find_char(s: Seq<char>, c: char) -> Option<int>
    decreases s.len(),
{
    if s.len() == 0 {
        None
    } else if s[0] == c {
        Some(0)
    } else {
        match find_char(s.drop_first(), c) {
            None => None,
            Some(i) => Some(i + 1),
        }
    }
}

pub proof fn lemma_find_char(s: Seq<char>, c: char)
    ensures
        match find_char(s, c) {
            None => forall|j: int| 0 <= j < s.len() ==> s[j] != c,
            Some(i) => 0 <= i < s.len() && s[i] == c && (forall|j: int| 0 <= j < i ==> s[j] != c),
        },
    decreases s.len(),
{
    if s.len() == 0 {
    } else if s[0] == c {
    } else {
        lemma_find_char(s.drop_first(), c);
        assert forall|j: int| 1 <= j < s.len() implies s.drop_first()[j - 1] == s[j] by {}
    }
}

pub proof fn lemma_find_char_is(s: Seq<char>, c: char, i: int)
    requires
        0 <= i < s.len(),
        s[i] == c,
        forall|j: int| 0 <= j < i ==> s[j] != c,
    ensures
        find_char(s, c) == Some(i),
    decreases s.len(),
{
    if s[0] == c {
        assert(i == 0);
    } else {
        assert(i > 0);
        assert forall|j: int| 0 <= j < i - 1 implies s.drop_first()[j] != c by {
            assert(s.drop_first()[j] == s[j + 1]);
        }
        assert(s.drop_first()[i - 1] == s[i]);
        lemma_find_char_is(s.drop_first(), c, i - 1);
    }
}

pub proof fn lemma_find_char_none(s: Seq<char>, c: char)
    requires
        forall|j: int| 0 <= j < s.len() ==> s[j] != c,
    ensures
        find_char(s, c) is None,
    decreases s.len(),
{
    if s.len() > 0 {
        assert forall|j: int| 0 <= j < s.len() - 1 implies s.drop_first()[j] != c by {
            assert(s.drop_first()[j] == s[j + 1]);
        }
        lemma_find_char_none(s.drop_first(), c);
    }
}

/// The key that must appear in the DSN's query string.
pub open spec fn token_key() -> Seq<char> {
    "authToken"@
}

/// Key of a `key=value` pair: everything before the first `=`, or the
/// whole pair when there is no `=`.
pub open spec fn pair_key(p: Seq<char>) -> Seq<char> {
    match find_char(p, '=') {
        None => p,
        Some(i) => p.subrange(0, i),
    }
}

/// Value of a `key=value` pair: everything after the first `=`, or empty
/// when there is no `=`.
pub open spec fn pair_value(p: Seq<char>) -> Seq<char> {
    match find_char(p, '=') {
        None => Seq::empty(),
        Some(i) => p.subrange(i + 1, p.len() as int),
    }
}

/// Value of the first `&`-separated pair of `q` whose key is `authToken`,
/// if any pair has that key.
pub open spec fn query_token(q: Seq<char>) -> Option<Seq<char>>
    decreases q.len(),
    via query_token_decreases
{
    let amp = find_char(q, '&');
    let pair = match amp {
        None => q,
        Some(i) => q.subrange(0, i),
    };
    if pair_key(pair) == token_key() {
        Some(pair_value(pair))
    } else {
        match amp {
            None => None,
            Some(i) => query_token(q.subrange(i + 1, q.len() as int)),
        }
    }
}

#[via_fn]
proof fn query_token_decreases(q: Seq<char>) {
    lemma_find_char(q, '&');
}

/// What `parse_dsn` decides for a given input.
pub enum DsnOutcome {
    /// Nothing (or an empty string) stands before the `?`.
    MissingBase,
    /// The DSN has no `?` and hence no query string.
    MissingQuery,
    /// An `authToken` pair is present but its value is empty.
    EmptyToken,
    /// No pair of the query string has the key `authToken`.
    MissingToken,
    /// The base URL and the token value.
    Parsed { base: Seq<char>, token: Seq<char> },
}

/// Complete model of `parse_dsn`.
pub open spec fn parse_dsn_spec(s: Seq<char>) -> DsnOutcome {
    let base = match find_char(s, '?') {
        None => s,
        Some(i) => s.subrange(0, i),
    };
    if base.len() == 0 {
        DsnOutcome::MissingBase
    } else {
        match find_char(s, '?') {
            None => DsnOutcome::MissingQuery,
            Some(i) => {
                match query_token(s.subrange(i + 1, s.len() as int)) {
                    None => DsnOutcome::MissingToken,
                    Some(v) => if v.len() == 0 {
                        DsnOutcome::EmptyToken
                    } else {
                        DsnOutcome::Parsed { base, token: v }
                    },
                }
            },
        }
    }
}

pub open spec fn msg_missing_base() -> Seq<char> {
    "TRSO_DSN must include the database URL before '?'"@
}

pub open spec fn msg_missing_query() -> Seq<char> {
    "TRSO_DSN must include query parameters"@
}

pub open spec fn msg_empty_token() -> Seq<char> {
    "authToken in TRSO_DSN cannot be empty"@
}

pub open spec fn msg_missing_token() -> Seq<char> {
    "TRSO_DSN must include authToken query parameter"@
}

/// First occurrence of `c` in `s` at or after `start`.
fn find_char_from(s: &str, c: char, start: usize, n: usize) -> (r: Option<usize>)
    requires
        n == s@.len(),
        start <= n,
    ensures
        match r {
            Some(i) => start <= i < s@.len() && s@[i as int] == c && (forall|j: int|
                start <= j < i ==> s@[j] != c),
            None => forall|j: int| start <= j < s@.len() ==> s@[j] != c,
        },
{
    let mut i: usize = start;
    while i < n
        invariant
            start <= i <= n,
            n == s@.len(),
            forall|j: int| start <= j < i ==> s@[j] != c,
        decreases n - i,
    {
        if s.get_char(i) == c {
            return Some(i);
        }
        i = i + 1;
    }
    None
}

/// Splits a DSN of the shape `base?query` and extracts the value of the
/// query's `authToken` pair, exactly as `parse_dsn_spec` describes.
pub fn parse_dsn(dsn: &str) -> (r: Result<(String, String), String>)
    ensures
        match parse_dsn_spec(dsn@) {
            DsnOutcome::Parsed { base, token } => r matches Ok(p) && p.0@ == base && p.1@
                == token,
            DsnOutcome::MissingBase => r matches Err(m) && m@ == msg_missing_base(),
            DsnOutcome::MissingQuery => r matches Err(m) && m@ == msg_missing_query(),
            DsnOutcome::EmptyToken => r matches Err(m) && m@ == msg_empty_token(),
            DsnOutcome::MissingToken => r matches Err(m) && m@ == msg_missing_token(),
        },
{
    let n = dsn.unicode_len();
    let qpos_opt = find_char_from(dsn, '?', 0, n);
    match qpos_opt {
        None => {
            proof {
                lemma_find_char_none(dsn@, '?');
            }
            if n == 0 {
                Err("TRSO_DSN must include the database URL before '?'".to_owned())
            } else {
                Err("TRSO_DSN must include query parameters".to_owned())
            }
        },
        Some(q) => {
            proof {
                lemma_find_char_is(dsn@, '?', q as int);
            }
            if q == 0 {
                return Err("TRSO_DSN must include the database URL before '?'".to_owned());
            }
            let base_str = dsn.substring_char(0, q);
            let mut cur: &str = dsn.substring_char(q + 1, n);
            let ghost qv = cur@;
            loop
                invariant
                    n == dsn@.len(),
                    0 < q < n,
                    find_char(dsn@, '?') == Some(q as int),
                    base_str@ == dsn@.subrange(0, q as int),
                    qv == dsn@.subrange(q as int + 1, n as int),
                    query_token(qv) == query_token(cur@),
                decreases cur@.len(),
            {
                let m = cur.unicode_len();
                let amp_opt = find_char_from(cur, '&', 0, m);
                let pend = match amp_opt {
                    Some(a) => a,
                    None => m,
                };
                proof {
                    match amp_opt {
                        Some(a) => lemma_find_char_is(cur@, '&', a as int),
                        None => lemma_find_char_none(cur@, '&'),
                    }
                }
                let ghost pair = match find_char(cur@, '&') {
                    None => cur@,
                    Some(i) => cur@.subrange(0, i),
                };
                proof {
                    assert(pair =~= cur@.subrange(0, pend as int));
                }
                let eq_opt = find_char_from(cur, '=', 0, m);
                let eq_in_pair = match eq_opt {
                    Some(e) => if e < pend {
                        Some(e)
                    } else {
                        None
                    },
                    None => None,
                };
                let key_end = match eq_in_pair {
                    Some(e) => e,
                    None => pend,
                };
                proof {
                    match eq_in_pair {
                        Some(e) => {
                            assert forall|j: int| 0 <= j < e implies pair[j] != '=' by {
                                assert(pair[j] == cur@[j]);
                            }
                            lemma_find_char_is(pair, '=', e as int);
                            assert(pair_key(pair) =~= cur@.subrange(0, e as int));
                        },
                        None => {
                            assert forall|j: int| 0 <= j < pair.len() implies pair[j] != '=' by {
                                assert(pair[j] == cur@[j]);
                            }
                            lemma_find_char_none(pair, '=');
                            assert(pair_key(pair) == pair);
                        },
                    }
                }
                let key_str = cur.substring_char(0, key_end);
                let key: String = key_str.to_owned();
                let want: String = "authToken".to_owned();
                if key == want {
                    assert(pair_key(pair) == token_key());
                    assert(query_token(cur@) == Some(pair_value(pair)));
                    match eq_in_pair {
                        None => {
                            assert(pair_value(pair).len() == 0);
                            return Err("authToken in TRSO_DSN cannot be empty".to_owned());
                        },
                        Some(e) => {
                            proof {
                                assert(pair_value(pair) =~= cur@.subrange(
                                    e as int + 1,
                                    pend as int,
                                ));
                            }
                            if e + 1 == pend {
                                assert(pair_value(pair).len() == 0);
                                return Err("authToken in TRSO_DSN cannot be empty".to_owned());
                            }
                            let val_str = cur.substring_char(e + 1, pend);
                            assert(val_str@ == pair_value(pair));
                            return Ok((base_str.to_owned(), val_str.to_owned()));
                        },
                    }
                } else {
                    assert(pair_key(pair) != token_key());
                    match amp_opt {
                        None => {
                            assert(query_token(cur@) is None);
                            return Err(
                                "TRSO_DSN must include authToken query parameter".to_owned(),
                            );
                        },
                        Some(a) => {
                            let next = cur.substring_char(a + 1, m);
                            assert(query_token(cur@) == query_token(next@));
                            cur = next;
                        },
                    }
                }
            }
        },
    }
}

} // verus!
