use vstd::prelude::*;

use crate::resolver::SessionRecord;
use crate::strutil::str_eq;
use vstd::string::StrSliceExecFns;

verus! {

/// What a successful handshake learns about the caller: the session token it
/// presented and the user that session belongs to.
#[derive(Clone, Debug, PartialEq)]
pub struct SessionInfo {
    pub token: String,
    pub user_id: u128,
}

/// Why a handshake was refused: no token was presented, the token maps to no
/// session, or the session has expired. None of these creates any state.
#[derive(Clone, Copy, PartialEq, Eq, Structural, Debug)]
pub enum AuthError {
    MissingToken,
    UnknownToken,
    SessionExpired,
}

/// The position of the first `c` in `s`, or `s.len()` if there is none.
pub open spec fn find_char(s: Seq<char>, c: char) -> nat
    decreases s.len(),
{
    if s.len() == 0 {
        0
    } else if s[0] == c {
        0
    } else {
        1 + find_char(s.drop_first(), c)
    }
}

/// `find_char` is exactly the first position holding `c`.
proof fn lemma_find_char_is(s: Seq<char>, c: char, i: int)
    requires
        0 <= i <= s.len(),
        forall|j: int| 0 <= j < i ==> s[j] != c,
        i == s.len() || s[i] == c,
    ensures
        find_char(s, c) == i,
    decreases s.len(),
{
    if s.len() == 0 {
    } else if s[0] == c {
        assert(i == 0);
    } else {
        assert(i >= 1);
        let t = s.drop_first();
        assert forall|j: int| 0 <= j < i - 1 implies t[j] != c by {
            assert(t[j] == s[j + 1]);
        }
        if i < s.len() {
            assert(t[i - 1] == s[i]);
        }
        lemma_find_char_is(t, c, i - 1);
    }
}

/// The value of the parameter named `key` in the query string `q`: `q` is
/// split on `&`, each parameter on its first `=` (a parameter without `=`
/// has the empty value), and when the key repeats the last value wins, as a
/// map built left to right would have it.
pub open spec fn query_value(q: Seq<char>, key: Seq<char>) -> Option<Seq<char>>
    decreases q.len(),
{
    let cut = find_char(q, '&') as int;
    let head = q.subrange(0, cut);
    let rest = if cut < q.len() {
        query_value(q.subrange(cut + 1, q.len() as int), key)
    } else {
        None
    };
    match rest {
        Some(v) => Some(v),
        None => {
            let eq = find_char(head, '=') as int;
            if head.subrange(0, eq) == key {
                if eq < head.len() {
                    Some(head.subrange(eq + 1, head.len() as int))
                } else {
                    Some(Seq::<char>::empty())
                }
            } else {
                None
            }
        },
    }
}

/// Reads the parameter named `key` out of a query string.
pub fn query_param(query: &str, key: &str) -> (r: Option<String>)
    ensures
        match r {
            Some(v) => query_value(query@, key@) == Some(v@),
            None => query_value(query@, key@) is None,
        },
    decreases query@.len(),
{
    let n = query.unicode_len();
    let mut cut: usize = 0;
    while cut < n && query.get_char(cut) != '&'
        invariant
            n == query@.len(),
            cut <= n,
            forall|j: int| 0 <= j < cut ==> query@[j] != '&',
        decreases n - cut,
    {
        cut += 1;
    }
    proof {
        lemma_find_char_is(query@, '&', cut as int);
    }
    let rest: Option<String> = if cut < n {
        query_param(query.substring_char(cut + 1, n), key)
    } else {
        None
    };
    match rest {
        Some(v) => Some(v),
        None => {
            let ghost head = query@.subrange(0, cut as int);
            let mut eq: usize = 0;
            while eq < cut && query.get_char(eq) != '='
                invariant
                    n == query@.len(),
                    cut <= n,
                    eq <= cut,
                    forall|j: int| 0 <= j < eq ==> query@[j] != '=',
                decreases cut - eq,
            {
                eq += 1;
            }
            proof {
                assert forall|j: int| 0 <= j < eq implies head[j] != '=' by {
                    assert(head[j] == query@[j]);
                }
                if eq < cut {
                    assert(head[eq as int] == query@[eq as int]);
                }
                lemma_find_char_is(head, '=', eq as int);
            }
            let head_key = query.substring_char(0, eq);
            if str_eq(head_key, key) {
                proof {
                    assert(head.subrange(0, eq as int) =~= query@.subrange(0, eq as int));
                }
                if eq < cut {
                    let v = query.substring_char(eq + 1, cut);
                    proof {
                        assert(head.subrange(eq + 1, head.len() as int) =~= query@.subrange(
                            eq + 1,
                            cut as int,
                        ));
                    }
                    Some(v.to_owned())
                } else {
                    Some(String::new())
                }
            } else {
                proof {
                    assert(head.subrange(0, eq as int) =~= query@.subrange(0, eq as int));
                }
                None
            }
        },
    }
}

/// Where the session token of a handshake comes from: a browser-originated
/// transport cannot set custom headers during its handshake, so an upgrade
/// request carries the token in the `token` query parameter; any other
/// request carries it in its token header. An empty token counts as missing.
pub open spec fn token_from_request(
    is_upgrade: bool,
    header_token: Option<String>,
    query: Seq<char>,
) -> Option<Seq<char>> {
    let t: Option<Seq<char>> = if is_upgrade {
        query_value(query, "token"@)
    } else {
        match header_token {
            Some(h) => Some(h@),
            None => None,
        }
    };
    match t {
        Some(v) => if v.len() == 0 {
            None
        } else {
            Some(v)
        },
        None => None,
    }
}

/// Extracts the session token a handshake presented, from the header or —
/// for an upgrade request, whose sender cannot set custom headers — from the
/// query string. Both paths are supported; an empty or absent token is a
/// missing one, and the handshake is refused without creating any state.
pub fn extract_session_token(is_upgrade: bool, header_token: Option<String>, query: &str) -> (r:
    Result<String, AuthError>)
    ensures
        match r {
            Ok(v) => token_from_request(is_upgrade, header_token, query@) == Some(v@),
            Err(e) => token_from_request(is_upgrade, header_token, query@) is None && e
                == AuthError::MissingToken,
        },
{
    let t: Option<String> = if is_upgrade {
        query_param(query, "token")
    } else {
        header_token
    };
    match t {
        Some(v) => {
            if v.as_str().is_empty() {
                Err(AuthError::MissingToken)
            } else {
                Ok(v)
            }
        },
        None => Err(AuthError::MissingToken),
    }
}

/// Whether a request path is served without authentication: signing in,
/// signing up, and the health probe; every other path needs a live session.
pub fn is_public_path(path: &str) -> (r: bool)
    ensures
        r == (path@ == "/api/sign-in"@ || path@ == "/api/sign-up"@ || path@ == "/api/health"@),
{
    str_eq(path, "/api/sign-in") || str_eq(path, "/api/sign-up") || str_eq(path, "/api/health")
}

/// Decides a handshake from what the session lookup answered and the time
/// `now` (seconds on the persistence collaborator's clock): no session means
/// the token is unknown; a session past its expiry is refused; otherwise the
/// caller is authenticated as that session's user. Refusal creates no state.
pub fn authenticate_session(lookup: Option<SessionRecord>, now: i64) -> (r: Result<
    SessionInfo,
    AuthError,
>)
    ensures
        lookup is None ==> r == Err::<SessionInfo, AuthError>(AuthError::UnknownToken),
        lookup matches Some(s) ==> if s.expires_at < now {
            r == Err::<SessionInfo, AuthError>(AuthError::SessionExpired)
        } else {
            r == Ok::<SessionInfo, AuthError>(
                SessionInfo { token: s.token, user_id: s.user_id },
            )
        },
{
    match lookup {
        None => Err(AuthError::UnknownToken),
        Some(s) => {
            if s.expires_at < now {
                Err(AuthError::SessionExpired)
            } else {
                Ok(SessionInfo { token: s.token, user_id: s.user_id })
            }
        },
    }
}

} // verus!
