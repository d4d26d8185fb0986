//! The auth gate: classifies a request path as public or protected,
//! extracts the session token from the cookie header, consults the
//! session store, and decides whether the request is forwarded,
//! rejected with 401 (under the API namespace) or redirected to the
//! login page. The decision is only "is there a live session";
//! business-level authorization is never made here.

use vstd::prelude::*;
use crate::sessions::{validate_spec, SessionStore};
use crate::strings::{
    first_index_of, has_prefix, lemma_first_index_at, range_eq, str_eq, str_starts_with,
    trim_bounds, trim_spec,
};

verus! {

/// The fixed allow-list of public paths: health check, login and
/// registration calls, and the login page.
pub open spec fn is_public_spec(path: Seq<char>) -> bool {
    ||| path == "/health"@
    ||| path == "/api/login"@
    ||| path == "/api/register"@
    ||| path == "/login"@
}

/// Whether the path is served without a session.
pub fn is_public_path(path: &str) -> (r: bool)
    ensures
        r == is_public_spec(path@),
{
    str_eq(path, "/health") || str_eq(path, "/api/login") || str_eq(path, "/api/register")
        || str_eq(path, "/login")
}

/// The value of the first `name=value` pair in a `;`-separated cookie
/// header whose trimmed key (up to the first `=`) is exactly `name`.
pub open spec fn cookie_value(part: Seq<char>, name: Seq<char>) -> Option<Seq<char>> {
    let t = trim_spec(part);
    let e = first_index_of(t, '=');
    if e < t.len() && t.subrange(0, e) == name {
        Some(t.subrange(e + 1, t.len() as int))
    } else {
        None
    }
}

/// The cookie header lookup: the header is split on `;`, each part is
/// trimmed and split at its first `=`, and the first part whose key is
/// `name` yields its value.
pub open spec fn cookie_lookup(s: Seq<char>, name: Seq<char>) -> Option<Seq<char>>
    decreases s.len(),
    via cookie_lookup_dec
{
    let i = first_index_of(s, ';');
    if cookie_value(s.subrange(0, i), name) is Some {
        cookie_value(s.subrange(0, i), name)
    } else if i >= s.len() {
        None
    } else {
        cookie_lookup(s.subrange(i + 1, s.len() as int), name)
    }
}

#[via_fn]
proof fn cookie_lookup_dec(s: Seq<char>, name: Seq<char>) {
    crate::strings::lemma_first_index_bounds(s, ';');
}

/// Extracts the named cookie's value from a cookie header.
pub fn extract_cookie(cookie: &str, name: &str) -> (r: Option<String>)
    ensures
        r is Some <==> cookie_lookup(cookie@, name@) is Some,
        r matches Some(v) ==> (cookie_lookup(cookie@, name@) matches Some(sv) && v@ == sv),
{
    let n = cookie.unicode_len();
    let mut pos: usize = 0;
    proof {
        assert(cookie@.subrange(0, n as int) =~= cookie@);
    }
    loop
        invariant
            pos <= n,
            n == cookie@.len(),
            cookie_lookup(cookie@, name@) == cookie_lookup(
                cookie@.subrange(pos as int, n as int),
                name@,
            ),
        decreases n - pos,
    {
        let ghost rest = cookie@.subrange(pos as int, n as int);
        // the current part runs to the next `;` or to the end
        let mut semi: usize = pos;
        while semi < n && cookie.get_char(semi) != ';'
            invariant
                pos <= semi <= n,
                n == cookie@.len(),
                forall|k: int| pos <= k < semi ==> cookie@[k] != ';',
            decreases n - semi,
        {
            semi += 1;
        }
        proof {
            assert forall|k: int| 0 <= k < semi - pos implies rest[k] != ';' by {
                assert(rest[k] == cookie@[pos + k]);
            }
            if (semi as int) - (pos as int) < rest.len() {
                assert(rest[semi - pos] == cookie@[semi as int]);
            }
            lemma_first_index_at(rest, ';', semi - pos);
            assert(rest.subrange(0, semi - pos) =~= cookie@.subrange(pos as int, semi as int));
        }
        let (lo, hi) = trim_bounds(cookie, pos, semi);
        let ghost t = trim_spec(cookie@.subrange(pos as int, semi as int));
        proof {
            assert(t == cookie@.subrange(lo as int, hi as int));
        }
        // the key runs to the first `=` of the trimmed part
        let mut e: usize = lo;
        while e < hi && cookie.get_char(e) != '='
            invariant
                lo <= e <= hi,
                hi <= n,
                n == cookie@.len(),
                forall|k: int| lo <= k < e ==> cookie@[k] != '=',
            decreases hi - e,
        {
            e += 1;
        }
        proof {
            assert forall|k: int| 0 <= k < e - lo implies t[k] != '=' by {
                assert(t[k] == cookie@[lo + k]);
            }
            if (e as int) - (lo as int) < t.len() {
                assert(t[e - lo] == cookie@[e as int]);
            }
            lemma_first_index_at(t, '=', e - lo);
        }
        if e < hi {
            if range_eq(cookie, lo, e, name) {
                proof {
                    assert(t.subrange(0, e - lo) =~= cookie@.subrange(lo as int, e as int));
                    assert(t.subrange(e - lo + 1, t.len() as int) =~= cookie@.subrange(
                        e + 1,
                        hi as int,
                    ));
                    assert(cookie_value(rest.subrange(0, semi - pos), name@) matches Some(sv)
                        && sv == cookie@.subrange(e + 1, hi as int));
                }
                let v = cookie.substring_char(e + 1, hi);
                return Some(v.to_owned());
            }
        }
        proof {
            if e < hi {
                assert(t.subrange(0, e - lo) =~= cookie@.subrange(lo as int, e as int));
            }
            assert(cookie_value(rest.subrange(0, semi - pos), name@) is None);
        }
        if semi == n {
            proof {
                assert(first_index_of(rest, ';') == rest.len());
            }
            return None;
        }
        proof {
            assert(rest.subrange(semi - pos + 1, rest.len() as int) =~= cookie@.subrange(
                semi + 1,
                n as int,
            ));
        }
        pos = semi + 1;
    }
}

/// The decision made for one request.
#[derive(Clone, Copy, Debug, PartialEq, Eq, Structural)]
pub enum GateDecision {
    /// Forward the request, carrying the authenticated user id if one
    /// was resolved.
    Forward(Option<i64>),
    /// Reject with 401 Unauthorized and a structured error body.
    Unauthorized,
    /// Redirect to the login page.
    RedirectToLogin,
}

/// How a request that carries no live session is rejected: API paths
/// get 401, anything else is redirected to the login page.
pub open spec fn reject_spec(path: Seq<char>) -> GateDecision {
    if has_prefix(path, "/api/"@) {
        GateDecision::Unauthorized
    } else {
        GateDecision::RedirectToLogin
    }
}

/// The whole per-request decision: public paths pass, a valid session is
/// attached and forwarded, anything else is rejected.
pub open spec fn gate_spec(
    sessions: Seq<crate::sessions::Session>,
    path: Seq<char>,
    cookie: Seq<char>,
    now: u64,
) -> GateDecision {
    if is_public_spec(path) {
        GateDecision::Forward(None)
    } else {
        match cookie_lookup(cookie, "session_id"@) {
            Some(token) => match validate_spec(sessions, token, now) {
                Some(uid) => GateDecision::Forward(Some(uid)),
                None => reject_spec(path),
            },
            None => reject_spec(path),
        }
    }
}

/// Decides one request: `path` is the request path and `cookie` the raw
/// cookie header (empty if absent).
pub fn authorize(store: &SessionStore, path: &str, cookie: &str, now: u64) -> (r: GateDecision)
    ensures
        r == gate_spec(store.sessions_view(), path@, cookie@, now),
{
    if is_public_path(path) {
        return GateDecision::Forward(None);
    }
    let token = match extract_cookie(cookie, "session_id") {
        Some(t) => t,
        None => {
            if str_starts_with(path, "/api/") {
                return GateDecision::Unauthorized;
            } else {
                return GateDecision::RedirectToLogin;
            }
        },
    };
    match store.validate(token.as_str(), now) {
        Some(uid) => GateDecision::Forward(Some(uid)),
        None => {
            if str_starts_with(path, "/api/") {
                GateDecision::Unauthorized
            } else {
                GateDecision::RedirectToLogin
            }
        },
    }
}

} // verus!
