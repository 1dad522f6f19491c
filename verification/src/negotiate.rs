//! Content negotiator: decides JSON versus HTML from overlapping
//! request signals — path and query substrings, the `Accept` header,
//! and the `User-Agent` header.  Matching is deliberately by substring,
//! not whole token: a path containing the letter `j` anywhere forces
//! JSON mode.  That looseness is observable behavior that callers rely
//! on, so it is kept, not corrected.

use vstd::prelude::*;
use crate::text::{contains_char, has_substr, str_contains_char, str_has_substr};

verus! {

/// The view of an optional request part: absent parts match nothing.
pub open spec fn opt_view(o: Option<&str>) -> Option<Seq<char>> {
    match o {
        Some(s) => Some(s@),
        None => None,
    }
}

/// Whether an optional request part holds the character `c`.
pub open spec fn opt_contains_char(o: Option<Seq<char>>, c: char) -> bool {
    match o {
        Some(s) => contains_char(s, c),
        None => false,
    }
}

/// Whether an optional request part holds `sub` as a substring.
pub open spec fn opt_has_substr(o: Option<Seq<char>>, sub: Seq<char>) -> bool {
    match o {
        Some(s) => has_substr(s, sub),
        None => false,
    }
}

/// The negotiation rule: JSON when the query or the path holds a `j`
/// or the `Accept` header asks for `application/json`; otherwise JSON
/// for a curl-like `User-Agent` unless a `h` in the query or the path
/// explicitly forces HTML; otherwise HTML.
pub open spec fn wants_json(
    path: Seq<char>,
    query: Option<Seq<char>>,
    accept: Option<Seq<char>>,
    user_agent: Option<Seq<char>>,
) -> bool {
    opt_contains_char(query, 'j') || contains_char(path, 'j') || opt_has_substr(
        accept,
        "application/json"@,
    ) || (opt_has_substr(user_agent, "curl"@) && !(opt_contains_char(query, 'h') || contains_char(
        path,
        'h',
    )))
}

/// Decides the rendering mode for one request from its path, its query
/// string and its `Accept` and `User-Agent` headers.
pub fn view_as_json(
    path: &str,
    query: Option<&str>,
    accept: Option<&str>,
    user_agent: Option<&str>,
) -> (r: bool)
    ensures
        r == wants_json(path@, opt_view(query), opt_view(accept), opt_view(user_agent)),
{
    let query_j = match query {
        Some(q) => str_contains_char(q, 'j'),
        None => false,
    };
    let path_j = str_contains_char(path, 'j');
    let accept_json = match accept {
        Some(a) => str_has_substr(a, "application/json"),
        None => false,
    };
    if query_j || path_j || accept_json {
        return true;
    }
    let ua_curl = match user_agent {
        Some(a) => str_has_substr(a, "curl"),
        None => false,
    };
    if !ua_curl {
        return false;
    }
    let query_h = match query {
        Some(q) => str_contains_char(q, 'h'),
        None => false,
    };
    let path_h = str_contains_char(path, 'h');
    !(query_h || path_h)
}

} // verus!
