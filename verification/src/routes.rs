//! The routing table, as a verified decision function.
//!
//! API routes are checked first, the static file server is the fallback:
//! `GET /api/health` answers the health check, `GET /books/{id}` with a
//! decimal id answers the book lookup, and every other request is delegated
//! to the static file server. The precedence is deliberate: a static asset
//! named like an API path is unreachable.

use crate::decimal::dec_of;
use crate::decimal::dec_val;
use crate::decimal::is_dec_seq;
use crate::decimal::lemma_dec_of_round_trip;
use crate::decimal::parse_u64;
use crate::handlers::get_post;
use crate::handlers::health;
use crate::handlers::MediaType;
use crate::handlers::Response;
use crate::models::json_of_book;
use vstd::prelude::*;

verus! {

/// Where the router sends a request: to the health check, to the book
/// lookup with the parsed id, or through to the static file server.
#[derive(Clone, Copy, Debug, PartialEq, Eq, Structural)]
pub enum Route {
    Health,
    BookLookup(u64),
    StaticFile,
}

/// Whether a request path names the book lookup route: `/books/` followed
/// by a non-empty run of decimal digits whose value fits in a `u64`.
pub open spec fn is_book_path(path: Seq<char>) -> bool {
    &&& path.len() > 7
    &&& path.subrange(0, 7) == "/books/"@
    &&& is_dec_seq(path.subrange(7, path.len() as int))
    &&& dec_val(path.subrange(7, path.len() as int)) <= u64::MAX
}

/// The id named by a book lookup path.
pub open spec fn book_id_of(path: Seq<char>) -> u64 {
    dec_val(path.subrange(7, path.len() as int)) as u64
}

/// The routing table: which route a request's method and path select.
/// API routes are tried first; everything unmatched falls through to the
/// static file server.
pub open spec fn decide(method: Seq<char>, path: Seq<char>) -> Route {
    if method == "GET"@ {
        if path == "/api/health"@ {
            Route::Health
        } else if is_book_path(path) {
            Route::BookLookup(book_id_of(path))
        } else {
            Route::StaticFile
        }
    } else {
        Route::StaticFile
    }
}

/// Character-by-character string equality.
fn str_eq(a: &str, b: &str) -> (r: bool)
    ensures
        r == (a@ == b@),
{
    let na = a.unicode_len();
    let nb = b.unicode_len();
    if na != nb {
        return false;
    }
    let mut i: usize = 0;
    while i < na
        invariant
            na == a@.len(),
            na == b@.len(),
            i <= na,
            forall|j: int| 0 <= j < i ==> a@[j] == b@[j],
        decreases na - i,
    {
        if a.get_char(i) != b.get_char(i) {
            return false;
        }
        i += 1;
    }
    proof {
        assert(a@ =~= b@);
    }
    true
}

/// Matches a path against the book lookup pattern, returning the parsed id
/// exactly when the path is `/books/` followed by a `u64` in decimal.
pub fn parse_book_path(path: &str) -> (r: Option<u64>)
    ensures
        r is Some <==> is_book_path(path@),
        r matches Some(v) ==> v == book_id_of(path@),
{
    let n = path.unicode_len();
    if n < 8 {
        return None;
    }
    let prefix = "/books/";
    proof {
        reveal_strlit("/books/");
    }
    let mut i: usize = 0;
    while i < 7
        invariant
            n == path@.len(),
            n >= 8,
            i <= 7,
            prefix@ == "/books/"@,
            prefix@.len() == 7,
            forall|j: int| 0 <= j < i ==> path@[j] == "/books/"@[j],
        decreases 7 - i,
    {
        if path.get_char(i) != prefix.get_char(i) {
            proof {
                assert(path@.subrange(0, 7) != "/books/"@) by {
                    assert(path@.subrange(0, 7)[i as int] == path@[i as int]);
                }
            }
            return None;
        }
        i += 1;
    }
    proof {
        assert(path@.subrange(0, 7) =~= "/books/"@);
    }
    let digits = path.substring_char(7, n);
    proof {
        assert(digits@ == path@.subrange(7, path@.len() as int));
    }
    parse_u64(digits)
}

/// The routing decision for a request, as the table `decide` gives it.
pub fn routes(method: &str, path: &str) -> (r: Route)
    ensures
        r == decide(method@, path@),
{
    if !str_eq(method, "GET") {
        return Route::StaticFile;
    }
    if str_eq(path, "/api/health") {
        return Route::Health;
    }
    match parse_book_path(path) {
        Some(id) => Route::BookLookup(id),
        None => Route::StaticFile,
    }
}

/// What `dispatch` owes for a request: the health reply on the health
/// route, the book reply on a book route, and no reply (the static
/// fallback) on everything else.
pub open spec fn dispatch_ok(method: Seq<char>, path: Seq<char>, r: Option<Response>) -> bool {
    match decide(method, path) {
        Route::Health => r matches Some(resp) && resp.status == 200 && resp.media
            == MediaType::PlainText && resp.body@ == "OK"@,
        Route::BookLookup(id) => r matches Some(resp) && resp.status == 200 && resp.media
            == MediaType::Json && resp.body@ == json_of_book(id, "Solaris"@, "Stanisław Lem"@),
        Route::StaticFile => r is None,
    }
}

/// Routes a request and runs the matched API handler. `None` means no API
/// route matched: the caller serves the path from the asset root, with the
/// file's contents on 200 if it exists and 404 if it does not.
pub fn dispatch(method: &str, path: &str) -> (r: Option<Response>)
    ensures
        dispatch_ok(method@, path@, r),
{
    match routes(method, path) {
        Route::Health => Some(health()),
        Route::BookLookup(id) => Some(get_post(id)),
        Route::StaticFile => None,
    }
}

/// For every id, the request `GET /books/<id in decimal>` is routed to the
/// book lookup with exactly that id.
pub proof fn lemma_book_request_routed(id: u64)
    ensures
        decide("GET"@, "/books/"@ + dec_of(id as nat)) == Route::BookLookup(id),
{
    reveal_strlit("/books/");
    reveal_strlit("/api/health");
    lemma_dec_of_round_trip(id as nat);
    let path = "/books/"@ + dec_of(id as nat);
    assert(path.subrange(0, 7) =~= "/books/"@);
    assert(path.subrange(7, path.len() as int) =~= dec_of(id as nat));
    assert(path != "/api/health"@) by {
        assert(path[1] == 'b');
        assert("/api/health"@[1] == 'a');
    }
    assert(is_book_path(path));
    assert(book_id_of(path) == id);
}

/// A `GET /books/` request whose trailing segment is not the decimal form
/// of a `u64` matches no API route and falls through to the static file
/// server; absent a matching asset, the server then answers 404.
pub proof fn lemma_non_numeric_book_static(seg: Seq<char>)
    requires
        !(is_dec_seq(seg) && dec_val(seg) <= u64::MAX),
    ensures
        decide("GET"@, "/books/"@ + seg) == Route::StaticFile,
{
    reveal_strlit("/books/");
    reveal_strlit("/api/health");
    let path = "/books/"@ + seg;
    assert(path != "/api/health"@) by {
        assert(path[1] == 'b');
        assert("/api/health"@[1] == 'a');
    }
    if path.len() > 7 {
        assert(path.subrange(7, path.len() as int) =~= seg);
    }
    assert(!is_book_path(path));
}

/// The health route answers exactly the request `GET /api/health`.
pub proof fn lemma_health_routed(method: Seq<char>, path: Seq<char>)
    ensures
        decide(method, path) == Route::Health <==> method == "GET"@ && path == "/api/health"@,
{
}

/// A request is delegated to the static file server exactly when no API
/// route matches it: any path but `/api/health` and `/books/<u64>`, and any
/// method but GET. In particular the API routes shadow static assets under
/// those paths.
pub proof fn lemma_static_fallback(method: Seq<char>, path: Seq<char>)
    ensures
        decide(method, path) == Route::StaticFile <==> !(method == "GET"@ && (path
            == "/api/health"@ || is_book_path(path))),
{
}

} // verus!
