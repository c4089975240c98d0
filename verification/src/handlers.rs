//! The API handlers: the health reply and the book lookup reply.

use crate::models::json_of_book;
use crate::models::Book;
use vstd::prelude::*;

verus! {

/// The media type of an API response body.
#[derive(Clone, Copy, Debug, PartialEq, Eq, Structural)]
pub enum MediaType {
    Json,
    PlainText,
}

/// A finished API response: a status code, the body's media type, and the
/// body text.
#[derive(Debug, Clone)]
pub struct Response {
    pub status: u16,
    pub media: MediaType,
    pub body: String,
}

/// The HTTP content-type header value for a media type.
pub fn media_type_name(media: &MediaType) -> (s: &'static str)
    ensures
        *media == MediaType::Json ==> s@ == "application/json"@,
        *media == MediaType::PlainText ==> s@ == "text/plain; charset=utf-8"@,
{
    match media {
        MediaType::Json => "application/json",
        MediaType::PlainText => "text/plain; charset=utf-8",
    }
}

/// The health reply: 200 with body "OK". It reads no state, so every call
/// returns the same response, whatever came before.
pub fn health() -> (r: Response)
    ensures
        r.status == 200,
        r.media == MediaType::PlainText,
        r.body@ == "OK"@,
{
    Response { status: 200, media: MediaType::PlainText, body: String::from_str("OK") }
}

/// The book lookup reply: 200 with the JSON for the fixed record under the
/// requested id, whatever the id. No store is consulted.
pub fn get_post(id: u64) -> (r: Response)
    ensures
        r.status == 200,
        r.media == MediaType::Json,
        r.body@ == json_of_book(id, "Solaris"@, "Stanisław Lem"@),
{
    let book = Book::new(id);
    let body = book.to_json();
    Response { status: 200, media: MediaType::Json, body }
}

} // verus!
