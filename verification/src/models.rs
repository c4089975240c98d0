//! The book record and its JSON rendering.

use crate::decimal::dec_of;
use crate::decimal::u64_to_string;
use vstd::prelude::*;

verus! {

/// The JSON object text for a book record: the id in decimal, then the
/// title and author verbatim between quotes. The result is well-formed JSON
/// whenever title and author hold no character that JSON escapes; the fixed
/// texts this server returns hold none.
pub open spec fn json_of_book(id: u64, title: Seq<char>, author: Seq<char>) -> Seq<char> {
    "{\"id\":"@ + dec_of(id as nat) + ",\"title\":\""@ + title + "\",\"author\":\""@ + author
        + "\"}"@
}

/// A book record. No lookup ever happens: every request builds one fresh,
/// with the requested id echoed back and a fixed title and author.
#[derive(Debug, Clone)]
pub struct Book {
    pub id: u64,
    pub title: String,
    pub author: String,
}

impl Book {
    /// Builds the one record this server knows, under the requested id.
    pub fn new(id: u64) -> (b: Book)
        ensures
            b.id == id,
            b.title@ == "Solaris"@,
            b.author@ == "Stanisław Lem"@,
    {
        Book { id, title: String::from_str("Solaris"), author: String::from_str("Stanisław Lem") }
    }

    /// Renders the record as a JSON object.
    pub fn to_json(&self) -> (r: String)
        ensures
            r@ == json_of_book(self.id, self.title@, self.author@),
    {
        let mut r = String::from_str("{\"id\":");
        let id_text = u64_to_string(self.id);
        r.append(id_text.as_str());
        r.append(",\"title\":\"");
        r.append(self.title.as_str());
        r.append("\",\"author\":\"");
        r.append(self.author.as_str());
        r.append("\"}");
        proof {
            assert(r@ =~= json_of_book(self.id, self.title@, self.author@));
        }
        r
    }
}

} // verus!
