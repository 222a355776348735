//! A redirect that the page script follows.

use vstd::prelude::*;
use crate::response::Status;
use crate::text::optional_view;

verus! {

/// What comes of a text that `rocket` reads as a URI reference and writes
/// out again: the result of `Reference::parse_owned` on the text, written
/// with the `Display` of the parsed reference, which puts scheme,
/// authority, path, query and fragment back together. `None` for a text
/// that `parse_owned` does not take as a URI reference.
pub uninterp spec fn reference_of(uri: Seq<char>) -> Option<Seq<char>>;

/// Calls `rocket::http::uri::Reference::parse_owned` and writes what it
/// returns with that value's `Display`. Trusted: the result is what
/// `reference_of` names for the argument, which stands for the two calls
/// together.
#[verifier::external_body]
fn parse_reference(uri: &str) -> (parsed: Option<String>)
    ensures
        match parsed {
            Some(text) => reference_of(uri@) == Some(text@),
            None => reference_of(uri@) is None,
        },
{
    match rocket::http::uri::Reference::parse_owned(uri.to_string()) {
        Ok(reference) => Some(reference.to_string()),
        Err(_) => None,
    }
}

/// Since the pages are driven by a script that follows a header of its
/// own instead of the usual redirect status, a redirect is an ordinary
/// successful answer that carries the location in that header.
pub struct Redirect {
    pub status: Status,
    pub location: Option<String>,
}

impl Redirect {
    /// A redirect to `uri`, which is kept only where it is a valid URI
    /// reference.
    pub fn to(uri: &str) -> (redirect: Redirect)
        ensures
            redirect.status == Status::Success,
            optional_view(redirect.location) == reference_of(uri@),
    {
        Redirect { status: Status::Success, location: parse_reference(uri) }
    }

    /// What the redirect answers: its status and the value of the redirect
    /// header, or an internal error where it has no valid location.
    pub fn header(self) -> (answer: Result<(Status, String), Status>)
        ensures
            match self.location {
                Some(location) => answer matches Ok(pair) && pair.0 == self.status && pair.1
                    == location,
                None => answer == Err::<(Status, String), Status>(Status::InternalServerError),
            },
    {
        match self.location {
            Some(location) => Ok((self.status, location)),
            None => Err(Status::InternalServerError),
        }
    }
}

} // verus!
