//! What a handler answers when it does not answer with a page.

use vstd::prelude::*;

verus! {

/// The status of an answer.
#[derive(Clone, Copy, Debug, PartialEq, Eq, Structural)]
pub enum Status {
    Success,
    BadRequest,
    Unauthorized,
    NotFound,
    NotAcceptable,
    InternalServerError,
}

impl Status {
    /// The number of the status.
    pub open spec fn number(self) -> int {
        match self {
            Status::Success => 200,
            Status::BadRequest => 400,
            Status::Unauthorized => 401,
            Status::NotFound => 404,
            Status::NotAcceptable => 406,
            Status::InternalServerError => 500,
        }
    }

    /// The number of the status.
    pub fn code(&self) -> (code: u16)
        ensures
            code == self.number(),
    {
        match self {
            Status::Success => 200,
            Status::BadRequest => 400,
            Status::Unauthorized => 401,
            Status::NotFound => 404,
            Status::NotAcceptable => 406,
            Status::InternalServerError => 500,
        }
    }
}

/// A refusal: a status and the text that explains it.
pub struct Rejection {
    pub status: Status,
    pub message: String,
}

} // verus!
