//! Failures of the chat core and of the pages.

use vstd::prelude::*;
use crate::text::str_eq;

verus! {

/// Why an operation of the chat core was refused.
#[derive(Clone, Copy, Debug, PartialEq, Eq, Structural)]
pub enum ChatError {
    /// The caller is not the participant that the operation asks for.
    Unauthorized,
    /// A participant does not exist, or no message does.
    NotFound,
    /// The store could not take or give the data.
    StorageError,
    /// The request itself is not acceptable.
    InvalidInput,
}

impl ChatError {
    /// The name of the failure.
    pub open spec fn name(self) -> Seq<char> {
        match self {
            ChatError::Unauthorized => "Unauthorized"@,
            ChatError::NotFound => "NotFound"@,
            ChatError::StorageError => "StorageError"@,
            ChatError::InvalidInput => "InvalidInput"@,
        }
    }

    /// The name of the failure.
    pub fn as_str(&self) -> (name: &'static str)
        ensures
            name@ == self.name(),
    {
        match self {
            ChatError::Unauthorized => "Unauthorized",
            ChatError::NotFound => "NotFound",
            ChatError::StorageError => "StorageError",
            ChatError::InvalidInput => "InvalidInput",
        }
    }
}

/// Why a page refuses what was asked of it.
pub enum ErrorReason {
    Invalid,
    Required,
    Unauthorized,
    AlreadyExists,
    SomethingWentWrong,
    WeakPassword,
    InvalidCredentials,
    InvalidMimeType,
    InvalidFileName,
    IncompleteData,
    ALreadyLoggedIn,
    InvalidRequest,
}

/// A refusal of a page: its reason and what is told about it.
pub struct Error {
    pub reason: ErrorReason,
    pub message: String,
}

/// What an error page shows.
pub struct ErrorJson {
    pub code: u16,
    pub message: String,
    pub reason: String,
}

/// The place of the first colon of a text: a colon stands there, and none
/// before it.
pub open spec fn first_colon_at(text: Seq<char>, i: int) -> bool {
    &&& 0 <= i < text.len()
    &&& text[i] == ':'
    &&& forall|j: int| 0 <= j < i ==> text[j] != ':'
}

/// The place of the first colon of a text that holds one.
pub open spec fn first_colon(text: Seq<char>) -> int
    recommends
        text.contains(':'),
{
    choose|i: int| first_colon_at(text, i)
}

/// The text of an error: the name of its reason, a colon and a blank, and
/// its message.
pub open spec fn error_text(reason: ErrorReason, message: Seq<char>) -> Seq<char> {
    reason.name() + ": "@ + message
}

impl Error {
    /// An error made of its parts.
    pub fn new(reason: ErrorReason, message: String) -> (error: Self)
        ensures
            error.reason == reason,
            error.message == message,
    {
        Self { reason, message }
    }

    /// Reads an error from a text that holds a colon: what stands before
    /// the first colon names the reason, all that follows it is the
    /// message. A text without a colon is no error.
    pub fn from_str(str: &str) -> (parsed: Result<Self, &'static str>)
        ensures
            parsed is Ok <==> str@.contains(':'),
            parsed matches Ok(error) ==> first_colon_at(str@, first_colon(str@)) && error.reason
                == ErrorReason::of_name(str@.take(first_colon(str@))) && error.message@
                == str@.skip(first_colon(str@) + 1),
            parsed matches Err(complaint) ==> complaint@ == "Invalid error string"@,
    {
        let n = str.unicode_len();
        let mut i: usize = 0;
        while i < n
            invariant
                i <= n,
                n == str@.len(),
                forall|j: int| 0 <= j < i ==> str@[j] != ':',
            decreases n - i,
        {
            if str.get_char(i) == ':' {
                proof {
                    assert(first_colon_at(str@, i as int));
                    let k = first_colon(str@);
                    assert(first_colon_at(str@, k));
                    assert(k == i);
                    assert(str@.contains(':'));
                }
                let reason = str.substring_char(0, i);
                let message = str.substring_char(i + 1, n);
                proof {
                    assert(reason@ =~= str@.take(i as int));
                    assert(message@ =~= str@.skip(i + 1));
                }
                return Ok(
                    Self { reason: ErrorReason::from_str(reason), message: String::from_str(message) },
                );
            }
            i += 1;
        }
        proof {
            if str@.contains(':') {
                let j = choose|j: int| 0 <= j < str@.len() && str@[j] == ':';
                assert(str@[j] != ':');
            }
        }
        Err("Invalid error string")
    }

    /// The text of the error: the name of its reason, a colon and a blank,
    /// and its message.
    pub fn to_string(self) -> (text: String)
        ensures
            text@ == error_text(self.reason, self.message@),
    {
        let mut text = String::from_str(self.reason.as_str());
        text.append(": ");
        text.append(self.message.as_str());
        assert(text@ =~= error_text(self.reason, self.message@));
        text
    }
}

impl ErrorReason {
    /// The name of the reason.
    pub open spec fn name(self) -> Seq<char> {
        match self {
            ErrorReason::Invalid => "invalid"@,
            ErrorReason::Required => "required"@,
            ErrorReason::Unauthorized => "unauthorized"@,
            ErrorReason::AlreadyExists => "already_exists"@,
            ErrorReason::SomethingWentWrong => "something_went_wrong"@,
            ErrorReason::WeakPassword => "weak_password"@,
            ErrorReason::InvalidCredentials => "invalid_credentials"@,
            ErrorReason::InvalidMimeType => "invalid_mime_type"@,
            ErrorReason::InvalidFileName => "invalid_file_name"@,
            ErrorReason::IncompleteData => "incomplete_data"@,
            ErrorReason::ALreadyLoggedIn => "already_logged_in"@,
            ErrorReason::InvalidRequest => "invalid_request"@,
        }
    }

    /// The reason that a name stands for; `SomethingWentWrong` for a text
    /// that names none.
    pub open spec fn of_name(name: Seq<char>) -> ErrorReason {
        if name == "invalid"@ {
            ErrorReason::Invalid
        } else if name == "required"@ {
            ErrorReason::Required
        } else if name == "unauthorized"@ {
            ErrorReason::Unauthorized
        } else if name == "already_exists"@ {
            ErrorReason::AlreadyExists
        } else if name == "weak_password"@ {
            ErrorReason::WeakPassword
        } else if name == "invalid_credentials"@ {
            ErrorReason::InvalidCredentials
        } else if name == "invalid_mime_type"@ {
            ErrorReason::InvalidMimeType
        } else if name == "invalid_file_name"@ {
            ErrorReason::InvalidFileName
        } else if name == "incomplete_data"@ {
            ErrorReason::IncompleteData
        } else if name == "already_logged_in"@ {
            ErrorReason::ALreadyLoggedIn
        } else if name == "invalid_request"@ {
            ErrorReason::InvalidRequest
        } else {
            ErrorReason::SomethingWentWrong
        }
    }

    /// The reason that a name stands for; `SomethingWentWrong` for a text
    /// that names none.
    pub fn from_str(str: &str) -> (reason: Self)
        ensures
            reason == ErrorReason::of_name(str@),
    {
        if str_eq(str, "invalid") {
            ErrorReason::Invalid
        } else if str_eq(str, "required") {
            ErrorReason::Required
        } else if str_eq(str, "unauthorized") {
            ErrorReason::Unauthorized
        } else if str_eq(str, "already_exists") {
            ErrorReason::AlreadyExists
        } else if str_eq(str, "weak_password") {
            ErrorReason::WeakPassword
        } else if str_eq(str, "invalid_credentials") {
            ErrorReason::InvalidCredentials
        } else if str_eq(str, "invalid_mime_type") {
            ErrorReason::InvalidMimeType
        } else if str_eq(str, "invalid_file_name") {
            ErrorReason::InvalidFileName
        } else if str_eq(str, "incomplete_data") {
            ErrorReason::IncompleteData
        } else if str_eq(str, "already_logged_in") {
            ErrorReason::ALreadyLoggedIn
        } else if str_eq(str, "invalid_request") {
            ErrorReason::InvalidRequest
        } else {
            ErrorReason::SomethingWentWrong
        }
    }

    /// The name of the reason.
    pub fn as_str(&self) -> (name: &'static str)
        ensures
            name@ == self.name(),
    {
        match self {
            ErrorReason::Invalid => "invalid",
            ErrorReason::Required => "required",
            ErrorReason::Unauthorized => "unauthorized",
            ErrorReason::AlreadyExists => "already_exists",
            ErrorReason::SomethingWentWrong => "something_went_wrong",
            ErrorReason::WeakPassword => "weak_password",
            ErrorReason::InvalidCredentials => "invalid_credentials",
            ErrorReason::InvalidMimeType => "invalid_mime_type",
            ErrorReason::InvalidFileName => "invalid_file_name",
            ErrorReason::IncompleteData => "incomplete_data",
            ErrorReason::ALreadyLoggedIn => "already_logged_in",
            ErrorReason::InvalidRequest => "invalid_request",
        }
    }
}

/// Every reason is read back from its own name.
pub proof fn lemma_reason_round_trip(reason: ErrorReason)
    ensures
        ErrorReason::of_name(reason.name()) == reason,
{
    reveal_strlit("invalid");
    reveal_strlit("required");
    reveal_strlit("unauthorized");
    reveal_strlit("already_exists");
    reveal_strlit("something_went_wrong");
    reveal_strlit("weak_password");
    reveal_strlit("invalid_credentials");
    reveal_strlit("invalid_mime_type");
    reveal_strlit("invalid_file_name");
    reveal_strlit("incomplete_data");
    reveal_strlit("already_logged_in");
    reveal_strlit("invalid_request");
    assert("invalid"@.len() == 7);
    assert("required"@.len() == 8);
    assert("unauthorized"@.len() == 12);
    assert("already_exists"@.len() == 14);
    assert("something_went_wrong"@.len() == 20);
    assert("weak_password"@.len() == 13);
    assert("invalid_credentials"@.len() == 19);
    assert("invalid_mime_type"@.len() == 17);
    assert("invalid_file_name"@.len() == 17);
    assert("incomplete_data"@.len() == 15);
    assert("already_logged_in"@.len() == 17);
    assert("invalid_request"@.len() == 15);
    assert("invalid_mime_type"@[8] == 'm');
    assert("invalid_file_name"@[8] == 'f');
    assert("already_logged_in"@[8] == 'l');
    assert("incomplete_data"@[2] == 'c');
    assert("invalid_request"@[2] == 'v');
}

} // verus!
