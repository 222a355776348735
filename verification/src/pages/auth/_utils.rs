//! What signing in and signing up share: how a refusal is told, and the
//! steps that make a new user.

use vstd::prelude::*;
use crate::errors::error::{error_text, Error, ErrorReason};
use crate::pages::auth::api::login::bcrypt_verdict;
use crate::response::{Rejection, Status};
use crate::text::optional_view;
use crate::utils::custom_redirect::{reference_of, Redirect};

verus! {

/// Calls `bcrypt::hash` with the cost `bcrypt::DEFAULT_COST`; `None` stands
/// for the crate's error. Trusted: a hash that comes back is one for which
/// `bcrypt::verify` accepts the same password, since `verify` reads the
/// cost and the salt out of the hash and computes again what `hash` wrote
/// there. The salt is drawn at random, so nothing else is claimed of the
/// hash, nor that there is one.
#[verifier::external_body]
fn hash_password(password: &str) -> (hash: Option<String>)
    ensures
        hash matches Some(h) ==> bcrypt_verdict(password@, h@) == Some(true),
{
    match bcrypt::hash(password, bcrypt::DEFAULT_COST) {
        Ok(hash) => Some(hash),
        Err(_) => None,
    }
}

/// The refusal has this status and tells this reason and message.
pub open spec fn is_rejection(
    rejection: Rejection,
    status: Status,
    reason: ErrorReason,
    message: Seq<char>,
) -> bool {
    rejection.status == status && rejection.message@ == error_text(reason, message)
}

/// A refusal with a status, a reason and a message.
pub fn reject(status: Status, reason: ErrorReason, message: &str) -> (rejection: Rejection)
    ensures
        is_rejection(rejection, status, reason, message@),
{
    Rejection { status, message: Error::to_string(Error::new(reason, String::from_str(message))) }
}

/// What is to be done next to make a new user.
pub enum CreateUserStep {
    /// Store the user with this password hash and hand the outcome to
    /// `on_user_stored`.
    Store(String),
    /// Start a session for the new user and hand the outcome to
    /// `on_session_started`.
    StartSession,
    /// The user is made and signed in: send the visitor on.
    Redirect(Redirect),
    /// Refuse.
    Reject(Rejection),
}

/// What follows the hashing of the password: the user is stored with the
/// hash, or the sign-up is refused where there is none.
pub fn on_hashed(hashed: Option<String>) -> (step: CreateUserStep)
    ensures
        match hashed {
            Some(hash) => step matches CreateUserStep::Store(kept) && kept == hash,
            None => step matches CreateUserStep::Reject(rejection) && is_rejection(
                rejection,
                Status::InternalServerError,
                ErrorReason::SomethingWentWrong,
                "Failed to process information"@,
            ),
        },
{
    match hashed {
        Some(hash) => CreateUserStep::Store(hash),
        None => CreateUserStep::Reject(
            reject(
                Status::InternalServerError,
                ErrorReason::SomethingWentWrong,
                "Failed to process information",
            ),
        ),
    }
}

/// The first step of making a user: the password is hashed. The user is
/// then to be stored with the hash, which is one that the password will be
/// accepted for at sign-in; where hashing fails the sign-up is refused.
pub fn create_user(password: &String) -> (step: CreateUserStep)
    ensures
        match step {
            CreateUserStep::Store(hash) => bcrypt_verdict(password@, hash@) == Some(true),
            CreateUserStep::Reject(rejection) => is_rejection(
                rejection,
                Status::InternalServerError,
                ErrorReason::SomethingWentWrong,
                "Failed to process information"@,
            ),
            _ => false,
        },
{
    on_hashed(hash_password(password.as_str()))
}

/// What follows storing the user: a session, or a refusal where the user
/// could not be stored.
pub fn on_user_stored(stored: bool) -> (step: CreateUserStep)
    ensures
        stored ==> step is StartSession,
        !stored ==> (step matches CreateUserStep::Reject(rejection) && is_rejection(
            rejection,
            Status::InternalServerError,
            ErrorReason::SomethingWentWrong,
            "Failed to register"@,
        )),
{
    if stored {
        CreateUserStep::StartSession
    } else {
        CreateUserStep::Reject(
            reject(
                Status::InternalServerError,
                ErrorReason::SomethingWentWrong,
                "Failed to register",
            ),
        )
    }
}

/// What follows starting the session: the visitor is sent to the home
/// page, or refused where the session could not be started.
pub fn on_session_started(started: bool) -> (step: CreateUserStep)
    ensures
        started ==> (step matches CreateUserStep::Redirect(redirect) && redirect.status
            == Status::Success && optional_view(redirect.location) == reference_of("/"@)),
        !started ==> (step matches CreateUserStep::Reject(rejection) && is_rejection(
            rejection,
            Status::InternalServerError,
            ErrorReason::SomethingWentWrong,
            "Failed to register"@,
        )),
{
    if started {
        CreateUserStep::Redirect(Redirect::to("/"))
    } else {
        CreateUserStep::Reject(
            reject(
                Status::InternalServerError,
                ErrorReason::SomethingWentWrong,
                "Failed to register",
            ),
        )
    }
}

} // verus!
