//! Signing in.

use vstd::prelude::*;
use crate::errors::error::ErrorReason;
use crate::pages::auth::_utils::{is_rejection, reject};
use crate::pages::auth::login::Login;
use crate::response::{Rejection, Status};
use crate::user::user_struct::UserCredentials;
use crate::text::optional_view;
use crate::utils::custom_redirect::{reference_of, Redirect};

verus! {

/// What `bcrypt` says of a password and a hash: whether the password is the
/// one that was hashed, and `None` where the hash cannot be read.
pub uninterp spec fn bcrypt_verdict(password: Seq<char>, hash: Seq<char>) -> Option<bool>;

/// Calls `bcrypt::verify`. Trusted: the result is what `bcrypt_verdict`
/// names for the arguments, with `None` for the crate's error.
#[verifier::external_body]
fn verify_password(password: &str, hash: &str) -> (verdict: Option<bool>)
    ensures
        verdict == bcrypt_verdict(password@, hash@),
{
    match bcrypt::verify(password, hash) {
        Ok(same) => Some(same),
        Err(_) => None,
    }
}

/// What is to be done next to sign a visitor in.
pub enum LoginStep {
    /// Look up the credentials of this user and hand them to `login_user`.
    FindCredentials(i32),
    /// Set the time of the last sign-in of this user and hand the outcome
    /// to `on_last_login_updated`.
    UpdateLastLogin(i32),
    /// Start a session for the user and hand the outcome to
    /// `on_session_started`.
    StartSession,
    /// The visitor is signed in: send the visitor on.
    Redirect(Redirect),
    /// Refuse.
    Reject(Rejection),
}

/// The refusal of a name or a password that is not right.
pub open spec fn is_invalid_credentials(step: LoginStep) -> bool {
    step matches LoginStep::Reject(rejection) && is_rejection(
        rejection,
        Status::Unauthorized,
        ErrorReason::InvalidCredentials,
        "Invalid credentials"@,
    )
}

/// The refusal told where the password could not be checked.
pub open spec fn is_unable_to_check(step: LoginStep) -> bool {
    step matches LoginStep::Reject(rejection) && is_rejection(
        rejection,
        Status::InternalServerError,
        ErrorReason::SomethingWentWrong,
        "Unable to check if credentials are valid."@,
    )
}

/// What follows a verdict on the password of the user `user_id`.
pub open spec fn after_verdict(step: LoginStep, user_id: i32, verdict: Option<bool>) -> bool {
    match verdict {
        Some(true) => step == LoginStep::UpdateLastLogin(user_id),
        Some(false) => is_invalid_credentials(step),
        None => is_unable_to_check(step),
    }
}

fn invalid_credentials() -> (step: LoginStep)
    ensures
        is_invalid_credentials(step),
{
    LoginStep::Reject(
        reject(Status::Unauthorized, ErrorReason::InvalidCredentials, "Invalid credentials"),
    )
}

fn unable_to_check() -> (step: LoginStep)
    ensures
        is_unable_to_check(step),
{
    LoginStep::Reject(
        reject(
            Status::InternalServerError,
            ErrorReason::SomethingWentWrong,
            "Unable to check if credentials are valid.",
        ),
    )
}

/// What follows the lookup of the user by name: a visitor whom nobody
/// knows is refused like one with a wrong password; for a known one the
/// credentials are looked up.
pub fn on_user_lookup(found: Option<i32>) -> (step: LoginStep)
    ensures
        match found {
            Some(user_id) => step == LoginStep::FindCredentials(user_id),
            None => is_invalid_credentials(step),
        },
{
    match found {
        Some(user_id) => LoginStep::FindCredentials(user_id),
        None => invalid_credentials(),
    }
}

/// What follows a verdict on the password: the right password lets the
/// sign-in go on, a wrong one is refused, and so is a hash that cannot be
/// read.
pub fn on_verdict(user_id: i32, verdict: Option<bool>) -> (step: LoginStep)
    ensures
        after_verdict(step, user_id, verdict),
{
    match verdict {
        Some(true) => LoginStep::UpdateLastLogin(user_id),
        Some(false) => invalid_credentials(),
        None => unable_to_check(),
    }
}

/// Checks the password of the sign-in form against the credentials of the
/// user `user_id`. A user without credentials cannot be checked; for any
/// other the verdict on the password decides.
pub fn login_user(login_info: &Login<'_>, user_id: i32, credentials: Option<&UserCredentials>) -> (step:
    LoginStep)
    ensures
        match credentials {
            Some(known) => after_verdict(
                step,
                user_id,
                bcrypt_verdict(login_info.password@, known.password_hash@),
            ),
            None => is_unable_to_check(step),
        },
{
    match credentials {
        Some(known) => on_verdict(
            user_id,
            verify_password(login_info.password, known.password_hash.as_str()),
        ),
        None => unable_to_check(),
    }
}

/// What follows setting the time of the last sign-in.
pub fn on_last_login_updated(updated: bool) -> (step: LoginStep)
    ensures
        updated ==> step is StartSession,
        !updated ==> (step matches LoginStep::Reject(rejection) && is_rejection(
            rejection,
            Status::InternalServerError,
            ErrorReason::SomethingWentWrong,
            "Credentials are valid, but something went wrong."@,
        )),
{
    if updated {
        LoginStep::StartSession
    } else {
        LoginStep::Reject(
            reject(
                Status::InternalServerError,
                ErrorReason::SomethingWentWrong,
                "Credentials are valid, but something went wrong.",
            ),
        )
    }
}

/// What follows starting the session: the visitor is sent to the greeting
/// page, or refused where the session could not be started.
pub fn on_session_started(started: bool) -> (step: LoginStep)
    ensures
        started ==> (step matches LoginStep::Redirect(redirect) && redirect.status
            == Status::Success && optional_view(redirect.location) == reference_of("/auth"@)),
        !started ==> (step matches LoginStep::Reject(rejection) && is_rejection(
            rejection,
            Status::InternalServerError,
            ErrorReason::SomethingWentWrong,
            "Credentials are valid, but something went wrong in parsing user information."@,
        )),
{
    if started {
        LoginStep::Redirect(Redirect::to("/auth"))
    } else {
        LoginStep::Reject(
            reject(
                Status::InternalServerError,
                ErrorReason::SomethingWentWrong,
                "Credentials are valid, but something went wrong in parsing user information.",
            ),
        )
    }
}

} // verus!
