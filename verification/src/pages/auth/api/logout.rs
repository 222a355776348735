//! Signing out.

use vstd::prelude::*;
use crate::errors::error::{error_text, Error, ErrorReason};
use crate::response::{Rejection, Status};
use crate::text::optional_view;
use crate::utils::custom_redirect::{reference_of, Redirect};

verus! {

/// Signs the visitor out. With a session the session is to be removed and
/// the visitor is sent to the sign-in page; without one there is nothing to
/// sign out of.
pub fn logout_user(has_session: bool) -> (answer: Result<Redirect, Rejection>)
    ensures
        has_session ==> (answer matches Ok(redirect) && redirect.status == Status::Success
            && optional_view(redirect.location) == reference_of("/auth/login"@)),
        !has_session ==> (answer matches Err(rejection) && rejection.status == Status::NotFound
            && rejection.message@ == error_text(
            ErrorReason::InvalidRequest,
            "You are not logged in. Please try refreshing the page."@,
        )),
{
    if has_session {
        Ok(Redirect::to("/auth/login"))
    } else {
        Err(
            Rejection {
                status: Status::NotFound,
                message: Error::to_string(
                    Error::new(
                        ErrorReason::InvalidRequest,
                        String::from_str("You are not logged in. Please try refreshing the page."),
                    ),
                ),
            },
        )
    }
}

} // verus!
