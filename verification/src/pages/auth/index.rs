//! The page that greets a visitor who has just signed in.

use vstd::prelude::*;
use crate::cookies::settings::{default_language, default_theme, page_context, PageContext};
use crate::timestamp::Timestamp;
use crate::user::user_struct::User;

verus! {

/// How many seconds after signing in the greeting is still shown.
pub const GREETING_SECONDS: u32 = 30;

/// What the greeting page answers.
pub enum AuthPage {
    /// The visitor signed in a while ago: on to the conversations.
    Redirect(&'static str),
    /// The greeting, rendered with this theme and language.
    Template(PageContext),
}

/// The visitor signed in longer ago than the greeting is shown.
pub open spec fn greeting_is_over(last_login: int, now: int) -> bool {
    last_login < now - GREETING_SECONDS as int * 1_000_000_000
}

/// What the greeting page answers to a visitor who signed in at
/// `user.last_login_date`, asked at `now`: the greeting while it is shown,
/// and the way on to the conversations after that.
pub fn page(user: &User, now: &Timestamp, theme_cookie: Option<&str>, lang_cookie: Option<&str>) -> (answer:
    AuthPage)
    ensures
        greeting_is_over(user.last_login_date@, now@) ==> (answer matches AuthPage::Redirect(
            location,
        ) && location@ == "/chats"@),
        !greeting_is_over(user.last_login_date@, now@) ==> (answer matches AuthPage::Template(
            context,
        ) && context.theme@ == default_theme(theme_cookie).name() && context.lang@
            == default_language(lang_cookie).name()),
{
    if user.last_login_date.is_older_than(now, GREETING_SECONDS) {
        return AuthPage::Redirect("/chats");
    }
    AuthPage::Template(page_context(theme_cookie, lang_cookie))
}

/// Where a visitor who is not signed in is sent from the greeting page.
pub fn redirect_if_logged_out() -> (location: &'static str)
    ensures
        location@ == "/auth/login"@,
{
    "/auth/login"
}

} // verus!
