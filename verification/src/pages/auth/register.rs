//! The sign-up page.

use vstd::prelude::*;
use crate::cookies::settings::{default_language, default_theme, page_context, PageContext};

verus! {

/// Where a visitor who is signed in is sent from the sign-up page.
pub fn redirect_if_logged_in() -> (location: &'static str)
    ensures
        location@ == "/auth"@,
{
    "/auth"
}

/// What the sign-up page is rendered with.
pub fn page(theme_cookie: Option<&str>, lang_cookie: Option<&str>) -> (context: PageContext)
    ensures
        context.theme@ == default_theme(theme_cookie).name(),
        context.lang@ == default_language(lang_cookie).name(),
{
    page_context(theme_cookie, lang_cookie)
}

} // verus!
