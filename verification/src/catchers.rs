//! The pages shown when a request fails.

use vstd::prelude::*;
use crate::cookies::settings::{default_language, default_theme, page_context, PageContext};
use crate::errors::error::ErrorJson;

verus! {

/// What an error page shows.
pub struct ErrorPage {
    pub error: ErrorJson,
    pub context: PageContext,
}

fn error_page(
    code: u16,
    message: &'static str,
    reason: &'static str,
    theme_cookie: Option<&str>,
    lang_cookie: Option<&str>,
) -> (page: ErrorPage)
    ensures
        page.error.code == code,
        page.error.message@ == message@,
        page.error.reason@ == reason@,
        page.context.theme@ == default_theme(theme_cookie).name(),
        page.context.lang@ == default_language(lang_cookie).name(),
{
    ErrorPage {
        error: ErrorJson {
            code,
            message: String::from_str(message),
            reason: String::from_str(reason),
        },
        context: page_context(theme_cookie, lang_cookie),
    }
}

/// The page shown when the server failed.
pub fn internal_error(theme_cookie: Option<&str>, lang_cookie: Option<&str>) -> (page: ErrorPage)
    ensures
        page.error.code == 500,
        page.error.message@
            == "The server encountered an internal error. Please try again later."@,
        page.error.reason@ == "Internal Server Error"@,
        page.context.theme@ == default_theme(theme_cookie).name(),
        page.context.lang@ == default_language(lang_cookie).name(),
{
    error_page(
        500,
        "The server encountered an internal error. Please try again later.",
        "Internal Server Error",
        theme_cookie,
        lang_cookie,
    )
}

/// The page shown when nothing answers to the address.
pub fn not_found(theme_cookie: Option<&str>, lang_cookie: Option<&str>) -> (page: ErrorPage)
    ensures
        page.error.code == 404,
        page.error.message@ == "The requested resource could not be found."@,
        page.error.reason@ == "Not Found"@,
        page.context.theme@ == default_theme(theme_cookie).name(),
        page.context.lang@ == default_language(lang_cookie).name(),
{
    error_page(
        404,
        "The requested resource could not be found.",
        "Not Found",
        theme_cookie,
        lang_cookie,
    )
}

/// The page shown when the visitor may not see what was asked for.
pub fn unauthorized(theme_cookie: Option<&str>, lang_cookie: Option<&str>) -> (page: ErrorPage)
    ensures
        page.error.code == 401,
        page.error.message@
            == "You are not authorized to access this resource or do this action."@,
        page.error.reason@ == "Unauthorized"@,
        page.context.theme@ == default_theme(theme_cookie).name(),
        page.context.lang@ == default_language(lang_cookie).name(),
{
    error_page(
        401,
        "You are not authorized to access this resource or do this action.",
        "Unauthorized",
        theme_cookie,
        lang_cookie,
    )
}

} // verus!
