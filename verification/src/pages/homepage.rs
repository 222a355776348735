//! The home page.

use vstd::prelude::*;
use crate::cookies::settings::{default_language, default_theme, page_context, PageContext};
use crate::text::optional_view;
use crate::user::user_struct::User;
use crate::utils::{avatar, get_placeholder_display_image};

verus! {

/// What the home page is rendered with.
pub struct HomePage {
    pub context: PageContext,
    /// The picture shown for the visitor, where one is signed in.
    pub placeholder_display_image: Option<String>,
}

/// What the home page is rendered with: the visitor's theme and language,
/// and the picture shown for a visitor who is signed in.
pub fn page(user: Option<&User>, theme_cookie: Option<&str>, lang_cookie: Option<&str>) -> (home:
    HomePage)
    ensures
        home.context.theme@ == default_theme(theme_cookie).name(),
        home.context.lang@ == default_language(lang_cookie).name(),
        match user {
            Some(u) => home.placeholder_display_image matches Some(image) && image@ == avatar(
                optional_view(u.display_image),
                u.gender,
            ),
            None => home.placeholder_display_image is None,
        },
{
    let placeholder_display_image = match user {
        Some(user) => Some(get_placeholder_display_image(user.display_image.as_ref(), &user.gender)),
        None => None,
    };
    HomePage { context: page_context(theme_cookie, lang_cookie), placeholder_display_image }
}

} // verus!
