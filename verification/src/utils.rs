//! Helpers shared by the pages and the read-models.

use vstd::prelude::*;
use crate::consts::{
    placeholder_image,
    PLACEHOLDER_IMAGE_FEMALE,
    PLACEHOLDER_IMAGE_MALE,
    PLACEHOLDER_IMAGE_OTHER,
};
use crate::text::optional_text;
use crate::user::user_struct::Gender;

pub mod custom_redirect;

verus! {

/// The picture shown for a user: the user's own where one is set and not
/// empty, else the placeholder of the user's gender.
pub open spec fn avatar(display_image: Option<Seq<char>>, gender: Gender) -> Seq<char> {
    match display_image {
        Some(image) => if image.len() == 0 {
            placeholder_image(gender)
        } else {
            image
        },
        None => placeholder_image(gender),
    }
}

fn placeholder_for(gender: &Gender) -> (image: String)
    ensures
        image@ == placeholder_image(*gender),
{
    match gender {
        Gender::Male => String::from_str(PLACEHOLDER_IMAGE_MALE),
        Gender::Female => String::from_str(PLACEHOLDER_IMAGE_FEMALE),
        Gender::Other => String::from_str(PLACEHOLDER_IMAGE_OTHER),
    }
}

/// The picture shown for a user: the user's own where one is set and not
/// empty, else the placeholder of the user's gender.
pub fn get_placeholder_display_image(display_image: Option<&String>, gender: &Gender) -> (image:
    String)
    ensures
        image@ == avatar(optional_text(display_image), *gender),
{
    match display_image {
        Some(display_image) => {
            if display_image.as_str().is_empty() {
                placeholder_for(gender)
            } else {
                display_image.clone()
            }
        },
        None => placeholder_for(gender),
    }
}

/// The avatar fallback: a user without a display image and a user with an
/// empty one are both shown the placeholder of their gender, and a display
/// image that is set is shown as it is, whatever the gender.
pub proof fn lemma_avatar_fallback(image: Seq<char>, gender: Gender)
    ensures
        avatar(None, gender) == placeholder_image(gender),
        avatar(Some(Seq::<char>::empty()), gender) == placeholder_image(gender),
        image.len() > 0 ==> avatar(Some(image), gender) == image,
{
}

} // verus!
