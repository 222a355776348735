//! Values fixed for the whole application.

use vstd::prelude::*;
use crate::user::user_struct::Gender;

verus! {

/// Placeholder profile picture for male users.
pub const PLACEHOLDER_IMAGE_MALE: &'static str =
    "https://storage.cloud.google.com/chat_server_local_development/placeholders/display_images/male.jpg";

/// Placeholder profile picture for female users.
pub const PLACEHOLDER_IMAGE_FEMALE: &'static str =
    "https://storage.cloud.google.com/chat_server_local_development/placeholders/display_images/female.jpg";

/// Placeholder profile picture for users of another gender.
pub const PLACEHOLDER_IMAGE_OTHER: &'static str =
    "https://storage.cloud.google.com/chat_server_local_development/placeholders/display_images/other.png";

/// Title and description shown on every page.
pub struct Metadata {
    pub title: &'static str,
    pub description: &'static str,
}

/// The placeholder picture that stands for a gender.
pub open spec fn placeholder_image(gender: Gender) -> Seq<char> {
    match gender {
        Gender::Male => PLACEHOLDER_IMAGE_MALE@,
        Gender::Female => PLACEHOLDER_IMAGE_FEMALE@,
        Gender::Other => PLACEHOLDER_IMAGE_OTHER@,
    }
}

/// The metadata of this application.
pub fn metadata() -> (data: Metadata)
    ensures
        data.title@ == "Chat App"@,
        data.description@ == "Chat app while practicing Rocket"@,
{
    Metadata { title: "Chat App", description: "Chat app while practicing Rocket" }
}

} // verus!
