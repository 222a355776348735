//! Changes to a stored user.

use vstd::prelude::*;
use crate::text::{optional_text, optional_view};

verus! {

/// The changes that can be made to a stored user.
pub struct UserActions {}

/// What a change of the display image writes.
pub struct DisplayImageChange {
    /// The new display image; empty where the user has none any more.
    pub display_image: String,
    /// The picture that joins the user's earlier pictures, where one does.
    pub archived: Option<String>,
}

/// The picture that a change of the display image keeps among the earlier
/// pictures: the previous display image, where there was one and it was
/// not empty.
pub open spec fn kept_picture(previous: Option<Seq<char>>) -> Option<Seq<char>> {
    match previous {
        Some(image) => if image.len() == 0 {
            None
        } else {
            Some(image)
        },
        None => None,
    }
}

impl UserActions {
    /// What is written when a user's display image changes from `previous`
    /// to `new_display_image`. Provide an empty text to remove the display
    /// image.
    pub fn update_display_image(previous: Option<&String>, new_display_image: &String) -> (change:
        DisplayImageChange)
        ensures
            change.display_image == *new_display_image,
            optional_view(change.archived) == kept_picture(optional_text(previous)),
    {
        let archived = match previous {
            Some(image) => {
                if image.as_str().is_empty() {
                    None
                } else {
                    Some(image.clone())
                }
            },
            None => None,
        };
        DisplayImageChange { display_image: new_display_image.clone(), archived }
    }
}

} // verus!
