use chat_server::consts::{PLACEHOLDER_IMAGE_FEMALE, PLACEHOLDER_IMAGE_MALE, PLACEHOLDER_IMAGE_OTHER};
use chat_server::user::user_struct::Gender;
use chat_server::utils::get_placeholder_display_image;

#[test]
fn absent_image_falls_back_to_the_gender_placeholder() {
    assert_eq!(get_placeholder_display_image(None, &Gender::Male), PLACEHOLDER_IMAGE_MALE);
    assert_eq!(get_placeholder_display_image(None, &Gender::Female), PLACEHOLDER_IMAGE_FEMALE);
    assert_eq!(get_placeholder_display_image(None, &Gender::Other), PLACEHOLDER_IMAGE_OTHER);
}

#[test]
fn empty_image_falls_back_like_an_absent_one() {
    let empty = String::new();
    assert_eq!(
        get_placeholder_display_image(Some(&empty), &Gender::Male),
        get_placeholder_display_image(None, &Gender::Male)
    );
    assert_eq!(
        get_placeholder_display_image(Some(&empty), &Gender::Male),
        "https://storage.cloud.google.com/chat_server_local_development/placeholders/display_images/male.jpg"
    );
}

#[test]
fn set_image_is_used_verbatim() {
    let image = String::from("http://x");
    assert_eq!(get_placeholder_display_image(Some(&image), &Gender::Male), "http://x");
    assert_eq!(get_placeholder_display_image(Some(&image), &Gender::Female), "http://x");
    assert_eq!(get_placeholder_display_image(Some(&image), &Gender::Other), "http://x");
}
