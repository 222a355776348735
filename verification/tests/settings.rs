use chat_server::catchers::{internal_error, not_found, unauthorized};
use chat_server::consts::metadata;
use chat_server::cookies::settings::{
    get_default_language, get_default_theme, page_context, Language, Theme,
};
use chat_server::user::user_struct::{Gender, UserRole, UserStatus};

#[test]
fn themes_have_names_and_are_read_back_from_them() {
    for (theme, name) in [(Theme::Light, "light"), (Theme::Dark, "dark"), (Theme::System, "system")] {
        assert_eq!(theme.as_str(), name);
        assert_eq!(Theme::from_str(name), theme);
    }
    assert_eq!(Theme::from_str("Dark"), Theme::Light);
    assert_eq!(Theme::from_str(""), Theme::Light);
}

#[test]
fn languages_have_codes_and_are_read_back_from_them() {
    for (language, code) in [(Language::English, "en"), (Language::Tagalog, "ph")] {
        assert_eq!(language.as_str(), code);
        assert_eq!(Language::from_str(code), language);
    }
    assert_eq!(Language::from_str("tl"), Language::English);
}

#[test]
fn without_cookies_the_page_is_light_and_english() {
    assert_eq!(get_default_theme(None), Theme::Light);
    assert_eq!(get_default_language(None), Language::English);
    assert_eq!(get_default_theme(Some("dark")), Theme::Dark);
    assert_eq!(get_default_theme(Some("nonsense")), Theme::Light);
    assert_eq!(get_default_language(Some("ph")), Language::Tagalog);
    let context = page_context(Some("system"), None);
    assert_eq!(context.theme, "system");
    assert_eq!(context.lang, "en");
}

#[test]
fn error_pages_tell_their_status() {
    let e = internal_error(Some("dark"), Some("ph"));
    assert_eq!(e.error.code, 500);
    assert_eq!(e.error.reason, "Internal Server Error");
    assert_eq!(e.error.message, "The server encountered an internal error. Please try again later.");
    assert_eq!(e.context.theme, "dark");
    assert_eq!(e.context.lang, "ph");
    let n = not_found(None, None);
    assert_eq!(n.error.code, 404);
    assert_eq!(n.error.reason, "Not Found");
    assert_eq!(n.error.message, "The requested resource could not be found.");
    assert_eq!(n.context.theme, "light");
    let u = unauthorized(None, None);
    assert_eq!(u.error.code, 401);
    assert_eq!(u.error.reason, "Unauthorized");
    assert_eq!(u.error.message, "You are not authorized to access this resource or do this action.");
}

#[test]
fn the_application_has_a_title() {
    let data = metadata();
    assert_eq!(data.title, "Chat App");
    assert_eq!(data.description, "Chat app while practicing Rocket");
}

#[test]
fn genders_are_read_whatever_the_case() {
    assert_eq!(Gender::from_string("male".to_string()), Gender::Male);
    assert_eq!(Gender::from_string("MALE".to_string()), Gender::Male);
    assert_eq!(Gender::from_string("Female".to_string()), Gender::Female);
    assert_eq!(Gender::from_string("other".to_string()), Gender::Other);
    assert_eq!(Gender::from_string("unknown".to_string()), Gender::Other);
    assert_eq!(Gender::from_lowercase("MALE"), Gender::Other);
    assert_eq!(Gender::Male.as_str(), "male");
    assert_eq!(Gender::Female.to_text(), "female");
    assert_eq!(Gender::Other.to_text(), "other");
}

#[test]
fn statuses_and_roles_are_read_whatever_the_case() {
    assert_eq!(UserStatus::from_string("Suspended".to_string()), UserStatus::Suspended);
    assert_eq!(UserStatus::from_string("DELETED".to_string()), UserStatus::Deleted);
    assert_eq!(UserStatus::from_string("active".to_string()), UserStatus::Active);
    assert_eq!(UserStatus::from_string("gone".to_string()), UserStatus::Active);
    assert_eq!(UserStatus::from_lowercase("Deleted"), UserStatus::Active);
    assert_eq!(UserStatus::Suspended.to_text(), "suspended");
    assert_eq!(UserStatus::Active.as_str(), "active");
    assert_eq!(UserStatus::Deleted.as_str(), "deleted");
    assert_eq!(UserRole::from_string("Admin".to_string()), UserRole::Admin);
    assert_eq!(UserRole::from_string("user".to_string()), UserRole::User);
    assert_eq!(UserRole::from_string("root".to_string()), UserRole::User);
    assert_eq!(UserRole::from_lowercase("ADMIN"), UserRole::User);
    assert_eq!(UserRole::Admin.to_text(), "admin");
    assert_eq!(UserRole::User.as_str(), "user");
}
