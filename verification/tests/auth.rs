use chat_server::pages::auth::_utils::{create_user, on_hashed, on_session_started, on_user_stored, reject, CreateUserStep};
use chat_server::pages::auth::api::login::{
    login_user, on_last_login_updated, on_user_lookup, on_verdict, LoginStep,
};
use chat_server::pages::auth::api::register::{
    accepts_kind, name_upload, on_image_read, on_name_checked, on_uploaded, register_user,
    ImageRead, RegistrationFault, RegistrationForm, Upload, UploadedFile, UploadedPicture,
};
use chat_server::pages::auth::login::Login;
use chat_server::errors::error::ErrorReason;
use chat_server::response::Status;
use chat_server::user::user_struct::{Gender, UserCredentials};

fn credentials(hash: &str) -> UserCredentials {
    UserCredentials { id: 1, user_id: 4, email: None, password_hash: hash.to_string() }
}

fn rejected(step: LoginStep) -> (Status, String) {
    match step {
        LoginStep::Reject(r) => (r.status, r.message),
        _ => panic!("a refusal was expected"),
    }
}

fn form(name: Option<Vec<&str>>, password: Option<Vec<&str>>, gender: Option<Vec<&str>>, image: Option<Vec<UploadedFile>>) -> RegistrationForm {
    let own = |v: Option<Vec<&str>>| v.map(|v| v.into_iter().map(|s| s.to_string()).collect());
    RegistrationForm { display_name: own(name), password: own(password), gender: own(gender), display_image: image }
}

fn file(kind: Option<&str>, name: Option<&str>) -> UploadedFile {
    UploadedFile { content_type: kind.map(|s| s.to_string()), file_name: name.map(|s| s.to_string()) }
}

#[test]
fn a_refusal_tells_its_reason_and_message() {
    let r = reject(Status::NotAcceptable, ErrorReason::WeakPassword, "too short");
    assert_eq!(r.status, Status::NotAcceptable);
    assert_eq!(r.message, "weak_password: too short");
}

#[test]
fn a_hashed_password_is_verified_at_sign_in() {
    let hash = match create_user(&"correct horse".to_string()) {
        CreateUserStep::Store(hash) => hash,
        _ => panic!("the password can be hashed"),
    };
    assert_ne!(hash, "correct horse");
    let known = credentials(&hash);
    let right = Login { display_name: "ana", password: "correct horse" };
    assert!(matches!(login_user(&right, 4, Some(&known)), LoginStep::UpdateLastLogin(4)));
    let wrong = Login { display_name: "ana", password: "battery staple" };
    assert_eq!(
        rejected(login_user(&wrong, 4, Some(&known))),
        (Status::Unauthorized, "invalid_credentials: Invalid credentials".to_string())
    );
}

#[test]
fn a_known_hash_is_verified() {
    let known = credentials("$2a$04$UuTkLRZZ6QofpDOlMz32MuuxEHA43WOemOYHPz6.SjsVsyO1tDU96");
    let right = Login { display_name: "x", password: "password" };
    assert!(matches!(login_user(&right, 9, Some(&known)), LoginStep::UpdateLastLogin(9)));
    let wrong = Login { display_name: "x", password: "Password" };
    assert!(matches!(login_user(&wrong, 9, Some(&known)), LoginStep::Reject(_)));
}

#[test]
fn an_unreadable_hash_cannot_be_checked() {
    let broken = credentials("not a hash");
    let login = Login { display_name: "ana", password: "whatever" };
    let unable = (
        Status::InternalServerError,
        "something_went_wrong: Unable to check if credentials are valid.".to_string(),
    );
    assert_eq!(rejected(login_user(&login, 4, Some(&broken))), unable);
    assert_eq!(rejected(login_user(&login, 4, None)), unable);
}

#[test]
fn the_steps_of_signing_in() {
    assert!(matches!(on_user_lookup(Some(4)), LoginStep::FindCredentials(4)));
    assert_eq!(
        rejected(on_user_lookup(None)),
        (Status::Unauthorized, "invalid_credentials: Invalid credentials".to_string())
    );
    assert!(matches!(on_verdict(4, Some(true)), LoginStep::UpdateLastLogin(4)));
    assert_eq!(rejected(on_verdict(4, Some(false))).0, Status::Unauthorized);
    assert_eq!(rejected(on_verdict(4, None)).0, Status::InternalServerError);
    assert!(matches!(on_last_login_updated(true), LoginStep::StartSession));
    assert_eq!(
        rejected(on_last_login_updated(false)),
        (
            Status::InternalServerError,
            "something_went_wrong: Credentials are valid, but something went wrong.".to_string()
        )
    );
    match chat_server::pages::auth::api::login::on_session_started(true) {
        LoginStep::Redirect(r) => assert_eq!(r.location.as_deref(), Some("/auth")),
        _ => panic!("the session was started"),
    }
    assert_eq!(
        rejected(chat_server::pages::auth::api::login::on_session_started(false)),
        (
            Status::InternalServerError,
            "something_went_wrong: Credentials are valid, but something went wrong in parsing user information.".to_string()
        )
    );
}

#[test]
fn the_steps_of_making_a_user() {
    match on_hashed(Some("h".to_string())) {
        CreateUserStep::Store(hash) => assert_eq!(hash, "h"),
        _ => panic!("there is a hash"),
    }
    match on_hashed(None) {
        CreateUserStep::Reject(r) => {
            assert_eq!(r.status, Status::InternalServerError);
            assert_eq!(r.message, "something_went_wrong: Failed to process information");
        }
        _ => panic!("there is no hash"),
    }
    assert!(matches!(on_user_stored(true), CreateUserStep::StartSession));
    match on_user_stored(false) {
        CreateUserStep::Reject(r) => assert_eq!(r.message, "something_went_wrong: Failed to register"),
        _ => panic!("the user was not stored"),
    }
    match on_session_started(true) {
        CreateUserStep::Redirect(r) => assert_eq!(r.location.as_deref(), Some("/")),
        _ => panic!("the session was started"),
    }
    match on_session_started(false) {
        CreateUserStep::Reject(r) => assert_eq!(r.message, "something_went_wrong: Failed to register"),
        _ => panic!("the session was not started"),
    }
}

#[test]
fn the_display_name_is_checked_first() {
    let good = form(Some(vec!["ana"]), None, None, None);
    assert_eq!(register_user(&good), Ok("ana".to_string()));
    assert_eq!(register_user(&form(None, None, None, None)), Err(RegistrationFault::DisplayNameMissing));
    assert_eq!(
        register_user(&form(Some(vec!["a", "b"]), None, None, None)),
        Err(RegistrationFault::DisplayNameRepeated)
    );
    assert_eq!(register_user(&form(Some(vec![]), None, None, None)), Err(RegistrationFault::DisplayNameRepeated));
}

#[test]
fn the_first_fault_of_the_form_ends_the_sign_up() {
    let fault = |f: &RegistrationForm, taken: bool| on_name_checked(f, taken).err();
    let complete = form(Some(vec!["ana"]), Some(vec!["longenough"]), Some(vec!["Female"]), None);
    assert_eq!(fault(&complete, true), Some(RegistrationFault::DisplayNameTaken));
    assert_eq!(fault(&form(None, None, None, None), false), Some(RegistrationFault::DisplayNameMissing));
    assert_eq!(fault(&form(Some(vec!["ana"]), None, None, None), false), Some(RegistrationFault::PasswordMissing));
    assert_eq!(
        fault(&form(Some(vec!["ana"]), Some(vec!["a", "b"]), None, None), false),
        Some(RegistrationFault::PasswordRepeated)
    );
    assert_eq!(
        fault(&form(Some(vec!["ana"]), Some(vec!["1234567"]), None, None), false),
        Some(RegistrationFault::PasswordWeak)
    );
    assert_eq!(
        fault(&form(Some(vec!["ana"]), Some(vec!["12345678"]), None, None), false),
        Some(RegistrationFault::GenderMissing)
    );
    assert_eq!(
        fault(&form(Some(vec!["ana"]), Some(vec!["12345678"]), Some(vec![]), None), false),
        Some(RegistrationFault::GenderRepeated)
    );
    let with = |image: Vec<UploadedFile>| form(Some(vec!["ana"]), Some(vec!["12345678"]), Some(vec!["male"]), Some(image));
    assert_eq!(fault(&with(vec![]), false), Some(RegistrationFault::ImageRepeated));
    assert_eq!(
        fault(&with(vec![file(Some("image/png"), Some("a.png")), file(Some("image/png"), Some("b.png"))]), false),
        Some(RegistrationFault::ImageRepeated)
    );
    assert_eq!(fault(&with(vec![file(None, Some("a.png"))]), false), Some(RegistrationFault::ImageKindRefused));
    assert_eq!(
        fault(&with(vec![file(Some("image/gif"), Some("a.gif"))]), false),
        Some(RegistrationFault::ImageKindRefused)
    );
    assert_eq!(fault(&with(vec![file(Some("image/png"), None)]), false), Some(RegistrationFault::FileNameMissing));
}

#[test]
fn a_password_is_measured_in_bytes() {
    let seven_letters = form(Some(vec!["ana"]), Some(vec!["\u{e9}\u{e9}\u{e9}\u{e9}"]), Some(vec!["male"]), None);
    assert!(on_name_checked(&seven_letters, false).is_ok());
}

#[test]
fn a_form_without_faults_is_a_registration() {
    let plain = form(Some(vec!["ana"]), Some(vec!["longenough"]), Some(vec!["FEMALE"]), None);
    let made = on_name_checked(&plain, false).ok().unwrap();
    assert_eq!(made.display_name, "ana");
    assert_eq!(made.password, "longenough");
    assert_eq!(made.gender, Gender::Female);
    assert!(made.picture.is_none());
    let pictured = form(
        Some(vec!["ben"]),
        Some(vec!["longenough"]),
        Some(vec!["robot"]),
        Some(vec![file(Some("image/webp"), Some("me.webp"))]),
    );
    let made = on_name_checked(&pictured, false).ok().unwrap();
    assert_eq!(made.gender, Gender::Other);
    let picture = made.picture.unwrap();
    assert_eq!(picture.mime_type, "image/webp");
    assert_eq!(picture.file_name, "me.webp");
}

#[test]
fn five_kinds_of_picture_are_taken() {
    for kind in ["image/jpg", "image/jpeg", "image/png", "image/webp", "image/avif"] {
        assert!(accepts_kind(kind));
    }
    for kind in ["image/gif", "image/PNG", "text/plain", ""] {
        assert!(!accepts_kind(kind));
    }
}

#[test]
fn every_fault_is_told_with_its_status_and_message() {
    let told = |f: RegistrationFault| {
        let r = f.rejection();
        (r.status, r.message)
    };
    let cases = [
        (RegistrationFault::FormUnreadable, Status::InternalServerError, "something_went_wrong: Failed to process information"),
        (RegistrationFault::DisplayNameMissing, Status::NotAcceptable, "incomplete_data: Display name is required"),
        (RegistrationFault::DisplayNameRepeated, Status::BadRequest, "invalid: Only one instance of display name is allowed."),
        (RegistrationFault::DisplayNameTaken, Status::NotAcceptable, "invalid: Display name is already taken."),
        (RegistrationFault::PasswordMissing, Status::NotAcceptable, "incomplete_data: Password is required"),
        (RegistrationFault::PasswordRepeated, Status::NotAcceptable, "invalid: Only one instance of password is allowed."),
        (RegistrationFault::PasswordWeak, Status::NotAcceptable, "weak_password: Password must be at least 8 characters long."),
        (RegistrationFault::GenderMissing, Status::NotAcceptable, "invalid: Gender is required"),
        (RegistrationFault::GenderRepeated, Status::NotAcceptable, "invalid: Only one instance of gender is allowed"),
        (RegistrationFault::ImageRepeated, Status::NotAcceptable, "invalid: Only one instance of display image is allowed."),
        (RegistrationFault::ImageKindRefused, Status::NotAcceptable, "invalid_mime_type: Only Jpeg, Webp, Png, and Avif images are allowed."),
        (RegistrationFault::FileNameMissing, Status::NotAcceptable, "invalid: File name is required."),
        (RegistrationFault::ImageCorrupted, Status::InternalServerError, "something_went_wrong: Failed to process image. File might be corrupted."),
        (RegistrationFault::ImageUnprocessed, Status::InternalServerError, "something_went_wrong: Failed to process image."),
    ];
    for (fault, status, message) in cases {
        assert_eq!(told(fault), (status, message.to_string()));
    }
}

#[test]
fn a_stored_picture_is_named_with_quotes_around_both_parts() {
    assert_eq!(name_upload("abcDEF123456", "me.png"), "\"abcDEF123456\"-chat_server-\"me.png\"");
    assert_eq!(name_upload("x", "a\"b"), "\"x\"-chat_server-\"a\\\"b\"");
}

#[test]
fn a_picture_that_was_read_gets_a_drawn_name() {
    let picture = UploadedPicture { mime_type: "image/png".to_string(), file_name: "me.png".to_string() };
    let upload = on_image_read(&picture, ImageRead::Complete).ok().unwrap();
    assert_eq!(upload.mime_type, "image/png");
    assert!(upload.name.starts_with('"'));
    assert!(upload.name.ends_with("\"-chat_server-\"me.png\""));
    let drawn = &upload.name[1..13];
    assert_eq!(upload.name.len(), 1 + 12 + "\"-chat_server-\"me.png\"".len());
    assert!(drawn.chars().all(|c| c.is_ascii_alphanumeric()));
    assert_eq!(on_image_read(&picture, ImageRead::Corrupted).err(), Some(RegistrationFault::ImageCorrupted));
    assert_eq!(on_image_read(&picture, ImageRead::Unopened).err(), Some(RegistrationFault::ImageUnprocessed));
}

#[test]
fn a_stored_picture_is_shown_from_the_bucket() {
    let upload = Upload { name: "n.png".to_string(), mime_type: "image/png".to_string() };
    assert_eq!(
        on_uploaded(&upload, true),
        Ok("https://storage.cloud.google.com/chat_server_local_development/n.png".to_string())
    );
    assert_eq!(on_uploaded(&upload, false), Err(RegistrationFault::ImageUnprocessed));
}
