//! Signing up: what is asked of the form, in which order, and how each
//! fault is told.

use vstd::prelude::*;
use vstd::utf8::encode_utf8;
use crate::errors::error::ErrorReason;
use crate::pages::auth::_utils::{is_rejection, reject};
use crate::response::{Rejection, Status};
use crate::text::str_eq;
use crate::user::user_struct::{lowercase_of, Gender};

verus! {

/// The letters and digits that a stored picture's name is drawn from.
pub const ALPHANUMERIC: &'static str =
    "abcdefghijklmnopqrstuvwxyzABCDEFGHIJKLMNOPQRSTUVWXYZ0123456789";

/// How many characters are drawn for the name of a stored picture.
pub const RANDOM_NAME_LENGTH: usize = 12;

/// Where the stored pictures are shown from.
pub const PICTURE_URL_PREFIX: &'static str =
    "https://storage.cloud.google.com/chat_server_local_development/";

/// The text that `{:?}` writes for a text: the text between quotes, with
/// its special characters escaped.
pub uninterp spec fn debug_form(text: Seq<char>) -> Seq<char>;

/// Calls `random_string::generate` with the letters and digits of
/// `random_string::charsets::ALPHANUMERIC`. Trusted: the result has the
/// length asked for and holds letters and digits only; which ones is left
/// to chance.
#[verifier::external_body]
fn random_name(length: usize) -> (name: String)
    ensures
        name@.len() == length,
        forall|i: int| 0 <= i < name@.len() ==> ALPHANUMERIC@.contains(#[trigger] name@[i]),
{
    random_string::generate(length, random_string::charsets::ALPHANUMERIC)
}

/// Writes a text as `{:?}` does. Trusted: the result is the text that
/// `debug_form` names for the argument.
#[verifier::external_body]
fn debug_text(text: &str) -> (written: String)
    ensures
        written@ == debug_form(text@),
{
    format!("{:?}", text)
}

/// A file of the form.
pub struct UploadedFile {
    /// The kind of the file, without parameters.
    pub content_type: Option<String>,
    pub file_name: Option<String>,
}

/// The sign-up form: each field with all the values sent for it.
pub struct RegistrationForm {
    pub display_name: Option<Vec<String>>,
    pub password: Option<Vec<String>>,
    pub gender: Option<Vec<String>>,
    pub display_image: Option<Vec<UploadedFile>>,
}

/// What can be wrong with a sign-up.
#[derive(Clone, Copy, Debug, PartialEq, Eq, Structural)]
pub enum RegistrationFault {
    FormUnreadable,
    DisplayNameMissing,
    DisplayNameRepeated,
    DisplayNameTaken,
    PasswordMissing,
    PasswordRepeated,
    PasswordWeak,
    GenderMissing,
    GenderRepeated,
    ImageRepeated,
    ImageKindRefused,
    FileNameMissing,
    ImageCorrupted,
    ImageUnprocessed,
}

/// What was read of the picture's file.
#[derive(Clone, Copy, Debug, PartialEq, Eq, Structural)]
pub enum ImageRead {
    /// All of it.
    Complete,
    /// Part of it: a byte could not be read.
    Corrupted,
    /// Nothing: the file could not be opened.
    Unopened,
}

/// The picture that is to be stored.
pub struct Upload {
    /// The name under which the picture is stored.
    pub name: String,
    /// The kind of the picture.
    pub mime_type: String,
}

/// A sign-up that passed every check.
pub struct Registration {
    pub display_name: String,
    pub password: String,
    pub gender: Gender,
    /// The picture that came with the form, where one did.
    pub picture: Option<UploadedPicture>,
}

/// The picture of a sign-up that passed every check.
pub struct UploadedPicture {
    pub mime_type: String,
    pub file_name: String,
}

impl RegistrationFault {
    /// The status with which the fault is told.
    pub open spec fn status(self) -> Status {
        match self {
            RegistrationFault::FormUnreadable => Status::InternalServerError,
            RegistrationFault::DisplayNameRepeated => Status::BadRequest,
            RegistrationFault::ImageCorrupted => Status::InternalServerError,
            RegistrationFault::ImageUnprocessed => Status::InternalServerError,
            _ => Status::NotAcceptable,
        }
    }

    /// The reason with which the fault is told.
    pub open spec fn reason(self) -> ErrorReason {
        match self {
            RegistrationFault::FormUnreadable => ErrorReason::SomethingWentWrong,
            RegistrationFault::DisplayNameMissing => ErrorReason::IncompleteData,
            RegistrationFault::PasswordMissing => ErrorReason::IncompleteData,
            RegistrationFault::PasswordWeak => ErrorReason::WeakPassword,
            RegistrationFault::ImageKindRefused => ErrorReason::InvalidMimeType,
            RegistrationFault::ImageCorrupted => ErrorReason::SomethingWentWrong,
            RegistrationFault::ImageUnprocessed => ErrorReason::SomethingWentWrong,
            _ => ErrorReason::Invalid,
        }
    }

    /// The message with which the fault is told.
    pub open spec fn message(self) -> Seq<char> {
        match self {
            RegistrationFault::FormUnreadable => "Failed to process information"@,
            RegistrationFault::DisplayNameMissing => "Display name is required"@,
            RegistrationFault::DisplayNameRepeated =>
                "Only one instance of display name is allowed."@,
            RegistrationFault::DisplayNameTaken => "Display name is already taken."@,
            RegistrationFault::PasswordMissing => "Password is required"@,
            RegistrationFault::PasswordRepeated => "Only one instance of password is allowed."@,
            RegistrationFault::PasswordWeak => "Password must be at least 8 characters long."@,
            RegistrationFault::GenderMissing => "Gender is required"@,
            RegistrationFault::GenderRepeated => "Only one instance of gender is allowed"@,
            RegistrationFault::ImageRepeated =>
                "Only one instance of display image is allowed."@,
            RegistrationFault::ImageKindRefused =>
                "Only Jpeg, Webp, Png, and Avif images are allowed."@,
            RegistrationFault::FileNameMissing => "File name is required."@,
            RegistrationFault::ImageCorrupted =>
                "Failed to process image. File might be corrupted."@,
            RegistrationFault::ImageUnprocessed => "Failed to process image."@,
        }
    }

    /// How the fault is told.
    pub fn rejection(self) -> (told: Rejection)
        ensures
            is_rejection(told, self.status(), self.reason(), self.message()),
    {
        match self {
            RegistrationFault::FormUnreadable => reject(
                Status::InternalServerError,
                ErrorReason::SomethingWentWrong,
                "Failed to process information",
            ),
            RegistrationFault::DisplayNameMissing => reject(
                Status::NotAcceptable,
                ErrorReason::IncompleteData,
                "Display name is required",
            ),
            RegistrationFault::DisplayNameRepeated => reject(
                Status::BadRequest,
                ErrorReason::Invalid,
                "Only one instance of display name is allowed.",
            ),
            RegistrationFault::DisplayNameTaken => reject(
                Status::NotAcceptable,
                ErrorReason::Invalid,
                "Display name is already taken.",
            ),
            RegistrationFault::PasswordMissing => reject(
                Status::NotAcceptable,
                ErrorReason::IncompleteData,
                "Password is required",
            ),
            RegistrationFault::PasswordRepeated => reject(
                Status::NotAcceptable,
                ErrorReason::Invalid,
                "Only one instance of password is allowed.",
            ),
            RegistrationFault::PasswordWeak => reject(
                Status::NotAcceptable,
                ErrorReason::WeakPassword,
                "Password must be at least 8 characters long.",
            ),
            RegistrationFault::GenderMissing => reject(
                Status::NotAcceptable,
                ErrorReason::Invalid,
                "Gender is required",
            ),
            RegistrationFault::GenderRepeated => reject(
                Status::NotAcceptable,
                ErrorReason::Invalid,
                "Only one instance of gender is allowed",
            ),
            RegistrationFault::ImageRepeated => reject(
                Status::NotAcceptable,
                ErrorReason::Invalid,
                "Only one instance of display image is allowed.",
            ),
            RegistrationFault::ImageKindRefused => reject(
                Status::NotAcceptable,
                ErrorReason::InvalidMimeType,
                "Only Jpeg, Webp, Png, and Avif images are allowed.",
            ),
            RegistrationFault::FileNameMissing => reject(
                Status::NotAcceptable,
                ErrorReason::Invalid,
                "File name is required.",
            ),
            RegistrationFault::ImageCorrupted => reject(
                Status::InternalServerError,
                ErrorReason::SomethingWentWrong,
                "Failed to process image. File might be corrupted.",
            ),
            RegistrationFault::ImageUnprocessed => reject(
                Status::InternalServerError,
                ErrorReason::SomethingWentWrong,
                "Failed to process image.",
            ),
        }
    }
}

/// The kinds of picture that are taken.
pub open spec fn is_picture_kind(mime_type: Seq<char>) -> bool {
    mime_type == "image/jpg"@ || mime_type == "image/jpeg"@ || mime_type == "image/png"@
        || mime_type == "image/webp"@ || mime_type == "image/avif"@
}

/// Whether a kind of file is a kind of picture that is taken.
pub fn accepts_kind(mime_type: &str) -> (taken: bool)
    ensures
        taken == is_picture_kind(mime_type@),
{
    str_eq(mime_type, "image/jpg") || str_eq(mime_type, "image/jpeg") || str_eq(
        mime_type,
        "image/png",
    ) || str_eq(mime_type, "image/webp") || str_eq(mime_type, "image/avif")
}

/// What is wrong with the display name of a form, if anything is: it is
/// missing, or it was not sent exactly once.
pub open spec fn name_fault(form: RegistrationForm) -> Option<RegistrationFault> {
    match form.display_name {
        None => Some(RegistrationFault::DisplayNameMissing),
        Some(names) => if names@.len() != 1 {
            Some(RegistrationFault::DisplayNameRepeated)
        } else {
            None
        },
    }
}

/// What is wrong with the picture of a form, if anything is. A form
/// without a picture is in order.
pub open spec fn picture_fault(form: RegistrationForm) -> Option<RegistrationFault> {
    match form.display_image {
        None => None,
        Some(files) => if files@.len() != 1 {
            Some(RegistrationFault::ImageRepeated)
        } else {
            match files@[0].content_type {
                None => Some(RegistrationFault::ImageKindRefused),
                Some(kind) => if !is_picture_kind(kind@) {
                    Some(RegistrationFault::ImageKindRefused)
                } else if files@[0].file_name is None {
                    Some(RegistrationFault::FileNameMissing)
                } else {
                    None
                },
            }
        },
    }
}

/// What is wrong with the rest of a form whose display name is in order
/// and free, if anything is: the first of the faults of the password, the
/// gender and the picture, in this order. A password is weak where it takes
/// fewer than eight bytes.
pub open spec fn details_fault(form: RegistrationForm) -> Option<RegistrationFault> {
    match form.password {
        None => Some(RegistrationFault::PasswordMissing),
        Some(passwords) => if passwords@.len() != 1 {
            Some(RegistrationFault::PasswordRepeated)
        } else if encode_utf8(passwords@[0]@).len() < 8 {
            Some(RegistrationFault::PasswordWeak)
        } else {
            match form.gender {
                None => Some(RegistrationFault::GenderMissing),
                Some(genders) => if genders@.len() != 1 {
                    Some(RegistrationFault::GenderRepeated)
                } else {
                    picture_fault(form)
                },
            }
        },
    }
}

/// The sign-up that a form without faults asks for.
pub open spec fn asks_for(form: RegistrationForm, made: Registration) -> bool {
    &&& form.display_name matches Some(names) && made.display_name == names@[0]
    &&& form.password matches Some(passwords) && made.password == passwords@[0]
    &&& form.gender matches Some(genders) && made.gender == Gender::of_name(
        lowercase_of(genders@[0]@),
    )
    &&& match form.display_image {
        None => made.picture is None,
        Some(files) => made.picture matches Some(picture) && Some(picture.mime_type)
            == files@[0].content_type && Some(picture.file_name) == files@[0].file_name,
    }
}

/// The first check: the display name. Where it is in order, it is to be
/// looked up, and the outcome handed to `on_name_checked`.
pub fn register_user(form: &RegistrationForm) -> (checked: Result<String, RegistrationFault>)
    ensures
        match name_fault(*form) {
            Some(fault) => checked == Err::<String, RegistrationFault>(fault),
            None => checked matches Ok(name) && form.display_name matches Some(names) && name
                == names@[0],
        },
{
    match &form.display_name {
        Some(names) => {
            if names.len() != 1 {
                return Err(RegistrationFault::DisplayNameRepeated);
            }
            Ok(names[0].clone())
        },
        None => Err(RegistrationFault::DisplayNameMissing),
    }
}

fn check_picture(form: &RegistrationForm) -> (checked: Result<
    Option<UploadedPicture>,
    RegistrationFault,
>)
    ensures
        match picture_fault(*form) {
            Some(fault) => checked == Err::<Option<UploadedPicture>, RegistrationFault>(fault),
            None => checked matches Ok(found) && match form.display_image {
                None => found is None,
                Some(files) => found matches Some(picture) && Some(picture.mime_type)
                    == files@[0].content_type && Some(picture.file_name) == files@[0].file_name,
            },
        },
{
    match &form.display_image {
        None => Ok(None),
        Some(files) => {
            if files.len() != 1 {
                return Err(RegistrationFault::ImageRepeated);
            }
            let file = &files[0];
            let mime_type = match &file.content_type {
                Some(kind) => kind,
                None => {
                    return Err(RegistrationFault::ImageKindRefused);
                },
            };
            if !accepts_kind(mime_type.as_str()) {
                return Err(RegistrationFault::ImageKindRefused);
            }
            match &file.file_name {
                Some(file_name) => Ok(
                    Some(
                        UploadedPicture {
                            mime_type: mime_type.clone(),
                            file_name: file_name.clone(),
                        },
                    ),
                ),
                None => Err(RegistrationFault::FileNameMissing),
            }
        },
    }
}

/// The checks that follow the lookup of the display name. A name that is
/// taken ends the sign-up; for a free one the password, the gender and the
/// picture are checked in this order, and the first fault ends the
/// sign-up. A form whose display name is not in order is refused as
/// `register_user` refuses it.
pub fn on_name_checked(form: &RegistrationForm, taken: bool) -> (checked: Result<
    Registration,
    RegistrationFault,
>)
    ensures
        match name_fault(*form) {
            Some(fault) => checked == Err::<Registration, RegistrationFault>(fault),
            None => if taken {
                checked == Err::<Registration, RegistrationFault>(
                    RegistrationFault::DisplayNameTaken,
                )
            } else {
                match details_fault(*form) {
                    Some(fault) => checked == Err::<Registration, RegistrationFault>(fault),
                    None => checked matches Ok(made) && asks_for(*form, made),
                }
            },
        },
{
    let display_name = match register_user(form) {
        Ok(name) => name,
        Err(fault) => {
            return Err(fault);
        },
    };
    if taken {
        return Err(RegistrationFault::DisplayNameTaken);
    }
    let password = match &form.password {
        Some(passwords) => {
            if passwords.len() != 1 {
                return Err(RegistrationFault::PasswordRepeated);
            }
            passwords[0].clone()
        },
        None => {
            return Err(RegistrationFault::PasswordMissing);
        },
    };
    if password.as_str().as_bytes().len() < 8 {
        return Err(RegistrationFault::PasswordWeak);
    }
    let gender = match &form.gender {
        Some(genders) => {
            if genders.len() != 1 {
                return Err(RegistrationFault::GenderRepeated);
            }
            Gender::from_string(genders[0].clone())
        },
        None => {
            return Err(RegistrationFault::GenderMissing);
        },
    };
    let picture = match check_picture(form) {
        Ok(found) => found,
        Err(fault) => {
            return Err(fault);
        },
    };
    Ok(Registration { display_name, password, gender, picture })
}

/// The name under which a picture is stored: a drawn name and the file's
/// name, both written as `{:?}` writes them.
pub open spec fn stored_name(drawn: Seq<char>, file_name: Seq<char>) -> Seq<char> {
    debug_form(drawn) + "-chat_server-"@ + debug_form(file_name)
}

/// Joins the two parts of the name of a stored picture, as they were
/// written out.
pub fn join_stored_name(drawn: &str, file_name: &str) -> (name: String)
    ensures
        name@ == drawn@ + "-chat_server-"@ + file_name@,
{
    let mut name = String::from_str(drawn);
    name.append("-chat_server-");
    name.append(file_name);
    assert(name@ =~= drawn@ + "-chat_server-"@ + file_name@);
    name
}

/// The name under which a picture is stored, for a name that was drawn.
pub fn name_upload(drawn: &str, file_name: &str) -> (name: String)
    ensures
        name@ == stored_name(drawn@, file_name@),
{
    let written_drawn = debug_text(drawn);
    let written_file = debug_text(file_name);
    join_stored_name(written_drawn.as_str(), written_file.as_str())
}

/// What follows reading the picture's file: a file that was read is to be
/// stored under a name drawn for it; one that was not ends the sign-up.
pub fn on_image_read(picture: &UploadedPicture, read: ImageRead) -> (planned: Result<
    Upload,
    RegistrationFault,
>)
    ensures
        match read {
            ImageRead::Complete => planned matches Ok(upload) && upload.mime_type
                == picture.mime_type && exists|drawn: Seq<char>|
                drawn.len() == RANDOM_NAME_LENGTH && upload.name@ == stored_name(
                    drawn,
                    picture.file_name@,
                ),
            ImageRead::Corrupted => planned == Err::<Upload, RegistrationFault>(
                RegistrationFault::ImageCorrupted,
            ),
            ImageRead::Unopened => planned == Err::<Upload, RegistrationFault>(
                RegistrationFault::ImageUnprocessed,
            ),
        },
{
    match read {
        ImageRead::Complete => {
            let drawn = random_name(RANDOM_NAME_LENGTH);
            Ok(
                Upload {
                    name: name_upload(drawn.as_str(), picture.file_name.as_str()),
                    mime_type: picture.mime_type.clone(),
                },
            )
        },
        ImageRead::Corrupted => Err(RegistrationFault::ImageCorrupted),
        ImageRead::Unopened => Err(RegistrationFault::ImageUnprocessed),
    }
}

/// The address of a stored picture.
pub open spec fn picture_url(name: Seq<char>) -> Seq<char> {
    PICTURE_URL_PREFIX@ + name
}

/// What follows storing the picture: the address under which it is shown,
/// which becomes the user's display image; a picture that could not be
/// stored ends the sign-up.
pub fn on_uploaded(upload: &Upload, stored: bool) -> (address: Result<String, RegistrationFault>)
    ensures
        stored ==> (address matches Ok(url) && url@ == picture_url(upload.name@)),
        !stored ==> address == Err::<String, RegistrationFault>(RegistrationFault::ImageUnprocessed),
{
    if !stored {
        return Err(RegistrationFault::ImageUnprocessed);
    }
    let mut url = String::from_str(PICTURE_URL_PREFIX);
    url.append(upload.name.as_str());
    Ok(url)
}

} // verus!
