//! The user record, its parts, and their textual forms.

use vstd::prelude::*;
use crate::directory::{identities, Identity, Participant};
use crate::text::str_eq;
use crate::timestamp::Timestamp;
use crate::utils::{avatar, get_placeholder_display_image};

verus! {

/// The lowercase form that `str::to_lowercase` gives for a text.
pub uninterp spec fn lowercase_of(text: Seq<char>) -> Seq<char>;

/// Calls `str::to_lowercase`. Trusted: the result is the text that
/// `lowercase_of` names for the argument.
#[verifier::external_body]
fn to_lowercase(text: &str) -> (lowered: String)
    ensures
        lowered@ == lowercase_of(text@),
{
    text.to_lowercase()
}

/// Whether a user may use the application.
#[derive(Clone, Copy, Debug, PartialEq, Eq, Structural)]
pub enum UserStatus {
    Active,
    Suspended,
    Deleted,
}

/// What a user may do.
#[derive(Clone, Copy, Debug, PartialEq, Eq, Structural)]
pub enum UserRole {
    Admin,
    User,
}

/// The gender of a user, by which the placeholder picture is chosen.
#[derive(Clone, Copy, Debug, PartialEq, Eq, Structural)]
pub enum Gender {
    Male,
    Female,
    Other,
}

/// A user as the directory of users holds it.
pub struct User {
    pub id: i32,
    pub display_name: String,
    pub display_image: Option<String>,
    pub biography: Option<String>,
    pub creation_date: Timestamp,
    pub last_login_date: Timestamp,
    pub status: UserStatus,
    pub gender: Gender,
    pub role: UserRole,
    pub profile_pictures: Vec<String>,
}

/// A user as a search shows it.
pub struct PartialUser {
    pub id: i32,
    pub display_name: String,
    pub display_image: Option<String>,
}

/// What a user signs in with.
pub struct UserCredentials {
    pub id: i32,
    pub user_id: i32,
    pub email: Option<String>,
    /// Hashed password
    pub password_hash: String,
}

impl Gender {
    /// The lowercase name of the gender.
    pub open spec fn name(self) -> Seq<char> {
        match self {
            Gender::Male => "male"@,
            Gender::Female => "female"@,
            Gender::Other => "other"@,
        }
    }

    /// The gender that a lowercase name stands for; `Other` for any text
    /// that names none.
    pub open spec fn of_name(name: Seq<char>) -> Gender {
        if name == "male"@ {
            Gender::Male
        } else if name == "female"@ {
            Gender::Female
        } else {
            Gender::Other
        }
    }

    /// The lowercase name of the gender.
    pub fn as_str(&self) -> (name: &'static str)
        ensures
            name@ == self.name(),
    {
        match self {
            Gender::Male => "male",
            Gender::Female => "female",
            Gender::Other => "other",
        }
    }

    /// Reads a gender from its lowercase name.
    pub fn from_lowercase(name: &str) -> (gender: Gender)
        ensures
            gender == Gender::of_name(name@),
    {
        if str_eq(name, "male") {
            Gender::Male
        } else if str_eq(name, "female") {
            Gender::Female
        } else {
            Gender::Other
        }
    }

    /// Reads a gender from its name, whatever the case of its letters.
    pub fn from_string(val: String) -> (gender: Gender)
        ensures
            gender == Gender::of_name(lowercase_of(val@)),
    {
        let lowered = to_lowercase(val.as_str());
        Gender::from_lowercase(lowered.as_str())
    }

    /// The name of the gender as an owned text.
    pub fn to_text(self) -> (name: String)
        ensures
            name@ == self.name(),
    {
        String::from_str(self.as_str())
    }
}

impl UserStatus {
    /// The lowercase name of the status.
    pub open spec fn name(self) -> Seq<char> {
        match self {
            UserStatus::Active => "active"@,
            UserStatus::Suspended => "suspended"@,
            UserStatus::Deleted => "deleted"@,
        }
    }

    /// The status that a lowercase name stands for; `Active` for any text
    /// that names none.
    pub open spec fn of_name(name: Seq<char>) -> UserStatus {
        if name == "suspended"@ {
            UserStatus::Suspended
        } else if name == "deleted"@ {
            UserStatus::Deleted
        } else {
            UserStatus::Active
        }
    }

    /// The lowercase name of the status.
    pub fn as_str(&self) -> (name: &'static str)
        ensures
            name@ == self.name(),
    {
        match self {
            UserStatus::Active => "active",
            UserStatus::Suspended => "suspended",
            UserStatus::Deleted => "deleted",
        }
    }

    /// Reads a status from its lowercase name.
    pub fn from_lowercase(name: &str) -> (status: UserStatus)
        ensures
            status == UserStatus::of_name(name@),
    {
        if str_eq(name, "suspended") {
            UserStatus::Suspended
        } else if str_eq(name, "deleted") {
            UserStatus::Deleted
        } else {
            UserStatus::Active
        }
    }

    /// Reads a status from its name, whatever the case of its letters.
    pub fn from_string(val: String) -> (status: UserStatus)
        ensures
            status == UserStatus::of_name(lowercase_of(val@)),
    {
        let lowered = to_lowercase(val.as_str());
        UserStatus::from_lowercase(lowered.as_str())
    }

    /// The name of the status as an owned text.
    pub fn to_text(self) -> (name: String)
        ensures
            name@ == self.name(),
    {
        String::from_str(self.as_str())
    }
}

impl UserRole {
    /// The lowercase name of the role.
    pub open spec fn name(self) -> Seq<char> {
        match self {
            UserRole::Admin => "admin"@,
            UserRole::User => "user"@,
        }
    }

    /// The role that a lowercase name stands for; `User` for any text that
    /// names none.
    pub open spec fn of_name(name: Seq<char>) -> UserRole {
        if name == "admin"@ {
            UserRole::Admin
        } else {
            UserRole::User
        }
    }

    /// The lowercase name of the role.
    pub fn as_str(&self) -> (name: &'static str)
        ensures
            name@ == self.name(),
    {
        match self {
            UserRole::Admin => "admin",
            UserRole::User => "user",
        }
    }

    /// Reads a role from its lowercase name.
    pub fn from_lowercase(name: &str) -> (role: UserRole)
        ensures
            role == UserRole::of_name(name@),
    {
        if str_eq(name, "admin") {
            UserRole::Admin
        } else {
            UserRole::User
        }
    }

    /// Reads a role from its name, whatever the case of its letters.
    pub fn from_string(val: String) -> (role: UserRole)
        ensures
            role == UserRole::of_name(lowercase_of(val@)),
    {
        let lowered = to_lowercase(val.as_str());
        UserRole::from_lowercase(lowered.as_str())
    }

    /// The name of the role as an owned text.
    pub fn to_text(self) -> (name: String)
        ensures
            name@ == self.name(),
    {
        String::from_str(self.as_str())
    }
}

/// What a found user says.
pub ghost struct PartialUserRecord {
    pub id: int,
    pub display_name: Seq<char>,
    pub display_image: Option<Seq<char>>,
}

impl View for PartialUser {
    type V = PartialUserRecord;

    open spec fn view(&self) -> PartialUserRecord {
        PartialUserRecord {
            id: self.id as int,
            display_name: self.display_name@,
            display_image: match self.display_image {
                Some(image) => Some(image@),
                None => None,
            },
        }
    }
}

/// A participant as a search shows it: with the picture shown for it.
pub open spec fn found_user(entry: Identity) -> PartialUserRecord {
    PartialUserRecord {
        id: entry.id,
        display_name: entry.display_name,
        display_image: Some(avatar(entry.display_image, entry.gender)),
    }
}

/// What a run of found users says.
pub open spec fn partial_users(users: Seq<PartialUser>) -> Seq<PartialUserRecord> {
    Seq::new(users.len(), |i: int| users[i]@)
}

impl User {
    /// The users that a search by name shows, made of the entries that
    /// matched, in their order: each with the picture shown for it.
    pub fn search_for_users_with_display_name(matched: &Vec<Participant>) -> (users: Vec<
        PartialUser,
    >)
        ensures
            partial_users(users@) == Seq::new(
                matched@.len(),
                |i: int| found_user(identities(matched@)[i]),
            ),
    {
        let mut users_vec: Vec<PartialUser> = Vec::new();
        let mut i: usize = 0;
        while i < matched.len()
            invariant
                i <= matched.len(),
                users_vec.len() == i,
                forall|k: int|
                    0 <= k < i ==> (#[trigger] users_vec@[k])@ == found_user(
                        identities(matched@)[k],
                    ),
            decreases matched.len() - i,
        {
            let user = &matched[i];
            let display_image = Some(
                get_placeholder_display_image(user.display_image.as_ref(), &user.gender),
            );
            users_vec.push(
                PartialUser { id: user.id, display_name: user.display_name.clone(), display_image },
            );
            i += 1;
        }
        proof {
            assert(partial_users(users_vec@) =~= Seq::new(
                matched@.len(),
                |i: int| found_user(identities(matched@)[i]),
            ));
        }
        users_vec
    }

    /// A user made of its parts.
    pub fn new(
        id: i32,
        display_name: String,
        display_image: Option<String>,
        biography: Option<String>,
        creation_date: Timestamp,
        last_login_date: Timestamp,
        status: UserStatus,
        gender: Gender,
        role: UserRole,
        profile_pictures: Vec<String>,
    ) -> (user: User)
        ensures
            user.id == id,
            user.display_name == display_name,
            user.display_image == display_image,
            user.biography == biography,
            user.creation_date == creation_date,
            user.last_login_date == last_login_date,
            user.status == status,
            user.gender == gender,
            user.role == role,
            user.profile_pictures == profile_pictures,
    {
        User {
            id,
            display_name,
            display_image,
            biography,
            creation_date,
            last_login_date,
            gender,
            status,
            role,
            profile_pictures,
        }
    }
}

impl From<String> for Gender {
    fn from(val: String) -> (gender: Gender) {
        Gender::from_string(val)
    }
}

impl vstd::std_specs::convert::FromSpecImpl<String> for Gender {
    open spec fn obeys_from_spec() -> bool {
        true
    }

    open spec fn from_spec(val: String) -> Gender {
        Gender::of_name(lowercase_of(val@))
    }
}

impl From<String> for UserStatus {
    fn from(val: String) -> (status: UserStatus) {
        UserStatus::from_string(val)
    }
}

impl vstd::std_specs::convert::FromSpecImpl<String> for UserStatus {
    open spec fn obeys_from_spec() -> bool {
        true
    }

    open spec fn from_spec(val: String) -> UserStatus {
        UserStatus::of_name(lowercase_of(val@))
    }
}

impl From<String> for UserRole {
    fn from(val: String) -> (role: UserRole) {
        UserRole::from_string(val)
    }
}

impl vstd::std_specs::convert::FromSpecImpl<String> for UserRole {
    open spec fn obeys_from_spec() -> bool {
        true
    }

    open spec fn from_spec(val: String) -> UserRole {
        UserRole::of_name(lowercase_of(val@))
    }
}

/// Every gender is read back from its own name.
pub proof fn lemma_gender_round_trip(gender: Gender)
    ensures
        Gender::of_name(gender.name()) == gender,
{
    reveal_strlit("male");
    reveal_strlit("female");
    reveal_strlit("other");
    assert("male"@.len() == 4);
    assert("female"@.len() == 6);
    assert("other"@.len() == 5);
}

/// Every status is read back from its own name.
pub proof fn lemma_status_round_trip(status: UserStatus)
    ensures
        UserStatus::of_name(status.name()) == status,
{
    reveal_strlit("active");
    reveal_strlit("suspended");
    reveal_strlit("deleted");
    assert("active"@.len() == 6);
    assert("suspended"@.len() == 9);
    assert("deleted"@.len() == 7);
}

/// Every role is read back from its own name.
pub proof fn lemma_role_round_trip(role: UserRole)
    ensures
        UserRole::of_name(role.name()) == role,
{
    reveal_strlit("admin");
    reveal_strlit("user");
    assert("admin"@.len() == 5);
    assert("user"@.len() == 4);
}

} // verus!
