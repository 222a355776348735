//! The search for users by name.

use vstd::prelude::*;
use crate::html::{fill, filled, texts};
use crate::text::{identifier_text, signed_decimal};
use crate::user::user_struct::{partial_users, PartialUser, PartialUserRecord};

verus! {

/// What the search field sends.
pub struct SearchData {
    pub search: String,
}

/// What the search answers.
pub enum SearchResult {
    /// Nothing was asked for: nothing is shown.
    Nothing,
    /// Nobody matches, or the lookup failed.
    NoUsersFound,
    /// These users match, the best match first.
    Users(Vec<PartialUser>),
}

/// Whether users are to be looked up for what the search field sent: they
/// are for every search text but the empty one.
pub fn wants_lookup(data: &SearchData) -> (wanted: bool)
    ensures
        wanted == (data.search@.len() != 0),
{
    !data.search.as_str().is_empty()
}

/// What the search answers to a search text and the outcome of the lookup
/// made for it: nothing for an empty text whatever was found; for any other
/// the users found, and the news that there are none where the lookup
/// failed or found nobody.
pub fn search(data: &SearchData, found: Option<Vec<PartialUser>>) -> (answer: SearchResult)
    ensures
        data.search@.len() == 0 ==> answer is Nothing,
        data.search@.len() != 0 ==> match found {
            Some(users) => if users@.len() == 0 {
                answer is NoUsersFound
            } else {
                answer matches SearchResult::Users(listed) && listed == users
            },
            None => answer is NoUsersFound,
        },
{
    if data.search.as_str().is_empty() {
        return SearchResult::Nothing;
    }
    match found {
        Some(users) => {
            if users.len() == 0 {
                return SearchResult::NoUsersFound;
            }
            SearchResult::Users(users)
        },
        None => SearchResult::NoUsersFound,
    }
}

/// A user in the list of those found. The gaps take the name, the
/// identifier, the picture, and the name twice again.
pub const FOUND_USER: [&'static str; 6] = [
    "
                    <li>
                        <button
                            type=\"button\"
                            title=\"Chat with ",
    "\"
                            hx-get=\"/chats?receiver_id=",
    "&is_htmx=true\"
                            hx-trigger=\"click\"
                            hx-target=\"#chat_container\"
                        >
                            <img
                                src=\"",
    "\"
                                alt=\"",
    "'s Profile Picture\"
                                width=\"32\"
                                height=\"32\"
                                loading=\"lazy\"
                                class=\"profile\"
                            />
                            ",
    "
                        </button>
                    </li>
                    ",
];

/// What the list shows where nobody was found.
pub const NO_USERS_FOUND: &'static str = "<ul><li><p>No users found</p></li></ul>";

/// The picture shown for a found user that comes without one.
pub const DEFAULT_PICTURE: &'static str = "https://via.placeholder.com/40";

/// The picture shown for a found user.
pub open spec fn picture_of(user: PartialUserRecord) -> Seq<char> {
    match user.display_image {
        Some(image) => image,
        None => DEFAULT_PICTURE@,
    }
}

/// A found user as the page takes it.
pub open spec fn user_html(user: PartialUserRecord) -> Seq<char> {
    filled(
        FOUND_USER@,
        seq![
            user.display_name,
            signed_decimal(user.id),
            picture_of(user),
            user.display_name,
            user.display_name,
        ],
    )
}

/// The found users as the page takes them, one after the other.
pub open spec fn users_html(users: Seq<PartialUserRecord>) -> Seq<char>
    decreases users.len(),
{
    if users.len() == 0 {
        Seq::empty()
    } else {
        users_html(users.drop_last()) + user_html(users.last())
    }
}

/// A found user as the page takes it.
pub fn user_to_html(user: &PartialUser) -> (html: String)
    ensures
        html@ == user_html(user@),
{
    let id = identifier_text(user.id);
    let picture = match &user.display_image {
        Some(image) => image.as_str(),
        None => DEFAULT_PICTURE,
    };
    let values = [
        user.display_name.as_str(),
        id.as_str(),
        picture,
        user.display_name.as_str(),
        user.display_name.as_str(),
    ];
    proof {
        assert(texts(values@) =~= seq![
            user.display_name@,
            signed_decimal(user.id as int),
            picture_of(user@),
            user.display_name@,
            user.display_name@,
        ]);
    }
    fill(&FOUND_USER, &values)
}

impl SearchResult {
    /// The answer of the search as the page takes it: nothing, the news
    /// that nobody was found, or the list of those who were.
    pub fn to_html(&self) -> (html: String)
        ensures
            html@ == match *self {
                SearchResult::Nothing => Seq::<char>::empty(),
                SearchResult::NoUsersFound => NO_USERS_FOUND@,
                SearchResult::Users(users) => "<ul>"@ + users_html(partial_users(users@))
                    + "</ul>"@,
            },
    {
        match self {
            SearchResult::Nothing => String::new(),
            SearchResult::NoUsersFound => String::from_str(NO_USERS_FOUND),
            SearchResult::Users(users) => {
                let ghost shown = partial_users(users@);
                let mut html = String::from_str("<ul>");
                let mut i: usize = 0;
                proof {
                    assert(shown.take(0) =~= Seq::<PartialUserRecord>::empty());
                }
                while i < users.len()
                    invariant
                        i <= users.len(),
                        shown == partial_users(users@),
                        html@ == "<ul>"@ + users_html(shown.take(i as int)),
                    decreases users.len() - i,
                {
                    let user = user_to_html(&users[i]);
                    proof {
                        assert(shown.take(i + 1).drop_last() =~= shown.take(i as int));
                        assert(shown.take(i + 1).last() == users@[i as int]@);
                    }
                    html.append(user.as_str());
                    proof {
                        assert(html@ =~= "<ul>"@ + users_html(shown.take(i + 1)));
                    }
                    i += 1;
                }
                proof {
                    assert(shown.take(i as int) =~= shown);
                }
                html.append("</ul>");
                html
            },
        }
    }
}

/// What a visitor who is not signed in is told when searching.
pub fn unauthorized_search() -> (message: String)
    ensures
        message@ == "You are not authorized to search without being logged in."@,
{
    String::from_str("You are not authorized to search without being logged in.")
}

} // verus!
