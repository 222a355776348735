//! The identity resolver: who stands behind a participant's identifier.

use vstd::prelude::*;
use crate::errors::error::ChatError;
use crate::text::optional_view;
use crate::user::user_struct::{Gender, User};

verus! {

/// What is shown of a participant.
pub struct Participant {
    pub id: i32,
    pub display_name: String,
    pub display_image: Option<String>,
    pub gender: Gender,
}

/// What a participant's entry says.
pub ghost struct Identity {
    pub id: int,
    pub display_name: Seq<char>,
    pub display_image: Option<Seq<char>>,
    pub gender: Gender,
}

impl View for Participant {
    type V = Identity;

    open spec fn view(&self) -> Identity {
        Identity {
            id: self.id as int,
            display_name: self.display_name@,
            display_image: optional_view(self.display_image),
            gender: self.gender,
        }
    }
}

/// What a run of participants says.
pub open spec fn identities(entries: Seq<Participant>) -> Seq<Identity> {
    Seq::new(entries.len(), |i: int| entries[i]@)
}

/// No identifier stands for two entries.
pub open spec fn distinct_ids(entries: Seq<Identity>) -> bool {
    forall|i: int, j: int|
        0 <= i < j < entries.len() ==> (#[trigger] entries[i]).id != (#[trigger] entries[j]).id
}

/// The directory has an entry for `id`.
pub open spec fn knows(entries: Seq<Identity>, id: int) -> bool {
    exists|i: int| 0 <= i < entries.len() && (#[trigger] entries[i]).id == id
}

/// The entry of `id`, where the directory has one.
pub open spec fn identity_of(entries: Seq<Identity>, id: int) -> Identity
    recommends
        knows(entries, id),
{
    entries[choose|i: int| 0 <= i < entries.len() && (#[trigger] entries[i]).id == id]
}

/// A copy of an optional text.
pub fn duplicate_optional(text: &Option<String>) -> (copy: Option<String>)
    ensures
        copy == *text,
{
    match text {
        Some(t) => Some(t.clone()),
        None => None,
    }
}

impl Participant {
    /// A copy of the entry.
    pub fn duplicate(&self) -> (copy: Participant)
        ensures
            copy == *self,
    {
        Participant {
            id: self.id,
            display_name: self.display_name.clone(),
            display_image: duplicate_optional(&self.display_image),
            gender: self.gender,
        }
    }

    /// What is shown of a user.
    pub fn of_user(user: &User) -> (entry: Participant)
        ensures
            entry.id == user.id,
            entry.display_name == user.display_name,
            entry.display_image == user.display_image,
            entry.gender == user.gender,
    {
        Participant {
            id: user.id,
            display_name: user.display_name.clone(),
            display_image: duplicate_optional(&user.display_image),
            gender: user.gender,
        }
    }
}

/// The participants that are known, each under its own identifier.
pub struct UserDirectory {
    entries: Vec<Participant>,
}

impl View for UserDirectory {
    type V = Seq<Identity>;

    closed spec fn view(&self) -> Seq<Identity> {
        identities(self.entries@)
    }
}

impl UserDirectory {
    #[verifier::type_invariant]
    spec fn well_formed(self) -> bool {
        distinct_ids(identities(self.entries@))
    }

    /// A directory without entries.
    pub fn new() -> (directory: UserDirectory)
        ensures
            directory@ == Seq::<Identity>::empty(),
    {
        let directory = UserDirectory { entries: Vec::new() };
        assert(directory@ =~= Seq::<Identity>::empty());
        directory
    }

    fn position_of(&self, id: i32) -> (found: Option<usize>)
        ensures
            distinct_ids(self@),
            found is Some <==> knows(self@, id as int),
            found matches Some(i) ==> i < self@.len() && self@[i as int] == identity_of(
                self@,
                id as int,
            ) && self@[i as int].id == id && self@[i as int] == self.entries@[i as int]@,
    {
        proof {
            use_type_invariant(self);
        }
        let ghost all = identities(self.entries@);
        let mut i: usize = 0;
        while i < self.entries.len()
            invariant
                i <= self.entries.len(),
                all == identities(self.entries@),
                distinct_ids(all),
                forall|k: int| 0 <= k < i ==> (#[trigger] all[k]).id != id,
            decreases self.entries.len() - i,
        {
            if self.entries[i].id == id {
                proof {
                    assert(all[i as int].id == id);
                    let k = choose|k: int| 0 <= k < all.len() && (#[trigger] all[k]).id == id as int;
                    if k < i {
                        assert(all[k].id != all[i as int].id);
                    } else if i < k {
                        assert(all[i as int].id != all[k].id);
                    }
                }
                return Some(i);
            }
            i += 1;
        }
        None
    }

    /// Whether the directory has an entry for `id`.
    pub fn contains(&self, id: i32) -> (known: bool)
        ensures
            known == knows(self@, id as int),
    {
        self.position_of(id).is_some()
    }

    /// Adds an entry. An entry whose identifier the directory already knows
    /// is refused as invalid input and leaves the directory as it was.
    pub fn insert(&mut self, entry: Participant) -> (added: Result<(), ChatError>)
        ensures
            distinct_ids(old(self)@),
            distinct_ids(final(self)@),
            added is Err <==> knows(old(self)@, entry.id as int),
            added matches Err(e) ==> e == ChatError::InvalidInput && final(self)@ == old(self)@,
            added is Ok ==> final(self)@ == old(self)@.push(entry@),
    {
        if self.position_of(entry.id).is_some() {
            return Err(ChatError::InvalidInput);
        }
        let ghost before = identities(self.entries@);
        let mut taken = UserDirectory { entries: Vec::new() };
        std::mem::swap(self, &mut taken);
        let mut entries = taken.entries;
        entries.push(entry);
        proof {
            let after = identities(entries@);
            assert(after =~= before.push(entry@));
            assert forall|i: int, j: int| 0 <= i < j < after.len() implies (#[trigger] after[i]).id != (
            #[trigger] after[j]).id by {
                if j == after.len() - 1 {
                    assert(before[i].id != entry.id);
                } else {
                    assert(before[i].id != before[j].id);
                }
            }
        }
        *self = UserDirectory { entries };
        Ok(())
    }

    /// The entry of `id`; not found where the directory has none.
    pub fn resolve(&self, id: i32) -> (found: Result<Participant, ChatError>)
        ensures
            found is Ok <==> knows(self@, id as int),
            found matches Ok(entry) ==> entry@ == identity_of(self@, id as int) && entry.id == id,
            found matches Err(e) ==> e == ChatError::NotFound,
    {
        match self.position_of(id) {
            Some(i) => Ok(self.entries[i].duplicate()),
            None => Err(ChatError::NotFound),
        }
    }

    /// The display name of `id`, where the directory has an entry for it.
    pub fn display_name_of(&self, id: i32) -> (name: Option<String>)
        ensures
            name is Some <==> knows(self@, id as int),
            name matches Some(n) ==> n@ == identity_of(self@, id as int).display_name,
    {
        match self.position_of(id) {
            Some(i) => Some(self.entries[i].display_name.clone()),
            None => None,
        }
    }
}

} // verus!
