//! The Watchlist entity: owned by one user, shared with a list of
//! member users. The owner is set once at creation and never appears
//! in the member list.

use vstd::prelude::*;
use vstd::string::*;

use crate::ids::{decode_key, is_key};
use crate::security::valid_field;
use crate::text::clone_string_vec;

verus! {

/// A watchlist record. `id` is `None` until the record is persisted;
/// `owner` is `None` until a handler assigns the creating user.
pub struct Watchlist {
    pub id: Option<String>,
    pub owner: Option<String>,
    pub members: Vec<String>,
    pub title: String,
    pub description: String,
    pub created_at: u64,
    pub updated_at: u64,
}

/// The caller-supplied part of a watchlist; the owner is never taken
/// from the request.
pub struct WatchlistRequest {
    pub members: Vec<String>,
    pub title: String,
    pub description: String,
}

/// What a watchlist looks like to clients.
pub struct WatchlistResponse {
    pub id: String,
    pub owner: String,
    pub members: Vec<String>,
    pub title: String,
    pub description: String,
    pub created_at: u64,
    pub updated_at: u64,
}

impl WatchlistResponse {
    /// The response that renders record `w`.
    pub open spec fn describes(self, w: Watchlist) -> bool {
        &&& self.id@ == w.key()
        &&& self.owner@ == w.owner_key()
        &&& self.members.deep_view() == w.member_keys()
        &&& self.title@ == w.title@
        &&& self.description@ == w.description@
        &&& self.created_at == w.created_at
        &&& self.updated_at == w.updated_at
    }
}

impl Watchlist {
    /// The record's key; empty if the record was never persisted.
    pub open spec fn key(self) -> Seq<char> {
        match self.id {
            Some(s) => s@,
            None => Seq::empty(),
        }
    }

    /// Whether this record is persisted under key `k`.
    pub open spec fn has_key(self, k: Seq<char>) -> bool {
        self.id matches Some(s) && s@ == k
    }

    /// The key of the owning user; empty if no owner was assigned.
    pub open spec fn owner_key(self) -> Seq<char> {
        match self.owner {
            Some(s) => s@,
            None => Seq::empty(),
        }
    }

    /// The keys of the member users.
    pub open spec fn member_keys(self) -> Seq<Seq<char>> {
        self.members.deep_view()
    }

    /// The watchlist table schema: a title of at most 20 and a
    /// description of at most 60 valid characters.
    pub open spec fn valid(self) -> bool {
        &&& valid_field(self.title@, 20)
        &&& valid_field(self.description@, 60)
    }

    /// A persisted record in a store whose next sequence number is
    /// `bound`: it has an owner, and the owner is not a member.
    pub open spec fn wf_in(self, bound: u64) -> bool {
        &&& self.id is Some
        &&& is_key(self.key())
        &&& decode_key(self.key()) < bound
        &&& self.valid()
        &&& self.owner is Some
        &&& !self.member_keys().contains(self.owner_key())
    }

    /// Records that agree on every field, member lists compared
    /// element-wise.
    pub open spec fn same_as(self, other: Watchlist) -> bool {
        &&& self.id == other.id
        &&& self.owner == other.owner
        &&& self.members.deep_view() == other.members.deep_view()
        &&& self.title == other.title
        &&& self.description == other.description
        &&& self.created_at == other.created_at
        &&& self.updated_at == other.updated_at
    }

    /// Converts a request into a fresh record with no identifier and no
    /// owner yet.
    pub fn from_request(value: WatchlistRequest) -> (w: Watchlist)
        ensures
            w.id is None,
            w.owner is None,
            w.members == value.members,
            w.title == value.title,
            w.description == value.description,
    {
        Watchlist {
            id: None,
            owner: None,
            members: value.members,
            title: value.title,
            description: value.description,
            created_at: 0,
            updated_at: 0,
        }
    }

    /// A method to check if the watchlist is owned by the given user.
    pub fn is_owner(&self, owner: &String) -> (r: bool)
        requires
            self.owner is Some,
        ensures
            r == (self.owner_key() == owner@),
    {
        match &self.owner {
            Some(o) => *o == *owner,
            None => vstd::pervasive::unreached(),
        }
    }

    /// A method to check if the watchlist has the given member.
    pub fn has_member(&self, member: &String) -> (r: bool)
        ensures
            r == self.member_keys().contains(member@),
    {
        let mut i: usize = 0;
        while i < self.members.len()
            invariant
                i <= self.members@.len(),
                forall|j: int| 0 <= j < i ==> #[trigger] self.members@[j]@ != member@,
            decreases self.members@.len() - i,
        {
            if self.members[i] == *member {
                assert(self.member_keys()[i as int] == member@);
                return true;
            }
            i = i + 1;
        }
        assert(forall|j: int|
            0 <= j < self.member_keys().len() ==> #[trigger] self.member_keys()[j] != member@);
        false
    }

    /// A method to merge the watchlist with another watchlist: only the
    /// caller-mutable fields change; the identifier, the owner and the
    /// creation timestamp never do.
    pub fn merge(&mut self, value: Watchlist)
        ensures
            final(self).id == old(self).id,
            final(self).owner == old(self).owner,
            final(self).created_at == old(self).created_at,
            final(self).updated_at == old(self).updated_at,
            final(self).members == value.members,
            final(self).title == value.title,
            final(self).description == value.description,
    {
        self.members = value.members;
        self.title = value.title;
        self.description = value.description;
    }

    /// A method to convert the current watchlist to a
    /// WatchlistResponse.
    pub fn to_watchlist_response(&self) -> (r: WatchlistResponse)
        requires
            self.id is Some,
            self.owner is Some,
        ensures
            r.id@ == self.key(),
            r.owner@ == self.owner_key(),
            r.members.deep_view() == self.member_keys(),
            r.title@ == self.title@,
            r.description@ == self.description@,
            r.created_at == self.created_at,
            r.updated_at == self.updated_at,
    {
        let id = match &self.id {
            Some(s) => s.clone(),
            None => vstd::pervasive::unreached(),
        };
        let owner = match &self.owner {
            Some(s) => s.clone(),
            None => vstd::pervasive::unreached(),
        };
        WatchlistResponse {
            id,
            owner,
            members: clone_string_vec(&self.members),
            title: self.title.clone(),
            description: self.description.clone(),
            created_at: self.created_at,
            updated_at: self.updated_at,
        }
    }
}

impl WatchlistRequest {
    pub fn new(title: &str, description: &str, members: &Vec<String>) -> (r: WatchlistRequest)
        ensures
            r.title@ == title@,
            r.description@ == description@,
            r.members.deep_view() == members.deep_view(),
    {
        WatchlistRequest {
            title: title.to_owned(),
            description: description.to_owned(),
            members: clone_string_vec(members),
        }
    }
}

impl Clone for Watchlist {
    fn clone(&self) -> (r: Self)
        ensures
            r.id == self.id,
            r.owner == self.owner,
            r.members.deep_view() == self.members.deep_view(),
            r.title == self.title,
            r.description == self.description,
            r.created_at == self.created_at,
            r.updated_at == self.updated_at,
    {
        Watchlist {
            id: match &self.id {
                Some(s) => Some(s.clone()),
                None => None,
            },
            owner: match &self.owner {
                Some(s) => Some(s.clone()),
                None => None,
            },
            members: clone_string_vec(&self.members),
            title: self.title.clone(),
            description: self.description.clone(),
            created_at: self.created_at,
            updated_at: self.updated_at,
        }
    }
}

} // verus!
