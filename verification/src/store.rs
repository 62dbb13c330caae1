//! The document store, modelled in memory.
//!
//! Three tables hold the persisted records, a sequence counter feeds
//! the identifier generator, and a clock stamps records as they are
//! written. The store re-asserts the schema rules the models promise
//! (defense in depth): a record that violates them is refused with
//! `StoreError::Schema` and the store is left unchanged.

use vstd::prelude::*;
use vstd::string::*;

use crate::ids::{decode_key, encode_key, is_key, key_seq, lemma_key_roundtrip};
use crate::media_model::Media;
use crate::security::{is_valid_field, is_valid_password_hash};
use crate::text::to_ascii_lowercase;
use crate::user_model::User;
use crate::watchlist_model::Watchlist;

verus! {

/// Why the store refused to persist a record.
#[derive(Clone, Copy, Debug, PartialEq, Eq, Structural)]
pub enum StoreError {
    /// A schema rule failed: an invalid field, a duplicate username, or
    /// an owner listed among the members.
    Schema,
    /// The identifier space is exhausted.
    Exhausted,
}

/// The table a record lives in.
#[derive(Clone, Copy, Debug, PartialEq, Eq, Structural)]
pub enum Table {
    Users,
    Watchlists,
    Media,
}

/// The store: three tables, the next identifier sequence number, and
/// the clock used for record timestamps.
pub struct Store {
    pub users: Vec<User>,
    pub watchlists: Vec<Watchlist>,
    pub media: Vec<Media>,
    pub next_key: u64,
    pub clock: u64,
}

/// Index of the first user persisted under key `k`, or -1.
pub open spec fn find_user_idx(s: Seq<User>, k: Seq<char>) -> int
    decreases s.len(),
{
    if s.len() == 0 {
        -1
    } else if s[0].has_key(k) {
        0
    } else if find_user_idx(s.drop_first(), k) == -1 {
        -1
    } else {
        find_user_idx(s.drop_first(), k) + 1
    }
}

/// The first user persisted under key `k`.
pub open spec fn find_user(s: Seq<User>, k: Seq<char>) -> Option<User> {
    if find_user_idx(s, k) == -1 {
        None
    } else {
        Some(s[find_user_idx(s, k)])
    }
}

/// Index of the first user with the given (lowercase) username, or -1.
pub open spec fn find_username_idx(s: Seq<User>, name: Seq<char>) -> int
    decreases s.len(),
{
    if s.len() == 0 {
        -1
    } else if s[0].username@ == name {
        0
    } else if find_username_idx(s.drop_first(), name) == -1 {
        -1
    } else {
        find_username_idx(s.drop_first(), name) + 1
    }
}

/// The first user with the given (lowercase) username.
pub open spec fn find_username(s: Seq<User>, name: Seq<char>) -> Option<User> {
    if find_username_idx(s, name) == -1 {
        None
    } else {
        Some(s[find_username_idx(s, name)])
    }
}

/// Index of the first watchlist persisted under key `k`, or -1.
pub open spec fn find_watchlist_idx(s: Seq<Watchlist>, k: Seq<char>) -> int
    decreases s.len(),
{
    if s.len() == 0 {
        -1
    } else if s[0].has_key(k) {
        0
    } else if find_watchlist_idx(s.drop_first(), k) == -1 {
        -1
    } else {
        find_watchlist_idx(s.drop_first(), k) + 1
    }
}

/// The first watchlist persisted under key `k`.
pub open spec fn find_watchlist(s: Seq<Watchlist>, k: Seq<char>) -> Option<Watchlist> {
    if find_watchlist_idx(s, k) == -1 {
        None
    } else {
        Some(s[find_watchlist_idx(s, k)])
    }
}

/// Index of the first media persisted under key `k`, or -1.
pub open spec fn find_media_idx(s: Seq<Media>, k: Seq<char>) -> int
    decreases s.len(),
{
    if s.len() == 0 {
        -1
    } else if s[0].has_key(k) {
        0
    } else if find_media_idx(s.drop_first(), k) == -1 {
        -1
    } else {
        find_media_idx(s.drop_first(), k) + 1
    }
}

/// The first media persisted under key `k`.
pub open spec fn find_media(s: Seq<Media>, k: Seq<char>) -> Option<Media> {
    if find_media_idx(s, k) == -1 {
        None
    } else {
        Some(s[find_media_idx(s, k)])
    }
}

/// What `find_user_idx` returns: the first index whose record holds the
/// key, or -1 when no record does.
pub proof fn lemma_find_user_props(s: Seq<User>, k: Seq<char>)
    ensures
        find_user_idx(s, k) == -1 ==> forall|i: int|
            0 <= i < s.len() ==> !(#[trigger] s[i]).has_key(k),
        find_user_idx(s, k) != -1 ==> {
            &&& 0 <= find_user_idx(s, k) < s.len()
            &&& s[find_user_idx(s, k)].has_key(k)
            &&& forall|i: int| 0 <= i < find_user_idx(s, k) ==> !(#[trigger] s[i]).has_key(k)
        },
    decreases s.len(),
{
    if s.len() != 0 && !s[0].has_key(k) {
        lemma_find_user_props(s.drop_first(), k);
        let rest = s.drop_first();
        let idx = find_user_idx(s, k);
        if idx == -1 {
            assert forall|i: int| 0 <= i < s.len() implies !(#[trigger] s[i]).has_key(k) by {
                if i > 0 {
                    assert(s[i] == rest[i - 1]);
                }
            }
        } else {
            assert(s[idx] == rest[idx - 1]);
            assert forall|i: int| 0 <= i < idx implies !(#[trigger] s[i]).has_key(k) by {
                if i > 0 {
                    assert(s[i] == rest[i - 1]);
                }
            }
        }
    }
}

/// See `lemma_find_user_props`.
pub proof fn lemma_find_username_props(s: Seq<User>, name: Seq<char>)
    ensures
        find_username_idx(s, name) == -1 ==> forall|i: int|
            0 <= i < s.len() ==> (#[trigger] s[i]).username@ != name,
        find_username_idx(s, name) != -1 ==> {
            &&& 0 <= find_username_idx(s, name) < s.len()
            &&& s[find_username_idx(s, name)].username@ == name
            &&& forall|i: int|
                0 <= i < find_username_idx(s, name) ==> (#[trigger] s[i]).username@ != name
        },
    decreases s.len(),
{
    if s.len() != 0 && s[0].username@ != name {
        lemma_find_username_props(s.drop_first(), name);
        let rest = s.drop_first();
        let idx = find_username_idx(s, name);
        if idx == -1 {
            assert forall|i: int| 0 <= i < s.len() implies (#[trigger] s[i]).username@ != name by {
                if i > 0 {
                    assert(s[i] == rest[i - 1]);
                }
            }
        } else {
            assert(s[idx] == rest[idx - 1]);
            assert forall|i: int| 0 <= i < idx implies (#[trigger] s[i]).username@ != name by {
                if i > 0 {
                    assert(s[i] == rest[i - 1]);
                }
            }
        }
    }
}

/// See `lemma_find_user_props`.
pub proof fn lemma_find_watchlist_props(s: Seq<Watchlist>, k: Seq<char>)
    ensures
        find_watchlist_idx(s, k) == -1 ==> forall|i: int|
            0 <= i < s.len() ==> !(#[trigger] s[i]).has_key(k),
        find_watchlist_idx(s, k) != -1 ==> {
            &&& 0 <= find_watchlist_idx(s, k) < s.len()
            &&& s[find_watchlist_idx(s, k)].has_key(k)
            &&& forall|i: int| 0 <= i < find_watchlist_idx(s, k) ==> !(#[trigger] s[i]).has_key(k)
        },
    decreases s.len(),
{
    if s.len() != 0 && !s[0].has_key(k) {
        lemma_find_watchlist_props(s.drop_first(), k);
        let rest = s.drop_first();
        let idx = find_watchlist_idx(s, k);
        if idx == -1 {
            assert forall|i: int| 0 <= i < s.len() implies !(#[trigger] s[i]).has_key(k) by {
                if i > 0 {
                    assert(s[i] == rest[i - 1]);
                }
            }
        } else {
            assert(s[idx] == rest[idx - 1]);
            assert forall|i: int| 0 <= i < idx implies !(#[trigger] s[i]).has_key(k) by {
                if i > 0 {
                    assert(s[i] == rest[i - 1]);
                }
            }
        }
    }
}

/// See `lemma_find_user_props`.
pub proof fn lemma_find_media_props(s: Seq<Media>, k: Seq<char>)
    ensures
        find_media_idx(s, k) == -1 ==> forall|i: int|
            0 <= i < s.len() ==> !(#[trigger] s[i]).has_key(k),
        find_media_idx(s, k) != -1 ==> {
            &&& 0 <= find_media_idx(s, k) < s.len()
            &&& s[find_media_idx(s, k)].has_key(k)
            &&& forall|i: int| 0 <= i < find_media_idx(s, k) ==> !(#[trigger] s[i]).has_key(k)
        },
    decreases s.len(),
{
    if s.len() != 0 && !s[0].has_key(k) {
        lemma_find_media_props(s.drop_first(), k);
        let rest = s.drop_first();
        let idx = find_media_idx(s, k);
        if idx == -1 {
            assert forall|i: int| 0 <= i < s.len() implies !(#[trigger] s[i]).has_key(k) by {
                if i > 0 {
                    assert(s[i] == rest[i - 1]);
                }
            }
        } else {
            assert(s[idx] == rest[idx - 1]);
            assert forall|i: int| 0 <= i < idx implies !(#[trigger] s[i]).has_key(k) by {
                if i > 0 {
                    assert(s[i] == rest[i - 1]);
                }
            }
        }
    }
}

impl Store {
    /// A store with empty tables.
    pub fn new() -> (s: Store)
        ensures
            s.wf(),
            s.users@.len() == 0,
            s.watchlists@.len() == 0,
            s.media@.len() == 0,
            s.next_key == 0,
            s.clock == 0,
    {
        Store { users: Vec::new(), watchlists: Vec::new(), media: Vec::new(), next_key: 0, clock: 0 }
    }

    /// Sets the clock that stamps the records written from now on.
    pub fn advance_clock(&mut self, now: u64)
        ensures
            final(self).users == old(self).users,
            final(self).watchlists == old(self).watchlists,
            final(self).media == old(self).media,
            final(self).next_key == old(self).next_key,
            final(self).clock == now,
            old(self).wf() ==> final(self).wf(),
    {
        self.clock = now;
    }

    /// Every record is persisted, its key decodes below the sequence
    /// counter, it meets its table's schema, keys are unique per table,
    /// and usernames are unique.
    pub open spec fn wf(self) -> bool {
        &&& forall|i: int|
            0 <= i < self.users@.len() ==> (#[trigger] self.users@[i]).wf_in(self.next_key)
        &&& forall|i: int, j: int|
            0 <= i < j < self.users@.len() ==> self.users@[i].key() != self.users@[j].key()
        &&& forall|i: int, j: int|
            0 <= i < j < self.users@.len() ==> self.users@[i].username@ != self.users@[j].username@
        &&& forall|i: int|
            0 <= i < self.watchlists@.len() ==> (#[trigger] self.watchlists@[i]).wf_in(
                self.next_key,
            )
        &&& forall|i: int, j: int|
            0 <= i < j < self.watchlists@.len() ==> self.watchlists@[i].key()
                != self.watchlists@[j].key()
        &&& forall|i: int|
            0 <= i < self.media@.len() ==> (#[trigger] self.media@[i]).wf_in(self.next_key)
        &&& forall|i: int, j: int|
            0 <= i < j < self.media@.len() ==> self.media@[i].key() != self.media@[j].key()
    }

    fn user_index_of(&self, key: &String) -> (r: Option<usize>)
        ensures
            match r {
                Some(i) => i < self.users@.len() && i as int == find_user_idx(self.users@, key@),
                None => find_user_idx(self.users@, key@) == -1,
            },
    {
        proof {
            lemma_find_user_props(self.users@, key@);
        }
        let mut i: usize = 0;
        while i < self.users.len()
            invariant
                i <= self.users@.len(),
                forall|j: int| 0 <= j < i ==> !(#[trigger] self.users@[j]).has_key(key@),
                find_user_idx(self.users@, key@) == -1 || find_user_idx(self.users@, key@) >= i,
            decreases self.users@.len() - i,
        {
            let hit = match &self.users[i].id {
                Some(s) => *s == *key,
                None => false,
            };
            if hit {
                proof {
                    lemma_find_user_props(self.users@, key@);
                    let idx = find_user_idx(self.users@, key@);
                    assert(idx != -1);
                    assert(!(idx < i as int));
                    assert(!(idx > i as int));
                }
                return Some(i);
            }
            i = i + 1;
            proof {
                lemma_find_user_props(self.users@, key@);
            }
        }
        None
    }

    fn watchlist_index_of(&self, key: &String) -> (r: Option<usize>)
        ensures
            match r {
                Some(i) => i < self.watchlists@.len() && i as int == find_watchlist_idx(self.watchlists@, key@),
                None => find_watchlist_idx(self.watchlists@, key@) == -1,
            },
    {
        proof {
            lemma_find_watchlist_props(self.watchlists@, key@);
        }
        let mut i: usize = 0;
        while i < self.watchlists.len()
            invariant
                i <= self.watchlists@.len(),
                forall|j: int| 0 <= j < i ==> !(#[trigger] self.watchlists@[j]).has_key(key@),
                find_watchlist_idx(self.watchlists@, key@) == -1 || find_watchlist_idx(
                    self.watchlists@,
                    key@,
                ) >= i,
            decreases self.watchlists@.len() - i,
        {
            let hit = match &self.watchlists[i].id {
                Some(s) => *s == *key,
                None => false,
            };
            if hit {
                proof {
                    lemma_find_watchlist_props(self.watchlists@, key@);
                    let idx = find_watchlist_idx(self.watchlists@, key@);
                    assert(idx != -1);
                    assert(!(idx < i as int));
                    assert(!(idx > i as int));
                }
                return Some(i);
            }
            i = i + 1;
            proof {
                lemma_find_watchlist_props(self.watchlists@, key@);
            }
        }
        None
    }

    fn media_index_of(&self, key: &String) -> (r: Option<usize>)
        ensures
            match r {
                Some(i) => i < self.media@.len() && i as int == find_media_idx(self.media@, key@),
                None => find_media_idx(self.media@, key@) == -1,
            },
    {
        proof {
            lemma_find_media_props(self.media@, key@);
        }
        let mut i: usize = 0;
        while i < self.media.len()
            invariant
                i <= self.media@.len(),
                forall|j: int| 0 <= j < i ==> !(#[trigger] self.media@[j]).has_key(key@),
                find_media_idx(self.media@, key@) == -1 || find_media_idx(self.media@, key@) >= i,
            decreases self.media@.len() - i,
        {
            let hit = match &self.media[i].id {
                Some(s) => *s == *key,
                None => false,
            };
            if hit {
                proof {
                    lemma_find_media_props(self.media@, key@);
                    let idx = find_media_idx(self.media@, key@);
                    assert(idx != -1);
                    assert(!(idx < i as int));
                    assert(!(idx > i as int));
                }
                return Some(i);
            }
            i = i + 1;
            proof {
                lemma_find_media_props(self.media@, key@);
            }
        }
        None
    }

    /// A method to get a user by id.
    pub fn user_from_id(&self, key: &String) -> (r: Option<User>)
        ensures
            r == find_user(self.users@, key@),
    {
        match self.user_index_of(key) {
            Some(i) => Some(self.users[i].clone()),
            None => None,
        }
    }

    /// A method to get a watchlist by id.
    pub fn watchlist_from_id(&self, key: &String) -> (r: Option<Watchlist>)
        ensures
            match (r, find_watchlist(self.watchlists@, key@)) {
                (Some(w), Some(f)) => w.same_as(f),
                (None, None) => true,
                _ => false,
            },
    {
        match self.watchlist_index_of(key) {
            Some(i) => Some(self.watchlists[i].clone()),
            None => None,
        }
    }

    /// A method to get a media by id.
    pub fn media_from_id(&self, key: &String) -> (r: Option<Media>)
        ensures
            r == find_media(self.media@, key@),
    {
        match self.media_index_of(key) {
            Some(i) => Some(self.media[i].clone()),
            None => None,
        }
    }

    /// The lookup behind `User::from_username`; the store folds the
    /// given username to lowercase first, as the user table stores it.
    pub(crate) fn lookup_username(&self, username: &str) -> (r: Option<User>)
        ensures
            r == find_username(self.users@, crate::text::lower_seq(username@)),
    {
        let lowered = to_ascii_lowercase(username);
        proof {
            lemma_find_username_props(self.users@, lowered@);
        }
        let mut i: usize = 0;
        while i < self.users.len()
            invariant
                i <= self.users@.len(),
                lowered@ == crate::text::lower_seq(username@),
                forall|j: int| 0 <= j < i ==> (#[trigger] self.users@[j]).username@ != lowered@,
                find_username_idx(self.users@, lowered@) == -1 || find_username_idx(
                    self.users@,
                    lowered@,
                ) >= i,
            decreases self.users@.len() - i,
        {
            if self.users[i].username == lowered {
                proof {
                    lemma_find_username_props(self.users@, lowered@);
                    let idx = find_username_idx(self.users@, lowered@);
                    assert(idx != -1);
                    assert(!(idx < i as int));
                    assert(!(idx > i as int));
                }
                return Some(self.users[i].clone());
            }
            i = i + 1;
            proof {
                lemma_find_username_props(self.users@, lowered@);
            }
        }
        None
    }

    /// A method to generate a new identifier for a record of the given
    /// table. The candidate is checked against the table, as the
    /// identifier contract asks; the store invariant proves the check
    /// can never hit, so one attempt always suffices.
    pub fn generate_new_key(&mut self, table: Table) -> (r: Result<String, StoreError>)
        requires
            old(self).wf(),
        ensures
            final(self).wf(),
            final(self).users == old(self).users,
            final(self).watchlists == old(self).watchlists,
            final(self).media == old(self).media,
            final(self).clock == old(self).clock,
            match r {
                Ok(k) => {
                    &&& old(self).next_key < u64::MAX
                    &&& final(self).next_key == old(self).next_key + 1
                    &&& k@ == key_seq(old(self).next_key)
                    &&& is_key(k@)
                    &&& decode_key(k@) == old(self).next_key
                    &&& find_user_idx(old(self).users@, k@) == -1
                    &&& find_watchlist_idx(old(self).watchlists@, k@) == -1
                    &&& find_media_idx(old(self).media@, k@) == -1
                },
                Err(e) => {
                    &&& e == StoreError::Exhausted
                    &&& old(self).next_key == u64::MAX
                    &&& *final(self) == *old(self)
                },
            },
    {
        if self.next_key == u64::MAX {
            return Err(StoreError::Exhausted);
        }
        let key = encode_key(self.next_key);
        proof {
            lemma_key_roundtrip(self.next_key);
            lemma_find_user_props(self.users@, key@);
            lemma_find_watchlist_props(self.watchlists@, key@);
            lemma_find_media_props(self.media@, key@);
        }
        let taken = match table {
            Table::Users => self.user_index_of(&key).is_some(),
            Table::Watchlists => self.watchlist_index_of(&key).is_some(),
            Table::Media => self.media_index_of(&key).is_some(),
        };
        assert(!taken);
        self.next_key = self.next_key + 1;
        Ok(key)
    }

    /// Whether the record meets the user table schema: a valid
    /// lowercase username and a well-shaped password hash.
    fn check_user_schema(u: &User) -> (r: bool)
        ensures
            r == u.valid(),
    {
        let field_ok = is_valid_field(u.username.as_str(), 20);
        let lowered = to_ascii_lowercase(u.username.as_str());
        let lower_ok = u.username == lowered;
        let pass_ok = is_valid_password_hash(u.password.as_str());
        field_ok && lower_ok && pass_ok
    }

    /// A method to create a new user record: the schema is re-asserted,
    /// a fresh identifier is assigned, both timestamps are set to the
    /// clock, and the record is persisted. Meant to be reached through
    /// `sync_user`.
    pub fn create_user(&mut self, u: &mut User) -> (r: Result<(), StoreError>)
        requires
            old(self).wf(),
            old(u).id is None,
        ensures
            final(self).wf(),
            final(self).watchlists == old(self).watchlists,
            final(self).media == old(self).media,
            final(self).clock == old(self).clock,
            match r {
                Ok(()) => {
                    &&& old(u).valid()
                    &&& find_username_idx(old(self).users@, old(u).username@) == -1
                    &&& old(self).next_key < u64::MAX
                    &&& final(self).next_key == old(self).next_key + 1
                    &&& final(u).has_key(key_seq(old(self).next_key))
                    &&& final(u).username == old(u).username
                    &&& final(u).password == old(u).password
                    &&& final(u).created_at == old(self).clock
                    &&& final(u).updated_at == old(self).clock
                    &&& final(self).users@ == old(self).users@.push(*final(u))
                },
                Err(StoreError::Schema) => {
                    &&& !(old(u).valid() && find_username_idx(
                        old(self).users@,
                        old(u).username@,
                    ) == -1)
                    &&& *final(self) == *old(self)
                    &&& *final(u) == *old(u)
                },
                Err(StoreError::Exhausted) => {
                    &&& old(u).valid()
                    &&& find_username_idx(old(self).users@, old(u).username@) == -1
                    &&& old(self).next_key == u64::MAX
                    &&& *final(self) == *old(self)
                    &&& *final(u) == *old(u)
                },
            },
    {
        if !Self::check_user_schema(u) {
            return Err(StoreError::Schema);
        }
        let taken = self.lookup_username(u.username.as_str()).is_some();
        proof {
            lemma_find_username_props(self.users@, old(u).username@);
            assert(crate::text::lower_seq(old(u).username@) == old(u).username@);
        }
        if taken {
            return Err(StoreError::Schema);
        }
        let key = match self.generate_new_key(Table::Users) {
            Ok(k) => k,
            Err(e) => {
                return Err(e);
            },
        };
        u.id = Some(key);
        u.created_at = self.clock;
        u.updated_at = self.clock;
        self.users.push(u.clone());
        proof {
            let s0 = old(self).users@;
            let s1 = self.users@;
            let uu = *u;
            assert(s1 == s0.push(uu));
            lemma_find_user_props(s0, uu.key());
            assert forall|i: int, j: int| 0 <= i < j < s1.len() implies s1[i].key()
                != s1[j].key() by {
                if j == s1.len() - 1 {
                    assert(s1[i] == s0[i]);
                    assert(!s0[i].has_key(uu.key()));
                }
            }
            assert forall|i: int, j: int| 0 <= i < j < s1.len() implies s1[i].username@
                != s1[j].username@ by {
                if j == s1.len() - 1 {
                    assert(s1[i] == s0[i]);
                }
            }
            assert forall|i: int| 0 <= i < s1.len() implies (#[trigger] s1[i]).wf_in(
                self.next_key,
            ) by {
                if i < s1.len() - 1 {
                    assert(s1[i] == s0[i]);
                    assert(s0[i].wf_in(self.next_key));
                }
            }
        }
        Ok(())
    }

    /// A method to synchronize the user in the store: a record without
    /// an identifier is created; an identified record has `updated_at`
    /// set to the clock and its full content persisted over the stored
    /// record (or inserted, if its identifier is unknown).
    pub fn sync_user(&mut self, u: &mut User) -> (r: Result<(), StoreError>)
        requires
            old(self).wf(),
        ensures
            final(self).wf(),
            final(self).watchlists == old(self).watchlists,
            final(self).media == old(self).media,
            final(self).clock == old(self).clock,
            old(u).id is None ==> match r {
                Ok(()) => {
                    &&& old(u).valid()
                    &&& find_username_idx(old(self).users@, old(u).username@) == -1
                    &&& old(self).next_key < u64::MAX
                    &&& final(self).next_key == old(self).next_key + 1
                    &&& final(u).has_key(key_seq(old(self).next_key))
                    &&& final(u).username == old(u).username
                    &&& final(u).password == old(u).password
                    &&& final(u).created_at == old(self).clock
                    &&& final(u).updated_at == old(self).clock
                    &&& final(self).users@ == old(self).users@.push(*final(u))
                },
                Err(StoreError::Schema) => {
                    &&& !(old(u).valid() && find_username_idx(
                        old(self).users@,
                        old(u).username@,
                    ) == -1)
                    &&& *final(self) == *old(self)
                    &&& *final(u) == *old(u)
                },
                Err(StoreError::Exhausted) => {
                    &&& old(self).next_key == u64::MAX
                    &&& *final(self) == *old(self)
                    &&& *final(u) == *old(u)
                },
            },
            old(u).id is Some ==> match r {
                Ok(()) => {
                    &&& old(u).valid()
                    &&& is_key(old(u).key())
                    &&& decode_key(old(u).key()) < old(self).next_key
                    &&& forall|i: int|
                        0 <= i < old(self).users@.len() && (#[trigger] old(
                            self,
                        ).users@[i]).username@ == old(u).username@ ==> old(self).users@[i].has_key(
                            old(u).key(),
                        )
                    &&& final(u).id == old(u).id
                    &&& final(u).username == old(u).username
                    &&& final(u).password == old(u).password
                    &&& final(u).created_at == old(u).created_at
                    &&& final(u).updated_at == old(self).clock
                    &&& final(self).next_key == old(self).next_key
                    &&& ({
                        let idx = find_user_idx(old(self).users@, old(u).key());
                        if idx == -1 {
                            final(self).users@ == old(self).users@.push(*final(u))
                        } else {
                            final(self).users@ == old(self).users@.update(idx, *final(u))
                        }
                    })
                },
                Err(StoreError::Schema) => {
                    &&& !({
                        &&& old(u).valid()
                        &&& is_key(old(u).key())
                        &&& decode_key(old(u).key()) < old(self).next_key
                        &&& forall|i: int|
                            0 <= i < old(self).users@.len() && (#[trigger] old(
                                self,
                            ).users@[i]).username@ == old(u).username@ ==> old(
                                self,
                            ).users@[i].has_key(old(u).key())
                    })
                    &&& *final(self) == *old(self)
                    &&& *final(u) == *old(u)
                },
                Err(StoreError::Exhausted) => false,
            },
    {
        let key = match &u.id {
            None => {
                return self.create_user(u);
            },
            Some(s) => s.clone(),
        };
        if !Self::check_user_schema(u) {
            return Err(StoreError::Schema);
        }
        let key_ok = match crate::ids::decode_key_checked(key.as_str()) {
            Some(v) => v < self.next_key as u128,
            None => false,
        };
        if !key_ok {
            return Err(StoreError::Schema);
        }
        let dup = match self.lookup_username(u.username.as_str()) {
            None => false,
            Some(other) => match &other.id {
                Some(s) => *s != key,
                None => true,
            },
        };
        proof {
            lemma_find_username_props(self.users@, old(u).username@);
            assert(crate::text::lower_seq(old(u).username@) == old(u).username@);
        }
        if dup {
            return Err(StoreError::Schema);
        }
        proof {
            let s0 = old(self).users@;
            let nidx = find_username_idx(s0, old(u).username@);
            assert forall|i: int|
                0 <= i < s0.len() && (#[trigger] s0[i]).username@
                    == old(u).username@ implies s0[i].has_key(old(u).key()) by {
                assert(nidx != -1);
                if i != nidx {
                    if i < nidx {
                        assert(s0[i].username@ != old(u).username@);
                    } else {
                        assert(s0[nidx].username@ == s0[i].username@);
                    }
                }
            }
        }
        u.updated_at = self.clock;
        let found = self.user_index_of(&key);
        proof {
            lemma_find_user_props(self.users@, key@);
        }
        match found {
            Some(i) => {
                self.users.remove(i);
                self.users.insert(i, u.clone());
                proof {
                    let s0 = old(self).users@;
                    let s1 = self.users@;
                    let uu = *u;
                    let idx = find_user_idx(s0, uu.key());
                    assert(s1 =~= s0.update(idx, uu));
                    assert forall|a: int, b: int| 0 <= a < b < s1.len() implies s1[a].key()
                        != s1[b].key() by {
                        if a != idx && b != idx {
                            assert(s1[a] == s0[a] && s1[b] == s0[b]);
                        } else if a == idx {
                            assert(s1[b] == s0[b]);
                            assert(s0[idx].key() == uu.key());
                        } else {
                            assert(s1[a] == s0[a]);
                            assert(s0[idx].key() == uu.key());
                        }
                    }
                    assert forall|a: int, b: int| 0 <= a < b < s1.len() implies s1[a].username@
                        != s1[b].username@ by {
                        if a != idx && b != idx {
                            assert(s1[a] == s0[a] && s1[b] == s0[b]);
                        } else if a == idx {
                            assert(s1[b] == s0[b]);
                            assert(s0[b].username@ == uu.username@ ==> s0[b].has_key(uu.key()));
                            assert(s0[b].key() != s0[idx].key());
                        } else {
                            assert(s1[a] == s0[a]);
                            assert(s0[a].username@ == uu.username@ ==> s0[a].has_key(uu.key()));
                            assert(s0[a].key() != s0[idx].key());
                        }
                    }
                    assert forall|a: int| 0 <= a < s1.len() implies (#[trigger] s1[a]).wf_in(
                        self.next_key,
                    ) by {
                        if a != idx {
                            assert(s1[a] == s0[a]);
                        }
                    }
                }
                Ok(())
            },
            None => {
                self.users.push(u.clone());
                proof {
                    let s0 = old(self).users@;
                    let s1 = self.users@;
                    let uu = *u;
                    assert(s1 == s0.push(uu));
                    assert forall|a: int, b: int| 0 <= a < b < s1.len() implies s1[a].key()
                        != s1[b].key() by {
                        if b == s1.len() - 1 {
                            assert(s1[a] == s0[a]);
                            assert(!s0[a].has_key(uu.key()));
                        }
                    }
                    assert forall|a: int, b: int| 0 <= a < b < s1.len() implies s1[a].username@
                        != s1[b].username@ by {
                        if b == s1.len() - 1 {
                            assert(s1[a] == s0[a]);
                            assert(s0[a].username@ == uu.username@ ==> s0[a].has_key(uu.key()));
                        }
                    }
                    assert forall|a: int| 0 <= a < s1.len() implies (#[trigger] s1[a]).wf_in(
                        self.next_key,
                    ) by {
                        if a < s1.len() - 1 {
                            assert(s1[a] == s0[a]);
                        }
                    }
                }
                Ok(())
            },
        }
    }

    /// A method to delete the user from the store: a no-op success when
    /// the record has no identifier or is unknown.
    pub fn delete_user(&mut self, u: User)
        requires
            old(self).wf(),
        ensures
            final(self).wf(),
            final(self).watchlists == old(self).watchlists,
            final(self).media == old(self).media,
            final(self).clock == old(self).clock,
            final(self).next_key == old(self).next_key,
            match u.id {
                None => final(self).users == old(self).users,
                Some(_) => {
                    let idx = find_user_idx(old(self).users@, u.key());
                    if idx == -1 {
                        final(self).users == old(self).users
                    } else {
                        final(self).users@ == old(self).users@.remove(idx)
                    }
                },
            },
            u.id is Some ==> find_user_idx(final(self).users@, u.key()) == -1,
    {
        let key = match &u.id {
            None => {
                return ;
            },
            Some(s) => s.clone(),
        };
        let found = self.user_index_of(&key);
        proof {
            lemma_find_user_props(self.users@, key@);
        }
        match found {
            None => {},
            Some(i) => {
                self.users.remove(i);
                proof {
                    let s0 = old(self).users@;
                    let s1 = self.users@;
                    let idx = find_user_idx(s0, u.key());
                    assert(s1 == s0.remove(idx));
                    assert forall|a: int| 0 <= a < s1.len() implies s1[a]
                        == if a < idx {
                            s0[a]
                        } else {
                            s0[a + 1]
                        } by {}
                    lemma_find_user_props(s1, u.key());
                    if find_user_idx(s1, u.key()) != -1 {
                        let j = find_user_idx(s1, u.key());
                        if j < idx {
                            assert(s0[j].has_key(u.key()));
                            assert(s0[idx].has_key(u.key()));
                        } else {
                            assert(s0[j + 1].has_key(u.key()));
                            assert(s0[idx].has_key(u.key()));
                        }
                        assert(false);
                    }
                }
            },
        }
    }

    /// Whether the record meets the watchlist table schema.
    fn check_watchlist_schema(w: &Watchlist) -> (r: bool)
        ensures
            r == w.valid(),
    {
        let title_ok = is_valid_field(w.title.as_str(), 20);
        let desc_ok = is_valid_field(w.description.as_str(), 60);
        title_ok && desc_ok
    }

    /// A method to create a new watchlist record: the schema and the
    /// owner-not-a-member rule are re-asserted, a fresh identifier is
    /// assigned, both timestamps are set to the clock, and the record
    /// is persisted. Meant to be reached through `sync_watchlist`.
    pub fn create_watchlist(&mut self, w: &mut Watchlist) -> (r: Result<(), StoreError>)
        requires
            old(self).wf(),
            old(w).id is None,
        ensures
            final(self).wf(),
            final(self).users == old(self).users,
            final(self).media == old(self).media,
            final(self).clock == old(self).clock,
            match r {
                Ok(()) => {
                    &&& old(w).valid()
                    &&& old(w).owner is Some
                    &&& !old(w).member_keys().contains(old(w).owner_key())
                    &&& old(self).next_key < u64::MAX
                    &&& final(self).next_key == old(self).next_key + 1
                    &&& final(w).has_key(key_seq(old(self).next_key))
                    &&& final(w).owner == old(w).owner
                    &&& final(w).members == old(w).members
                    &&& final(w).title == old(w).title
                    &&& final(w).description == old(w).description
                    &&& final(w).created_at == old(self).clock
                    &&& final(w).updated_at == old(self).clock
                    &&& final(self).watchlists@.len() == old(self).watchlists@.len() + 1
                    &&& forall|i: int|
                        0 <= i < old(self).watchlists@.len() ==> final(self).watchlists@[i] == old(
                            self,
                        ).watchlists@[i]
                    &&& final(self).watchlists@.last().same_as(*final(w))
                },
                Err(StoreError::Schema) => {
                    &&& !(old(w).valid() && old(w).owner is Some && !old(
                        w,
                    ).member_keys().contains(old(w).owner_key()))
                    &&& *final(self) == *old(self)
                    &&& *final(w) == *old(w)
                },
                Err(StoreError::Exhausted) => {
                    &&& old(w).valid()
                    &&& old(w).owner is Some
                    &&& !old(w).member_keys().contains(old(w).owner_key())
                    &&& old(self).next_key == u64::MAX
                    &&& *final(self) == *old(self)
                    &&& *final(w) == *old(w)
                },
            },
    {
        if !Self::check_watchlist_schema(w) {
            return Err(StoreError::Schema);
        }
        let owner = match &w.owner {
            None => {
                return Err(StoreError::Schema);
            },
            Some(o) => o.clone(),
        };
        if w.has_member(&owner) {
            return Err(StoreError::Schema);
        }
        let key = match self.generate_new_key(Table::Watchlists) {
            Ok(k) => k,
            Err(e) => {
                return Err(e);
            },
        };
        w.id = Some(key);
        w.created_at = self.clock;
        w.updated_at = self.clock;
        let stored = w.clone();
        self.watchlists.push(stored);
        proof {
            let s0 = old(self).watchlists@;
            let s1 = self.watchlists@;
            let ww = s1.last();
            assert(ww.same_as(*w));
            lemma_find_watchlist_props(s0, ww.key());
            assert forall|i: int, j: int| 0 <= i < j < s1.len() implies s1[i].key()
                != s1[j].key() by {
                if j == s1.len() - 1 {
                    assert(s1[i] == s0[i]);
                    assert(!s0[i].has_key(ww.key()));
                }
            }
            assert forall|i: int| 0 <= i < s1.len() implies (#[trigger] s1[i]).wf_in(
                self.next_key,
            ) by {
                if i < s1.len() - 1 {
                    assert(s1[i] == s0[i]);
                    assert(s0[i].wf_in(self.next_key));
                }
            }
        }
        Ok(())
    }

    /// A method to synchronize the watchlist in the store: a record
    /// without an identifier is created; an identified record has
    /// `updated_at` set to the clock and its full content persisted
    /// over the stored record (or inserted, if its identifier is
    /// unknown).
    pub fn sync_watchlist(&mut self, w: &mut Watchlist) -> (r: Result<(), StoreError>)
        requires
            old(self).wf(),
        ensures
            final(self).wf(),
            final(self).users == old(self).users,
            final(self).media == old(self).media,
            final(self).clock == old(self).clock,
            old(w).id is None ==> match r {
                Ok(()) => {
                    &&& old(w).valid()
                    &&& old(w).owner is Some
                    &&& !old(w).member_keys().contains(old(w).owner_key())
                    &&& old(self).next_key < u64::MAX
                    &&& final(self).next_key == old(self).next_key + 1
                    &&& final(w).has_key(key_seq(old(self).next_key))
                    &&& final(w).owner == old(w).owner
                    &&& final(w).members == old(w).members
                    &&& final(w).title == old(w).title
                    &&& final(w).description == old(w).description
                    &&& final(w).created_at == old(self).clock
                    &&& final(w).updated_at == old(self).clock
                    &&& final(self).watchlists@.len() == old(self).watchlists@.len() + 1
                    &&& forall|i: int|
                        0 <= i < old(self).watchlists@.len() ==> final(self).watchlists@[i] == old(
                            self,
                        ).watchlists@[i]
                    &&& final(self).watchlists@.last().same_as(*final(w))
                },
                Err(StoreError::Schema) => {
                    &&& !(old(w).valid() && old(w).owner is Some && !old(
                        w,
                    ).member_keys().contains(old(w).owner_key()))
                    &&& *final(self) == *old(self)
                    &&& *final(w) == *old(w)
                },
                Err(StoreError::Exhausted) => {
                    &&& old(self).next_key == u64::MAX
                    &&& *final(self) == *old(self)
                    &&& *final(w) == *old(w)
                },
            },
            old(w).id is Some ==> match r {
                Ok(()) => {
                    &&& old(w).valid()
                    &&& old(w).owner is Some
                    &&& !old(w).member_keys().contains(old(w).owner_key())
                    &&& is_key(old(w).key())
                    &&& decode_key(old(w).key()) < old(self).next_key
                    &&& final(w).id == old(w).id
                    &&& final(w).owner == old(w).owner
                    &&& final(w).members == old(w).members
                    &&& final(w).title == old(w).title
                    &&& final(w).description == old(w).description
                    &&& final(w).created_at == old(w).created_at
                    &&& final(w).updated_at == old(self).clock
                    &&& final(self).next_key == old(self).next_key
                    &&& ({
                        let idx = find_watchlist_idx(old(self).watchlists@, old(w).key());
                        if idx == -1 {
                            &&& final(self).watchlists@.len() == old(self).watchlists@.len() + 1
                            &&& forall|i: int|
                                0 <= i < old(self).watchlists@.len() ==> final(self).watchlists@[i] == old(self).watchlists@[i]
                            &&& final(self).watchlists@.last().same_as(*final(w))
                        } else {
                            &&& final(self).watchlists@.len() == old(self).watchlists@.len()
                            &&& forall|i: int|
                                0 <= i < old(self).watchlists@.len() && i != idx ==> final(self).watchlists@[i] == old(self).watchlists@[i]
                            &&& final(self).watchlists@[idx].same_as(*final(w))
                        }
                    })
                },
                Err(StoreError::Schema) => {
                    &&& !({
                        &&& old(w).valid()
                        &&& old(w).owner is Some
                        &&& !old(w).member_keys().contains(old(w).owner_key())
                        &&& is_key(old(w).key())
                        &&& decode_key(old(w).key()) < old(self).next_key
                    })
                    &&& *final(self) == *old(self)
                    &&& *final(w) == *old(w)
                },
                Err(StoreError::Exhausted) => false,
            },
    {
        let key = match &w.id {
            None => {
                return self.create_watchlist(w);
            },
            Some(s) => s.clone(),
        };
        if !Self::check_watchlist_schema(w) {
            return Err(StoreError::Schema);
        }
        let owner = match &w.owner {
            None => {
                return Err(StoreError::Schema);
            },
            Some(o) => o.clone(),
        };
        if w.has_member(&owner) {
            return Err(StoreError::Schema);
        }
        let key_ok = match crate::ids::decode_key_checked(key.as_str()) {
            Some(v) => v < self.next_key as u128,
            None => false,
        };
        if !key_ok {
            return Err(StoreError::Schema);
        }
        w.updated_at = self.clock;
        let found = self.watchlist_index_of(&key);
        proof {
            lemma_find_watchlist_props(self.watchlists@, key@);
        }
        match found {
            Some(i) => {
                self.watchlists.remove(i);
                self.watchlists.insert(i, w.clone());
                proof {
                    let s0 = old(self).watchlists@;
                    let s1 = self.watchlists@;
                    let idx = find_watchlist_idx(s0, old(w).key());
                    assert(forall|a: int| 0 <= a < s1.len() && a != idx ==> s1[a] == s0[a]);
                    assert(s1[idx].same_as(*w));
                    assert forall|a: int, b: int| 0 <= a < b < s1.len() implies s1[a].key()
                        != s1[b].key() by {
                        if a != idx && b != idx {
                            assert(s1[a] == s0[a] && s1[b] == s0[b]);
                        } else if a == idx {
                            assert(s1[b] == s0[b]);
                            assert(s0[idx].key() == s1[idx].key());
                        } else {
                            assert(s1[a] == s0[a]);
                            assert(s0[idx].key() == s1[idx].key());
                        }
                    }
                    assert forall|a: int| 0 <= a < s1.len() implies (#[trigger] s1[a]).wf_in(
                        self.next_key,
                    ) by {
                        if a != idx {
                            assert(s1[a] == s0[a]);
                        }
                    }
                }
                Ok(())
            },
            None => {
                self.watchlists.push(w.clone());
                proof {
                    let s0 = old(self).watchlists@;
                    let s1 = self.watchlists@;
                    let ww = s1.last();
                    assert(ww.same_as(*w));
                    assert forall|a: int, b: int| 0 <= a < b < s1.len() implies s1[a].key()
                        != s1[b].key() by {
                        if b == s1.len() - 1 {
                            assert(s1[a] == s0[a]);
                            assert(!s0[a].has_key(ww.key()));
                        }
                    }
                    assert forall|a: int| 0 <= a < s1.len() implies (#[trigger] s1[a]).wf_in(
                        self.next_key,
                    ) by {
                        if a < s1.len() - 1 {
                            assert(s1[a] == s0[a]);
                        }
                    }
                }
                Ok(())
            },
        }
    }

    /// A method to delete the watchlist from the store: a no-op success
    /// when the record has no identifier or is unknown.
    pub fn delete_watchlist(&mut self, w: Watchlist)
        requires
            old(self).wf(),
        ensures
            final(self).wf(),
            final(self).users == old(self).users,
            final(self).media == old(self).media,
            final(self).clock == old(self).clock,
            final(self).next_key == old(self).next_key,
            match w.id {
                None => final(self).watchlists == old(self).watchlists,
                Some(_) => {
                    let idx = find_watchlist_idx(old(self).watchlists@, w.key());
                    if idx == -1 {
                        final(self).watchlists == old(self).watchlists
                    } else {
                        final(self).watchlists@ == old(self).watchlists@.remove(idx)
                    }
                },
            },
            w.id is Some ==> find_watchlist_idx(final(self).watchlists@, w.key()) == -1,
    {
        let key = match &w.id {
            None => {
                return ;
            },
            Some(s) => s.clone(),
        };
        let found = self.watchlist_index_of(&key);
        proof {
            lemma_find_watchlist_props(self.watchlists@, key@);
        }
        match found {
            None => {},
            Some(i) => {
                self.watchlists.remove(i);
                proof {
                    let s0 = old(self).watchlists@;
                    let s1 = self.watchlists@;
                    let idx = find_watchlist_idx(s0, w.key());
                    assert(s1 == s0.remove(idx));
                    assert forall|a: int| 0 <= a < s1.len() implies s1[a]
                        == if a < idx {
                            s0[a]
                        } else {
                            s0[a + 1]
                        } by {}
                    lemma_find_watchlist_props(s1, w.key());
                    if find_watchlist_idx(s1, w.key()) != -1 {
                        let j = find_watchlist_idx(s1, w.key());
                        if j < idx {
                            assert(s0[j].has_key(w.key()));
                            assert(s0[idx].has_key(w.key()));
                        } else {
                            assert(s0[j + 1].has_key(w.key()));
                            assert(s0[idx].has_key(w.key()));
                        }
                        assert(false);
                    }
                }
            },
        }
    }

    /// Whether the record meets the media table schema.
    fn check_media_schema(m: &Media) -> (r: bool)
        ensures
            r == m.valid(),
    {
        let title_ok = is_valid_field(m.title.as_str(), 20);
        let desc_ok = is_valid_field(m.description.as_str(), 60);
        title_ok && desc_ok
    }

    /// A method to create a new media record: the schema is
    /// re-asserted, a fresh identifier is assigned, both timestamps are
    /// set to the clock, and the record is persisted. Meant to be
    /// reached through `sync_media`.
    pub fn create_media(&mut self, m: &mut Media) -> (r: Result<(), StoreError>)
        requires
            old(self).wf(),
            old(m).id is None,
        ensures
            final(self).wf(),
            final(self).users == old(self).users,
            final(self).watchlists == old(self).watchlists,
            final(self).clock == old(self).clock,
            match r {
                Ok(()) => {
                    &&& old(m).valid()
                    &&& old(self).next_key < u64::MAX
                    &&& final(self).next_key == old(self).next_key + 1
                    &&& final(m).has_key(key_seq(old(self).next_key))
                    &&& final(m).title == old(m).title
                    &&& final(m).description == old(m).description
                    &&& final(m).watchlist == old(m).watchlist
                    &&& final(m).watched == old(m).watched
                    &&& final(m).created_at == old(self).clock
                    &&& final(m).updated_at == old(self).clock
                    &&& final(self).media@ == old(self).media@.push(*final(m))
                },
                Err(StoreError::Schema) => {
                    &&& !old(m).valid()
                    &&& *final(self) == *old(self)
                    &&& *final(m) == *old(m)
                },
                Err(StoreError::Exhausted) => {
                    &&& old(m).valid()
                    &&& old(self).next_key == u64::MAX
                    &&& *final(self) == *old(self)
                    &&& *final(m) == *old(m)
                },
            },
    {
        if !Self::check_media_schema(m) {
            return Err(StoreError::Schema);
        }
        let key = match self.generate_new_key(Table::Media) {
            Ok(k) => k,
            Err(e) => {
                return Err(e);
            },
        };
        m.id = Some(key);
        m.created_at = self.clock;
        m.updated_at = self.clock;
        self.media.push(m.clone());
        proof {
            let s0 = old(self).media@;
            let s1 = self.media@;
            let mm = *m;
            assert(s1 == s0.push(mm));
            lemma_find_media_props(s0, mm.key());
            assert forall|i: int, j: int| 0 <= i < j < s1.len() implies s1[i].key()
                != s1[j].key() by {
                if j == s1.len() - 1 {
                    assert(s1[i] == s0[i]);
                    assert(!s0[i].has_key(mm.key()));
                }
            }
            assert forall|i: int| 0 <= i < s1.len() implies (#[trigger] s1[i]).wf_in(
                self.next_key,
            ) by {
                if i < s1.len() - 1 {
                    assert(s1[i] == s0[i]);
                    assert(s0[i].wf_in(self.next_key));
                }
            }
        }
        Ok(())
    }

    /// A method to synchronize the media in the store: a record without
    /// an identifier is created; an identified record has `updated_at`
    /// set to the clock and its full content persisted over the stored
    /// record (or inserted, if its identifier is unknown).
    pub fn sync_media(&mut self, m: &mut Media) -> (r: Result<(), StoreError>)
        requires
            old(self).wf(),
        ensures
            final(self).wf(),
            final(self).users == old(self).users,
            final(self).watchlists == old(self).watchlists,
            final(self).clock == old(self).clock,
            old(m).id is None ==> match r {
                Ok(()) => {
                    &&& old(m).valid()
                    &&& old(self).next_key < u64::MAX
                    &&& final(self).next_key == old(self).next_key + 1
                    &&& final(m).has_key(key_seq(old(self).next_key))
                    &&& final(m).title == old(m).title
                    &&& final(m).description == old(m).description
                    &&& final(m).watchlist == old(m).watchlist
                    &&& final(m).watched == old(m).watched
                    &&& final(m).created_at == old(self).clock
                    &&& final(m).updated_at == old(self).clock
                    &&& final(self).media@ == old(self).media@.push(*final(m))
                },
                Err(StoreError::Schema) => {
                    &&& !old(m).valid()
                    &&& *final(self) == *old(self)
                    &&& *final(m) == *old(m)
                },
                Err(StoreError::Exhausted) => {
                    &&& old(self).next_key == u64::MAX
                    &&& *final(self) == *old(self)
                    &&& *final(m) == *old(m)
                },
            },
            old(m).id is Some ==> match r {
                Ok(()) => {
                    &&& old(m).valid()
                    &&& is_key(old(m).key())
                    &&& decode_key(old(m).key()) < old(self).next_key
                    &&& final(m).id == old(m).id
                    &&& final(m).title == old(m).title
                    &&& final(m).description == old(m).description
                    &&& final(m).watchlist == old(m).watchlist
                    &&& final(m).watched == old(m).watched
                    &&& final(m).created_at == old(m).created_at
                    &&& final(m).updated_at == old(self).clock
                    &&& final(self).next_key == old(self).next_key
                    &&& ({
                        let idx = find_media_idx(old(self).media@, old(m).key());
                        if idx == -1 {
                            final(self).media@ == old(self).media@.push(*final(m))
                        } else {
                            final(self).media@ == old(self).media@.update(idx, *final(m))
                        }
                    })
                },
                Err(StoreError::Schema) => {
                    &&& !({
                        &&& old(m).valid()
                        &&& is_key(old(m).key())
                        &&& decode_key(old(m).key()) < old(self).next_key
                    })
                    &&& *final(self) == *old(self)
                    &&& *final(m) == *old(m)
                },
                Err(StoreError::Exhausted) => false,
            },
    {
        let key = match &m.id {
            None => {
                return self.create_media(m);
            },
            Some(s) => s.clone(),
        };
        if !Self::check_media_schema(m) {
            return Err(StoreError::Schema);
        }
        let key_ok = match crate::ids::decode_key_checked(key.as_str()) {
            Some(v) => v < self.next_key as u128,
            None => false,
        };
        if !key_ok {
            return Err(StoreError::Schema);
        }
        m.updated_at = self.clock;
        let found = self.media_index_of(&key);
        proof {
            lemma_find_media_props(self.media@, key@);
        }
        match found {
            Some(i) => {
                self.media.remove(i);
                self.media.insert(i, m.clone());
                proof {
                    let s0 = old(self).media@;
                    let s1 = self.media@;
                    let mm = *m;
                    let idx = find_media_idx(s0, mm.key());
                    assert(s1 =~= s0.update(idx, mm));
                    assert forall|a: int, b: int| 0 <= a < b < s1.len() implies s1[a].key()
                        != s1[b].key() by {
                        if a != idx && b != idx {
                            assert(s1[a] == s0[a] && s1[b] == s0[b]);
                        } else if a == idx {
                            assert(s1[b] == s0[b]);
                            assert(s0[idx].key() == mm.key());
                        } else {
                            assert(s1[a] == s0[a]);
                            assert(s0[idx].key() == mm.key());
                        }
                    }
                    assert forall|a: int| 0 <= a < s1.len() implies (#[trigger] s1[a]).wf_in(
                        self.next_key,
                    ) by {
                        if a != idx {
                            assert(s1[a] == s0[a]);
                        }
                    }
                }
                Ok(())
            },
            None => {
                self.media.push(m.clone());
                proof {
                    let s0 = old(self).media@;
                    let s1 = self.media@;
                    let mm = *m;
                    assert(s1 == s0.push(mm));
                    assert forall|a: int, b: int| 0 <= a < b < s1.len() implies s1[a].key()
                        != s1[b].key() by {
                        if b == s1.len() - 1 {
                            assert(s1[a] == s0[a]);
                            assert(!s0[a].has_key(mm.key()));
                        }
                    }
                    assert forall|a: int| 0 <= a < s1.len() implies (#[trigger] s1[a]).wf_in(
                        self.next_key,
                    ) by {
                        if a < s1.len() - 1 {
                            assert(s1[a] == s0[a]);
                        }
                    }
                }
                Ok(())
            },
        }
    }

    /// A method to delete the media from the store: a no-op success
    /// when the record has no identifier or is unknown.
    pub fn delete_media(&mut self, m: Media)
        requires
            old(self).wf(),
        ensures
            final(self).wf(),
            final(self).users == old(self).users,
            final(self).watchlists == old(self).watchlists,
            final(self).clock == old(self).clock,
            final(self).next_key == old(self).next_key,
            match m.id {
                None => final(self).media == old(self).media,
                Some(_) => {
                    let idx = find_media_idx(old(self).media@, m.key());
                    if idx == -1 {
                        final(self).media == old(self).media
                    } else {
                        final(self).media@ == old(self).media@.remove(idx)
                    }
                },
            },
            m.id is Some ==> find_media_idx(final(self).media@, m.key()) == -1,
    {
        let key = match &m.id {
            None => {
                return ;
            },
            Some(s) => s.clone(),
        };
        let found = self.media_index_of(&key);
        proof {
            lemma_find_media_props(self.media@, key@);
        }
        match found {
            None => {},
            Some(i) => {
                self.media.remove(i);
                proof {
                    let s0 = old(self).media@;
                    let s1 = self.media@;
                    let idx = find_media_idx(s0, m.key());
                    assert(s1 == s0.remove(idx));
                    assert forall|a: int| 0 <= a < s1.len() implies s1[a]
                        == if a < idx {
                            s0[a]
                        } else {
                            s0[a + 1]
                        } by {}
                    lemma_find_media_props(s1, m.key());
                    if find_media_idx(s1, m.key()) != -1 {
                        let j = find_media_idx(s1, m.key());
                        if j < idx {
                            assert(s0[j].has_key(m.key()));
                            assert(s0[idx].has_key(m.key()));
                        } else {
                            assert(s0[j + 1].has_key(m.key()));
                            assert(s0[idx].has_key(m.key()));
                        }
                        assert(false);
                    }
                }
            },
        }
    }
}

/// The watchlists whose owner is `k`, in table order.
pub open spec fn owned_by(s: Seq<Watchlist>, k: Seq<char>) -> Seq<Watchlist>
    decreases s.len(),
{
    if s.len() == 0 {
        Seq::empty()
    } else {
        let rest = owned_by(s.drop_last(), k);
        if s.last().owner_key() == k {
            rest.push(s.last())
        } else {
            rest
        }
    }
}

/// The watchlists that list `k` among their members, in table order.
pub open spec fn member_of(s: Seq<Watchlist>, k: Seq<char>) -> Seq<Watchlist>
    decreases s.len(),
{
    if s.len() == 0 {
        Seq::empty()
    } else {
        let rest = member_of(s.drop_last(), k);
        if s.last().member_keys().contains(k) {
            rest.push(s.last())
        } else {
            rest
        }
    }
}

/// The media that reference watchlist `k`, in table order.
pub open spec fn media_in(s: Seq<Media>, k: Seq<char>) -> Seq<Media>
    decreases s.len(),
{
    if s.len() == 0 {
        Seq::empty()
    } else {
        let rest = media_in(s.drop_last(), k);
        if s.last().watchlist@ == k {
            rest.push(s.last())
        } else {
            rest
        }
    }
}

impl User {
    /// A method to get a user by username; the lookup folds the given
    /// username to lowercase, as the user table stores it.
    pub fn from_username(store: &Store, username: &str) -> (r: Option<User>)
        ensures
            r == find_username(store.users@, crate::text::lower_seq(username@)),
    {
        store.lookup_username(username)
    }

    /// A method to get all watchlists the user owns.
    pub fn get_watchlists_as_owner(&self, store: &Store) -> (r: Vec<Watchlist>)
        requires
            store.wf(),
            self.id is Some,
        ensures
            r@.len() == owned_by(store.watchlists@, self.key()).len(),
            forall|i: int|
                0 <= i < r@.len() ==> (#[trigger] r@[i]).same_as(
                    owned_by(store.watchlists@, self.key())[i],
                ),
    {
        let key = match &self.id {
            Some(s) => s.clone(),
            None => vstd::pervasive::unreached(),
        };
        let mut r: Vec<Watchlist> = Vec::new();
        let mut i: usize = 0;
        while i < store.watchlists.len()
            invariant
                store.wf(),
                i <= store.watchlists@.len(),
                key@ == self.key(),
                r@.len() == owned_by(store.watchlists@.take(i as int), key@).len(),
                forall|j: int|
                    0 <= j < r@.len() ==> (#[trigger] r@[j]).same_as(
                        owned_by(store.watchlists@.take(i as int), key@)[j],
                    ),
            decreases store.watchlists@.len() - i,
        {
            let w = &store.watchlists[i];
            let hit = match &w.owner {
                Some(o) => *o == *(&key),
                None => false,
            };
            proof {
                assert(store.watchlists@.take(i + 1).drop_last() =~= store.watchlists@.take(
                    i as int,
                ));
                assert(store.watchlists@.take(i + 1).last() == store.watchlists@[i as int]);
            }
            if hit {
                r.push(w.clone());
            }
            i = i + 1;
        }
        proof {
            assert(store.watchlists@.take(store.watchlists@.len() as int) =~= store.watchlists@);
        }
        r
    }

    /// A method to get all watchlists the user is a member of.
    pub fn get_watchlists_as_member(&self, store: &Store) -> (r: Vec<Watchlist>)
        requires
            store.wf(),
            self.id is Some,
        ensures
            r@.len() == member_of(store.watchlists@, self.key()).len(),
            forall|i: int|
                0 <= i < r@.len() ==> (#[trigger] r@[i]).same_as(
                    member_of(store.watchlists@, self.key())[i],
                ),
    {
        let key = match &self.id {
            Some(s) => s.clone(),
            None => vstd::pervasive::unreached(),
        };
        let mut r: Vec<Watchlist> = Vec::new();
        let mut i: usize = 0;
        while i < store.watchlists.len()
            invariant
                store.wf(),
                i <= store.watchlists@.len(),
                key@ == self.key(),
                r@.len() == member_of(store.watchlists@.take(i as int), key@).len(),
                forall|j: int|
                    0 <= j < r@.len() ==> (#[trigger] r@[j]).same_as(
                        member_of(store.watchlists@.take(i as int), key@)[j],
                    ),
            decreases store.watchlists@.len() - i,
        {
            let w = &store.watchlists[i];
            let hit = w.has_member(&key);
            proof {
                assert(store.watchlists@.take(i + 1).drop_last() =~= store.watchlists@.take(
                    i as int,
                ));
                assert(store.watchlists@.take(i + 1).last() == store.watchlists@[i as int]);
            }
            if hit {
                r.push(w.clone());
            }
            i = i + 1;
        }
        proof {
            assert(store.watchlists@.take(store.watchlists@.len() as int) =~= store.watchlists@);
        }
        r
    }
}

impl Watchlist {
    /// A method to get all the media from the watchlist.
    pub fn get_media(&self, store: &Store) -> (r: Vec<Media>)
        requires
            self.id is Some,
        ensures
            r@ == media_in(store.media@, self.key()),
    {
        let key = match &self.id {
            Some(s) => s.clone(),
            None => vstd::pervasive::unreached(),
        };
        let mut r: Vec<Media> = Vec::new();
        let mut i: usize = 0;
        while i < store.media.len()
            invariant
                i <= store.media@.len(),
                key@ == self.key(),
                r@ == media_in(store.media@.take(i as int), key@),
            decreases store.media@.len() - i,
        {
            let m = &store.media[i];
            let hit = m.watchlist == key;
            proof {
                assert(store.media@.take(i + 1).drop_last() =~= store.media@.take(i as int));
                assert(store.media@.take(i + 1).last() == store.media@[i as int]);
            }
            if hit {
                r.push(m.clone());
            }
            i = i + 1;
        }
        proof {
            assert(store.media@.take(store.media@.len() as int) =~= store.media@);
        }
        r
    }
}

/// Records selected by `owned_by` keep their table well-formedness,
/// and each has owner `k`.
pub proof fn lemma_owned_by_wf(s: Seq<Watchlist>, k: Seq<char>, bound: u64)
    requires
        forall|i: int| 0 <= i < s.len() ==> (#[trigger] s[i]).wf_in(bound),
    ensures
        forall|i: int|
            0 <= i < owned_by(s, k).len() ==> (#[trigger] owned_by(s, k)[i]).wf_in(bound)
                && owned_by(s, k)[i].owner_key() == k,
    decreases s.len(),
{
    if s.len() > 0 {
        let rest = s.drop_last();
        assert(forall|i: int| 0 <= i < rest.len() ==> rest[i] == s[i]);
        lemma_owned_by_wf(rest, k, bound);
        assert forall|i: int| 0 <= i < owned_by(s, k).len() implies (#[trigger] owned_by(
            s,
            k,
        )[i]).wf_in(bound) && owned_by(s, k)[i].owner_key() == k by {
            if i < owned_by(rest, k).len() {
                assert(owned_by(s, k)[i] == owned_by(rest, k)[i]);
            } else {
                assert(owned_by(s, k)[i] == s.last());
            }
        }
    }
}

/// Records selected by `member_of` keep their table well-formedness,
/// and each lists `k` as a member.
pub proof fn lemma_member_of_wf(s: Seq<Watchlist>, k: Seq<char>, bound: u64)
    requires
        forall|i: int| 0 <= i < s.len() ==> (#[trigger] s[i]).wf_in(bound),
    ensures
        forall|i: int|
            0 <= i < member_of(s, k).len() ==> (#[trigger] member_of(s, k)[i]).wf_in(bound)
                && member_of(s, k)[i].member_keys().contains(k),
    decreases s.len(),
{
    if s.len() > 0 {
        let rest = s.drop_last();
        assert(forall|i: int| 0 <= i < rest.len() ==> rest[i] == s[i]);
        lemma_member_of_wf(rest, k, bound);
        assert forall|i: int| 0 <= i < member_of(s, k).len() implies (#[trigger] member_of(
            s,
            k,
        )[i]).wf_in(bound) && member_of(s, k)[i].member_keys().contains(k) by {
            if i < member_of(rest, k).len() {
                assert(member_of(s, k)[i] == member_of(rest, k)[i]);
            } else {
                assert(member_of(s, k)[i] == s.last());
            }
        }
    }
}

/// Records selected by `media_in` keep their table well-formedness,
/// and each references watchlist `k`.
pub proof fn lemma_media_in_wf(s: Seq<Media>, k: Seq<char>, bound: u64)
    requires
        forall|i: int| 0 <= i < s.len() ==> (#[trigger] s[i]).wf_in(bound),
    ensures
        forall|i: int|
            0 <= i < media_in(s, k).len() ==> (#[trigger] media_in(s, k)[i]).wf_in(bound)
                && media_in(s, k)[i].watchlist@ == k,
    decreases s.len(),
{
    if s.len() > 0 {
        let rest = s.drop_last();
        assert(forall|i: int| 0 <= i < rest.len() ==> rest[i] == s[i]);
        lemma_media_in_wf(rest, k, bound);
        assert forall|i: int| 0 <= i < media_in(s, k).len() implies (#[trigger] media_in(
            s,
            k,
        )[i]).wf_in(bound) && media_in(s, k)[i].watchlist@ == k by {
            if i < media_in(rest, k).len() {
                assert(media_in(s, k)[i] == media_in(rest, k)[i]);
            } else {
                assert(media_in(s, k)[i] == s.last());
            }
        }
    }
}

} // verus!
