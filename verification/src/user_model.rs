//! The User entity: account identity, a lowercase unique username, and
//! the stored password hash. The raw password never reaches a record:
//! requests are folded into records with the username lowercased and
//! the password replaced by its hash.

use vstd::prelude::*;
use vstd::string::*;

use crate::ids::{decode_key, is_key};
use crate::security::{get_sha512, password_hash, valid_field, valid_password_hash};
use crate::text::{lower_seq, to_ascii_lowercase};

verus! {

/// A user record. `id` is `None` until the record is persisted.
pub struct User {
    pub id: Option<String>,
    pub username: String,
    pub password: String,
    pub created_at: u64,
    pub updated_at: u64,
}

/// The caller-supplied part of a user: credentials in the clear.
pub struct UserRequest {
    pub username: String,
    pub password: String,
}

/// What a user looks like to clients: no password field exists here.
pub struct UserResponse {
    pub id: String,
    pub username: String,
    pub created_at: u64,
    pub updated_at: u64,
}

impl User {
    /// The record's key; empty if the record was never persisted.
    pub open spec fn key(self) -> Seq<char> {
        match self.id {
            Some(s) => s@,
            None => Seq::empty(),
        }
    }

    /// Whether this record is persisted under key `k`.
    pub open spec fn has_key(self, k: Seq<char>) -> bool {
        self.id matches Some(s) && s@ == k
    }

    /// The user table schema: a valid, lowercase username of at most 20
    /// characters, and a password hash of 128 lowercase hex digits.
    pub open spec fn valid(self) -> bool {
        &&& valid_field(self.username@, 20)
        &&& self.username@ == lower_seq(self.username@)
        &&& valid_password_hash(self.password@)
    }

    /// A persisted record in a store whose next sequence number is `bound`.
    pub open spec fn wf_in(self, bound: u64) -> bool {
        &&& self.id is Some
        &&& is_key(self.key())
        &&& decode_key(self.key()) < bound
        &&& self.valid()
    }

    /// Folds a request into a fresh record: the username is lowercased
    /// and the password replaced by its hash before anything is stored.
    pub fn from_request(value: UserRequest) -> (u: User)
        ensures
            u.id is None,
            u.username@ == lower_seq(value.username@),
            u.password@ == password_hash(value.password@),
            valid_password_hash(u.password@),
    {
        let username = to_ascii_lowercase(value.username.as_str());
        let password = get_sha512(value.password.as_str().as_bytes());
        User { id: None, username, password, created_at: 0, updated_at: 0 }
    }

    /// A method to merge the user with another user: only the
    /// caller-mutable fields change; the identifier and the creation
    /// timestamp never do.
    pub fn merge(&mut self, value: User)
        ensures
            final(self).id == old(self).id,
            final(self).created_at == old(self).created_at,
            final(self).updated_at == old(self).updated_at,
            final(self).username == value.username,
            final(self).password == value.password,
    {
        self.username = value.username;
        self.password = value.password;
    }

    /// A method to check if the login is valid for the user: the
    /// supplied password is hashed and compared with the stored hash.
    pub fn is_login_valid(&self, passwd: String) -> (r: bool)
        ensures
            r == (self.password@ == password_hash(passwd@)),
    {
        let hash = get_sha512(passwd.as_str().as_bytes());
        if self.password != hash {
            return false;
        }
        true
    }

    /// A method to convert the current User to a UserResponse; the
    /// password is left behind.
    pub fn to_user_response(&self) -> (r: UserResponse)
        requires
            self.id is Some,
        ensures
            r.id@ == self.key(),
            r.username@ == self.username@,
            r.created_at == self.created_at,
            r.updated_at == self.updated_at,
    {
        let id = match &self.id {
            Some(s) => s.clone(),
            None => vstd::pervasive::unreached(),
        };
        UserResponse {
            id,
            username: self.username.clone(),
            created_at: self.created_at,
            updated_at: self.updated_at,
        }
    }
}

impl Clone for User {
    fn clone(&self) -> (r: Self)
        ensures
            r == *self,
    {
        User {
            id: match &self.id {
                Some(s) => Some(s.clone()),
                None => None,
            },
            username: self.username.clone(),
            password: self.password.clone(),
            created_at: self.created_at,
            updated_at: self.updated_at,
        }
    }
}

impl UserRequest {
    pub fn new(username: &str, password: &str) -> (r: Self)
        ensures
            r.username@ == username@,
            r.password@ == password@,
    {
        UserRequest { username: username.to_owned(), password: password.to_owned() }
    }

    /// A method to extract the username and the password from the
    /// UserRequest.
    pub fn extract_auth(&self) -> (r: (&str, Option<&str>))
        ensures
            r.0@ == self.username@,
            r.1 matches Some(p) && p@ == self.password@,
    {
        (self.username.as_str(), Some(self.password.as_str()))
    }
}

} // verus!
