//! The Media entity: one item on a watchlist, with a watched flag.
//! The reference to the owning watchlist is set at creation and is not
//! a caller-mutable field.

use vstd::prelude::*;
use vstd::string::*;

use crate::ids::{decode_key, is_key};
use crate::security::valid_field;

verus! {

/// A media record. `id` is `None` until the record is persisted.
pub struct Media {
    pub id: Option<String>,
    pub title: String,
    pub description: String,
    pub watchlist: String,
    pub watched: bool,
    pub created_at: u64,
    pub updated_at: u64,
}

/// The caller-supplied part of a media item.
pub struct MediaRequest {
    pub title: String,
    pub description: String,
    pub watchlist: String,
    pub watched: bool,
}

/// What a media item looks like to clients.
pub struct MediaResponse {
    pub id: String,
    pub title: String,
    pub description: String,
    pub watchlist: String,
    pub watched: bool,
    pub created_at: u64,
    pub updated_at: u64,
}

impl MediaResponse {
    /// The response that renders record `m`.
    pub open spec fn describes(self, m: Media) -> bool {
        &&& self.id@ == m.key()
        &&& self.title@ == m.title@
        &&& self.description@ == m.description@
        &&& self.watchlist@ == m.watchlist@
        &&& self.watched == m.watched
        &&& self.created_at == m.created_at
        &&& self.updated_at == m.updated_at
    }
}

impl MediaRequest {
    pub fn new(title: &str, description: &str, watchlist: &str, watched: bool) -> (r: MediaRequest)
        ensures
            r.title@ == title@,
            r.description@ == description@,
            r.watchlist@ == watchlist@,
            r.watched == watched,
    {
        MediaRequest {
            title: title.to_owned(),
            description: description.to_owned(),
            watchlist: watchlist.to_owned(),
            watched,
        }
    }
}

impl Media {
    /// The record's key; empty if the record was never persisted.
    pub open spec fn key(self) -> Seq<char> {
        match self.id {
            Some(s) => s@,
            None => Seq::empty(),
        }
    }

    /// Whether this record is persisted under key `k`.
    pub open spec fn has_key(self, k: Seq<char>) -> bool {
        self.id matches Some(s) && s@ == k
    }

    /// The media table schema: a title of at most 20 and a description
    /// of at most 60 valid characters.
    pub open spec fn valid(self) -> bool {
        &&& valid_field(self.title@, 20)
        &&& valid_field(self.description@, 60)
    }

    /// A persisted record in a store whose next sequence number is
    /// `bound`.
    pub open spec fn wf_in(self, bound: u64) -> bool {
        &&& self.id is Some
        &&& is_key(self.key())
        &&& decode_key(self.key()) < bound
        &&& self.valid()
    }

    /// Converts a request into a fresh record with no identifier yet.
    pub fn from_request(value: MediaRequest) -> (m: Media)
        ensures
            m.id is None,
            m.title == value.title,
            m.description == value.description,
            m.watchlist == value.watchlist,
            m.watched == value.watched,
    {
        Media {
            id: None,
            title: value.title,
            description: value.description,
            watchlist: value.watchlist,
            watched: value.watched,
            created_at: 0,
            updated_at: 0,
        }
    }

    /// A method to merge the media with another media: only the
    /// caller-mutable fields change; the identifier, the owning
    /// watchlist and the creation timestamp never do.
    pub fn merge(&mut self, value: Media)
        ensures
            final(self).id == old(self).id,
            final(self).watchlist == old(self).watchlist,
            final(self).created_at == old(self).created_at,
            final(self).updated_at == old(self).updated_at,
            final(self).title == value.title,
            final(self).description == value.description,
            final(self).watched == value.watched,
    {
        self.title = value.title;
        self.description = value.description;
        self.watched = value.watched;
    }

    /// A method to convert the current media to a MediaResponse.
    pub fn to_media_response(&self) -> (r: MediaResponse)
        requires
            self.id is Some,
        ensures
            r.id@ == self.key(),
            r.title@ == self.title@,
            r.description@ == self.description@,
            r.watchlist@ == self.watchlist@,
            r.watched == self.watched,
            r.created_at == self.created_at,
            r.updated_at == self.updated_at,
    {
        let id = match &self.id {
            Some(s) => s.clone(),
            None => vstd::pervasive::unreached(),
        };
        MediaResponse {
            id,
            title: self.title.clone(),
            description: self.description.clone(),
            watchlist: self.watchlist.clone(),
            watched: self.watched,
            created_at: self.created_at,
            updated_at: self.updated_at,
        }
    }
}

impl Clone for Media {
    fn clone(&self) -> (r: Self)
        ensures
            r == *self,
    {
        Media {
            id: match &self.id {
                Some(s) => Some(s.clone()),
                None => None,
            },
            title: self.title.clone(),
            description: self.description.clone(),
            watchlist: self.watchlist.clone(),
            watched: self.watched,
            created_at: self.created_at,
            updated_at: self.updated_at,
        }
    }
}

} // verus!
