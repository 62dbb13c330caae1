//! The core of a watchlist-sharing service: users, watchlists and
//! media items kept in a document store, reached through handlers
//! that authenticate, validate, authorize, merge and persist.
//!
//! The store is modelled in memory ([`store::Store`]): its tables,
//! the identifier generator ([`ids`]) and the schema rules are part
//! of the library, and every handler states in its contract which
//! reply each input earns and how the store changes. The invariants —
//! unique identifiers, unique lowercase usernames, an owner never
//! among its watchlist's members — hold in every reachable store;
//! [`laws`] states them on their own. I/O stays outside: a server
//! hands the handlers plain values and serializes the envelopes
//! ([`response_body`]) it gets back.

pub mod controllers_utils;
pub mod ids;
pub mod laws;
pub mod media_controller;
pub mod media_model;
pub mod middleware;
pub mod response_body;
pub mod security;
pub mod store;
pub mod text;
pub mod user_controller;
pub mod user_model;
pub mod watchlist_controller;
pub mod watchlist_model;
