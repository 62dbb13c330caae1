//! The merge operations directly: whatever partial content is
//! supplied, an entity's identifier and creation timestamp never
//! change.

use watchlist::media_model::Media;
use watchlist::user_model::User;
use watchlist::watchlist_model::Watchlist;

#[test]
fn user_merge_keeps_identity() {
    let mut u = User {
        id: Some("0000000000000".to_string()),
        username: "alice01".to_string(),
        password: "0".repeat(128),
        created_at: 11,
        updated_at: 12,
    };
    let other = User {
        id: Some("0000000000005".to_string()),
        username: "bob".to_string(),
        password: "1".repeat(128),
        created_at: 99,
        updated_at: 98,
    };
    u.merge(other);
    assert_eq!(u.id.as_deref(), Some("0000000000000"));
    assert_eq!(u.created_at, 11);
    assert_eq!(u.username, "bob");
    assert_eq!(u.password, "1".repeat(128));
}

#[test]
fn watchlist_merge_keeps_identity_and_owner() {
    let mut w = Watchlist {
        id: Some("0000000000002".to_string()),
        owner: Some("0000000000000".to_string()),
        members: vec![],
        title: "movies".to_string(),
        description: "films to watch".to_string(),
        created_at: 7,
        updated_at: 8,
    };
    let other = Watchlist {
        id: Some("0000000000009".to_string()),
        owner: Some("0000000000001".to_string()),
        members: vec!["0000000000001".to_string()],
        title: "series".to_string(),
        description: "shows to watch".to_string(),
        created_at: 77,
        updated_at: 88,
    };
    w.merge(other);
    assert_eq!(w.id.as_deref(), Some("0000000000002"));
    assert_eq!(w.owner.as_deref(), Some("0000000000000"));
    assert_eq!(w.created_at, 7);
    assert_eq!(w.title, "series");
    assert_eq!(w.members, vec!["0000000000001".to_string()]);
}

#[test]
fn media_merge_keeps_identity_and_watchlist() {
    let mut m = Media {
        id: Some("0000000000003".to_string()),
        title: "dune".to_string(),
        description: "the first part".to_string(),
        watchlist: "0000000000002".to_string(),
        watched: false,
        created_at: 5,
        updated_at: 6,
    };
    let other = Media {
        id: Some("0000000000008".to_string()),
        title: "dune two".to_string(),
        description: "the second part".to_string(),
        watchlist: "0000000000009".to_string(),
        watched: true,
        created_at: 55,
        updated_at: 66,
    };
    m.merge(other);
    assert_eq!(m.id.as_deref(), Some("0000000000003"));
    assert_eq!(m.watchlist, "0000000000002");
    assert_eq!(m.created_at, 5);
    assert_eq!(m.title, "dune two");
    assert!(m.watched);
}
