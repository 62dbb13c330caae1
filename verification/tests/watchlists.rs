//! The watchlist endpoints: ownership, membership, the member-list
//! rule, and the merge that keeps identity and creation time.

use watchlist::response_body::Status;
use watchlist::store::Store;
use watchlist::user_controller::post_user;
use watchlist::user_model::UserRequest;
use watchlist::watchlist_controller::{
    delete_watchlist, get_watchlist, get_watchlists, patch_watchlist, post_watchlist,
};
use watchlist::watchlist_model::WatchlistRequest;

fn auth(id: &str, pass: &str) -> (String, Option<String>) {
    (id.to_string(), Some(pass.to_string()))
}

/// A store with two registered users; returns their identifiers.
fn two_users(store: &mut Store) -> (String, String) {
    let a = post_user(store, UserRequest::new("alice01", "Secret1!"))
        .1
        .data
        .expect("alice")
        .id;
    let b = post_user(store, UserRequest::new("bob", "Hunter2!"))
        .1
        .data
        .expect("bob")
        .id;
    (a, b)
}

#[test]
fn create_a_watchlist() {
    let mut store = Store::new();
    store.advance_clock(500);
    let (a, b) = two_users(&mut store);
    let r = post_watchlist(
        &mut store,
        auth(&a, "Secret1!"),
        WatchlistRequest::new("movies", "films to watch", &vec![b.clone()]),
    );
    assert_eq!(r.0, 201);
    let w = r.1.data.expect("watchlist");
    assert_eq!(w.owner, a);
    assert_eq!(w.members, vec![b]);
    assert_eq!(w.title, "movies");
    assert_eq!(w.description, "films to watch");
    assert_eq!(w.created_at, 500);
    assert_eq!(w.updated_at, 500);
}

#[test]
fn owner_is_never_accepted_as_member() {
    let mut store = Store::new();
    let (a, b) = two_users(&mut store);

    let r = post_watchlist(
        &mut store,
        auth(&a, "Secret1!"),
        WatchlistRequest::new("movies", "films to watch", &vec![a.clone()]),
    );
    assert_eq!(r.0, 400);

    let wid = post_watchlist(
        &mut store,
        auth(&a, "Secret1!"),
        WatchlistRequest::new("movies", "films to watch", &vec![b.clone()]),
    )
    .1
    .data
    .expect("watchlist")
    .id;

    // The same rule guards the merge on update.
    let r = patch_watchlist(
        &mut store,
        auth(&a, "Secret1!"),
        wid.clone(),
        WatchlistRequest::new("movies", "films to watch", &vec![a.clone()]),
    );
    assert_eq!(r.0, 400);
    let w = get_watchlist(&store, auth(&a, "Secret1!"), wid).1.data.expect("watchlist");
    assert!(!w.members.contains(&w.owner));
}

#[test]
fn members_must_exist() {
    let mut store = Store::new();
    let (a, _) = two_users(&mut store);
    let r = post_watchlist(
        &mut store,
        auth(&a, "Secret1!"),
        WatchlistRequest::new("movies", "films to watch", &vec!["0000000000999".to_string()]),
    );
    assert_eq!(r.0, 400);
}

#[test]
fn fields_are_validated_by_the_schema() {
    let mut store = Store::new();
    let (a, _) = two_users(&mut store);
    let r = post_watchlist(
        &mut store,
        auth(&a, "Secret1!"),
        WatchlistRequest::new("ab", "films to watch", &vec![]),
    );
    assert_eq!(r.0, 400);
    let r = post_watchlist(
        &mut store,
        auth(&a, "Secret1!"),
        WatchlistRequest::new("movies", "no", &vec![]),
    );
    assert_eq!(r.0, 400);
}

#[test]
fn reads_are_for_owner_and_members_only() {
    let mut store = Store::new();
    let (a, b) = two_users(&mut store);
    let c = post_user(&mut store, UserRequest::new("carol", "Letme1n!"))
        .1
        .data
        .expect("carol")
        .id;
    let wid = post_watchlist(
        &mut store,
        auth(&a, "Secret1!"),
        WatchlistRequest::new("movies", "films to watch", &vec![b.clone()]),
    )
    .1
    .data
    .expect("watchlist")
    .id;

    assert_eq!(get_watchlist(&store, auth(&a, "Secret1!"), wid.clone()).0, 200);
    assert_eq!(get_watchlist(&store, auth(&b, "Hunter2!"), wid.clone()).0, 200);
    assert_eq!(get_watchlist(&store, auth(&c, "Letme1n!"), wid.clone()).0, 403);
    assert_eq!(get_watchlist(&store, auth(&a, "Wrong!"), wid.clone()).0, 401);
    assert_eq!(get_watchlist(&store, auth(&a, "Secret1!"), "0000000000999".to_string()).0, 404);
}

#[test]
fn patch_merges_only_mutable_fields() {
    let mut store = Store::new();
    store.advance_clock(100);
    let (a, b) = two_users(&mut store);
    let created = post_watchlist(
        &mut store,
        auth(&a, "Secret1!"),
        WatchlistRequest::new("movies", "films to watch", &vec![]),
    )
    .1
    .data
    .expect("watchlist");

    store.advance_clock(200);
    let r = patch_watchlist(
        &mut store,
        auth(&a, "Secret1!"),
        created.id.clone(),
        WatchlistRequest::new("series", "shows to watch", &vec![b.clone()]),
    );
    assert_eq!(r.0, 200);
    let updated = r.1.data.expect("watchlist");
    assert_eq!(updated.id, created.id);
    assert_eq!(updated.owner, created.owner);
    assert_eq!(updated.created_at, created.created_at);
    assert_eq!(updated.title, "series");
    assert_eq!(updated.description, "shows to watch");
    assert_eq!(updated.members, vec![b.clone()]);
    assert_eq!(updated.updated_at, 200);

    // A member may read but not update.
    let r = patch_watchlist(
        &mut store,
        auth(&b, "Hunter2!"),
        created.id.clone(),
        WatchlistRequest::new("mine now", "shows to watch", &vec![]),
    );
    assert_eq!(r.0, 403);
}

#[test]
fn delete_is_owner_only_and_final() {
    let mut store = Store::new();
    let (a, b) = two_users(&mut store);
    let wid = post_watchlist(
        &mut store,
        auth(&a, "Secret1!"),
        WatchlistRequest::new("movies", "films to watch", &vec![b.clone()]),
    )
    .1
    .data
    .expect("watchlist")
    .id;

    let r = delete_watchlist(&mut store, auth(&b, "Hunter2!"), wid.clone());
    assert_eq!(r.0, 403);
    assert_eq!(get_watchlist(&store, auth(&a, "Secret1!"), wid.clone()).0, 200);

    let r = delete_watchlist(&mut store, auth(&a, "Secret1!"), wid.clone());
    assert_eq!(r.0, 200);
    assert!(matches!(r.1.status, Status::Success));

    let r = get_watchlist(&store, auth(&a, "Secret1!"), wid.clone());
    assert_eq!(r.0, 404);
    let r = delete_watchlist(&mut store, auth(&a, "Secret1!"), wid);
    assert_eq!(r.0, 404);
}

#[test]
fn listing_returns_owned_then_memberships() {
    let mut store = Store::new();
    let (a, b) = two_users(&mut store);
    let owned = post_watchlist(
        &mut store,
        auth(&a, "Secret1!"),
        WatchlistRequest::new("mine", "my own list", &vec![]),
    )
    .1
    .data
    .expect("watchlist")
    .id;
    let shared = post_watchlist(
        &mut store,
        auth(&b, "Hunter2!"),
        WatchlistRequest::new("theirs", "shared with alice", &vec![a.clone()]),
    )
    .1
    .data
    .expect("watchlist")
    .id;

    let r = get_watchlists(&store, auth(&a, "Secret1!"));
    assert_eq!(r.0, 200);
    let lists = r.1.data.expect("watchlists");
    assert_eq!(lists.len(), 2);
    assert_eq!(lists[0].id, owned);
    assert_eq!(lists[1].id, shared);

    assert_eq!(get_watchlists(&store, auth(&a, "nope")).0, 401);
}
