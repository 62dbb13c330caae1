//! The media endpoints: creation on a watchlist, authorization through
//! it, and the merge that keeps the watchlist reference.

use watchlist::media_controller::{delete_media, get_media, patch_media, post_media};
use watchlist::media_model::MediaRequest;
use watchlist::store::Store;
use watchlist::user_controller::post_user;
use watchlist::user_model::UserRequest;
use watchlist::watchlist_controller::{get_watchlist_medias, post_watchlist};
use watchlist::watchlist_model::WatchlistRequest;

fn auth(id: &str, pass: &str) -> (String, Option<String>) {
    (id.to_string(), Some(pass.to_string()))
}

/// Three users and a watchlist: the owner, one member, one stranger.
fn setup(store: &mut Store) -> (String, String, String, String) {
    let a = post_user(store, UserRequest::new("alice01", "Secret1!"))
        .1
        .data
        .expect("alice")
        .id;
    let b = post_user(store, UserRequest::new("bob", "Hunter2!")).1.data.expect("bob").id;
    let c = post_user(store, UserRequest::new("carol", "Letme1n!"))
        .1
        .data
        .expect("carol")
        .id;
    let wid = post_watchlist(
        store,
        auth(&a, "Secret1!"),
        WatchlistRequest::new("movies", "films to watch", &vec![b.clone()]),
    )
    .1
    .data
    .expect("watchlist")
    .id;
    (a, b, c, wid)
}

#[test]
fn members_may_add_media() {
    let mut store = Store::new();
    store.advance_clock(300);
    let (_a, b, c, wid) = setup(&mut store);

    let r = post_media(
        &mut store,
        auth(&b, "Hunter2!"),
        MediaRequest::new("dune", "the first part", &wid, false),
    );
    assert_eq!(r.0, 201);
    let m = r.1.data.expect("media");
    assert_eq!(m.title, "dune");
    assert_eq!(m.watchlist, wid);
    assert!(!m.watched);
    assert_eq!(m.created_at, 300);

    let r = post_media(
        &mut store,
        auth(&c, "Letme1n!"),
        MediaRequest::new("dune", "the first part", &wid, false),
    );
    assert_eq!(r.0, 403);
}

#[test]
fn media_needs_an_existing_watchlist() {
    let mut store = Store::new();
    let (a, _b, _c, _wid) = setup(&mut store);
    let r = post_media(
        &mut store,
        auth(&a, "Secret1!"),
        MediaRequest::new("dune", "the first part", "0000000000999", false),
    );
    assert_eq!(r.0, 400);
}

#[test]
fn media_fields_are_validated() {
    let mut store = Store::new();
    let (a, _b, _c, wid) = setup(&mut store);
    let r = post_media(&mut store, auth(&a, "Secret1!"), MediaRequest::new("ab", "desc ok", &wid, false));
    assert_eq!(r.0, 400);
    let r = post_media(&mut store, auth(&a, "Secret1!"), MediaRequest::new("dune", "no", &wid, false));
    assert_eq!(r.0, 400);
}

#[test]
fn patch_keeps_identity_and_watchlist_reference() {
    let mut store = Store::new();
    store.advance_clock(10);
    let (a, _b, c, wid) = setup(&mut store);
    let created = post_media(
        &mut store,
        auth(&a, "Secret1!"),
        MediaRequest::new("dune", "the first part", &wid, false),
    )
    .1
    .data
    .expect("media");

    // A second watchlist; the request names it, but the reference is
    // not a caller-mutable field.
    let other = post_watchlist(
        &mut store,
        auth(&a, "Secret1!"),
        WatchlistRequest::new("other", "another list", &vec![]),
    )
    .1
    .data
    .expect("watchlist")
    .id;

    store.advance_clock(20);
    let r = patch_media(
        &mut store,
        auth(&a, "Secret1!"),
        created.id.clone(),
        MediaRequest::new("dune two", "the second part", &other, true),
    );
    assert_eq!(r.0, 200);
    let updated = r.1.data.expect("media");
    assert_eq!(updated.id, created.id);
    assert_eq!(updated.watchlist, wid);
    assert_eq!(updated.created_at, created.created_at);
    assert_eq!(updated.title, "dune two");
    assert!(updated.watched);
    assert_eq!(updated.updated_at, 20);

    let r = patch_media(
        &mut store,
        auth(&c, "Letme1n!"),
        created.id.clone(),
        MediaRequest::new("dune two", "the second part", &wid, true),
    );
    assert_eq!(r.0, 403);
}

#[test]
fn delete_media_is_for_the_watchlist_circle() {
    let mut store = Store::new();
    let (_a, b, c, wid) = setup(&mut store);
    let mid = post_media(
        &mut store,
        auth(&b, "Hunter2!"),
        MediaRequest::new("dune", "the first part", &wid, false),
    )
    .1
    .data
    .expect("media")
    .id;

    assert_eq!(delete_media(&mut store, auth(&c, "Letme1n!"), mid.clone()).0, 403);
    assert_eq!(delete_media(&mut store, auth(&b, "Hunter2!"), mid.clone()).0, 200);
    assert_eq!(get_media(&store, mid.clone()).0, 404);
    assert_eq!(delete_media(&mut store, auth(&b, "Hunter2!"), mid).0, 404);
}

#[test]
fn listing_the_media_of_a_watchlist() {
    let mut store = Store::new();
    let (a, b, c, wid) = setup(&mut store);
    post_media(
        &mut store,
        auth(&a, "Secret1!"),
        MediaRequest::new("dune", "the first part", &wid, false),
    );
    post_media(
        &mut store,
        auth(&b, "Hunter2!"),
        MediaRequest::new("arrival", "first contact", &wid, true),
    );

    let r = get_watchlist_medias(&store, auth(&a, "Secret1!"), wid.clone());
    assert_eq!(r.0, 200);
    let items = r.1.data.expect("media list");
    assert_eq!(items.len(), 2);
    assert_eq!(items[0].title, "dune");
    assert_eq!(items[1].title, "arrival");

    assert_eq!(get_watchlist_medias(&store, auth(&c, "Letme1n!"), wid).0, 403);
    assert_eq!(get_watchlist_medias(&store, auth(&a, "Secret1!"), "0000000000999".to_string()).0, 404);
}

#[test]
fn get_unknown_media_is_not_found() {
    let store = Store::new();
    assert_eq!(get_media(&store, "0000000000000".to_string()).0, 404);
}
