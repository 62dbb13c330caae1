//! The user endpoints: registration, login, update, deletion.

use watchlist::response_body::Status;
use watchlist::store::Store;
use watchlist::user_controller::{delete_user, get_user, patch_user, post_user, post_user_login};
use watchlist::user_model::UserRequest;

fn auth(id: &str, pass: &str) -> (String, Option<String>) {
    (id.to_string(), Some(pass.to_string()))
}

#[test]
fn register_then_login_end_to_end() {
    let mut store = Store::new();
    let r = post_user(&mut store, UserRequest::new("alice01", "Secret1!"));
    assert_eq!(r.0, 201);
    assert!(matches!(r.1.status, Status::Success));
    assert!(r.1.message.is_none());
    let created = r.1.data.expect("created user in body");
    assert_eq!(created.username, "alice01");
    assert!(!created.id.is_empty());

    let r = post_user_login(&store, auth("alice01", "Secret1!"));
    assert_eq!(r.0, 200);
    let logged = r.1.data.expect("logged-in user in body");
    assert_eq!(logged.id, created.id);
    assert_eq!(logged.username, "alice01");
}

#[test]
fn login_with_wrong_password_is_unauthorized() {
    let mut store = Store::new();
    post_user(&mut store, UserRequest::new("alice01", "Secret1!"));

    let r = post_user_login(&store, auth("alice01", "WrongPass1!"));
    assert_eq!(r.0, 401);
    assert!(matches!(r.1.status, Status::Failed));
    assert!(r.1.data.is_none());
    assert!(r.1.message.is_some());

    let r = post_user_login(&store, auth("nobody99", "Secret1!"));
    assert_eq!(r.0, 401);

    let r = post_user_login(&store, ("alice01".to_string(), None));
    assert_eq!(r.0, 401);

    // A malformed username in the credentials is a bad request.
    let r = post_user_login(&store, auth("ab", "Secret1!"));
    assert_eq!(r.0, 400);
}

#[test]
fn login_folds_username_case() {
    let mut store = Store::new();
    post_user(&mut store, UserRequest::new("alice01", "Secret1!"));
    let r = post_user_login(&store, auth("ALICE01", "Secret1!"));
    assert_eq!(r.0, 200);
    assert_eq!(r.1.data.expect("user").username, "alice01");
}

#[test]
fn registration_lowercases_usernames() {
    let mut store = Store::new();
    let r = post_user(&mut store, UserRequest::new("Alice01", "Secret1!"));
    assert_eq!(r.0, 201);
    assert_eq!(r.1.data.expect("user").username, "alice01");
}

#[test]
fn registration_rejects_bad_and_duplicate_usernames() {
    let mut store = Store::new();
    let r = post_user(&mut store, UserRequest::new("ab", "Secret1!"));
    assert_eq!(r.0, 400);
    let r = post_user(&mut store, UserRequest::new("name{with}braces", "Secret1!"));
    assert_eq!(r.0, 400);
    let r = post_user(&mut store, UserRequest::new("alice01", "Secret1!"));
    assert_eq!(r.0, 201);
    let r = post_user(&mut store, UserRequest::new("alice01", "Other1!"));
    assert_eq!(r.0, 400);
    // The same name in another case is also taken.
    let r = post_user(&mut store, UserRequest::new("ALICE01", "Other1!"));
    assert_eq!(r.0, 400);
}

#[test]
fn patch_keeps_identifier_and_creation_timestamp() {
    let mut store = Store::new();
    store.advance_clock(1000);
    let created = post_user(&mut store, UserRequest::new("alice01", "Secret1!"))
        .1
        .data
        .expect("created user");

    store.advance_clock(2000);
    let r = patch_user(
        &mut store,
        auth(&created.id, "Secret1!"),
        UserRequest::new("alice02", "NewPass1!"),
    );
    assert_eq!(r.0, 200);
    let updated = r.1.data.expect("updated user");
    assert_eq!(updated.id, created.id);
    assert_eq!(updated.created_at, created.created_at);
    assert_eq!(updated.username, "alice02");
    assert_eq!(updated.updated_at, 2000);

    // The new credentials hold, the old do not.
    assert_eq!(post_user_login(&store, auth("alice02", "NewPass1!")).0, 200);
    assert_eq!(post_user_login(&store, auth("alice02", "Secret1!")).0, 401);
    assert_eq!(post_user_login(&store, auth("alice01", "NewPass1!")).0, 401);
}

#[test]
fn patch_rejects_taken_or_invalid_usernames() {
    let mut store = Store::new();
    let alice = post_user(&mut store, UserRequest::new("alice01", "Secret1!"))
        .1
        .data
        .expect("alice");
    post_user(&mut store, UserRequest::new("bob", "Hunter2!"));

    let r = patch_user(&mut store, auth(&alice.id, "Secret1!"), UserRequest::new("bob", "Secret1!"));
    assert_eq!(r.0, 400);
    let r = patch_user(&mut store, auth(&alice.id, "Secret1!"), UserRequest::new("x", "Secret1!"));
    assert_eq!(r.0, 400);
    let r = patch_user(
        &mut store,
        auth(&alice.id, "BadPass!"),
        UserRequest::new("carol", "Secret1!"),
    );
    assert_eq!(r.0, 401);
}

#[test]
fn delete_removes_the_account() {
    let mut store = Store::new();
    let alice = post_user(&mut store, UserRequest::new("alice01", "Secret1!"))
        .1
        .data
        .expect("alice");

    let r = delete_user(&mut store, auth(&alice.id, "WrongPass!"));
    assert_eq!(r.0, 401);

    let r = delete_user(&mut store, auth(&alice.id, "Secret1!"));
    assert_eq!(r.0, 200);
    assert!(r.1.data.is_none());

    let r = get_user(&store, alice.id.clone());
    assert_eq!(r.0, 404);
    assert_eq!(post_user_login(&store, auth("alice01", "Secret1!")).0, 401);
}

#[test]
fn get_unknown_user_is_not_found() {
    let store = Store::new();
    let r = get_user(&store, "0000000000000".to_string());
    assert_eq!(r.0, 404);
}
