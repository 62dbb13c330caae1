//! Handlers for the user endpoints: registration, update, deletion,
//! fetch and login. Each follows the fixed pipeline: authenticate,
//! validate, merge, persist, respond.

use vstd::prelude::*;
use vstd::string::*;

use crate::controllers_utils::{login_error_code, login_ok, login_target, login_user, Response};
use crate::response_body::{
    is_error_reply, ResponseBody, Status, BAD_REQUEST, CREATED, NOT_FOUND, OK,
};
use crate::ids::key_seq;
use crate::security::{is_valid_field, lemma_lower_field, password_hash, valid_field};
use crate::store::{
    find_user, find_user_idx, find_username, lemma_find_user_props, lemma_find_username_props,
    Store,
};
use crate::text::lower_seq;
use crate::user_model::{User, UserRequest, UserResponse};

verus! {

/// POST /user. A method to create a new user: the username is
/// validated and checked free, the record is folded (lowercase
/// username, hashed password) and persisted with a fresh identifier.
pub fn post_user(store: &mut Store, new_user: UserRequest) -> (r: Response<UserResponse>)
    requires
        old(store).wf(),
    ensures
        final(store).wf(),
        final(store).clock == old(store).clock,
        final(store).watchlists == old(store).watchlists,
        final(store).media == old(store).media,
        ({
            let name = lower_seq(new_user.username@);
            if !valid_field(new_user.username@, 20) {
                &&& is_error_reply(r, BAD_REQUEST)
                &&& *final(store) == *old(store)
            } else if find_username(old(store).users@, name) is Some {
                &&& is_error_reply(r, BAD_REQUEST)
                &&& *final(store) == *old(store)
            } else if old(store).next_key == u64::MAX {
                &&& is_error_reply(r, BAD_REQUEST)
                &&& *final(store) == *old(store)
            } else {
                &&& r.0 == CREATED
                &&& r.1.status == Status::Success
                &&& r.1.message is None
                &&& r.1.data matches Some(ur) && {
                    &&& ur.id@ == key_seq(old(store).next_key)
                    &&& ur.username@ == name
                    &&& ur.created_at == old(store).clock
                    &&& ur.updated_at == old(store).clock
                }
                &&& final(store).next_key == old(store).next_key + 1
                &&& final(store).users@.len() == old(store).users@.len() + 1
                &&& forall|i: int|
                    0 <= i < old(store).users@.len() ==> final(store).users@[i] == old(
                        store,
                    ).users@[i]
                &&& ({
                    let u = final(store).users@.last();
                    &&& u.has_key(key_seq(old(store).next_key))
                    &&& u.username@ == name
                    &&& u.password@ == password_hash(new_user.password@)
                    &&& u.created_at == old(store).clock
                    &&& u.updated_at == old(store).clock
                })
            }
        }),
{
    let ghost raw = new_user.username@;
    if !is_valid_field(new_user.username.as_str(), 20) {
        return (
            BAD_REQUEST,
            ResponseBody::error("The username is invalid. Check the parameters and try again."),
        );
    }
    if User::from_username(store, new_user.username.as_str()).is_some() {
        return (BAD_REQUEST, ResponseBody::error("The username already exists. Try other."));
    }
    let mut new_user = User::from_request(new_user);
    proof {
        lemma_lower_field(raw, 20);
    }
    match store.sync_user(&mut new_user) {
        Err(_) => (
            BAD_REQUEST,
            ResponseBody::error("Couldn't create the user. Check the parameters and try again."),
        ),
        Ok(()) => (CREATED, ResponseBody::success(new_user.to_user_response())),
    }
}

/// PATCH /user. A method to update a user: the caller authenticates,
/// a changed username is validated and checked free, and the record's
/// caller-mutable fields are merged and persisted.
pub fn patch_user(
    store: &mut Store,
    user_auth: (String, Option<String>),
    new_user_content: UserRequest,
) -> (r: Response<UserResponse>)
    requires
        old(store).wf(),
    ensures
        final(store).wf(),
        final(store).clock == old(store).clock,
        final(store).watchlists == old(store).watchlists,
        final(store).media == old(store).media,
        final(store).next_key == old(store).next_key,
        ({
            let auth_ok = user_auth.1 matches Some(p) && login_ok(
                *old(store),
                user_auth.0@,
                p@,
                false,
            );
            let raw = new_user_content.username@;
            if !auth_ok {
                &&& is_error_reply(r, login_error_code(user_auth.0@, user_auth.1, false))
                &&& *final(store) == *old(store)
            } else {
                let logged = find_user(old(store).users@, user_auth.0@)->0;
                let renamed = raw != logged.username@;
                if renamed && !valid_field(raw, 20) {
                    &&& is_error_reply(r, BAD_REQUEST)
                    &&& *final(store) == *old(store)
                } else if renamed && find_username(old(store).users@, lower_seq(raw)) is Some {
                    &&& is_error_reply(r, BAD_REQUEST)
                    &&& *final(store) == *old(store)
                } else {
                    let idx = find_user_idx(old(store).users@, user_auth.0@);
                    &&& r.0 == OK
                    &&& r.1.status == Status::Success
                    &&& r.1.message is None
                    &&& r.1.data matches Some(ur) && {
                        &&& ur.id@ == user_auth.0@
                        &&& ur.username@ == lower_seq(raw)
                        &&& ur.created_at == logged.created_at
                        &&& ur.updated_at == old(store).clock
                    }
                    &&& final(store).users@.len() == old(store).users@.len()
                    &&& forall|i: int|
                        0 <= i < old(store).users@.len() && i != idx ==> final(store).users@[i]
                            == old(store).users@[i]
                    &&& ({
                        let u = final(store).users@[idx];
                        &&& u.id == logged.id
                        &&& u.username@ == lower_seq(raw)
                        &&& u.password@ == password_hash(new_user_content.password@)
                        &&& u.created_at == logged.created_at
                        &&& u.updated_at == old(store).clock
                    })
                }
            }
        }),
{
    let mut logged_user = match login_user(store, user_auth, false) {
        Err(res) => {
            return res;
        },
        Ok(user) => user,
    };
    let ghost raw = new_user_content.username@;
    if new_user_content.username != logged_user.username {
        if !is_valid_field(new_user_content.username.as_str(), 20) {
            return (
                BAD_REQUEST,
                ResponseBody::error(
                    "The username is invalid. Check the parameters and try again.",
                ),
            );
        }
        if User::from_username(store, new_user_content.username.as_str()).is_some() {
            return (BAD_REQUEST, ResponseBody::error("The username already exists. Try other."));
        }
    }
    let new_user_content = User::from_request(new_user_content);
    logged_user.merge(new_user_content);
    proof {
        lemma_lower_field(raw, 20);
        let s0 = store.users@;
        lemma_find_user_props(s0, user_auth.0@);
        let idx = find_user_idx(s0, user_auth.0@);
        assert(idx != -1);
        let stored = s0[idx];
        assert(stored == find_user(s0, user_auth.0@)->0);
        assert(stored.has_key(user_auth.0@));
        assert(stored.wf_in(store.next_key));
        assert(logged_user.key() == user_auth.0@);
        assert forall|i: int|
            0 <= i < s0.len() && (#[trigger] s0[i]).username@
                == logged_user.username@ implies s0[i].has_key(user_auth.0@) by {
            if raw == stored.username@ {
                assert(stored.username@ == lower_seq(stored.username@));
                assert(logged_user.username@ == stored.username@);
                if i != idx {
                    assert(s0[i].username@ != s0[idx].username@);
                }
            } else {
                lemma_find_username_props(s0, lower_seq(raw));
            }
        }
    }
    match store.sync_user(&mut logged_user) {
        Err(_) => (
            BAD_REQUEST,
            ResponseBody::error("Couldn't create the user. Check the parameters and try again."),
        ),
        Ok(()) => (OK, ResponseBody::success(logged_user.to_user_response())),
    }
}

/// DELETE /user. A method to delete a user: the caller authenticates
/// and its own record is removed.
pub fn delete_user(store: &mut Store, user_auth: (String, Option<String>)) -> (r: Response<
    UserResponse,
>)
    requires
        old(store).wf(),
    ensures
        final(store).wf(),
        final(store).clock == old(store).clock,
        final(store).watchlists == old(store).watchlists,
        final(store).media == old(store).media,
        final(store).next_key == old(store).next_key,
        ({
            let auth_ok = user_auth.1 matches Some(p) && login_ok(
                *old(store),
                user_auth.0@,
                p@,
                false,
            );
            if !auth_ok {
                &&& is_error_reply(r, login_error_code(user_auth.0@, user_auth.1, false))
                &&& *final(store) == *old(store)
            } else {
                &&& r.0 == OK
                &&& r.1.status == Status::Success
                &&& r.1.data is None
                &&& r.1.message is None
                &&& final(store).users@ == old(store).users@.remove(
                    find_user_idx(old(store).users@, user_auth.0@),
                )
                &&& find_user(final(store).users@, user_auth.0@) is None
            }
        }),
{
    let provided_user = match login_user(store, user_auth, false) {
        Err(res) => {
            return res;
        },
        Ok(user) => user,
    };
    proof {
        let s0 = store.users@;
        lemma_find_user_props(s0, user_auth.0@);
        let idx = find_user_idx(s0, user_auth.0@);
        assert(idx != -1);
        assert(s0[idx] == find_user(s0, user_auth.0@)->0);
        assert(s0[idx].has_key(user_auth.0@));
        assert(provided_user.key() == user_auth.0@);
    }
    store.delete_user(provided_user);
    (OK, ResponseBody::success_no_data())
}

/// GET /user/{user_id}. A method to get a user; the password never
/// appears in the response.
pub fn get_user(store: &Store, user_id: String) -> (r: Response<UserResponse>)
    requires
        store.wf(),
    ensures
        match find_user(store.users@, user_id@) {
            None => is_error_reply(r, NOT_FOUND),
            Some(u) => {
                &&& r.0 == OK
                &&& r.1.status == Status::Success
                &&& r.1.message is None
                &&& r.1.data matches Some(ur) && {
                    &&& ur.id@ == user_id@
                    &&& ur.username@ == u.username@
                    &&& ur.created_at == u.created_at
                    &&& ur.updated_at == u.updated_at
                }
            },
        },
{
    proof {
        lemma_find_user_props(store.users@, user_id@);
    }
    match store.user_from_id(&user_id) {
        None => (NOT_FOUND, ResponseBody::error("User not found. Check the id and try again.")),
        Some(user) => (OK, ResponseBody::success(user.to_user_response())),
    }
}

/// POST /user/login. A method to login a user by username and
/// password; the reply carries the user record, password excluded.
pub fn post_user_login(store: &Store, user_auth: (String, Option<String>)) -> (r: Response<
    UserResponse,
>)
    requires
        store.wf(),
    ensures
        ({
            let auth_ok = user_auth.1 matches Some(p) && login_ok(
                *store,
                user_auth.0@,
                p@,
                true,
            );
            if !auth_ok {
                is_error_reply(r, login_error_code(user_auth.0@, user_auth.1, true))
            } else {
                let u = login_target(*store, user_auth.0@, true)->0;
                &&& r.0 == OK
                &&& r.1.status == Status::Success
                &&& r.1.message is None
                &&& r.1.data matches Some(ur) && {
                    &&& ur.id@ == u.key()
                    &&& ur.username@ == u.username@
                    &&& ur.created_at == u.created_at
                    &&& ur.updated_at == u.updated_at
                }
            }
        }),
{
    proof {
        lemma_find_username_props(store.users@, lower_seq(user_auth.0@));
    }
    match login_user(store, user_auth, true) {
        Err(response) => response,
        Ok(user) => (OK, ResponseBody::success(user.to_user_response())),
    }
}

} // verus!
