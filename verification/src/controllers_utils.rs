//! Shared handler steps: authentication, entity fetches and the member
//! validation that guards watchlist writes. Each step either hands the
//! entity on or produces the finished error reply.

use vstd::prelude::*;
use vstd::string::*;

use crate::response_body::{ResponseBody, Status, BAD_REQUEST, NOT_FOUND, UNAUTHORIZED};
use crate::security::{is_valid_field, password_hash, valid_field};
use crate::store::{find_media, find_user, find_username, find_watchlist, member_of, owned_by};
use crate::store::Store;
use crate::text::lower_seq;
use crate::media_model::Media;
use crate::user_model::User;
use crate::watchlist_model::Watchlist;

verus! {

/// A handler's answer: an HTTP status code and the response envelope.
pub type Response<T> = (u16, ResponseBody<T>);

/// The user a login attempt speaks of: by username (folded to
/// lowercase) or by record identifier.
pub open spec fn login_target(store: Store, ident: Seq<char>, is_username: bool) -> Option<User> {
    if is_username {
        find_username(store.users@, lower_seq(ident))
    } else {
        find_user(store.users@, ident)
    }
}

/// A login succeeds exactly when the named user exists and the hash of
/// the supplied password equals the stored hash; a username must also
/// be a valid field.
pub open spec fn login_ok(store: Store, ident: Seq<char>, password: Seq<char>, is_username: bool) -> bool {
    &&& is_username ==> valid_field(ident, 20)
    &&& login_target(store, ident, is_username) matches Some(u) && u.password@ == password_hash(
        password,
    )
}

/// The code of a failed login: a malformed username is a bad request,
/// everything else is unauthorized.
pub open spec fn login_error_code(ident: Seq<char>, password: Option<String>, is_username: bool) -> u16 {
    if password is Some && is_username && !valid_field(ident, 20) {
        BAD_REQUEST
    } else {
        UNAUTHORIZED
    }
}

/// A method to get some media in the store using its id.
pub fn get_media_from_id<T>(store: &Store, media_id: &String) -> (r: Result<Media, Response<T>>)
    ensures
        match r {
            Ok(m) => find_media(store.media@, media_id@) == Some(m),
            Err(e) => {
                &&& find_media(store.media@, media_id@) is None
                &&& e.0 == NOT_FOUND
                &&& e.1.status == Status::Failed
                &&& e.1.data is None
                &&& e.1.message is Some
            },
        },
{
    match store.media_from_id(media_id) {
        None => Err((NOT_FOUND, ResponseBody::error("media not found. Check the id and try again."))),
        Some(media) => Ok(media),
    }
}

/// A method to get some user in the store using his id. A missing user
/// is unauthorized: the id stands as a credential here.
pub fn get_user_from_id<T>(store: &Store, user_id: &String) -> (r: Result<User, Response<T>>)
    ensures
        match r {
            Ok(u) => find_user(store.users@, user_id@) == Some(u),
            Err(e) => {
                &&& find_user(store.users@, user_id@) is None
                &&& e.0 == UNAUTHORIZED
                &&& e.1.status == Status::Failed
                &&& e.1.data is None
                &&& e.1.message is Some
            },
        },
{
    match store.user_from_id(user_id) {
        None => Err(
            (UNAUTHORIZED, ResponseBody::error("User not found. Check the id and try again.")),
        ),
        Some(user) => Ok(user),
    }
}

/// A method to get some user in the store using his username.
pub fn get_user_from_username<T>(store: &Store, username: &str) -> (r: Result<User, Response<T>>)
    ensures
        match r {
            Ok(u) => {
                &&& valid_field(username@, 20)
                &&& find_username(store.users@, lower_seq(username@)) == Some(u)
            },
            Err(e) => {
                &&& !(valid_field(username@, 20) && find_username(
                    store.users@,
                    lower_seq(username@),
                ) is Some)
                &&& e.0 == if !valid_field(username@, 20) {
                    BAD_REQUEST
                } else {
                    UNAUTHORIZED
                }
                &&& e.1.status == Status::Failed
                &&& e.1.data is None
                &&& e.1.message is Some
            },
        },
{
    if !is_valid_field(username, 20) {
        return Err(
            (
                BAD_REQUEST,
                ResponseBody::error("The username is invalid. Check the parameters and try again."),
            ),
        );
    }
    match User::from_username(store, username) {
        None => Err(
            (
                UNAUTHORIZED,
                ResponseBody::error("User not found. Check the username and try again."),
            ),
        ),
        Some(user) => Ok(user),
    }
}

/// A method to get some watchlist in the store using its id.
pub fn get_watchlist_from_id<T>(store: &Store, watchlist_id: &String) -> (r: Result<
    Watchlist,
    Response<T>,
>)
    ensures
        match r {
            Ok(w) => find_watchlist(store.watchlists@, watchlist_id@) matches Some(f)
                && w.same_as(f),
            Err(e) => {
                &&& find_watchlist(store.watchlists@, watchlist_id@) is None
                &&& e.0 == NOT_FOUND
                &&& e.1.status == Status::Failed
                &&& e.1.data is None
                &&& e.1.message is Some
            },
        },
{
    match store.watchlist_from_id(watchlist_id) {
        None => Err(
            (NOT_FOUND, ResponseBody::error("watchlist not found. Check the id and try again.")),
        ),
        Some(watchlist) => Ok(watchlist),
    }
}

/// A method to login a user. Uses its id or username, and its password.
pub fn login_user<T>(store: &Store, user_auth: (String, Option<String>), is_username: bool) -> (r:
    Result<User, Response<T>>)
    ensures
        match r {
            Ok(u) => {
                &&& user_auth.1 matches Some(p) && login_ok(*store, user_auth.0@, p@, is_username)
                &&& login_target(*store, user_auth.0@, is_username) == Some(u)
            },
            Err(e) => {
                &&& !(user_auth.1 matches Some(p) && login_ok(*store, user_auth.0@, p@, is_username))
                &&& e.0 == login_error_code(user_auth.0@, user_auth.1, is_username)
                &&& e.1.status == Status::Failed
                &&& e.1.data is None
                &&& e.1.message is Some
            },
        },
{
    let (user_identifier, password) = match user_auth {
        (user_identifier, Some(pass)) => (user_identifier, pass),
        (_, None) => {
            return Err(
                (UNAUTHORIZED, ResponseBody::error("Check the credentials and try again.")),
            );
        },
    };
    let user_db = if is_username {
        match get_user_from_username(store, user_identifier.as_str()) {
            Err(e) => {
                return Err(e);
            },
            Ok(u) => u,
        }
    } else {
        match get_user_from_id(store, &user_identifier) {
            Err(e) => {
                return Err(e);
            },
            Ok(u) => u,
        }
    };
    if user_db.is_login_valid(password) {
        Ok(user_db)
    } else {
        Err((UNAUTHORIZED, ResponseBody::error("Check the credentials and try again.")))
    }
}

/// Whether a member list is acceptable for a watchlist of `owner`:
/// the owner is not among the members, and every member exists.
pub open spec fn members_ok(store: Store, owner: Seq<char>, members: Seq<Seq<char>>) -> bool {
    &&& !members.contains(owner)
    &&& forall|i: int|
        0 <= i < members.len() ==> find_user(store.users@, #[trigger] members[i]) is Some
}

/// A method to check that all members given for a watchlist are valid:
/// the owner must not be among them, and every member must exist.
pub fn are_members_valid<T>(store: &Store, owner: &String, members: &Vec<String>) -> (r: Result<
    (),
    Response<T>,
>)
    ensures
        match r {
            Ok(()) => members_ok(*store, owner@, members.deep_view()),
            Err(e) => {
                &&& !members_ok(*store, owner@, members.deep_view())
                &&& e.0 == BAD_REQUEST
                &&& e.1.status == Status::Failed
                &&& e.1.data is None
                &&& e.1.message is Some
            },
        },
{
    let mut i: usize = 0;
    while i < members.len()
        invariant
            i <= members@.len(),
            forall|j: int| 0 <= j < i ==> #[trigger] members@[j]@ != owner@,
        decreases members@.len() - i,
    {
        if members[i] == *owner {
            assert(members.deep_view()[i as int] == owner@);
            return Err(
                (
                    BAD_REQUEST,
                    ResponseBody::error("Some member is invalid. Check the parameters and try again."),
                ),
            );
        }
        i = i + 1;
    }
    assert(forall|j: int|
        0 <= j < members.deep_view().len() ==> #[trigger] members.deep_view()[j] != owner@);
    let mut j: usize = 0;
    while j < members.len()
        invariant
            j <= members@.len(),
            forall|m: int|
                0 <= m < j ==> find_user(store.users@, #[trigger] members.deep_view()[m]) is Some,
        decreases members@.len() - j,
    {
        match store.user_from_id(&members[j]) {
            None => {
                proof {
                    assert(members.deep_view()[j as int] == members@[j as int]@);
                    assert(find_user(store.users@, members.deep_view()[j as int]) is None);
                }
                return Err(
                    (
                        BAD_REQUEST,
                        ResponseBody::error(
                            "Some member is invalid. Check the parameters and try again.",
                        ),
                    ),
                );
            },
            Some(_) => {},
        }
        j = j + 1;
    }
    Ok(())
}

/// A method to get all the watchlists related to the user: the ones it
/// owns, then the ones it is a member of.
pub fn get_all_watchlist_from_user<T>(store: &Store, logged_user: &User) -> (r: Result<
    Vec<Watchlist>,
    Response<T>,
>)
    requires
        store.wf(),
        logged_user.id is Some,
    ensures
        r matches Ok(v) && {
            let both = owned_by(store.watchlists@, logged_user.key()) + member_of(
                store.watchlists@,
                logged_user.key(),
            );
            &&& v@.len() == both.len()
            &&& forall|i: int| 0 <= i < v@.len() ==> (#[trigger] v@[i]).same_as(both[i])
        },
{
    let mut watchlists = logged_user.get_watchlists_as_owner(store);
    let mut member_watchlists = logged_user.get_watchlists_as_member(store);
    watchlists.append(&mut member_watchlists);
    proof {
        let owned = owned_by(store.watchlists@, logged_user.key());
        let member = member_of(store.watchlists@, logged_user.key());
        assert forall|i: int| 0 <= i < watchlists@.len() implies (#[trigger] watchlists@[i]).same_as(
            (owned + member)[i],
        ) by {
            if i < owned.len() {
                assert((owned + member)[i] == owned[i]);
            } else {
                assert((owned + member)[i] == member[i - owned.len()]);
            }
        }
    }
    Ok(watchlists)
}

} // verus!
