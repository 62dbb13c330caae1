//! Handlers for the watchlist endpoints. Reads are allowed for the
//! owner and the members; updates and deletion for the owner alone;
//! the member list is validated so that the owner never appears in it.

use vstd::prelude::*;
use vstd::string::*;

use crate::controllers_utils::{
    are_members_valid, get_all_watchlist_from_user, get_watchlist_from_id, login_error_code,
    login_ok, login_user, members_ok, Response,
};
use crate::response_body::{
    is_error_reply, ResponseBody, Status, BAD_REQUEST, CREATED, FORBIDDEN, NOT_FOUND, OK,
};
use crate::ids::key_seq;
use crate::security::valid_field;
use crate::store::{
    find_user, find_user_idx, find_watchlist, find_watchlist_idx, lemma_find_user_props,
    lemma_find_watchlist_props, lemma_member_of_wf, lemma_owned_by_wf, member_of, owned_by, Store,
};
use crate::watchlist_model::{Watchlist, WatchlistRequest, WatchlistResponse};

verus! {

/// POST /watchlist. A method to create a new watchlist, owned by the
/// authenticated user. The member list must not name the owner and
/// every member must exist.
pub fn post_watchlist(
    store: &mut Store,
    user_auth: (String, Option<String>),
    watchlist: WatchlistRequest,
) -> (r: Response<WatchlistResponse>)
    requires
        old(store).wf(),
    ensures
        final(store).wf(),
        final(store).clock == old(store).clock,
        final(store).users == old(store).users,
        final(store).media == old(store).media,
        ({
            let auth_ok = user_auth.1 matches Some(p) && login_ok(
                *old(store),
                user_auth.0@,
                p@,
                false,
            );
            if !auth_ok {
                &&& is_error_reply(r, login_error_code(user_auth.0@, user_auth.1, false))
                &&& *final(store) == *old(store)
            } else if !members_ok(*old(store), user_auth.0@, watchlist.members.deep_view()) {
                &&& is_error_reply(r, BAD_REQUEST)
                &&& *final(store) == *old(store)
            } else if !(valid_field(watchlist.title@, 20) && valid_field(
                watchlist.description@,
                60,
            )) {
                &&& is_error_reply(r, BAD_REQUEST)
                &&& *final(store) == *old(store)
            } else if old(store).next_key == u64::MAX {
                &&& is_error_reply(r, BAD_REQUEST)
                &&& *final(store) == *old(store)
            } else {
                &&& r.0 == CREATED
                &&& r.1.status == Status::Success
                &&& r.1.message is None
                &&& r.1.data matches Some(wr) && {
                    &&& wr.id@ == key_seq(old(store).next_key)
                    &&& wr.owner@ == user_auth.0@
                    &&& wr.members.deep_view() == watchlist.members.deep_view()
                    &&& wr.title@ == watchlist.title@
                    &&& wr.description@ == watchlist.description@
                    &&& wr.created_at == old(store).clock
                    &&& wr.updated_at == old(store).clock
                }
                &&& final(store).next_key == old(store).next_key + 1
                &&& final(store).watchlists@.len() == old(store).watchlists@.len() + 1
                &&& forall|i: int|
                    0 <= i < old(store).watchlists@.len() ==> final(store).watchlists@[i] == old(
                        store,
                    ).watchlists@[i]
                &&& ({
                    let w = final(store).watchlists@.last();
                    &&& w.has_key(key_seq(old(store).next_key))
                    &&& w.owner_key() == user_auth.0@
                    &&& w.member_keys() == watchlist.members.deep_view()
                    &&& w.title@ == watchlist.title@
                    &&& w.description@ == watchlist.description@
                    &&& w.created_at == old(store).clock
                    &&& w.updated_at == old(store).clock
                })
            }
        }),
{
    let logged_user = match login_user(store, user_auth, false) {
        Err(res) => {
            return res;
        },
        Ok(logged_user) => logged_user,
    };
    proof {
        lemma_find_user_props(store.users@, user_auth.0@);
        let idx = find_user_idx(store.users@, user_auth.0@);
        assert(idx != -1);
        assert(store.users@[idx] == find_user(store.users@, user_auth.0@)->0);
        assert(store.users@[idx].has_key(user_auth.0@));
        assert(logged_user.key() == user_auth.0@);
    }
    let owner_key = match &logged_user.id {
        Some(s) => s.clone(),
        None => vstd::pervasive::unreached(),
    };
    if let Err(res) = are_members_valid(store, &owner_key, &watchlist.members) {
        return res;
    }
    let mut watchlist = Watchlist::from_request(watchlist);
    watchlist.owner = Some(owner_key);
    match store.sync_watchlist(&mut watchlist) {
        Err(_) => (
            BAD_REQUEST,
            ResponseBody::error(
                "Couldn't create the watchlist. Check the parameters and try again.",
            ),
        ),
        Ok(()) => (CREATED, ResponseBody::success(watchlist.to_watchlist_response())),
    }
}

/// GET /watchlist. A method to get all the watchlists related to the
/// authenticated user: owned first, then memberships.
pub fn get_watchlists(store: &Store, user_auth: (String, Option<String>)) -> (r: Response<
    Vec<WatchlistResponse>,
>)
    requires
        store.wf(),
    ensures
        ({
            let auth_ok = user_auth.1 matches Some(p) && login_ok(
                *store,
                user_auth.0@,
                p@,
                false,
            );
            if !auth_ok {
                is_error_reply(r, login_error_code(user_auth.0@, user_auth.1, false))
            } else {
                let both = owned_by(store.watchlists@, user_auth.0@) + member_of(
                    store.watchlists@,
                    user_auth.0@,
                );
                &&& r.0 == OK
                &&& r.1.status == Status::Success
                &&& r.1.message is None
                &&& r.1.data matches Some(v) && {
                    &&& v@.len() == both.len()
                    &&& forall|i: int|
                        0 <= i < v@.len() ==> (#[trigger] v@[i]).describes(both[i])
                }
            }
        }),
{
    let logged_user = match login_user(store, user_auth, false) {
        Err(res) => {
            return res;
        },
        Ok(logged_user) => logged_user,
    };
    proof {
        lemma_find_user_props(store.users@, user_auth.0@);
        let idx = find_user_idx(store.users@, user_auth.0@);
        assert(idx != -1);
        assert(store.users@[idx] == find_user(store.users@, user_auth.0@)->0);
        assert(store.users@[idx].has_key(user_auth.0@));
        assert(logged_user.key() == user_auth.0@);
        assert(store.users@[idx].wf_in(store.next_key));
        lemma_owned_by_wf(store.watchlists@, user_auth.0@, store.next_key);
        lemma_member_of_wf(store.watchlists@, user_auth.0@, store.next_key);
    }
    let watchlists = match get_all_watchlist_from_user(store, &logged_user) {
        Err(res) => {
            return res;
        },
        Ok(watchlists) => watchlists,
    };
    let ghost both = owned_by(store.watchlists@, user_auth.0@) + member_of(
        store.watchlists@,
        user_auth.0@,
    );
    proof {
        assert forall|j: int| 0 <= j < watchlists@.len() implies (#[trigger] watchlists@[j]).id
            is Some && watchlists@[j].owner is Some by {
            assert(watchlists@[j].same_as(both[j]));
            if j < owned_by(store.watchlists@, user_auth.0@).len() {
                assert(both[j] == owned_by(store.watchlists@, user_auth.0@)[j]);
            } else {
                assert(both[j] == member_of(store.watchlists@, user_auth.0@)[j - owned_by(
                    store.watchlists@,
                    user_auth.0@,
                ).len()]);
            }
        }
    }
    let mut out: Vec<WatchlistResponse> = Vec::new();
    let mut i: usize = 0;
    while i < watchlists.len()
        invariant
            i <= watchlists@.len(),
            out@.len() == i,
            watchlists@.len() == both.len(),
            forall|j: int|
                0 <= j < watchlists@.len() ==> (#[trigger] watchlists@[j]).id is Some
                    && watchlists@[j].owner is Some,
            forall|j: int| 0 <= j < watchlists@.len() ==> (#[trigger] watchlists@[j]).same_as(
                both[j],
            ),
            forall|j: int| 0 <= j < i ==> (#[trigger] out@[j]).describes(both[j]),
        decreases watchlists@.len() - i,
    {
        out.push(watchlists[i].to_watchlist_response());
        i = i + 1;
    }
    (OK, ResponseBody::success(out))
}

/// GET /watchlist/{watchlist_id}. A method to get a watchlist; only
/// its owner and its members may read it.
pub fn get_watchlist(
    store: &Store,
    user_auth: (String, Option<String>),
    watchlist_id: String,
) -> (r: Response<WatchlistResponse>)
    requires
        store.wf(),
    ensures
        ({
            let auth_ok = user_auth.1 matches Some(p) && login_ok(
                *store,
                user_auth.0@,
                p@,
                false,
            );
            if !auth_ok {
                is_error_reply(r, login_error_code(user_auth.0@, user_auth.1, false))
            } else {
                match find_watchlist(store.watchlists@, watchlist_id@) {
                    None => is_error_reply(r, NOT_FOUND),
                    Some(w) => {
                        if w.owner_key() != user_auth.0@ && !w.member_keys().contains(
                            user_auth.0@,
                        ) {
                            is_error_reply(r, FORBIDDEN)
                        } else {
                            &&& r.0 == OK
                            &&& r.1.status == Status::Success
                            &&& r.1.message is None
                            &&& r.1.data matches Some(wr) && wr.describes(w)
                        }
                    },
                }
            }
        }),
{
    let logged_user = match login_user(store, user_auth, false) {
        Err(res) => {
            return res;
        },
        Ok(user) => user,
    };
    let watchlist = match get_watchlist_from_id(store, &watchlist_id) {
        Err(res) => {
            return res;
        },
        Ok(watchlist) => watchlist,
    };
    proof {
        lemma_find_user_props(store.users@, user_auth.0@);
        let idx = find_user_idx(store.users@, user_auth.0@);
        assert(idx != -1);
        assert(store.users@[idx].has_key(user_auth.0@));
        assert(logged_user.key() == user_auth.0@);
        lemma_find_watchlist_props(store.watchlists@, watchlist_id@);
        let widx = find_watchlist_idx(store.watchlists@, watchlist_id@);
        assert(store.watchlists@[widx].wf_in(store.next_key));
    }
    let id = match &logged_user.id {
        Some(s) => s.clone(),
        None => vstd::pervasive::unreached(),
    };
    if !watchlist.is_owner(&id) && !watchlist.has_member(&id) {
        return (
            FORBIDDEN,
            ResponseBody::error("You don't have permission to access this watchlist."),
        );
    }
    (OK, ResponseBody::success(watchlist.to_watchlist_response()))
}

/// GET /watchlist/{watchlist_id}/media. A method to get the media of
/// a watchlist; only its owner and its members may read them.
pub fn get_watchlist_medias(
    store: &Store,
    user_auth: (String, Option<String>),
    watchlist_id: String,
) -> (r: Response<Vec<crate::media_model::MediaResponse>>)
    requires
        store.wf(),
    ensures
        ({
            let auth_ok = user_auth.1 matches Some(p) && login_ok(
                *store,
                user_auth.0@,
                p@,
                false,
            );
            if !auth_ok {
                is_error_reply(r, login_error_code(user_auth.0@, user_auth.1, false))
            } else {
                match find_watchlist(store.watchlists@, watchlist_id@) {
                    None => is_error_reply(r, NOT_FOUND),
                    Some(w) => {
                        if w.owner_key() != user_auth.0@ && !w.member_keys().contains(
                            user_auth.0@,
                        ) {
                            is_error_reply(r, FORBIDDEN)
                        } else {
                            let items = crate::store::media_in(store.media@, watchlist_id@);
                            &&& r.0 == OK
                            &&& r.1.status == Status::Success
                            &&& r.1.message is None
                            &&& r.1.data matches Some(v) && {
                                &&& v@.len() == items.len()
                                &&& forall|i: int|
                                    0 <= i < v@.len() ==> (#[trigger] v@[i]).describes(items[i])
                            }
                        }
                    },
                }
            }
        }),
{
    let logged_user = match login_user(store, user_auth, false) {
        Err(res) => {
            return res;
        },
        Ok(user) => user,
    };
    let watchlist = match get_watchlist_from_id(store, &watchlist_id) {
        Err(res) => {
            return res;
        },
        Ok(watchlist) => watchlist,
    };
    proof {
        lemma_find_user_props(store.users@, user_auth.0@);
        let idx = find_user_idx(store.users@, user_auth.0@);
        assert(idx != -1);
        assert(store.users@[idx].has_key(user_auth.0@));
        assert(logged_user.key() == user_auth.0@);
        lemma_find_watchlist_props(store.watchlists@, watchlist_id@);
        let widx = find_watchlist_idx(store.watchlists@, watchlist_id@);
        assert(store.watchlists@[widx].wf_in(store.next_key));
        assert(store.watchlists@[widx].has_key(watchlist_id@));
        assert(watchlist.key() == watchlist_id@);
        crate::store::lemma_media_in_wf(store.media@, watchlist_id@, store.next_key);
    }
    let id = match &logged_user.id {
        Some(s) => s.clone(),
        None => vstd::pervasive::unreached(),
    };
    if !watchlist.is_owner(&id) && !watchlist.has_member(&id) {
        return (
            FORBIDDEN,
            ResponseBody::error("You don't have permission to access this watchlist."),
        );
    }
    let medias = watchlist.get_media(store);
    let ghost items = crate::store::media_in(store.media@, watchlist_id@);
    let mut out: Vec<crate::media_model::MediaResponse> = Vec::new();
    let mut i: usize = 0;
    while i < medias.len()
        invariant
            i <= medias@.len(),
            out@.len() == i,
            medias@ == items,
            forall|j: int|
                0 <= j < items.len() ==> (#[trigger] items[j]).id is Some,
            forall|j: int| 0 <= j < i ==> (#[trigger] out@[j]).describes(items[j]),
        decreases medias@.len() - i,
    {
        out.push(medias[i].to_media_response());
        i = i + 1;
    }
    (OK, ResponseBody::success(out))
}

/// PATCH /watchlist/{watchlist_id}. A method to update a watchlist;
/// only its owner may, the member list is validated, and the merge
/// keeps the identifier, the owner and the creation timestamp.
pub fn patch_watchlist(
    store: &mut Store,
    user_auth: (String, Option<String>),
    watchlist_id: String,
    new_watchlist: WatchlistRequest,
) -> (r: Response<WatchlistResponse>)
    requires
        old(store).wf(),
    ensures
        final(store).wf(),
        final(store).clock == old(store).clock,
        final(store).users == old(store).users,
        final(store).media == old(store).media,
        final(store).next_key == old(store).next_key,
        ({
            let auth_ok = user_auth.1 matches Some(p) && login_ok(
                *old(store),
                user_auth.0@,
                p@,
                false,
            );
            if !auth_ok {
                &&& is_error_reply(r, login_error_code(user_auth.0@, user_auth.1, false))
                &&& *final(store) == *old(store)
            } else {
                match find_watchlist(old(store).watchlists@, watchlist_id@) {
                    None => {
                        &&& is_error_reply(r, NOT_FOUND)
                        &&& *final(store) == *old(store)
                    },
                    Some(w) => {
                        if w.owner_key() != user_auth.0@ {
                            &&& is_error_reply(r, FORBIDDEN)
                            &&& *final(store) == *old(store)
                        } else if !members_ok(
                            *old(store),
                            user_auth.0@,
                            new_watchlist.members.deep_view(),
                        ) {
                            &&& is_error_reply(r, BAD_REQUEST)
                            &&& *final(store) == *old(store)
                        } else if !(valid_field(new_watchlist.title@, 20) && valid_field(
                            new_watchlist.description@,
                            60,
                        )) {
                            &&& is_error_reply(r, BAD_REQUEST)
                            &&& *final(store) == *old(store)
                        } else {
                            let idx = find_watchlist_idx(old(store).watchlists@, watchlist_id@);
                            &&& r.0 == OK
                            &&& r.1.status == Status::Success
                            &&& r.1.message is None
                            &&& r.1.data matches Some(wr) && {
                                &&& wr.id@ == watchlist_id@
                                &&& wr.owner@ == user_auth.0@
                                &&& wr.members.deep_view() == new_watchlist.members.deep_view()
                                &&& wr.title@ == new_watchlist.title@
                                &&& wr.description@ == new_watchlist.description@
                                &&& wr.created_at == w.created_at
                                &&& wr.updated_at == old(store).clock
                            }
                            &&& final(store).watchlists@.len() == old(store).watchlists@.len()
                            &&& forall|i: int|
                                0 <= i < old(store).watchlists@.len() && i != idx ==> final(store).watchlists@[i] == old(store).watchlists@[i]
                            &&& ({
                                let wl = final(store).watchlists@[idx];
                                &&& wl.has_key(watchlist_id@)
                                &&& wl.owner_key() == user_auth.0@
                                &&& wl.member_keys() == new_watchlist.members.deep_view()
                                &&& wl.title@ == new_watchlist.title@
                                &&& wl.description@ == new_watchlist.description@
                                &&& wl.created_at == w.created_at
                                &&& wl.updated_at == old(store).clock
                            })
                        }
                    },
                }
            }
        }),
{
    let logged_user = match login_user(store, user_auth, false) {
        Err(res) => {
            return res;
        },
        Ok(logged_user) => logged_user,
    };
    let mut db_watchlist = match get_watchlist_from_id(store, &watchlist_id) {
        Err(res) => {
            return res;
        },
        Ok(watchlist) => watchlist,
    };
    proof {
        lemma_find_user_props(store.users@, user_auth.0@);
        let idx = find_user_idx(store.users@, user_auth.0@);
        assert(idx != -1);
        assert(store.users@[idx].has_key(user_auth.0@));
        assert(logged_user.key() == user_auth.0@);
        lemma_find_watchlist_props(store.watchlists@, watchlist_id@);
        let widx = find_watchlist_idx(store.watchlists@, watchlist_id@);
        assert(store.watchlists@[widx].wf_in(store.next_key));
        assert(store.watchlists@[widx].has_key(watchlist_id@));
    }
    let id = match &logged_user.id {
        Some(s) => s.clone(),
        None => vstd::pervasive::unreached(),
    };
    if !db_watchlist.is_owner(&id) {
        return (
            FORBIDDEN,
            ResponseBody::error("You don't have permission to update this watchlist."),
        );
    }
    if let Err(res) = are_members_valid(store, &id, &new_watchlist.members) {
        return res;
    }
    db_watchlist.merge(Watchlist::from_request(new_watchlist));
    match store.sync_watchlist(&mut db_watchlist) {
        Err(_) => (
            BAD_REQUEST,
            ResponseBody::error(
                "Couldn't update the watchlist. Check the parameters and try again.",
            ),
        ),
        Ok(()) => (OK, ResponseBody::success(db_watchlist.to_watchlist_response())),
    }
}

/// DELETE /watchlist/{watchlist_id}. A method to delete a watchlist;
/// only its owner may. A later fetch of the same identifier finds
/// nothing.
pub fn delete_watchlist(
    store: &mut Store,
    user_auth: (String, Option<String>),
    watchlist_id: String,
) -> (r: Response<WatchlistResponse>)
    requires
        old(store).wf(),
    ensures
        final(store).wf(),
        final(store).clock == old(store).clock,
        final(store).users == old(store).users,
        final(store).media == old(store).media,
        final(store).next_key == old(store).next_key,
        ({
            let auth_ok = user_auth.1 matches Some(p) && login_ok(
                *old(store),
                user_auth.0@,
                p@,
                false,
            );
            if !auth_ok {
                &&& is_error_reply(r, login_error_code(user_auth.0@, user_auth.1, false))
                &&& *final(store) == *old(store)
            } else {
                match find_watchlist(old(store).watchlists@, watchlist_id@) {
                    None => {
                        &&& is_error_reply(r, NOT_FOUND)
                        &&& *final(store) == *old(store)
                    },
                    Some(w) => {
                        if w.owner_key() != user_auth.0@ {
                            &&& is_error_reply(r, FORBIDDEN)
                            &&& *final(store) == *old(store)
                        } else {
                            &&& r.0 == OK
                            &&& r.1.status == Status::Success
                            &&& r.1.data is None
                            &&& r.1.message is None
                            &&& final(store).watchlists@ == old(store).watchlists@.remove(
                                find_watchlist_idx(old(store).watchlists@, watchlist_id@),
                            )
                            &&& find_watchlist(final(store).watchlists@, watchlist_id@) is None
                        }
                    },
                }
            }
        }),
{
    let logged_user = match login_user(store, user_auth, false) {
        Err(res) => {
            return res;
        },
        Ok(watchlist) => watchlist,
    };
    let db_watchlist = match get_watchlist_from_id(store, &watchlist_id) {
        Err(res) => {
            return res;
        },
        Ok(watchlist) => watchlist,
    };
    proof {
        lemma_find_user_props(store.users@, user_auth.0@);
        let idx = find_user_idx(store.users@, user_auth.0@);
        assert(idx != -1);
        assert(store.users@[idx].has_key(user_auth.0@));
        assert(logged_user.key() == user_auth.0@);
        lemma_find_watchlist_props(store.watchlists@, watchlist_id@);
        let widx = find_watchlist_idx(store.watchlists@, watchlist_id@);
        assert(store.watchlists@[widx].wf_in(store.next_key));
        assert(store.watchlists@[widx].has_key(watchlist_id@));
        assert(db_watchlist.key() == watchlist_id@);
    }
    let id = match &logged_user.id {
        Some(s) => s.clone(),
        None => vstd::pervasive::unreached(),
    };
    if !db_watchlist.is_owner(&id) {
        return (
            FORBIDDEN,
            ResponseBody::error("You don't have permission to delete this watchlist."),
        );
    }
    store.delete_watchlist(db_watchlist);
    (OK, ResponseBody::success_no_data())
}

} // verus!
