//! Handlers for the media endpoints. A media item is created on, and
//! authorized through, its watchlist: the watchlist's owner and
//! members may add, update and delete items.

use vstd::prelude::*;
use vstd::string::*;

use crate::controllers_utils::{
    get_media_from_id, get_watchlist_from_id, login_error_code, login_ok, login_user, Response,
};
use crate::response_body::{
    is_error_reply, ResponseBody, Status, BAD_REQUEST, CREATED, FORBIDDEN, NOT_FOUND, OK,
};
use crate::ids::key_seq;
use crate::security::valid_field;
use crate::store::{
    find_media, find_media_idx, find_user_idx, find_watchlist, find_watchlist_idx,
    lemma_find_media_props, lemma_find_user_props, lemma_find_watchlist_props, Store,
};
use crate::media_model::{Media, MediaRequest, MediaResponse};
use crate::watchlist_model::Watchlist;

verus! {

/// Whether `user` may touch the media of watchlist `w`: it is the
/// owner or a member.
pub open spec fn may_touch(w: Watchlist, user: Seq<char>) -> bool {
    w.owner_key() == user || w.member_keys().contains(user)
}

/// POST /media. A method to create a new media item on a watchlist the
/// authenticated user owns or is a member of.
pub fn post_media(
    store: &mut Store,
    user_auth: (String, Option<String>),
    new_media: MediaRequest,
) -> (r: Response<MediaResponse>)
    requires
        old(store).wf(),
    ensures
        final(store).wf(),
        final(store).clock == old(store).clock,
        final(store).users == old(store).users,
        final(store).watchlists == old(store).watchlists,
        ({
            let auth_ok = user_auth.1 matches Some(p) && login_ok(
                *old(store),
                user_auth.0@,
                p@,
                false,
            );
            if !auth_ok {
                &&& is_error_reply(r, login_error_code(user_auth.0@, user_auth.1, false))
                &&& *final(store) == *old(store)
            } else {
                match find_watchlist(old(store).watchlists@, new_media.watchlist@) {
                    None => {
                        &&& is_error_reply(r, BAD_REQUEST)
                        &&& *final(store) == *old(store)
                    },
                    Some(w) => {
                        if !may_touch(w, user_auth.0@) {
                            &&& is_error_reply(r, FORBIDDEN)
                            &&& *final(store) == *old(store)
                        } else if !(valid_field(new_media.title@, 20) && valid_field(
                            new_media.description@,
                            60,
                        )) {
                            &&& is_error_reply(r, BAD_REQUEST)
                            &&& *final(store) == *old(store)
                        } else if old(store).next_key == u64::MAX {
                            &&& is_error_reply(r, BAD_REQUEST)
                            &&& *final(store) == *old(store)
                        } else {
                            &&& r.0 == CREATED
                            &&& r.1.status == Status::Success
                            &&& r.1.message is None
                            &&& r.1.data matches Some(mr) && {
                                &&& mr.id@ == key_seq(old(store).next_key)
                                &&& mr.title@ == new_media.title@
                                &&& mr.description@ == new_media.description@
                                &&& mr.watchlist@ == new_media.watchlist@
                                &&& mr.watched == new_media.watched
                                &&& mr.created_at == old(store).clock
                                &&& mr.updated_at == old(store).clock
                            }
                            &&& final(store).next_key == old(store).next_key + 1
                            &&& final(store).media@.len() == old(store).media@.len() + 1
                            &&& forall|i: int|
                                0 <= i < old(store).media@.len() ==> final(store).media@[i] == old(
                                    store,
                                ).media@[i]
                            &&& ({
                                let m = final(store).media@.last();
                                &&& m.has_key(key_seq(old(store).next_key))
                                &&& m.title@ == new_media.title@
                                &&& m.description@ == new_media.description@
                                &&& m.watchlist@ == new_media.watchlist@
                                &&& m.watched == new_media.watched
                                &&& m.created_at == old(store).clock
                                &&& m.updated_at == old(store).clock
                            })
                        }
                    },
                }
            }
        }),
{
    let logged_user = match login_user(store, user_auth, false) {
        Err(res) => {
            return res;
        },
        Ok(logged_user) => logged_user,
    };
    let watchlist = match store.watchlist_from_id(&new_media.watchlist) {
        None => {
            return (
                BAD_REQUEST,
                ResponseBody::error("Watchlist not found. Check the id and try again."),
            );
        },
        Some(watchlist) => watchlist,
    };
    proof {
        lemma_find_user_props(store.users@, user_auth.0@);
        let idx = find_user_idx(store.users@, user_auth.0@);
        assert(idx != -1);
        assert(store.users@[idx].has_key(user_auth.0@));
        assert(logged_user.key() == user_auth.0@);
        lemma_find_watchlist_props(store.watchlists@, new_media.watchlist@);
        let widx = find_watchlist_idx(store.watchlists@, new_media.watchlist@);
        assert(store.watchlists@[widx].wf_in(store.next_key));
    }
    let id = match &logged_user.id {
        Some(s) => s.clone(),
        None => vstd::pervasive::unreached(),
    };
    if !watchlist.is_owner(&id) && !watchlist.has_member(&id) {
        return (
            FORBIDDEN,
            ResponseBody::error("You don't have permission to add a media to the watchlist."),
        );
    }
    let mut new_media = Media::from_request(new_media);
    match store.sync_media(&mut new_media) {
        Err(_) => (
            BAD_REQUEST,
            ResponseBody::error("Couldn't create the media. Check the parameters and try again."),
        ),
        Ok(()) => (CREATED, ResponseBody::success(new_media.to_media_response())),
    }
}

/// PATCH /media/{media_id}. A method to update a media item; the
/// caller must own, or be a member of, the watchlist the item
/// references. The merge keeps the identifier, the watchlist
/// reference and the creation timestamp.
pub fn patch_media(
    store: &mut Store,
    user_auth: (String, Option<String>),
    media_id: String,
    new_media: MediaRequest,
) -> (r: Response<MediaResponse>)
    requires
        old(store).wf(),
    ensures
        final(store).wf(),
        final(store).clock == old(store).clock,
        final(store).users == old(store).users,
        final(store).watchlists == old(store).watchlists,
        final(store).next_key == old(store).next_key,
        ({
            let auth_ok = user_auth.1 matches Some(p) && login_ok(
                *old(store),
                user_auth.0@,
                p@,
                false,
            );
            if !auth_ok {
                &&& is_error_reply(r, login_error_code(user_auth.0@, user_auth.1, false))
                &&& *final(store) == *old(store)
            } else {
                match find_media(old(store).media@, media_id@) {
                    None => {
                        &&& is_error_reply(r, NOT_FOUND)
                        &&& *final(store) == *old(store)
                    },
                    Some(m) => {
                        match find_watchlist(old(store).watchlists@, m.watchlist@) {
                            None => {
                                &&& is_error_reply(r, NOT_FOUND)
                                &&& *final(store) == *old(store)
                            },
                            Some(w) => {
                                if !may_touch(w, user_auth.0@) {
                                    &&& is_error_reply(r, FORBIDDEN)
                                    &&& *final(store) == *old(store)
                                } else if !(valid_field(new_media.title@, 20) && valid_field(
                                    new_media.description@,
                                    60,
                                )) {
                                    &&& is_error_reply(r, BAD_REQUEST)
                                    &&& *final(store) == *old(store)
                                } else {
                                    let idx = find_media_idx(old(store).media@, media_id@);
                                    &&& r.0 == OK
                                    &&& r.1.status == Status::Success
                                    &&& r.1.message is None
                                    &&& r.1.data matches Some(mr) && {
                                        &&& mr.id@ == media_id@
                                        &&& mr.title@ == new_media.title@
                                        &&& mr.description@ == new_media.description@
                                        &&& mr.watchlist@ == m.watchlist@
                                        &&& mr.watched == new_media.watched
                                        &&& mr.created_at == m.created_at
                                        &&& mr.updated_at == old(store).clock
                                    }
                                    &&& final(store).media@.len() == old(store).media@.len()
                                    &&& forall|i: int|
                                        0 <= i < old(store).media@.len() && i != idx ==> final(store).media@[i] == old(store).media@[i]
                                    &&& ({
                                        let md = final(store).media@[idx];
                                        &&& md.has_key(media_id@)
                                        &&& md.title@ == new_media.title@
                                        &&& md.description@ == new_media.description@
                                        &&& md.watchlist@ == m.watchlist@
                                        &&& md.watched == new_media.watched
                                        &&& md.created_at == m.created_at
                                        &&& md.updated_at == old(store).clock
                                    })
                                }
                            },
                        }
                    },
                }
            }
        }),
{
    let logged_user = match login_user(store, user_auth, false) {
        Err(res) => {
            return res;
        },
        Ok(logged_user) => logged_user,
    };
    let mut db_media = match get_media_from_id(store, &media_id) {
        Err(res) => {
            return res;
        },
        Ok(media) => media,
    };
    let db_watchlist = match get_watchlist_from_id(store, &db_media.watchlist) {
        Err(res) => {
            return res;
        },
        Ok(watchlist) => watchlist,
    };
    proof {
        lemma_find_user_props(store.users@, user_auth.0@);
        let idx = find_user_idx(store.users@, user_auth.0@);
        assert(idx != -1);
        assert(store.users@[idx].has_key(user_auth.0@));
        assert(logged_user.key() == user_auth.0@);
        lemma_find_media_props(store.media@, media_id@);
        let midx = find_media_idx(store.media@, media_id@);
        assert(store.media@[midx].wf_in(store.next_key));
        assert(store.media@[midx].has_key(media_id@));
        lemma_find_watchlist_props(store.watchlists@, db_media.watchlist@);
        let widx = find_watchlist_idx(store.watchlists@, db_media.watchlist@);
        assert(store.watchlists@[widx].wf_in(store.next_key));
    }
    let id = match &logged_user.id {
        Some(s) => s.clone(),
        None => vstd::pervasive::unreached(),
    };
    if !db_watchlist.is_owner(&id) && !db_watchlist.has_member(&id) {
        return (
            FORBIDDEN,
            ResponseBody::error("You don't have permission to add a media to the watchlist."),
        );
    }
    db_media.merge(Media::from_request(new_media));
    match store.sync_media(&mut db_media) {
        Err(_) => (
            BAD_REQUEST,
            ResponseBody::error("Couldn't update the media. Check the parameters and try again."),
        ),
        Ok(()) => (OK, ResponseBody::success(db_media.to_media_response())),
    }
}

/// DELETE /media/{media_id}. A method to delete a media item; the
/// caller must own, or be a member of, the watchlist the item
/// references.
pub fn delete_media(
    store: &mut Store,
    user_auth: (String, Option<String>),
    media_id: String,
) -> (r: Response<MediaResponse>)
    requires
        old(store).wf(),
    ensures
        final(store).wf(),
        final(store).clock == old(store).clock,
        final(store).users == old(store).users,
        final(store).watchlists == old(store).watchlists,
        final(store).next_key == old(store).next_key,
        ({
            let auth_ok = user_auth.1 matches Some(p) && login_ok(
                *old(store),
                user_auth.0@,
                p@,
                false,
            );
            if !auth_ok {
                &&& is_error_reply(r, login_error_code(user_auth.0@, user_auth.1, false))
                &&& *final(store) == *old(store)
            } else {
                match find_media(old(store).media@, media_id@) {
                    None => {
                        &&& is_error_reply(r, NOT_FOUND)
                        &&& *final(store) == *old(store)
                    },
                    Some(m) => {
                        match find_watchlist(old(store).watchlists@, m.watchlist@) {
                            None => {
                                &&& is_error_reply(r, NOT_FOUND)
                                &&& *final(store) == *old(store)
                            },
                            Some(w) => {
                                if !may_touch(w, user_auth.0@) {
                                    &&& is_error_reply(r, FORBIDDEN)
                                    &&& *final(store) == *old(store)
                                } else {
                                    &&& r.0 == OK
                                    &&& r.1.status == Status::Success
                                    &&& r.1.data is None
                                    &&& r.1.message is None
                                    &&& final(store).media@ == old(store).media@.remove(
                                        find_media_idx(old(store).media@, media_id@),
                                    )
                                    &&& find_media(final(store).media@, media_id@) is None
                                }
                            },
                        }
                    },
                }
            }
        }),
{
    let logged_user = match login_user(store, user_auth, false) {
        Err(res) => {
            return res;
        },
        Ok(logged_user) => logged_user,
    };
    let provided_media = match get_media_from_id(store, &media_id) {
        Err(res) => {
            return res;
        },
        Ok(media) => media,
    };
    let watchlist = match get_watchlist_from_id(store, &provided_media.watchlist) {
        Err(res) => {
            return res;
        },
        Ok(watchlist) => watchlist,
    };
    proof {
        lemma_find_user_props(store.users@, user_auth.0@);
        let idx = find_user_idx(store.users@, user_auth.0@);
        assert(idx != -1);
        assert(store.users@[idx].has_key(user_auth.0@));
        assert(logged_user.key() == user_auth.0@);
        lemma_find_media_props(store.media@, media_id@);
        let midx = find_media_idx(store.media@, media_id@);
        assert(store.media@[midx].wf_in(store.next_key));
        assert(store.media@[midx].has_key(media_id@));
        assert(provided_media.key() == media_id@);
        lemma_find_watchlist_props(store.watchlists@, provided_media.watchlist@);
        let widx = find_watchlist_idx(store.watchlists@, provided_media.watchlist@);
        assert(store.watchlists@[widx].wf_in(store.next_key));
    }
    let id = match &logged_user.id {
        Some(s) => s.clone(),
        None => vstd::pervasive::unreached(),
    };
    if !watchlist.is_owner(&id) && !watchlist.has_member(&id) {
        return (
            FORBIDDEN,
            ResponseBody::error("You don't have permission to delete the media."),
        );
    }
    store.delete_media(provided_media);
    (OK, ResponseBody::success_no_data())
}

/// GET /media/{media_id}. A method to get a media item.
pub fn get_media(store: &Store, media_id: String) -> (r: Response<MediaResponse>)
    requires
        store.wf(),
    ensures
        match find_media(store.media@, media_id@) {
            None => is_error_reply(r, NOT_FOUND),
            Some(m) => {
                &&& r.0 == OK
                &&& r.1.status == Status::Success
                &&& r.1.message is None
                &&& r.1.data matches Some(mr) && mr.describes(m)
            },
        },
{
    proof {
        lemma_find_media_props(store.media@, media_id@);
    }
    match get_media_from_id(store, &media_id) {
        Err(response) => response,
        Ok(media) => {
            proof {
                let midx = find_media_idx(store.media@, media_id@);
                assert(store.media@[midx].wf_in(store.next_key));
            }
            (OK, ResponseBody::success(media.to_media_response()))
        },
    }
}

} // verus!
