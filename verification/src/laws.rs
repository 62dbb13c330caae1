//! The library's standing guarantees, stated on their own. Each is
//! proved from the contracts and invariants the modules export.

use vstd::prelude::*;

use crate::controllers_utils::{login_error_code, login_ok, login_target};
use crate::ids::{decode_key, key_seq, lemma_key_roundtrip};
use crate::response_body::UNAUTHORIZED;
use crate::security::{password_hash, valid_field};
use crate::store::{find_watchlist, find_watchlist_idx, lemma_find_watchlist_props, Store};

verus! {

/// Distinct sequence numbers always yield distinct identifiers; in
/// particular, two consecutive generations for the same table never
/// collide.
pub proof fn lemma_distinct_keys(a: u64, b: u64)
    requires
        a != b,
    ensures
        key_seq(a) != key_seq(b),
{
    lemma_key_roundtrip(a);
    lemma_key_roundtrip(b);
    assert(decode_key(key_seq(a)) != decode_key(key_seq(b)));
}

/// A well-formed store never holds two records under one identifier:
/// within each table, identifiers are unique keys.
pub proof fn lemma_identifiers_unique(store: Store, i: int, j: int)
    requires
        store.wf(),
        0 <= i < j < store.users@.len() || 0 <= i < j < store.watchlists@.len() || 0 <= i < j
            < store.media@.len(),
    ensures
        0 <= i < j < store.users@.len() ==> store.users@[i].key() != store.users@[j].key(),
        0 <= i < j < store.watchlists@.len() ==> store.watchlists@[i].key()
            != store.watchlists@[j].key(),
        0 <= i < j < store.media@.len() ==> store.media@[i].key() != store.media@[j].key(),
{
}

/// A well-formed store never holds two users with the same username.
pub proof fn lemma_usernames_unique(store: Store, i: int, j: int)
    requires
        store.wf(),
        0 <= i < j < store.users@.len(),
    ensures
        store.users@[i].username@ != store.users@[j].username@,
{
}

/// A well-formed store never holds a watchlist whose owner is also in
/// its member list. Every store operation preserves well-formedness,
/// so this holds after every create and every merge.
pub proof fn lemma_owner_never_member(store: Store, i: int)
    requires
        store.wf(),
        0 <= i < store.watchlists@.len(),
    ensures
        !store.watchlists@[i].member_keys().contains(store.watchlists@[i].owner_key()),
{
    assert(store.watchlists@[i].wf_in(store.next_key));
}

/// A login with a correct username but a password whose hash does not
/// match the stored one never succeeds, and its reply code is always
/// Unauthorized.
pub proof fn lemma_login_wrong_password(store: Store, ident: Seq<char>, password: String)
    requires
        valid_field(ident, 20),
        login_target(store, ident, true) is Some,
        login_target(store, ident, true)->0.password@ != password_hash(password@),
    ensures
        !login_ok(store, ident, password@, true),
        login_error_code(ident, Some(password), true) == UNAUTHORIZED,
{
}

/// Once a watchlist is deleted — its entry removed from a well-formed
/// table — no record holds its identifier any more, so a fetch of that
/// identifier can only answer that nothing was found.
pub proof fn lemma_fetch_after_delete(pre: Store, post: Store, id: Seq<char>)
    requires
        pre.wf(),
        find_watchlist_idx(pre.watchlists@, id) != -1,
        post.watchlists@ == pre.watchlists@.remove(find_watchlist_idx(pre.watchlists@, id)),
    ensures
        find_watchlist(post.watchlists@, id) is None,
{
    let s0 = pre.watchlists@;
    let s1 = post.watchlists@;
    lemma_find_watchlist_props(s0, id);
    let idx = find_watchlist_idx(s0, id);
    assert(s0[idx].has_key(id));
    assert forall|a: int| 0 <= a < s1.len() implies s1[a]
        == if a < idx {
            s0[a]
        } else {
            s0[a + 1]
        } by {}
    lemma_find_watchlist_props(s1, id);
    if find_watchlist_idx(s1, id) != -1 {
        let j = find_watchlist_idx(s1, id);
        if j < idx {
            assert(s0[j].has_key(id));
        } else {
            assert(s0[j + 1].has_key(id));
        }
        assert(false);
    }
}

} // verus!
