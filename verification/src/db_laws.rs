//! What holds of a store over several calls.
use vstd::prelude::*;

use crate::db::{
    accepted, by_state, first_values, opened, rising, taken, Contents, OauthState, SpotifyTokens,
};
use crate::error::{Failure, Result};

verus! {

/// Tokens that were put are the ones that are read, and nothing else changes.
pub proof fn tokens_read_back(store: Contents, user: u64, tokens: SpotifyTokens, other: u64)
    ensures
        store.with_tokens(user, tokens).tokens_of(user) == Some(tokens),
        other != user ==> store.with_tokens(user, tokens).tokens_of(other) == store.tokens_of(
            other,
        ),
        store.with_tokens(user, tokens).logins == store.logins,
        store.with_tokens(user, tokens).allowed == store.allowed,
{
}

/// Tokens that are put a second time replace the first ones.
pub proof fn tokens_are_replaced(
    store: Contents,
    user: u64,
    first: SpotifyTokens,
    second: SpotifyTokens,
)
    ensures
        store.with_tokens(user, first).with_tokens(user, second) == store.with_tokens(user, second),
{
    assert(store.with_tokens(user, first).with_tokens(user, second) =~= store.with_tokens(
        user,
        second,
    ));
}

/// An account that was unlinked is not linked, unlinking it again changes nothing, and no other
/// account is touched.
pub proof fn unlinked_once(store: Contents, user: u64, other: u64)
    ensures
        store.without_tokens(user).tokens_of(user) is None,
        store.without_tokens(user).without_tokens(user) == store.without_tokens(user),
        other != user ==> store.without_tokens(user).tokens_of(other) == store.tokens_of(other),
        store.without_tokens(user).logins == store.logins,
        store.without_tokens(user).allowed == store.allowed,
{
    assert(store.without_tokens(user).without_tokens(user) =~= store.without_tokens(user));
}

/// A login that was begun is returned when its state comes back in time.
pub proof fn login_is_returned(
    store: Contents,
    state: Seq<char>,
    login: OauthState,
    ttl_secs: i64,
    saved: Result<bool>,
    now: i64,
    after: Contents,
    res: Result<OauthState>,
)
    requires
        saved is Ok,
        accepted(login, now, ttl_secs),
        taken(store.with_login(state, login), state, ttl_secs, saved, now, after, res),
    ensures
        res matches Ok(found) && found == login,
{
}

/// A login can be taken once: whatever came of the first time, unless the disk failed, there is
/// none to take the second time.
pub proof fn login_is_single_use(
    before: Contents,
    between: Contents,
    after: Contents,
    state: Seq<char>,
    ttl_first: i64,
    ttl_second: i64,
    saved_first: Result<bool>,
    saved_second: Result<bool>,
    now_first: i64,
    now_second: i64,
    first: Result<OauthState>,
    second: Result<OauthState>,
)
    requires
        saved_first is Ok,
        taken(before, state, ttl_first, saved_first, now_first, between, first),
        taken(between, state, ttl_second, saved_second, now_second, after, second),
    ensures
        second is Err,
        saved_second is Ok ==> second->Err_0@ == Failure::InvalidOauthState,
{
}

/// A login that is too old is refused, and gone.
pub proof fn login_expires(
    store: Contents,
    state: Seq<char>,
    login: OauthState,
    ttl_secs: i64,
    saved: Result<bool>,
    now: i64,
    after: Contents,
    res: Result<OauthState>,
)
    requires
        saved is Ok,
        !accepted(login, now, ttl_secs),
        taken(store.with_login(state, login), state, ttl_secs, saved, now, after, res),
    ensures
        res matches Err(err) && err@ == Failure::InvalidOauthState,
        after.login_of(state) is None,
{
}

/// A login that was begun is the one that is pending under its state, and nothing else changes; one
/// that was taken is pending no more, and nothing else changes.
pub proof fn logins_are_kept_apart(
    store: Contents,
    state: Seq<char>,
    login: OauthState,
    other: Seq<char>,
)
    ensures
        store.with_login(state, login).login_of(state) == Some(login),
        store.without_login(state).login_of(state) is None,
        other != state ==> store.with_login(state, login).login_of(other) == store.login_of(other),
        other != state ==> store.without_login(state).login_of(other) == store.login_of(other),
        store.with_login(state, login).tokens == store.tokens,
        store.with_login(state, login).allowed == store.allowed,
        store.without_login(state).tokens == store.tokens,
        store.without_login(state).allowed == store.allowed,
{
}

/// A login is accepted for as long as was said, to the second, and never again after that.
pub proof fn logins_wear_out(login: OauthState, now: i64, later: i64, ttl_secs: i64)
    requires
        now <= later,
    ensures
        accepted(login, now, ttl_secs) <==> now <= login.created_at + ttl_secs,
        !accepted(login, now, ttl_secs) ==> !accepted(login, later, ttl_secs),
{
}

/// Permissions and tokens have nothing to do with each other, nor with logins.
pub proof fn permissions_change_nothing_else(store: Contents, user: u64)
    ensures
        store.with_allowed(user).tokens == store.tokens,
        store.with_allowed(user).logins == store.logins,
        store.without_allowed(user).tokens == store.tokens,
        store.without_allowed(user).logins == store.logins,
{
}

/// Allowing and denying users: the one counts until the other, and no one else is touched.
pub proof fn allowed_until_denied(store: Contents, user: u64, other: u64)
    ensures
        store.with_allowed(user).allowed.contains(user),
        !store.without_allowed(user).allowed.contains(user),
        store.with_allowed(user).with_allowed(user) == store.with_allowed(user),
        store.without_allowed(user).without_allowed(user) == store.without_allowed(user),
        !store.allowed.contains(user) ==> store.with_allowed(user).without_allowed(user) == store,
        other != user ==> store.with_allowed(user).allowed.contains(other)
            == store.allowed.contains(other) && store.without_allowed(user).allowed.contains(other)
            == store.allowed.contains(other),
{
    assert(store.with_allowed(user).with_allowed(user) =~= store.with_allowed(user));
    assert(store.without_allowed(user).without_allowed(user) =~= store.without_allowed(user));
    if !store.allowed.contains(user) {
        assert(store.with_allowed(user).without_allowed(user) =~= store);
    }
}

/// There is one way to list a set of users in rising order.
pub proof fn listed_one_way(first: Seq<u64>, second: Seq<u64>)
    requires
        rising(first),
        rising(second),
        first.to_set() == second.to_set(),
    ensures
        first == second,
    decreases first.len(),
{
    assert forall|x: u64| first.contains(x) == second.contains(x) by {
        assert(first.to_set().contains(x) == first.contains(x));
        assert(second.to_set().contains(x) == second.contains(x));
    }
    if first.len() == 0 {
        if second.len() > 0 {
            assert(first.contains(second[0]));
        }
    } else {
        assert(second.contains(first[0]));
        assert(first.contains(first.last()) && second.contains(first.last()));
        assert(second.contains(second.last()) && first.contains(second.last()));
        assert(first.last() == second.last());
        let a = first.drop_last();
        let b = second.drop_last();
        assert forall|x: u64| a.to_set().contains(x) == b.to_set().contains(x) by {
            if a.contains(x) {
                let i = choose|i: int| 0 <= i < a.len() && a[i] == x;
                assert(first[i] == x);
                assert(second.contains(x));
                let j = choose|j: int| 0 <= j < second.len() && second[j] == x;
                assert(b[j] == x);
            }
            if b.contains(x) {
                let i = choose|i: int| 0 <= i < b.len() && b[i] == x;
                assert(second[i] == x);
                assert(first.contains(x));
                let j = choose|j: int| 0 <= j < first.len() && first[j] == x;
                assert(a[j] == x);
            }
        }
        assert(a.to_set() =~= b.to_set());
        listed_one_way(a, b);
        assert(first =~= a.push(first.last()));
        assert(second =~= b.push(second.last()));
    }
}

/// Whether a list holds the entries of a map, each once.
pub open spec fn lists<K, V>(entries: Seq<(K, V)>, map: Map<K, V>) -> bool {
    &&& forall|i: int|
        0 <= i < entries.len() ==> map.dom().contains((#[trigger] entries[i]).0)
            && map[entries[i].0] == entries[i].1
    &&& forall|i: int, j: int| 0 <= i < j < entries.len() ==> entries[i].0 != entries[j].0
    &&& forall|key: K| #[trigger]
        map.dom().contains(key) ==> exists|i: int| 0 <= i < entries.len() && entries[i].0 == key
}

proof fn lemma_first_values<K, V>(entries: Seq<(K, V)>)
    requires
        forall|i: int, j: int| 0 <= i < j < entries.len() ==> entries[i].0 != entries[j].0,
    ensures
        forall|i: int|
            0 <= i < entries.len() ==> first_values(entries).dom().contains(
                (#[trigger] entries[i]).0,
            ) && first_values(entries)[entries[i].0] == entries[i].1,
        forall|key: K| #[trigger]
            first_values(entries).dom().contains(key) ==> exists|i: int|
                0 <= i < entries.len() && entries[i].0 == key,
    decreases entries.len(),
{
    if entries.len() > 0 {
        let before = entries.drop_last();
        lemma_first_values(before);
        let last = entries.len() - 1;
        if first_values(before).dom().contains(entries[last].0) {
            let i = choose|i: int| 0 <= i < before.len() && before[i].0 == entries[last].0;
            assert(entries[i].0 == entries[last].0);
        }
        assert forall|i: int| 0 <= i < entries.len() implies first_values(entries).dom().contains(
            (#[trigger] entries[i]).0,
        ) && first_values(entries)[entries[i].0] == entries[i].1 by {
            if i < last {
                assert(before[i] == entries[i]);
            }
        }
        assert forall|key: K| #[trigger] first_values(entries).dom().contains(key) implies exists|
            i: int,
        | 0 <= i < entries.len() && entries[i].0 == key by {
            if key == entries[last].0 {
            } else {
                let i = choose|i: int| 0 <= i < before.len() && before[i].0 == key;
                assert(entries[i].0 == key);
            }
        }
    }
}

/// A list of a map's entries gives the map back.
pub proof fn list_gives_map_back<K, V>(entries: Seq<(K, V)>, map: Map<K, V>)
    requires
        lists(entries, map),
    ensures
        first_values(entries) == map,
{
    lemma_first_values(entries);
    assert forall|key: K| first_values(entries).dom().contains(key) == map.dom().contains(key) by {
        if map.dom().contains(key) {
            let i = choose|i: int| 0 <= i < entries.len() && entries[i].0 == key;
            assert(first_values(entries).dom().contains(entries[i].0));
        }
    }
    assert forall|key: K| map.dom().contains(key) implies first_values(entries)[key] == map[key] by {
        let i = choose|i: int| 0 <= i < entries.len() && entries[i].0 == key;
        assert(first_values(entries)[entries[i].0] == entries[i].1);
    }
    assert(first_values(entries) =~= map);
}

/// A store that is opened with the entries of another one holds the same.
pub proof fn reopened_store_is_the_same(
    store: Contents,
    users: Seq<(u64, SpotifyTokens)>,
    states: Seq<(String, OauthState)>,
    allowed: Seq<(u64, u8)>,
    marks: Map<u64, u8>,
)
    requires
        lists(users, store.tokens),
        lists(by_state(states), store.logins),
        lists(allowed, marks),
        marks.dom() == store.allowed,
    ensures
        opened(users, states, allowed) == store,
{
    list_gives_map_back(users, store.tokens);
    list_gives_map_back(by_state(states), store.logins);
    list_gives_map_back(allowed, marks);
}

} // verus!
