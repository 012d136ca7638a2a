//! The maps that hold what the store knows. They belong to the crate `scc`; what each of their
//! methods does to the contents is taken on trust.
use vstd::prelude::*;

use crate::db::{OauthState, SpotifyTokens};

verus! {

/// A hash map of the crate `scc`.
#[verifier::external_type_specification]
#[verifier::external_body]
#[verifier::reject_recursive_types(K)]
#[verifier::reject_recursive_types(V)]
#[verifier::reject_recursive_types(H)]
pub struct ExSccHashMap<K, V, H: std::hash::BuildHasher>(scc::HashMap<K, V, H>);

/// A hash index of the crate `scc`.
#[verifier::external_type_specification]
#[verifier::external_body]
#[verifier::reject_recursive_types(K)]
#[verifier::reject_recursive_types(V)]
#[verifier::reject_recursive_types(H)]
pub struct ExSccHashIndex<K, V, H: std::hash::BuildHasher>(scc::HashIndex<K, V, H>);

/// The tokens that a map holds, by user.
pub uninterp spec fn tokens_in(map: scc::HashMap<u64, SpotifyTokens>) -> Map<u64, SpotifyTokens>;

/// The pending logins that a map holds, by the characters of their state.
pub uninterp spec fn logins_in(map: scc::HashMap<String, OauthState>) -> Map<
    Seq<char>,
    OauthState,
>;

/// The users that an index holds.
pub uninterp spec fn users_in(index: scc::HashIndex<u64, u8>) -> Set<u64>;

/// `HashMap::default`: a map that holds nothing.
#[verifier::external_body]
pub(crate) fn no_tokens() -> (map: scc::HashMap<u64, SpotifyTokens>)
    ensures
        tokens_in(map).dom() == Set::<u64>::empty(),
{
    scc::HashMap::default()
}

/// `HashMap::insert_sync`: a key that is there keeps its value.
#[verifier::external_body]
pub(crate) fn add_tokens(
    map: &mut scc::HashMap<u64, SpotifyTokens>,
    user: u64,
    tokens: SpotifyTokens,
)
    ensures
        tokens_in(*final(map)) == if tokens_in(*old(map)).dom().contains(user) {
            tokens_in(*old(map))
        } else {
            tokens_in(*old(map)).insert(user, tokens)
        },
{
    let _ = map.insert_sync(user, tokens);
}

/// `HashMap::upsert_sync`: the key has the new value from then on.
#[verifier::external_body]
pub(crate) fn set_tokens(
    map: &mut scc::HashMap<u64, SpotifyTokens>,
    user: u64,
    tokens: SpotifyTokens,
)
    ensures
        tokens_in(*final(map)) == tokens_in(*old(map)).insert(user, tokens),
{
    let _ = map.upsert_sync(user, tokens);
}

/// `HashMap::read_sync`: what a function makes of the value of a key, if the key is there. The
/// function here copies the value.
#[verifier::external_body]
pub(crate) fn read_tokens(map: &scc::HashMap<u64, SpotifyTokens>, user: u64) -> (res: Option<
    SpotifyTokens,
>)
    ensures
        res == if tokens_in(*map).dom().contains(user) {
            Some(tokens_in(*map)[user])
        } else {
            None
        },
{
    map.read_sync(&user, |_, tokens| tokens.clone())
}

/// `HashMap::remove_sync`: the key is gone, and whether it was there is told.
#[verifier::external_body]
pub(crate) fn remove_tokens(map: &mut scc::HashMap<u64, SpotifyTokens>, user: u64) -> (res: bool)
    ensures
        res == tokens_in(*old(map)).dom().contains(user),
        tokens_in(*final(map)) == tokens_in(*old(map)).remove(user),
{
    map.remove_sync(&user).is_some()
}

/// `HashMap::default`: a map that holds nothing.
#[verifier::external_body]
pub(crate) fn no_logins() -> (map: scc::HashMap<String, OauthState>)
    ensures
        logins_in(map).dom() == Set::<Seq<char>>::empty(),
{
    scc::HashMap::default()
}

/// `HashMap::insert_sync`: a key that is there keeps its value.
#[verifier::external_body]
pub(crate) fn add_login(
    map: &mut scc::HashMap<String, OauthState>,
    state: String,
    login: OauthState,
)
    ensures
        logins_in(*final(map)) == if logins_in(*old(map)).dom().contains(state@) {
            logins_in(*old(map))
        } else {
            logins_in(*old(map)).insert(state@, login)
        },
{
    let _ = map.insert_sync(state, login);
}

/// `HashMap::upsert_sync`: the key has the new value from then on.
#[verifier::external_body]
pub(crate) fn set_login(
    map: &mut scc::HashMap<String, OauthState>,
    state: String,
    login: OauthState,
)
    ensures
        logins_in(*final(map)) == logins_in(*old(map)).insert(state@, login),
{
    let _ = map.upsert_sync(state, login);
}

/// `HashMap::remove_sync`: the key is gone, and its value is handed out if it was there.
#[verifier::external_body]
pub(crate) fn remove_login(map: &mut scc::HashMap<String, OauthState>, state: &str) -> (res: Option<
    OauthState,
>)
    ensures
        res == if logins_in(*old(map)).dom().contains(state@) {
            Some(logins_in(*old(map))[state@])
        } else {
            None
        },
        logins_in(*final(map)) == logins_in(*old(map)).remove(state@),
{
    match map.remove_sync(state) {
        Some((_, login)) => Some(login),
        None => None,
    }
}

/// `HashIndex::default`: an index that holds nothing.
#[verifier::external_body]
pub(crate) fn no_users() -> (index: scc::HashIndex<u64, u8>)
    ensures
        users_in(index) == Set::<u64>::empty(),
{
    scc::HashIndex::default()
}

/// `HashIndex::insert_sync`: the key is there from then on, and whether it is new is told.
#[verifier::external_body]
pub(crate) fn add_user(index: &mut scc::HashIndex<u64, u8>, user: u64, mark: u8) -> (res: bool)
    ensures
        res == !users_in(*old(index)).contains(user),
        users_in(*final(index)) == users_in(*old(index)).insert(user),
{
    index.insert_sync(user, mark).is_ok()
}

/// `HashIndex::remove_sync`: the key is gone, and whether it was there is told.
#[verifier::external_body]
pub(crate) fn remove_user(index: &mut scc::HashIndex<u64, u8>, user: u64) -> (res: bool)
    ensures
        res == users_in(*old(index)).contains(user),
        users_in(*final(index)) == users_in(*old(index)).remove(user),
{
    index.remove_sync(&user)
}

/// `HashIndex::contains`: whether the key is there.
#[verifier::external_body]
pub(crate) fn has_user(index: &scc::HashIndex<u64, u8>, user: u64) -> (res: bool)
    ensures
        res == users_in(*index).contains(user),
{
    index.contains(&user)
}

/// `HashIndex::iter_sync`: hands out each key once. The order is left open.
#[verifier::external_body]
pub(crate) fn each_user(index: &scc::HashIndex<u64, u8>) -> (res: Vec<u64>)
    ensures
        res@.no_duplicates(),
        res@.to_set() == users_in(*index),
{
    let mut users = Vec::new();
    index.iter_sync(
        |user, _|
            {
                users.push(*user);
                true
            },
    );
    users
}

} // verus!
