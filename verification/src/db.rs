//! The store of linked accounts, pending logins and allowed users. It keeps everything in maps;
//! each change is first written to disk by a function that the caller hands in, and is made
//! only if that succeeded.
use vstd::prelude::*;

use crate::cache;
use crate::error::{AppError, Failure, Result};
use crate::outside;

verus! {

/// What a user's Spotify account is read with.
#[derive(Debug, PartialEq, Eq)]
pub struct SpotifyTokens {
    pub access_token: String,
    pub refresh_token: String,
    pub expires_at: i64,
    pub token_type: String,
    pub scope: String,
}

impl Clone for SpotifyTokens {
    fn clone(&self) -> (res: Self)
        ensures
            res == *self,
    {
        SpotifyTokens {
            access_token: self.access_token.clone(),
            refresh_token: self.refresh_token.clone(),
            expires_at: self.expires_at,
            token_type: self.token_type.clone(),
            scope: self.scope.clone(),
        }
    }
}

/// A login that was begun and not finished yet.
#[derive(Debug, PartialEq, Eq)]
pub struct OauthState {
    pub telegram_user_id: u64,
    pub code_verifier: String,
    pub created_at: i64,
}

impl Clone for OauthState {
    fn clone(&self) -> (res: Self)
        ensures
            res == *self,
    {
        OauthState {
            telegram_user_id: self.telegram_user_id,
            code_verifier: self.code_verifier.clone(),
            created_at: self.created_at,
        }
    }
}

/// What a store holds: tokens by user, pending logins by the characters of their state, and the
/// allowed users.
#[verifier::ext_equal]
pub struct Contents {
    pub tokens: Map<u64, SpotifyTokens>,
    pub logins: Map<Seq<char>, OauthState>,
    pub allowed: Set<u64>,
}

impl Contents {
    /// The tokens of a user, if the account is linked.
    pub open spec fn tokens_of(self, user: u64) -> Option<SpotifyTokens> {
        if self.tokens.dom().contains(user) {
            Some(self.tokens[user])
        } else {
            None
        }
    }

    /// The same contents, but with these tokens for the user.
    pub open spec fn with_tokens(self, user: u64, tokens: SpotifyTokens) -> Contents {
        Contents { tokens: self.tokens.insert(user, tokens), ..self }
    }

    /// The same contents, but with no tokens for the user.
    pub open spec fn without_tokens(self, user: u64) -> Contents {
        Contents { tokens: self.tokens.remove(user), ..self }
    }

    /// The pending login with this state, if there is one.
    pub open spec fn login_of(self, state: Seq<char>) -> Option<OauthState> {
        if self.logins.dom().contains(state) {
            Some(self.logins[state])
        } else {
            None
        }
    }

    /// The same contents, but with this login pending.
    pub open spec fn with_login(self, state: Seq<char>, login: OauthState) -> Contents {
        Contents { logins: self.logins.insert(state, login), ..self }
    }

    /// The same contents, but with no login pending under this state.
    pub open spec fn without_login(self, state: Seq<char>) -> Contents {
        Contents { logins: self.logins.remove(state), ..self }
    }

    /// The same contents, but with the user allowed.
    pub open spec fn with_allowed(self, user: u64) -> Contents {
        Contents { allowed: self.allowed.insert(user), ..self }
    }

    /// The same contents, but without the user allowed.
    pub open spec fn without_allowed(self, user: u64) -> Contents {
        Contents { allowed: self.allowed.remove(user), ..self }
    }
}

/// The map that holds each key with the value it has first in a list.
pub open spec fn first_values<K, V>(entries: Seq<(K, V)>) -> Map<K, V>
    decreases entries.len(),
{
    if entries.len() == 0 {
        Map::empty()
    } else {
        let before = first_values(entries.drop_last());
        if before.dom().contains(entries.last().0) {
            before
        } else {
            before.insert(entries.last().0, entries.last().1)
        }
    }
}

/// A list of logins, with the characters of their states.
pub open spec fn by_state(entries: Seq<(String, OauthState)>) -> Seq<(Seq<char>, OauthState)> {
    entries.map_values(|entry: (String, OauthState)| (entry.0@, entry.1))
}

/// What a store holds that was read from these lists.
pub open spec fn opened(
    users: Seq<(u64, SpotifyTokens)>,
    states: Seq<(String, OauthState)>,
    allowed: Seq<(u64, u8)>,
) -> Contents {
    Contents {
        tokens: first_values(users),
        logins: first_values(by_state(states)),
        allowed: first_values(allowed).dom(),
    }
}

/// Whether a pending login is not too old at a given time.
pub open spec fn accepted(login: OauthState, now: i64, ttl_secs: i64) -> bool {
    now - login.created_at <= ttl_secs
}

/// What taking a pending login leaves and returns, when the disk answered `saved` and it is
/// `now`. If the disk failed, nothing changes. Else no login is left under that state, and the
/// one that was there is returned if it is not too old.
pub open spec fn taken(
    before: Contents,
    state: Seq<char>,
    ttl_secs: i64,
    saved: Result<bool>,
    now: i64,
    after: Contents,
    res: Result<OauthState>,
) -> bool {
    match saved {
        Err(err) => after == before && res == Err::<OauthState, AppError>(err),
        Ok(_) => {
            &&& after == before.without_login(state)
            &&& match before.login_of(state) {
                Some(login) if accepted(login, now, ttl_secs) => res == Ok::<OauthState, AppError>(
                    login,
                ),
                _ => res matches Err(err) && err@ == Failure::InvalidOauthState,
            }
        },
    }
}

/// The store.
pub struct Store {
    tokens: scc::HashMap<u64, SpotifyTokens>,
    oauth: scc::HashMap<String, OauthState>,
    allowlist: scc::HashIndex<u64, u8>,
}

impl View for Store {
    type V = Contents;

    closed spec fn view(&self) -> Contents {
        Contents {
            tokens: cache::tokens_in(self.tokens),
            logins: cache::logins_in(self.oauth),
            allowed: cache::users_in(self.allowlist),
        }
    }
}

impl Store {
    /// A store with what was read from disk.
    pub fn open(
        users: Vec<(u64, SpotifyTokens)>,
        states: Vec<(String, OauthState)>,
        allowed: Vec<(u64, u8)>,
    ) -> (res: Store)
        ensures
            res@ == opened(users@, states@, allowed@),
    {
        let mut tokens = cache::no_tokens();
        let mut oauth = cache::no_logins();
        let mut allowlist = cache::no_users();
        let mut i: usize = 0;
        proof {
            assert(cache::tokens_in(tokens) =~= Map::empty());
            assert(cache::logins_in(oauth) =~= Map::empty());
        }
        while i < users.len()
            invariant
                i <= users@.len(),
                cache::tokens_in(tokens) == first_values(users@.take(i as int)),
            decreases users@.len() - i,
        {
            cache::add_tokens(&mut tokens, users[i].0, users[i].1.clone());
            proof {
                assert(users@.take(i + 1).drop_last() =~= users@.take(i as int));
            }
            i += 1;
        }
        let mut j: usize = 0;
        proof {
            assert(by_state(states@.take(0)) =~= Seq::empty());
        }
        while j < states.len()
            invariant
                j <= states@.len(),
                cache::logins_in(oauth) == first_values(by_state(states@.take(j as int))),
            decreases states@.len() - j,
        {
            cache::add_login(&mut oauth, states[j].0.clone(), states[j].1.clone());
            proof {
                assert(by_state(states@.take(j + 1)).drop_last() =~= by_state(
                    states@.take(j as int),
                ));
            }
            j += 1;
        }
        let mut k: usize = 0;
        while k < allowed.len()
            invariant
                k <= allowed@.len(),
                cache::users_in(allowlist) == first_values(allowed@.take(k as int)).dom(),
            decreases allowed@.len() - k,
        {
            let _ = cache::add_user(&mut allowlist, allowed[k].0, allowed[k].1);
            proof {
                assert(allowed@.take(k + 1).drop_last() =~= allowed@.take(k as int));
                assert(cache::users_in(allowlist) =~= first_values(allowed@.take(k + 1)).dom());
            }
            k += 1;
        }
        proof {
            assert(users@.take(users@.len() as int) =~= users@);
            assert(states@.take(states@.len() as int) =~= states@);
            assert(allowed@.take(allowed@.len() as int) =~= allowed@);
        }
        Store { tokens, oauth, allowlist }
    }

    /// Links a user's account, or updates its tokens.
    pub fn put_tokens<P: FnOnce(u64, Option<&SpotifyTokens>) -> Result<bool>>(
        &mut self,
        telegram_user_id: u64,
        tokens: &SpotifyTokens,
        persist: P,
    ) -> (res: Result<()>)
        requires
            persist.requires((telegram_user_id, Some(tokens))),
        ensures
            exists|saved: Result<bool>|
                {
                    &&& #[trigger] persist.ensures((telegram_user_id, Some(tokens)), saved)
                    &&& match saved {
                        Ok(_) => res is Ok && final(self)@ == old(self)@.with_tokens(
                            telegram_user_id,
                            *tokens,
                        ),
                        Err(err) => res == Err::<(), AppError>(err) && final(self)@ == old(self)@,
                    }
                },
    {
        match persist(telegram_user_id, Some(tokens)) {
            Ok(_) => {
                cache::set_tokens(&mut self.tokens, telegram_user_id, tokens.clone());
                Ok(())
            },
            Err(err) => Err(err),
        }
    }

    /// The tokens of a user, if the account is linked.
    pub fn get_tokens(&self, telegram_user_id: u64) -> (res: Option<SpotifyTokens>)
        ensures
            res == self@.tokens_of(telegram_user_id),
    {
        cache::read_tokens(&self.tokens, telegram_user_id)
    }

    /// Unlinks a user's account, and says whether there was anything to unlink.
    pub fn delete_tokens<P: FnOnce(u64, Option<&SpotifyTokens>) -> Result<bool>>(
        &mut self,
        telegram_user_id: u64,
        persist: P,
    ) -> (res: Result<bool>)
        requires
            persist.requires((telegram_user_id, None::<&SpotifyTokens>)),
        ensures
            exists|saved: Result<bool>|
                {
                    &&& #[trigger] persist.ensures(
                        (telegram_user_id, None::<&SpotifyTokens>),
                        saved,
                    )
                    &&& match saved {
                        Ok(removed) => {
                            &&& res == Ok::<bool, AppError>(
                                removed || old(self)@.tokens_of(telegram_user_id) is Some,
                            )
                            &&& final(self)@ == old(self)@.without_tokens(telegram_user_id)
                        },
                        Err(err) => res == Err::<bool, AppError>(err) && final(self)@
                            == old(self)@,
                    }
                },
    {
        match persist(telegram_user_id, None) {
            Ok(removed) => {
                let cached = cache::remove_tokens(&mut self.tokens, telegram_user_id);
                Ok(removed || cached)
            },
            Err(err) => Err(err),
        }
    }

    /// Remembers that a login was begun.
    pub fn put_oauth_state<P: FnOnce(&str, Option<&OauthState>) -> Result<bool>>(
        &mut self,
        state: &str,
        value: &OauthState,
        persist: P,
    ) -> (res: Result<()>)
        requires
            persist.requires((state, Some(value))),
        ensures
            exists|saved: Result<bool>|
                {
                    &&& #[trigger] persist.ensures((state, Some(value)), saved)
                    &&& match saved {
                        Ok(_) => res is Ok && final(self)@ == old(self)@.with_login(state@, *value),
                        Err(err) => res == Err::<(), AppError>(err) && final(self)@ == old(self)@,
                    }
                },
    {
        match persist(state, Some(value)) {
            Ok(_) => {
                cache::set_login(&mut self.oauth, state.to_owned(), value.clone());
                Ok(())
            },
            Err(err) => Err(err),
        }
    }

    /// Takes a pending login, which is gone from then on, and returns it unless it is too old.
    pub fn take_oauth_state<P: FnOnce(&str, Option<&OauthState>) -> Result<bool>>(
        &mut self,
        state: &str,
        ttl_secs: i64,
        persist: P,
    ) -> (res: Result<OauthState>)
        requires
            persist.requires((state, None::<&OauthState>)),
        ensures
            exists|saved: Result<bool>, now: i64|
                {
                    &&& #[trigger] persist.ensures((state, None::<&OauthState>), saved)
                    &&& saved is Ok && old(self)@.login_of(state@) is Some ==> clock_shows(now)
                    &&& #[trigger] taken(
                        old(self)@,
                        state@,
                        ttl_secs,
                        saved,
                        now,
                        final(self)@,
                        res,
                    )
                },
    {
        match cache::remove_login(&mut self.oauth, state) {
            None => {
                let saved = persist(state, None);
                let ghost answer = saved;
                let res = match saved {
                    Ok(_) => Err(AppError::InvalidOauthState),
                    Err(err) => Err(err),
                };
                proof {
                    assert(old(self)@.without_login(state@) =~= old(self)@);
                    assert(taken(old(self)@, state@, ttl_secs, answer, 0, self@, res));
                }
                res
            },
            Some(value) => {
                let saved = persist(state, None);
                let ghost answer = saved;
                match saved {
                    Ok(_) => {
                        let now: i64 = now_unix();
                        let res = oauth_state_at(value, now, ttl_secs);
                        proof {
                            assert(taken(old(self)@, state@, ttl_secs, answer, now, self@, res));
                        }
                        res
                    },
                    Err(err) => {
                        cache::add_login(&mut self.oauth, state.to_owned(), value);
                        let res = Err(err);
                        proof {
                            assert(self@ =~= old(self)@);
                            assert(taken(old(self)@, state@, ttl_secs, answer, 0, self@, res));
                        }
                        res
                    },
                }
            },
        }
    }

    /// Allows a user, and says whether they were not allowed before.
    pub fn allow_user<P: FnOnce(u64, bool) -> Result<()>>(
        &mut self,
        telegram_user_id: u64,
        persist: P,
    ) -> (res: Result<bool>)
        requires
            persist.requires((telegram_user_id, true)),
        ensures
            old(self)@.allowed.contains(telegram_user_id) ==> res == Ok::<bool, AppError>(false)
                && final(self)@ == old(self)@,
            !old(self)@.allowed.contains(telegram_user_id) ==> exists|saved: Result<()>|
                {
                    &&& #[trigger] persist.ensures((telegram_user_id, true), saved)
                    &&& match saved {
                        Ok(_) => {
                            &&& res == Ok::<bool, AppError>(true)
                            &&& final(self)@ == old(self)@.with_allowed(telegram_user_id)
                        },
                        Err(err) => res == Err::<bool, AppError>(err) && final(self)@
                            == old(self)@,
                    }
                },
    {
        if cache::has_user(&self.allowlist, telegram_user_id) {
            return Ok(false);
        }
        match persist(telegram_user_id, true) {
            Ok(()) => Ok(cache::add_user(&mut self.allowlist, telegram_user_id, 1)),
            Err(err) => Err(err),
        }
    }

    /// Takes back that a user is allowed, and says whether they were.
    pub fn deny_user<P: FnOnce(u64, bool) -> Result<()>>(
        &mut self,
        telegram_user_id: u64,
        persist: P,
    ) -> (res: Result<bool>)
        requires
            persist.requires((telegram_user_id, false)),
        ensures
            exists|saved: Result<()>|
                {
                    &&& #[trigger] persist.ensures((telegram_user_id, false), saved)
                    &&& match saved {
                        Ok(_) => {
                            &&& res == Ok::<bool, AppError>(
                                old(self)@.allowed.contains(telegram_user_id),
                            )
                            &&& final(self)@ == old(self)@.without_allowed(telegram_user_id)
                        },
                        Err(err) => res == Err::<bool, AppError>(err) && final(self)@
                            == old(self)@,
                    }
                },
    {
        match persist(telegram_user_id, false) {
            Ok(()) => Ok(cache::remove_user(&mut self.allowlist, telegram_user_id)),
            Err(err) => Err(err),
        }
    }

    /// Whether a user is allowed.
    pub fn is_allowlisted(&self, telegram_user_id: u64) -> (res: bool)
        ensures
            res == self@.allowed.contains(telegram_user_id),
    {
        cache::has_user(&self.allowlist, telegram_user_id)
    }

    /// The allowed users, each once, in rising order.
    pub fn list_allowlist(&self) -> (res: Vec<u64>)
        ensures
            rising(res@),
            res@.to_set() == self@.allowed,
    {
        let ids = cache::each_user(&self.allowlist);
        sorted_ids(&ids)
    }
}

/// Whether each number is larger than those before it.
pub open spec fn rising(ids: Seq<u64>) -> bool {
    forall|i: int, j: int| 0 <= i < j < ids.len() ==> ids[i] < ids[j]
}

/// Puts a number into its place among rising ones.
fn placed(ids: &Vec<u64>, id: u64) -> (res: Vec<u64>)
    requires
        rising(ids@),
        !ids@.contains(id),
    ensures
        rising(res@),
        res@.to_set() == ids@.to_set().insert(id),
{
    let mut res: Vec<u64> = Vec::new();
    let mut i: usize = 0;
    while i < ids.len() && ids[i] < id
        invariant
            i <= ids@.len(),
            res@ == ids@.take(i as int),
            forall|j: int| 0 <= j < i ==> ids@[j] < id,
        decreases ids@.len() - i,
    {
        res.push(ids[i]);
        proof {
            assert(ids@.take(i + 1) =~= ids@.take(i as int).push(ids@[i as int]));
        }
        i += 1;
    }
    let at: usize = i;
    res.push(id);
    while i < ids.len()
        invariant
            at <= i <= ids@.len(),
            res@ == ids@.take(at as int).push(id) + ids@.subrange(at as int, i as int),
        decreases ids@.len() - i,
    {
        res.push(ids[i]);
        i += 1;
        proof {
            assert(ids@.subrange(at as int, i as int) =~= ids@.subrange(at as int, i - 1).push(
                ids@[i - 1],
            ));
            assert(res@ =~= ids@.take(at as int).push(id) + ids@.subrange(at as int, i as int));
        }
    }
    proof {
        let n = ids@.len() as int;
        assert forall|j: int| 0 <= j < res@.len() implies #[trigger] res@[j] == (if j < at {
            ids@[j]
        } else if j == at {
            id
        } else {
            ids@[j - 1]
        }) by {}
        assert(forall|j: int| at <= j < n ==> ids@[j] > id) by {
            if at < n {
                assert(ids@.contains(ids@[at as int]));
            }
        }
        assert forall|x: u64| res@.to_set().contains(x) == ids@.to_set().insert(id).contains(x) by {
            if res@.contains(x) {
                let j = choose|j: int| 0 <= j < res@.len() && res@[j] == x;
                if j < at {
                    assert(ids@[j] == x);
                } else if j > at {
                    assert(ids@[j - 1] == x);
                }
            }
            if ids@.contains(x) {
                let j = choose|j: int| 0 <= j < n && ids@[j] == x;
                if j < at {
                    assert(res@[j] == x);
                } else {
                    assert(res@[j + 1] == x);
                }
            }
            if x == id {
                assert(res@[at as int] == x);
            }
        }
        assert(res@.to_set() =~= ids@.to_set().insert(id));
    }
    res
}

/// The same numbers in rising order.
fn sorted_ids(ids: &Vec<u64>) -> (res: Vec<u64>)
    requires
        ids@.no_duplicates(),
    ensures
        rising(res@),
        res@.to_set() == ids@.to_set(),
{
    let mut res: Vec<u64> = Vec::new();
    let mut i: usize = 0;
    proof {
        assert(res@.to_set() =~= ids@.take(0).to_set());
    }
    while i < ids.len()
        invariant
            ids@.no_duplicates(),
            i <= ids@.len(),
            rising(res@),
            res@.to_set() == ids@.take(i as int).to_set(),
        decreases ids@.len() - i,
    {
        proof {
            let done = ids@.take(i as int);
            let next = ids@[i as int];
            if res@.contains(next) {
                assert(res@.to_set().contains(next));
                assert(done.contains(next));
                let j = choose|j: int| 0 <= j < done.len() && done[j] == next;
                assert(ids@[j] == ids@[i as int]);
            }
            assert(ids@.take(i + 1) =~= done.push(next));
            assert(done.push(next).to_set() =~= done.to_set().insert(next)) by {
                broadcast use vstd::seq_lib::group_seq_properties;

            }
        }
        res = placed(&res, ids[i]);
        i += 1;
    }
    proof {
        assert(ids@.take(ids@.len() as int) =~= ids@);
    }
    res
}

/// What comes of a login that was pending: it is returned unless it is too old at this time.
pub fn oauth_state_at(value: OauthState, now: i64, ttl_secs: i64) -> (res: Result<OauthState>)
    ensures
        accepted(value, now, ttl_secs) ==> res == Ok::<OauthState, AppError>(value),
        !accepted(value, now, ttl_secs) ==> (res matches Err(err) && err@
            == Failure::InvalidOauthState),
{
    if now as i128 - value.created_at as i128 > ttl_secs as i128 {
        return Err(AppError::InvalidOauthState);
    }
    Ok(value)
}

/// The time in seconds since the start of 1970, by a clock that answers that so many seconds have
/// passed since then, or that it is a time before it.
pub open spec fn unix_time(elapsed: Option<u64>) -> i64 {
    match elapsed {
        Some(secs) => secs as i64,
        None => 0,
    }
}

/// The time in seconds since the start of 1970, of a clock that shows `elapsed` seconds since
/// then, or a time before it.
pub fn unix_seconds(elapsed: Option<u64>) -> (res: i64)
    ensures
        res == unix_time(elapsed),
{
    match elapsed {
        Some(secs) => secs as i64,
        None => 0,
    }
}

/// Whether the clock can answer that so many whole seconds have passed since the start of 1970, or
/// that it is a time before it. Which of its possible answers the clock gives is left open.
pub closed spec fn clock_answers(elapsed: Option<u64>) -> bool {
    exists|
        time: std::time::SystemTime,
        since: std::result::Result<std::time::Duration, std::time::SystemTimeError>,
    |
        {
            &&& #[trigger] call_ensures(std::time::SystemTime::now, (), time)
            &&& #[trigger] call_ensures(outside::since_epoch, (time,), since)
            &&& match (since, elapsed) {
                (Ok(span), Some(secs)) => call_ensures(std::time::Duration::as_secs, (&span,), secs),
                (Err(_), None) => true,
                _ => false,
            }
        }
}

/// Whether a time is one that the clock can show.
pub open spec fn clock_shows(now: i64) -> bool {
    exists|elapsed: Option<u64>| #[trigger] clock_answers(elapsed) && now == unix_time(elapsed)
}

/// The time in seconds since the start of 1970, and zero before: an answer of the clock, read as
/// a signed number.
pub fn now_unix() -> (res: i64)
    ensures
        clock_shows(res),
{
    let time = std::time::SystemTime::now();
    let elapsed: Option<u64> = match outside::since_epoch(time) {
        Ok(span) => Some(span.as_secs()),
        Err(_) => None,
    };
    proof {
        assert(clock_answers(elapsed));
    }
    unix_seconds(elapsed)
}

} // verus!
