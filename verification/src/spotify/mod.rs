//! Spotify: linking an account, and what it is playing.
use vstd::prelude::*;

use crate::chance::{bytes_drawn, draw_bytes, id_made, new_id};
use crate::config::Config;
use crate::db::{
    accepted, clock_shows, now_unix, taken, Contents, OauthState, SpotifyTokens, Store,
};
use crate::error::{AppError, Failure, Result};
use crate::outside;
use crate::outside::{
    base64_chars, base64_fill, percent_byte, percent_bytes, percent_text, sha256, uuid_form,
};

pub mod answer;
pub mod answer_laws;
pub mod session;

verus! {

pub const AUTH_URL: &'static str = "https://accounts.spotify.com/authorize";

pub const TOKEN_URL: &'static str = "https://accounts.spotify.com/api/token";

pub const CURRENTLY_PLAYING_URL: &'static str =
    "https://api.spotify.com/v1/me/player/currently-playing";

pub const ME_URL: &'static str = "https://api.spotify.com/v1/me";

pub const SCOPES: &'static str =
    "user-read-currently-playing user-read-playback-state user-read-private";

/// What the bot is known by at Spotify.
#[derive(Debug)]
pub struct SpotifyClient {
    pub client_id: String,
    pub client_secret: String,
    pub redirect_uri: String,
}

impl Clone for SpotifyClient {
    fn clone(&self) -> (res: Self)
        ensures
            res == *self,
    {
        SpotifyClient {
            client_id: self.client_id.clone(),
            client_secret: self.client_secret.clone(),
            redirect_uri: self.redirect_uri.clone(),
        }
    }
}

/// The challenge that goes with a verifier: its digest.
pub open spec fn challenge(verifier: Seq<char>) -> Seq<char> {
    base64_chars(sha256(vstd::utf8::encode_utf8(verifier)), true)
}

/// How many random bytes a verifier is made of.
pub const VERIFIER_BYTES: u16 = 64;

/// Whether a verifier is made of random bytes, written for a link.
pub open spec fn verifier_made(verifier: Seq<char>) -> bool {
    exists|bytes: Seq<u8>| #[trigger]
        bytes_drawn(VERIFIER_BYTES, bytes) && bytes.len() == VERIFIER_BYTES && verifier
            == base64_chars(bytes, true)
}

/// A new verifier.
fn pkce_verifier() -> (res: String)
    ensures
        verifier_made(res@),
{
    let bytes = draw_bytes(VERIFIER_BYTES);
    outside::base64_for_link(&bytes)
}

/// The challenge that goes with a verifier.
pub fn pkce_challenge(verifier: &str) -> (res: String)
    ensures
        res@ == challenge(verifier@),
{
    let digest = outside::sha256_digest(verifier.as_bytes());
    outside::base64_for_link(&digest)
}

/// What comes of beginning a login, when the disk answered `saved`: the login is pending and the
/// link to Spotify's page carries its state and its challenge, or nothing has changed.
pub open spec fn begun(
    client: SpotifyClient,
    before: Contents,
    state: Seq<char>,
    login: OauthState,
    saved: Result<bool>,
    after: Contents,
    res: Result<String>,
) -> bool {
    match saved {
        Ok(_) => {
            &&& after == before.with_login(state, login)
            &&& res matches Ok(link)
            &&& link@ == client.login_link(state, challenge(login.code_verifier@))
        },
        Err(err) => after == before && res == Err::<String, AppError>(err),
    }
}

/// What comes of finishing a login that was taken from the store, when its code was exchanged and
/// the disk answered `saved`: the account of the user who began it is linked, or nothing has
/// changed.
pub open spec fn finished(
    before: Contents,
    login: OauthState,
    exchanged: Result<SpotifyTokens>,
    saved: Result<bool>,
    after: Contents,
    res: Result<u64>,
) -> bool {
    match exchanged {
        Err(err) => res == Err::<u64, AppError>(err) && after == before,
        Ok(tokens) => match saved {
            Ok(_) => {
                &&& res == Ok::<u64, AppError>(login.telegram_user_id)
                &&& after == before.with_tokens(login.telegram_user_id, tokens)
            },
            Err(err) => res == Err::<u64, AppError>(err) && after == before,
        },
    }
}

/// The fields of a form, with the characters of their names and values.
pub open spec fn fields(form: Seq<(String, String)>) -> Seq<(Seq<char>, Seq<char>)> {
    form.map_values(|field: (String, String)| (field.0@, field.1@))
}

fn field(name: &str, value: &str) -> (res: (String, String))
    ensures
        res.0@ == name@,
        res.1@ == value@,
{
    (name.to_owned(), value.to_owned())
}

impl SpotifyClient {
    /// The client that the settings describe.
    pub fn new(config: &Config) -> (res: Self)
        ensures
            res.client_id@ == config@.spotify_client_id,
            res.client_secret@ == config@.spotify_client_secret,
            res.redirect_uri@ == config@.oauth_redirect_uri,
    {
        SpotifyClient {
            client_id: config.spotify_client_id.clone(),
            client_secret: config.spotify_client_secret.clone(),
            redirect_uri: config.oauth_redirect_uri.clone(),
        }
    }

    /// The link to the page where a user lets the bot read their account.
    pub open spec fn login_link(self, state: Seq<char>, challenge: Seq<char>) -> Seq<char> {
        AUTH_URL@ + "?response_type=code&client_id="@ + percent_text(self.client_id@)
            + "&redirect_uri="@ + percent_text(self.redirect_uri@) + "&scope="@ + percent_text(
            SCOPES@,
        ) + "&state="@ + percent_text(state) + "&code_challenge_method=S256&code_challenge="@
            + percent_text(challenge) + "&show_dialog=true"@
    }

    /// The link to the page where a user lets the bot read their account.
    pub fn authorize_url(&self, state: &str, challenge: &str) -> (res: String)
        ensures
            res@ == self.login_link(state@, challenge@),
    {
        let client_id = outside::percent_encode(self.client_id.as_str());
        let redirect_uri = outside::percent_encode(self.redirect_uri.as_str());
        let scopes = outside::percent_encode(SCOPES);
        let state = outside::percent_encode(state);
        let challenge = outside::percent_encode(challenge);
        let mut res = AUTH_URL.to_owned();
        res.append("?response_type=code&client_id=");
        res.append(client_id.as_str());
        res.append("&redirect_uri=");
        res.append(redirect_uri.as_str());
        res.append("&scope=");
        res.append(scopes.as_str());
        res.append("&state=");
        res.append(state.as_str());
        res.append("&code_challenge_method=S256&code_challenge=");
        res.append(challenge.as_str());
        res.append("&show_dialog=true");
        res
    }

    /// Begins a login with a given state and verifier.
    pub fn start_link_with<P: FnOnce(&str, Option<&OauthState>) -> Result<bool>>(
        &self,
        store: &mut Store,
        telegram_user_id: u64,
        state: &str,
        verifier: String,
        created_at: i64,
        persist: P,
    ) -> (res: Result<String>)
        requires
            forall|login: OauthState| #[trigger] persist.requires((state, Some(&login))),
        ensures
            exists|login: OauthState, saved: Result<bool>|
                {
                    &&& login.telegram_user_id == telegram_user_id
                    &&& login.code_verifier@ == verifier@
                    &&& login.created_at == created_at
                    &&& #[trigger] persist.ensures((state, Some(&login)), saved)
                    &&& begun(*self, old(store)@, state@, login, saved, final(store)@, res)
                },
    {
        let challenge = pkce_challenge(verifier.as_str());
        let login = OauthState { telegram_user_id, code_verifier: verifier, created_at };
        match store.put_oauth_state(state, &login, persist) {
            Ok(()) => Ok(self.authorize_url(state, challenge.as_str())),
            Err(err) => Err(err),
        }
    }

    /// Begins a login: remembers a new state and a new verifier, and returns the link to
    /// Spotify's page.
    pub fn start_link<P: FnOnce(&str, Option<&OauthState>) -> Result<bool>>(
        &self,
        store: &mut Store,
        telegram_user_id: u64,
        persist: P,
    ) -> (res: Result<String>)
        requires
            forall|state: &str, login: OauthState| #[trigger]
                persist.requires((state, Some(&login))),
        ensures
            exists|state: &str, login: OauthState, saved: Result<bool>|
                {
                    &&& id_made(state@)
                    &&& uuid_form(state@)
                    &&& login.telegram_user_id == telegram_user_id
                    &&& verifier_made(login.code_verifier@)
                    &&& clock_shows(login.created_at)
                    &&& #[trigger] persist.ensures((state, Some(&login)), saved)
                    &&& begun(*self, old(store)@, state@, login, saved, final(store)@, res)
                },
    {
        let state = new_id();
        let verifier = pkce_verifier();
        let created_at: i64 = now_unix();
        self.start_link_with(
            store,
            telegram_user_id,
            state.as_str(),
            verifier,
            created_at,
            persist,
        )
    }

    /// Finishes a login that was taken from the store, when its code was exchanged: the account is
    /// linked, and its user returned.
    pub fn finish_link<P: FnOnce(u64, Option<&SpotifyTokens>) -> Result<bool>>(
        &self,
        store: &mut Store,
        login: OauthState,
        exchanged: Result<SpotifyTokens>,
        persist: P,
    ) -> (res: Result<u64>)
        requires
            exchanged matches Ok(tokens) ==> persist.requires(
                (login.telegram_user_id, Some(&tokens)),
            ),
        ensures
            exists|saved: Result<bool>|
                {
                    &&& exchanged matches Ok(tokens) ==> persist.ensures(
                        (login.telegram_user_id, Some(&tokens)),
                        saved,
                    )
                    &&& #[trigger] finished(
                        old(store)@,
                        login,
                        exchanged,
                        saved,
                        final(store)@,
                        res,
                    )
                },
    {
        match exchanged {
            Ok(tokens) => {
                let ghost before = store@;
                let user: u64 = login.telegram_user_id;
                let kept = store.put_tokens(user, &tokens, persist);
                let ghost answer = choose|saved: Result<bool>|
                    {
                        &&& #[trigger] persist.ensures((user, Some(&tokens)), saved)
                        &&& match saved {
                            Ok(_) => kept is Ok && store@ == before.with_tokens(user, tokens),
                            Err(err) => kept == Err::<(), AppError>(err) && store@ == before,
                        }
                    };
                let res = match kept {
                    Ok(()) => Ok(user),
                    Err(err) => Err(err),
                };
                proof {
                    assert(finished(before, login, exchanged, answer, store@, res));
                }
                res
            },
            Err(err) => {
                let res = Err(err);
                proof {
                    assert(finished(store@, login, exchanged, Ok(true), store@, res));
                }
                res
            },
        }
    }

    /// Keeps the tokens of an account that were renewed, and returns them.
    pub fn keep_tokens<P: FnOnce(u64, Option<&SpotifyTokens>) -> Result<bool>>(
        &self,
        store: &mut Store,
        telegram_user_id: u64,
        renewed: Result<SpotifyTokens>,
        persist: P,
    ) -> (res: Result<SpotifyTokens>)
        requires
            renewed matches Ok(tokens) ==> persist.requires((telegram_user_id, Some(&tokens))),
        ensures
            match renewed {
                Err(err) => res == Err::<SpotifyTokens, AppError>(err) && final(store)@
                    == old(store)@,
                Ok(tokens) => exists|saved: Result<bool>|
                    {
                        &&& #[trigger] persist.ensures((telegram_user_id, Some(&tokens)), saved)
                        &&& match saved {
                            Ok(_) => {
                                &&& res == Ok::<SpotifyTokens, AppError>(tokens)
                                &&& final(store)@ == old(store)@.with_tokens(
                                    telegram_user_id,
                                    tokens,
                                )
                            },
                            Err(err) => {
                                &&& res == Err::<SpotifyTokens, AppError>(err)
                                &&& final(store)@ == old(store)@
                            },
                        }
                    },
            },
    {
        match renewed {
            Ok(tokens) => match store.put_tokens(telegram_user_id, &tokens, persist) {
                Ok(()) => Ok(tokens),
                Err(err) => Err(err),
            },
            Err(err) => Err(err),
        }
    }

    /// Unlinks an account, and says whether there was anything to unlink.
    pub fn unlink<P: FnOnce(u64, Option<&SpotifyTokens>) -> Result<bool>>(
        &self,
        store: &mut Store,
        telegram_user_id: u64,
        persist: P,
    ) -> (res: Result<bool>)
        requires
            persist.requires((telegram_user_id, None::<&SpotifyTokens>)),
        ensures
            exists|saved: Result<bool>|
                {
                    &&& #[trigger] persist.ensures(
                        (telegram_user_id, None::<&SpotifyTokens>),
                        saved,
                    )
                    &&& match saved {
                        Ok(removed) => {
                            &&& res == Ok::<bool, AppError>(
                                removed || old(store)@.tokens_of(telegram_user_id) is Some,
                            )
                            &&& final(store)@ == old(store)@.without_tokens(telegram_user_id)
                        },
                        Err(err) => res == Err::<bool, AppError>(err) && final(store)@
                            == old(store)@,
                    }
                },
    {
        store.delete_tokens(telegram_user_id, persist)
    }

    /// The form that exchanges a code for tokens.
    pub fn exchange_form(&self, code: &str, verifier: &str) -> (res: Vec<(String, String)>)
        ensures
            fields(res@) == seq![
                ("grant_type"@, "authorization_code"@),
                ("code"@, code@),
                ("redirect_uri"@, self.redirect_uri@),
                ("code_verifier"@, verifier@),
            ],
    {
        let mut form: Vec<(String, String)> = Vec::new();
        form.push(field("grant_type", "authorization_code"));
        form.push(field("code", code));
        form.push(field("redirect_uri", self.redirect_uri.as_str()));
        form.push(field("code_verifier", verifier));
        form
    }

    /// The form that renews tokens.
    pub fn refresh_form(&self, current: &SpotifyTokens) -> (res: Vec<(String, String)>)
        ensures
            fields(res@) == seq![
                ("grant_type"@, "refresh_token"@),
                ("refresh_token"@, current.refresh_token@),
            ],
    {
        let mut form: Vec<(String, String)> = Vec::new();
        form.push(field("grant_type", "refresh_token"));
        form.push(field("refresh_token", current.refresh_token.as_str()));
        form
    }

    /// What the bot shows Spotify of itself when it asks for tokens.
    pub fn basic_auth(&self) -> (res: String)
        ensures
            ({
                let bytes = vstd::utf8::encode_utf8(self.client_id@ + ":"@ + self.client_secret@);
                res@ == "Basic "@ + (base64_chars(bytes, false) + base64_fill(bytes))
            }),
    {
        let mut pair = self.client_id.clone();
        pair.append(":");
        pair.append(self.client_secret.as_str());
        let encoded = outside::base64_standard(pair.as_str().as_bytes());
        let mut res = "Basic ".to_owned();
        res.append(encoded.as_str());
        res
    }
}

/// When the state of a login comes back in time, it is the login that was begun that is found,
/// for the user who began it and with the verifier whose challenge Spotify was shown.
pub proof fn login_is_for_who_began(
    client: SpotifyClient,
    before: Contents,
    between: Contents,
    after: Contents,
    state: Seq<char>,
    login: OauthState,
    saved: Result<bool>,
    link: Result<String>,
    ttl_secs: i64,
    removed: Result<bool>,
    now: i64,
    found: Result<OauthState>,
)
    requires
        begun(client, before, state, login, saved, between, link),
        saved is Ok,
        taken(between, state, ttl_secs, removed, now, after, found),
        removed is Ok,
        accepted(login, now, ttl_secs),
    ensures
        found == Ok::<OauthState, AppError>(login),
        link matches Ok(url) && url@ == client.login_link(state, challenge(login.code_verifier@)),
        after.login_of(state) is None,
{
}

/// A login that is pending and in time links the account of exactly the user who began it when
/// its code is exchanged, and changes no tokens when it is not. Either way it is used up: taken
/// again, it is refused. No other user's tokens, no other login and no one's permission changes.
pub proof fn login_links_its_user(
    before: Contents,
    between: Contents,
    after: Contents,
    last: Contents,
    state: Seq<char>,
    login: OauthState,
    ttl_secs: i64,
    now: i64,
    removed: Result<bool>,
    found: Result<OauthState>,
    exchanged: Result<SpotifyTokens>,
    saved: Result<bool>,
    linked: Result<u64>,
    ttl_again: i64,
    now_again: i64,
    removed_again: Result<bool>,
    found_again: Result<OauthState>,
    other_user: u64,
    other_state: Seq<char>,
)
    requires
        before.login_of(state) == Some(login),
        accepted(login, now, ttl_secs),
        taken(before, state, ttl_secs, removed, now, between, found),
        finished(between, login, exchanged, saved, after, linked),
        taken(after, state, ttl_again, removed_again, now_again, last, found_again),
        removed is Ok,
        saved is Ok,
        removed_again is Ok,
    ensures
        found == Ok::<OauthState, AppError>(login),
        exchanged matches Ok(tokens) ==> linked == Ok::<u64, AppError>(login.telegram_user_id)
            && after.tokens_of(login.telegram_user_id) == Some(tokens),
        exchanged matches Err(err) ==> linked == Err::<u64, AppError>(err) && after.tokens
            == before.tokens,
        other_user != login.telegram_user_id ==> after.tokens_of(other_user) == before.tokens_of(
            other_user,
        ),
        after.login_of(state) is None,
        other_state != state ==> after.login_of(other_state) == before.login_of(other_state),
        after.allowed == before.allowed,
        found_again matches Err(err) && err@ == Failure::InvalidOauthState,
        last.tokens == after.tokens,
{
}

/// Whether a character can stand in a value of a link without ending it.
pub open spec fn plain(c: char) -> bool {
    c == '%' || '0' <= c <= '9' || 'A' <= c <= 'Z' || 'a' <= c <= 'z' || c == '-' || c == '.' || c
        == '_' || c == '~'
}

/// Bytes are written in a link with characters that cannot end a value.
proof fn lemma_bytes_are_plain(bytes: Seq<u8>, i: int)
    requires
        0 <= i < percent_bytes(bytes).len(),
    ensures
        plain(percent_bytes(bytes)[i]),
    decreases bytes.len(),
{
    let before = percent_bytes(bytes.drop_last());
    if i < before.len() {
        lemma_bytes_are_plain(bytes.drop_last(), i);
    } else {
        assert(percent_bytes(bytes)[i] == percent_byte(bytes.last())[i - before.len()]);
    }
}

/// Whatever a value is, it is written in a link with characters that cannot end it: no value
/// reaches into another.
pub proof fn values_stay_apart(value: Seq<char>, i: int)
    requires
        0 <= i < percent_text(value).len(),
    ensures
        plain(percent_text(value)[i]),
{
    lemma_bytes_are_plain(vstd::utf8::encode_utf8(value), i);
}

} // verus!
