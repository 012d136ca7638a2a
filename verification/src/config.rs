//! The settings, read from the variables of the environment.
use vstd::prelude::*;

use crate::error::{AppError, Failure, Result};
use crate::outside;
use crate::text;
use crate::text::{parsed_u64, trimmed, white_space};

verus! {

pub const DEFAULT_BIND: &'static str = "0.0.0.0:8080";

pub const DEFAULT_REDB: &'static str = "./data/bot.redb";

/// Limits on requests, logins and card links, in seconds.
#[derive(Clone, Copy, Debug)]
pub struct HttpSettings {
    pub request_timeout_secs: u64,
    pub oauth_state_ttl_secs: i64,
    pub card_url_ttl_secs: i64,
}

/// The usual limits.
pub open spec fn usual_limits() -> HttpSettings {
    HttpSettings { request_timeout_secs: 20, oauth_state_ttl_secs: 900, card_url_ttl_secs: 300 }
}

impl Default for HttpSettings {
    fn default() -> (res: Self)
        ensures
            res == usual_limits(),
    {
        HttpSettings {
            request_timeout_secs: 20,
            oauth_state_ttl_secs: 900,
            card_url_ttl_secs: 300,
        }
    }
}

/// A list of user ids that keeps up to eight of them in place. It is a `SmallVec` of the crate
/// `smallvec`.
#[verifier::external_body]
#[derive(Debug)]
pub struct IdList {
    ids: smallvec::SmallVec<[u64; 8]>,
}

/// The ids that a list holds.
pub uninterp spec fn ids_in(list: IdList) -> Seq<u64>;

/// `SmallVec::new`: a list that holds nothing.
#[verifier::external_body]
fn no_ids() -> (list: IdList)
    ensures
        ids_in(list) == Seq::<u64>::empty(),
{
    IdList { ids: smallvec::SmallVec::new() }
}

/// `SmallVec::push`: the id stands at the end.
#[verifier::external_body]
fn push_id(list: &mut IdList, id: u64)
    ensures
        ids_in(*final(list)) == ids_in(*old(list)).push(id),
{
    list.ids.push(id);
}

/// `SmallVec::as_slice`: the ids in order.
#[verifier::external_body]
fn id_slice(list: &IdList) -> (res: &[u64])
    ensures
        res@ == ids_in(*list),
{
    list.ids.as_slice()
}

/// `SmallVec::clone`: a list that holds the same.
#[verifier::external_body]
fn copied_ids(list: &IdList) -> (res: IdList)
    ensures
        ids_in(res) == ids_in(*list),
{
    IdList { ids: list.ids.clone() }
}

impl Clone for IdList {
    fn clone(&self) -> (res: Self)
        ensures
            ids_in(res) == ids_in(*self),
    {
        copied_ids(self)
    }
}

impl IdList {
    /// The ids in order.
    pub fn as_slice(&self) -> (res: &[u64])
        ensures
            res@ == ids_in(*self),
    {
        id_slice(self)
    }

    /// Whether there are no ids.
    pub fn is_empty(&self) -> (res: bool)
        ensures
            res == (ids_in(*self).len() == 0),
    {
        id_slice(self).len() == 0
    }

    /// Whether an id is among them.
    pub fn contains(&self, id: u64) -> (res: bool)
        ensures
            res == ids_in(*self).contains(id),
    {
        let ids = id_slice(self);
        let mut i: usize = 0;
        while i < ids.len()
            invariant
                ids@ == ids_in(*self),
                i <= ids@.len(),
                forall|j: int| 0 <= j < i ==> ids@[j] != id,
            decreases ids@.len() - i,
        {
            if ids[i] == id {
                return true;
            }
            i += 1;
        }
        false
    }
}

/// The settings.
#[derive(Debug)]
pub struct Config {
    pub telegram_bot_token: String,
    pub spotify_client_id: String,
    pub spotify_client_secret: String,
    pub public_base_url: String,
    pub oauth_redirect_uri: String,
    pub redb_path: String,
    pub http_bind: String,
    pub card_signing_secret: String,
    pub admin_ids: IdList,
    pub http: HttpSettings,
}

/// The settings, with the characters of their texts.
#[verifier::ext_equal]
pub struct Settings {
    pub telegram_bot_token: Seq<char>,
    pub spotify_client_id: Seq<char>,
    pub spotify_client_secret: Seq<char>,
    pub public_base_url: Seq<char>,
    pub oauth_redirect_uri: Seq<char>,
    pub redb_path: Seq<char>,
    pub http_bind: Seq<char>,
    pub card_signing_secret: Seq<char>,
    pub admin_ids: Seq<u64>,
    pub http: HttpSettings,
}

impl View for Config {
    type V = Settings;

    open spec fn view(&self) -> Settings {
        Settings {
            telegram_bot_token: self.telegram_bot_token@,
            spotify_client_id: self.spotify_client_id@,
            spotify_client_secret: self.spotify_client_secret@,
            public_base_url: self.public_base_url@,
            oauth_redirect_uri: self.oauth_redirect_uri@,
            redb_path: self.redb_path@,
            http_bind: self.http_bind@,
            card_signing_secret: self.card_signing_secret@,
            admin_ids: ids_in(self.admin_ids),
            http: self.http,
        }
    }
}

impl Clone for Config {
    fn clone(&self) -> (res: Self)
        ensures
            res@ == self@,
    {
        Config {
            telegram_bot_token: self.telegram_bot_token.clone(),
            spotify_client_id: self.spotify_client_id.clone(),
            spotify_client_secret: self.spotify_client_secret.clone(),
            public_base_url: self.public_base_url.clone(),
            oauth_redirect_uri: self.oauth_redirect_uri.clone(),
            redb_path: self.redb_path.clone(),
            http_bind: self.http_bind.clone(),
            card_signing_secret: self.card_signing_secret.clone(),
            admin_ids: self.admin_ids.clone(),
            http: self.http,
        }
    }
}

/// The last value that a list of variables gives to a name.
pub open spec fn last_value(vars: Seq<(String, String)>, name: Seq<char>) -> Option<Seq<char>>
    decreases vars.len(),
{
    if vars.len() == 0 {
        None
    } else if vars.last().0@ == name {
        Some(vars.last().1@)
    } else {
        last_value(vars.drop_last(), name)
    }
}

/// What is set under a name: the last value without the white space around it, unless nothing
/// is left of it.
pub open spec fn setting(vars: Seq<(String, String)>, name: Seq<char>) -> Option<Seq<char>> {
    match last_value(vars, name) {
        Some(value) if trimmed(value).len() > 0 => Some(trimmed(value)),
        _ => None,
    }
}

/// What is set under a name, or else a given text.
pub open spec fn setting_or(
    vars: Seq<(String, String)>,
    name: Seq<char>,
    other: Seq<char>,
) -> Seq<char> {
    match setting(vars, name) {
        Some(value) => value,
        None => other,
    }
}

/// The failure that a variable which must be set is missing.
pub open spec fn missing(name: Seq<char>) -> Failure {
    Failure::Config("Missing required env var "@ + name)
}

/// What parts the entries of a list of ids.
pub open spec fn separates(c: char) -> bool {
    c == ',' || white_space(c)
}

/// The pieces of a text between separating characters.
pub open spec fn pieces(s: Seq<char>) -> Seq<Seq<char>>
    decreases s.len(),
{
    if s.len() == 0 {
        seq![Seq::empty()]
    } else {
        let before = pieces(s.drop_last());
        if separates(s.last()) {
            before.push(Seq::empty())
        } else {
            before.drop_last().push(before.last().push(s.last()))
        }
    }
}

/// The different ids that pieces name, in the order in which they come first, or the first
/// piece that is neither empty nor a number.
pub open spec fn ids_named(pieces: Seq<Seq<char>>) -> std::result::Result<Seq<u64>, Seq<char>>
    decreases pieces.len(),
{
    if pieces.len() == 0 {
        Ok(Seq::empty())
    } else {
        match ids_named(pieces.drop_last()) {
            Err(piece) => Err(piece),
            Ok(ids) => if pieces.last().len() == 0 {
                Ok(ids)
            } else {
                match parsed_u64(pieces.last()) {
                    None => Err(pieces.last()),
                    Some(id) if ids.contains(id) => Ok(ids),
                    Some(id) => Ok(ids.push(id)),
                }
            },
        }
    }
}

/// The ids that a list names, or the failure that one of its entries is no number.
pub open spec fn admins(raw: Seq<char>) -> std::result::Result<Seq<u64>, Failure> {
    match ids_named(pieces(raw)) {
        Ok(ids) => Ok(ids),
        Err(piece) => Err(Failure::Config("Invalid ADMIN_USER_IDS entry: "@ + piece)),
    }
}

/// The base of the public links: a URL over HTTP in its normal form, without one slash at the
/// end.
pub open spec fn base_url(
    parsed: std::result::Result<(Seq<char>, Seq<char>), Seq<char>>,
) -> std::result::Result<Seq<char>, Failure> {
    match parsed {
        Err(text) => Err(Failure::Config("Invalid PUBLIC_BASE_URL: "@ + text)),
        Ok((scheme, normal)) => if scheme != "http"@ && scheme != "https"@ {
            Err(
                Failure::Config(
                    "PUBLIC_BASE_URL must be an http(s) URL reachable by Telegram and Spotify"@,
                ),
            )
        } else if normal.len() > 0 && normal.last() == '/' {
            Ok(normal.drop_last())
        } else {
            Ok(normal)
        },
    }
}

/// The address to serve at.
pub open spec fn bind_text(vars: Seq<(String, String)>) -> Seq<char> {
    setting_or(vars, "HTTP_BIND"@, DEFAULT_BIND@)
}

/// The settings that a list of variables gives, when the public URL was read as `parsed` and
/// the address to serve at was found to be good or bad. The first thing that is wrong is the
/// failure.
pub open spec fn configured(
    vars: Seq<(String, String)>,
    parsed: std::result::Result<(Seq<char>, Seq<char>), Seq<char>>,
    bind: std::result::Result<(), Seq<char>>,
) -> std::result::Result<Settings, Failure> {
    if setting(vars, "TELEGRAM_BOT_TOKEN"@) is None {
        Err(missing("TELEGRAM_BOT_TOKEN"@))
    } else if setting(vars, "SPOTIFY_CLIENT_ID"@) is None {
        Err(missing("SPOTIFY_CLIENT_ID"@))
    } else if setting(vars, "SPOTIFY_CLIENT_SECRET"@) is None {
        Err(missing("SPOTIFY_CLIENT_SECRET"@))
    } else if setting(vars, "PUBLIC_BASE_URL"@) is None {
        Err(missing("PUBLIC_BASE_URL"@))
    } else if base_url(parsed) is Err {
        Err(base_url(parsed)->Err_0)
    } else if bind is Err {
        Err(Failure::Config("Invalid HTTP_BIND: "@ + bind->Err_0))
    } else if last_value(vars, "ADMIN_USER_IDS"@) is Some && admins(
        last_value(vars, "ADMIN_USER_IDS"@)->0,
    ) is Err {
        Err(admins(last_value(vars, "ADMIN_USER_IDS"@)->0)->Err_0)
    } else {
        let token = setting(vars, "TELEGRAM_BOT_TOKEN"@)->0;
        let base = base_url(parsed)->Ok_0;
        Ok(
            Settings {
                telegram_bot_token: token,
                spotify_client_id: setting(vars, "SPOTIFY_CLIENT_ID"@)->0,
                spotify_client_secret: setting(vars, "SPOTIFY_CLIENT_SECRET"@)->0,
                public_base_url: base,
                oauth_redirect_uri: setting_or(
                    vars,
                    "OAUTH_REDIRECT_URI"@,
                    base + "/oauth/callback"@,
                ),
                redb_path: setting_or(vars, "REDB_PATH"@, DEFAULT_REDB@),
                http_bind: bind_text(vars),
                card_signing_secret: setting_or(vars, "CARD_SIGNING_SECRET"@, "card:"@ + token),
                admin_ids: match last_value(vars, "ADMIN_USER_IDS"@) {
                    Some(raw) => admins(raw)->Ok_0,
                    None => Seq::empty(),
                },
                http: usual_limits(),
            },
        )
    }
}

/// Whether a result has the given characters.
pub open spec fn loaded_as(
    res: Result<Config>,
    wanted: std::result::Result<Settings, Failure>,
) -> bool {
    match wanted {
        Ok(settings) => res matches Ok(config) && config@ == settings,
        Err(failure) => res matches Err(err) && err@ == failure,
    }
}

/// The last value of a variable.
fn value_of(vars: &Vec<(String, String)>, name: &str) -> (res: Option<String>)
    ensures
        match last_value(vars@, name@) {
            Some(value) => res matches Some(text) && text@ == value,
            None => res is None,
        },
{
    let mut i: usize = vars.len();
    proof {
        assert(vars@.take(i as int) =~= vars@);
    }
    while i > 0
        invariant
            i <= vars@.len(),
            last_value(vars@, name@) == last_value(vars@.take(i as int), name@),
        decreases i,
    {
        proof {
            assert(vars@.take(i as int).drop_last() =~= vars@.take(i - 1));
            assert(vars@.take(i as int).last() == vars@[i - 1]);
        }
        i -= 1;
        if text::same_text(vars[i].0.as_str(), name) {
            return Some(vars[i].1.clone());
        }
    }
    None
}

/// What is set under a name.
fn setting_of(vars: &Vec<(String, String)>, name: &str) -> (res: Option<String>)
    ensures
        match setting(vars@, name@) {
            Some(value) => res matches Some(text) && text@ == value,
            None => res is None,
        },
{
    match value_of(vars, name) {
        Some(value) => {
            let value = text::trim(value.as_str());
            if value.as_str().is_empty() {
                None
            } else {
                Some(value)
            }
        },
        None => None,
    }
}

/// What is set under a name that must be set.
fn required(vars: &Vec<(String, String)>, name: &str) -> (res: Result<String>)
    ensures
        match setting(vars@, name@) {
            Some(value) => res matches Ok(text) && text@ == value,
            None => res matches Err(err) && err@ == missing(name@),
        },
{
    match setting_of(vars, name) {
        Some(value) => Ok(value),
        None => {
            let mut message = "Missing required env var ".to_owned();
            message.append(name);
            Err(AppError::config(message.as_str()))
        },
    }
}

/// What is set under a name, or else a given text.
fn optional(vars: &Vec<(String, String)>, name: &str, other: String) -> (res: String)
    ensures
        res@ == setting_or(vars@, name@, other@),
{
    match setting_of(vars, name) {
        Some(value) => value,
        None => other,
    }
}

/// The pieces of a text between separating characters.
fn split_list(raw: &str) -> (res: Vec<String>)
    ensures
        text::texts(res@) == pieces(raw@),
{
    let chars = text::chars_of(raw);
    let mut done: Vec<String> = Vec::new();
    let mut current = String::new();
    let mut i: usize = 0;
    proof {
        assert(text::texts(done@).push(current@) =~= pieces(raw@.take(0)));
    }
    while i < chars.len()
        invariant
            chars@ == raw@,
            i <= chars@.len(),
            text::texts(done@).push(current@) == pieces(raw@.take(i as int)),
        decreases chars@.len() - i,
    {
        let c = chars[i];
        proof {
            let now = raw@.take(i + 1);
            assert(now.drop_last() =~= raw@.take(i as int));
            assert(now.last() == c);
            let before = pieces(raw@.take(i as int));
            assert(before.drop_last() =~= text::texts(done@));
            assert(before.last() == current@);
        }
        if c == ',' || text::is_white_space(c) {
            let ghost finished = done@;
            let ghost last = current@;
            done.push(current);
            current = String::new();
            proof {
                assert(text::texts(done@) =~= text::texts(finished).push(last));
                assert(text::texts(done@).push(current@) =~= pieces(raw@.take(i + 1)));
            }
        } else {
            current.push(c);
        }
        i += 1;
    }
    proof {
        assert(raw@.take(i as int) =~= raw@);
        assert(text::texts(done@.push(current)) =~= text::texts(done@).push(current@));
    }
    done.push(current);
    done
}

/// The ids that a list names: numbers with commas or white space between them. Each is kept
/// once.
pub fn parse_admin_ids(raw: &str) -> (res: Result<IdList>)
    ensures
        match admins(raw@) {
            Ok(ids) => res matches Ok(list) && ids_in(list) == ids,
            Err(failure) => res matches Err(err) && err@ == failure,
        },
{
    let parts = split_list(raw);
    let mut list = no_ids();
    let mut i: usize = 0;
    let ghost all = pieces(raw@);
    proof {
        assert(all.take(0) =~= Seq::empty());
    }
    while i < parts.len()
        invariant
            text::texts(parts@) == all,
            all == pieces(raw@),
            i <= parts@.len(),
            ids_named(all.take(i as int)) == Ok::<Seq<u64>, Seq<char>>(ids_in(list)),
        decreases parts@.len() - i,
    {
        let part = parts[i].as_str();
        proof {
            assert(all[i as int] == part@);
            assert(all.take(i + 1).drop_last() =~= all.take(i as int));
            assert(all.take(i + 1).last() == part@);
        }
        if !part.is_empty() {
            match text::parse_u64(part) {
                Some(id) => {
                    if !list.contains(id) {
                        push_id(&mut list, id);
                    }
                },
                None => {
                    proof {
                        lemma_bad_piece_stays(all, i + 1);
                    }
                    let mut message = "Invalid ADMIN_USER_IDS entry: ".to_owned();
                    message.append(part);
                    return Err(AppError::config(message.as_str()));
                },
            }
        }
        i += 1;
    }
    proof {
        assert(all.take(i as int) =~= all);
    }
    Ok(list)
}

proof fn lemma_bad_piece_stays(all: Seq<Seq<char>>, k: int)
    requires
        0 <= k <= all.len(),
        ids_named(all.take(k)) is Err,
    ensures
        ids_named(all) == ids_named(all.take(k)),
    decreases all.len() - k,
{
    if k == all.len() {
        assert(all.take(k) =~= all);
    } else {
        assert(all.take(k + 1).drop_last() =~= all.take(k));
        lemma_bad_piece_stays(all, k + 1);
    }
}

/// The ids that a list names are all different.
pub proof fn ids_are_different(pieces: Seq<Seq<char>>)
    ensures
        ids_named(pieces) matches Ok(ids) ==> ids.no_duplicates(),
    decreases pieces.len(),
{
    if pieces.len() > 0 {
        ids_are_different(pieces.drop_last());
    }
}

/// An id is among those that a list names exactly if one of its pieces denotes it.
pub proof fn ids_are_those_named(pieces: Seq<Seq<char>>, id: u64)
    ensures
        ids_named(pieces) matches Ok(ids) ==> ids.contains(id) == exists|i: int|
            0 <= i < pieces.len() && parsed_u64(#[trigger] pieces[i]) == Some(id),
    decreases pieces.len(),
{
    if pieces.len() > 0 {
        let before = pieces.drop_last();
        ids_are_those_named(before, id);
        if ids_named(pieces) is Ok {
            let ids = ids_named(pieces)->Ok_0;
            let earlier = ids_named(before)->Ok_0;
            let last = pieces.len() - 1;
            if ids.contains(id) && !earlier.contains(id) {
                assert(parsed_u64(pieces[last]) == Some(id));
            }
            if earlier.contains(id) {
                let i = choose|i: int|
                    0 <= i < before.len() && parsed_u64(#[trigger] before[i]) == Some(id);
                assert(parsed_u64(pieces[i]) == Some(id));
                let k = choose|k: int| 0 <= k < earlier.len() && earlier[k] == id;
                assert(ids[k] == id);
            }
            if exists|i: int| 0 <= i < pieces.len() && parsed_u64(#[trigger] pieces[i]) == Some(id) {
                let i = choose|i: int|
                    0 <= i < pieces.len() && parsed_u64(#[trigger] pieces[i]) == Some(id);
                if i < last {
                    assert(before[i] == pieces[i]);
                } else if !earlier.contains(id) {
                    assert(ids[earlier.len() as int] == id);
                }
            }
        }
    }
}

/// The base of the public links, when the URL was read as `parsed`.
pub fn base_url_of(parsed: std::result::Result<(String, String), String>) -> (res: Result<String>)
    ensures
        match base_url(outside::url_read(parsed)) {
            Ok(base) => res matches Ok(url) && url@ == base,
            Err(failure) => res matches Err(err) && err@ == failure,
        },
{
    match parsed {
        Err(text) => {
            let mut message = "Invalid PUBLIC_BASE_URL: ".to_owned();
            message.append(text.as_str());
            Err(AppError::config(message.as_str()))
        },
        Ok((scheme, normal)) => {
            if !text::same_text(scheme.as_str(), "http") && !text::same_text(
                scheme.as_str(),
                "https",
            ) {
                return Err(
                    AppError::config(
                        "PUBLIC_BASE_URL must be an http(s) URL reachable by Telegram and Spotify",
                    ),
                );
            }
            let chars = text::chars_of(normal.as_str());
            let n: usize = chars.len();
            if n > 0 && chars[n - 1] == '/' {
                proof {
                    assert(chars@.subrange(0, n - 1) =~= chars@.drop_last());
                }
                Ok(text::text_between(&chars, 0, n - 1))
            } else {
                Ok(normal)
            }
        },
    }
}

/// The base of the public links.
pub fn normalize_base_url(raw: &str) -> (res: Result<String>)
    ensures
        match base_url(outside::parsed_url(raw@)) {
            Ok(base) => res matches Ok(url) && url@ == base,
            Err(failure) => res matches Err(err) && err@ == failure,
        },
{
    base_url_of(outside::parse_url(raw))
}

/// The text of an answer that is bad.
pub open spec fn answer(bind: std::result::Result<(), String>) -> std::result::Result<
    (),
    Seq<char>,
> {
    match bind {
        Ok(_) => Ok(()),
        Err(text) => Err(text@),
    }
}

impl Config {
    /// Whether a user may decide who else may use the bot.
    pub fn is_admin(&self, telegram_user_id: u64) -> (res: bool)
        ensures
            res == self@.admin_ids.contains(telegram_user_id),
    {
        self.admin_ids.contains(telegram_user_id)
    }

    /// The settings that a list of variables gives, when the public URL was read as `parsed` and
    /// the address to serve at was found to be good or bad.
    pub fn from_parts(
        vars: &Vec<(String, String)>,
        parsed: std::result::Result<(String, String), String>,
        bind: std::result::Result<(), String>,
    ) -> (res: Result<Config>)
        ensures
            loaded_as(res, configured(vars@, outside::url_read(parsed), answer(bind))),
    {
        let telegram_bot_token = match required(vars, "TELEGRAM_BOT_TOKEN") {
            Ok(value) => value,
            Err(err) => return Err(err),
        };
        let spotify_client_id = match required(vars, "SPOTIFY_CLIENT_ID") {
            Ok(value) => value,
            Err(err) => return Err(err),
        };
        let spotify_client_secret = match required(vars, "SPOTIFY_CLIENT_SECRET") {
            Ok(value) => value,
            Err(err) => return Err(err),
        };
        if let Err(err) = required(vars, "PUBLIC_BASE_URL") {
            return Err(err);
        }
        let public_base_url = match base_url_of(parsed) {
            Ok(url) => url,
            Err(err) => return Err(err),
        };
        let mut callback = public_base_url.clone();
        callback.append("/oauth/callback");
        let oauth_redirect_uri = optional(vars, "OAUTH_REDIRECT_URI", callback);
        let redb_path = optional(vars, "REDB_PATH", DEFAULT_REDB.to_owned());
        let http_bind = optional(vars, "HTTP_BIND", DEFAULT_BIND.to_owned());
        if let Err(text) = bind {
            let mut message = "Invalid HTTP_BIND: ".to_owned();
            message.append(text.as_str());
            return Err(AppError::config(message.as_str()));
        }
        let mut secret = "card:".to_owned();
        secret.append(telegram_bot_token.as_str());
        let card_signing_secret = optional(vars, "CARD_SIGNING_SECRET", secret);
        let admin_ids = match value_of(vars, "ADMIN_USER_IDS") {
            Some(raw) => match parse_admin_ids(raw.as_str()) {
                Ok(ids) => ids,
                Err(err) => return Err(err),
            },
            None => no_ids(),
        };
        Ok(
            Config {
                telegram_bot_token,
                spotify_client_id,
                spotify_client_secret,
                public_base_url,
                oauth_redirect_uri,
                redb_path,
                http_bind,
                card_signing_secret,
                admin_ids,
                http: HttpSettings::default(),
            },
        )
    }

    /// The settings that a list of variables gives. Where a name occurs more than once, the last
    /// value counts. `check_bind` says what is wrong with the address to serve at.
    pub fn from_vars<P: FnOnce(&str) -> std::result::Result<(), String>>(
        vars: Vec<(String, String)>,
        check_bind: P,
    ) -> (res: Result<Config>)
        requires
            forall|at: &str|
                at@ == bind_text(vars@) ==> #[trigger] check_bind.requires((at,)),
        ensures
            exists|at: &str, bind: std::result::Result<(), String>|
                {
                    &&& at@ == bind_text(vars@)
                    &&& #[trigger] check_bind.ensures((at,), bind)
                    &&& loaded_as(
                        res,
                        configured(
                            vars@,
                            outside::parsed_url(setting_or(vars@, "PUBLIC_BASE_URL"@, ""@)),
                            answer(bind),
                        ),
                    )
                },
    {
        let at = optional(&vars, "HTTP_BIND", DEFAULT_BIND.to_owned());
        let bind = check_bind(at.as_str());
        let parsed = match setting_of(&vars, "PUBLIC_BASE_URL") {
            Some(raw) => outside::parse_url(raw.as_str()),
            None => Err(String::new()),
        };
        Config::from_parts(&vars, parsed, bind)
    }
}

} // verus!
