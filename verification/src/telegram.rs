//! The bot: what it does with a message, and what it says.
use vstd::prelude::*;

use crate::card_url::{card_link, card_path};
use crate::chance::{id_made, new_id};
use crate::config::{Config, Settings};
use crate::db::{clock_shows, Contents, SpotifyTokens, Store};
use crate::error::{AppError, Result};
use crate::outside::uuid_form;
use crate::render::card::{text_of, Card, CardKind};
use crate::render::{CARD_HEIGHT, CARD_WIDTH};
use crate::text;
use crate::text::{decimal, parsed_u64, trimmed, white_space};

verus! {

pub const HELP_TEXT: &'static str =
    "I share a live image of what you're playing on Spotify.\n\n/link — connect your Spotify account\n/unlink — forget stored tokens\n/now — send a fresh now-playing card here\n/privacy — what this bot stores\n/help — this message\n\nAdmins: /allow, /deny, /allowlist\n\nInline: type @your_bot in any chat. The query text is ignored; you always get your current track.";

pub const PRIVACY_TEXT: &'static str =
    "This bot stores your Telegram user id and Spotify OAuth tokens (access token, refresh token, expiry) in a local redb file so it can read your currently playing track.\n\nIt does not store listening history, generated images, or Spotify API responses. Every /now and inline query fetches Spotify and renders a new card.\n\nUnlink with /unlink to delete your tokens. Inline image URLs are HMAC-signed and short-lived; Telegram fetching them still renders live, with no result cache.";

pub const START_TEXT: &'static str =
    "Share a live Spotify now-playing card in any chat.\n\nUse /link to connect Spotify, then /now or mention this bot inline. Cards are rendered fresh every time — nothing is cached.";

pub const PRIVATE_TEXT: &'static str =
    "This bot is private. Ask an admin to allow your Telegram user id with /allow.";

pub const ADMINS_ONLY_TEXT: &'static str = "That command is for admins only.";

pub const ALLOW_USAGE: &'static str =
    "Usage: /allow <telegram_user_id> or reply to a user with /allow";

pub const DENY_USAGE: &'static str =
    "Usage: /deny <telegram_user_id> or reply to a user with /deny";

pub const EMPTY_ALLOWLIST_TEXT: &'static str =
    "Allowlist is empty. Admins from ADMIN_USER_IDS can still use the bot.";

pub const LINK_TEXT: &'static str =
    "Open Spotify and approve access. I only request your currently playing track.";

pub const LINK_BUTTON: &'static str = "Link Spotify";

pub const TRACK_BUTTON: &'static str = "Open in Spotify";

/// Who wrote a message.
#[derive(Clone, Copy, Debug, PartialEq, Eq)]
pub struct Sender {
    pub id: u64,
    pub is_bot: bool,
}

/// A message that came in: its text, who wrote it, and who wrote the message it replies to.
#[derive(Debug)]
pub struct Incoming {
    pub text: Option<String>,
    pub from: Option<Sender>,
    pub replied_to: Option<u64>,
}

/// What is to be done about a message.
#[derive(Debug, PartialEq, Eq)]
pub enum Action {
    Ignore,
    Say(String),
    Link(u64),
    Unlink(u64),
    Now(u64),
    Allow(u64),
    Deny(u64),
    List,
}

/// What is to be done about a message, with the characters of what is said.
pub enum Act {
    Ignore,
    Say(Seq<char>),
    Link(u64),
    Unlink(u64),
    Now(u64),
    Allow(u64),
    Deny(u64),
    List,
}

impl View for Action {
    type V = Act;

    open spec fn view(&self) -> Act {
        match self {
            Action::Ignore => Act::Ignore,
            Action::Say(text) => Act::Say(text@),
            Action::Link(user) => Act::Link(*user),
            Action::Unlink(user) => Act::Unlink(*user),
            Action::Now(user) => Act::Now(*user),
            Action::Allow(user) => Act::Allow(*user),
            Action::Deny(user) => Act::Deny(*user),
            Action::List => Act::List,
        }
    }
}

/// Where the first white space of a text stands, or its end.
pub open spec fn first_space(s: Seq<char>) -> int
    decreases s.len(),
{
    if s.len() == 0 || white_space(s[0]) {
        0
    } else {
        1 + first_space(s.drop_first())
    }
}

/// Where the first `@` of a text stands, or its end.
pub open spec fn first_at_sign(s: Seq<char>) -> int
    decreases s.len(),
{
    if s.len() == 0 || s[0] == '@' {
        0
    } else {
        1 + first_at_sign(s.drop_first())
    }
}

/// The command that a message begins with: its first word, without the name of the bot.
pub open spec fn command_of(s: Seq<char>) -> Seq<char> {
    let word = s.take(first_space(s));
    word.take(first_at_sign(word))
}

/// What follows the command, without the white space around it.
pub open spec fn arguments_of(s: Seq<char>) -> Seq<char> {
    if first_space(s) < s.len() {
        trimmed(s.skip(first_space(s) + 1))
    } else {
        Seq::empty()
    }
}

proof fn lemma_first_space(s: Seq<char>, k: int)
    requires
        0 <= k <= s.len(),
        forall|j: int| 0 <= j < k ==> !white_space(#[trigger] s[j]),
        k < s.len() ==> white_space(s[k]),
    ensures
        first_space(s) == k,
    decreases s.len(),
{
    if k > 0 {
        assert(!white_space(s[0]));
        assert forall|j: int| 0 <= j < k - 1 implies !white_space(
            #[trigger] s.drop_first()[j],
        ) by {
            assert(!white_space(s[j + 1]));
        }
        lemma_first_space(s.drop_first(), k - 1);
    }
}

proof fn lemma_first_at_sign(s: Seq<char>, k: int)
    requires
        0 <= k <= s.len(),
        forall|j: int| 0 <= j < k ==> #[trigger] s[j] != '@',
        k < s.len() ==> s[k] == '@',
    ensures
        first_at_sign(s) == k,
    decreases s.len(),
{
    if k > 0 {
        assert(s[0] != '@');
        assert forall|j: int| 0 <= j < k - 1 implies #[trigger] s.drop_first()[j] != '@' by {
            assert(s[j + 1] != '@');
        }
        lemma_first_at_sign(s.drop_first(), k - 1);
    }
}

/// Parts a message into its command and what follows.
pub fn split_command(message: &str) -> (res: (String, String))
    ensures
        res.0@ == command_of(message@),
        res.1@ == arguments_of(message@),
{
    let chars = text::chars_of(message);
    let mut end: usize = 0;
    while end < chars.len() && !text::is_white_space(chars[end])
        invariant
            end <= chars@.len(),
            forall|j: int| 0 <= j < end ==> !white_space(#[trigger] chars@[j]),
        decreases chars@.len() - end,
    {
        end += 1;
    }
    proof {
        lemma_first_space(chars@, end as int);
    }
    let mut at: usize = 0;
    while at < end && chars[at] != '@'
        invariant
            at <= end <= chars@.len(),
            forall|j: int| 0 <= j < at ==> #[trigger] chars@[j] != '@',
        decreases end - at,
    {
        at += 1;
    }
    proof {
        let word = chars@.take(end as int);
        assert forall|j: int| 0 <= j < at implies #[trigger] word[j] != '@' by {
            assert(chars@[j] != '@');
        }
        lemma_first_at_sign(word, at as int);
        assert(word.take(at as int) =~= chars@.subrange(0, at as int));
    }
    let command = text::text_between(&chars, 0, at);
    let arguments = if end < chars.len() {
        let n: usize = chars.len();
        let rest = text::text_between(&chars, end + 1, n);
        proof {
            assert(rest@ =~= chars@.skip(end + 1));
        }
        text::trim(rest.as_str())
    } else {
        let none = String::new();
        proof {
            assert(none@ =~= Seq::empty());
        }
        none
    };
    (command, arguments)
}

/// The user that an admin's command is about: the one named, or else the one replied to.
pub open spec fn target(replied_to: Option<u64>, arguments: Seq<char>) -> Option<u64> {
    match parsed_u64(trimmed(arguments)) {
        Some(id) => Some(id),
        None => replied_to,
    }
}

/// The user that an admin's command is about.
pub fn target_user_id(replied_to: Option<u64>, rest: &str) -> (res: Option<u64>)
    ensures
        res == target(replied_to, rest@),
{
    let named = text::trim(rest);
    match text::parse_u64(named.as_str()) {
        Some(id) => Some(id),
        None => replied_to,
    }
}

/// Whether a user may use the bot: admins and those on the allowlist.
pub open spec fn may_use(settings: Settings, store: Contents, user: u64) -> bool {
    settings.admin_ids.contains(user) || store.allowed.contains(user)
}

/// Whether a user may use the bot.
pub fn can_use(config: &Config, store: &Store, user_id: u64) -> (res: bool)
    ensures
        res == may_use(config@, store@, user_id),
{
    config.is_admin(user_id) || store.is_allowlisted(user_id)
}

/// What a user who begins is told.
pub open spec fn welcome(allowed: bool, user: u64) -> Seq<char> {
    if allowed {
        START_TEXT@
    } else {
        START_TEXT@ + "\n\nThis bot is private. Your Telegram user id is "@ + decimal(user as nat)
            + ". Ask an admin to /allow you."@
    }
}

/// What a user who begins is told.
pub fn start_text(allowed: bool, user_id: u64) -> (res: String)
    ensures
        res@ == welcome(allowed, user_id),
{
    let mut res = START_TEXT.to_owned();
    if !allowed {
        let id = text::decimal_u64(user_id);
        res.append("\n\nThis bot is private. Your Telegram user id is ");
        res.append(id.as_str());
        res.append(". Ask an admin to /allow you.");
    }
    res
}

/// What is to be done about a command of a user.
pub open spec fn decided(
    command: Seq<char>,
    arguments: Seq<char>,
    user: u64,
    replied_to: Option<u64>,
    settings: Settings,
    store: Contents,
) -> Act {
    let allowed = may_use(settings, store, user);
    let admin = settings.admin_ids.contains(user);
    if command == "/start"@ {
        Act::Say(welcome(allowed, user))
    } else if command == "/help"@ {
        Act::Say(HELP_TEXT@)
    } else if command == "/privacy"@ {
        Act::Say(PRIVACY_TEXT@)
    } else if command == "/allow"@ {
        if !admin {
            Act::Say(ADMINS_ONLY_TEXT@)
        } else {
            match target(replied_to, arguments) {
                Some(id) => Act::Allow(id),
                None => Act::Say(ALLOW_USAGE@),
            }
        }
    } else if command == "/deny"@ {
        if !admin {
            Act::Say(ADMINS_ONLY_TEXT@)
        } else {
            match target(replied_to, arguments) {
                Some(id) => Act::Deny(id),
                None => Act::Say(DENY_USAGE@),
            }
        }
    } else if command == "/allowlist"@ {
        if !admin {
            Act::Say(ADMINS_ONLY_TEXT@)
        } else {
            Act::List
        }
    } else if command == "/link"@ {
        if allowed {
            Act::Link(user)
        } else {
            Act::Say(PRIVATE_TEXT@)
        }
    } else if command == "/unlink"@ {
        if allowed {
            Act::Unlink(user)
        } else {
            Act::Say(PRIVATE_TEXT@)
        }
    } else if command == "/now"@ {
        if allowed {
            Act::Now(user)
        } else {
            Act::Say(PRIVATE_TEXT@)
        }
    } else {
        Act::Ignore
    }
}

/// What is to be done about a message. One without a text or a sender, and one of a bot, is
/// ignored.
pub open spec fn answered(message: Incoming, settings: Settings, store: Contents) -> Act {
    match (message.text, message.from) {
        (Some(text), Some(from)) => if from.is_bot {
            Act::Ignore
        } else {
            decided(
                command_of(text@),
                arguments_of(text@),
                from.id,
                message.replied_to,
                settings,
                store,
            )
        },
        _ => Act::Ignore,
    }
}

/// What is to be done if a user may use the bot, and that it is private if not.
fn if_allowed(allowed: bool, action: Action) -> (res: Action)
    ensures
        res@ == if allowed {
            action@
        } else {
            Act::Say(PRIVATE_TEXT@)
        },
{
    if allowed {
        action
    } else {
        Action::Say(PRIVATE_TEXT.to_owned())
    }
}

/// What is to be done about a command for admins.
fn handle_admin_command(
    command: &str,
    rest: &str,
    from_id: u64,
    replied_to: Option<u64>,
    config: &Config,
    store: &Store,
) -> (res: Action)
    requires
        command@ == "/allow"@ || command@ == "/deny"@ || command@ == "/allowlist"@,
        command@ != "/start"@ && command@ != "/help"@ && command@ != "/privacy"@,
    ensures
        res@ == decided(command@, rest@, from_id, replied_to, config@, store@),
{
    if !config.is_admin(from_id) {
        return Action::Say(ADMINS_ONLY_TEXT.to_owned());
    }
    if text::same_text(command, "/allow") {
        match target_user_id(replied_to, rest) {
            Some(id) => Action::Allow(id),
            None => Action::Say(ALLOW_USAGE.to_owned()),
        }
    } else if text::same_text(command, "/deny") {
        match target_user_id(replied_to, rest) {
            Some(id) => Action::Deny(id),
            None => Action::Say(DENY_USAGE.to_owned()),
        }
    } else {
        Action::List
    }
}

/// What is to be done about a message.
pub fn handle_message(message: &Incoming, config: &Config, store: &Store) -> (res: Action)
    ensures
        res@ == answered(*message, config@, store@),
{
    let words = match &message.text {
        Some(text) => text,
        None => return Action::Ignore,
    };
    let from = match message.from {
        Some(from) => from,
        None => return Action::Ignore,
    };
    if from.is_bot {
        return Action::Ignore;
    }
    let (command, rest) = split_command(words.as_str());
    let command = command.as_str();
    let allowed = can_use(config, store, from.id);
    if text::same_text(command, "/start") {
        Action::Say(start_text(allowed, from.id))
    } else if text::same_text(command, "/help") {
        Action::Say(HELP_TEXT.to_owned())
    } else if text::same_text(command, "/privacy") {
        Action::Say(PRIVACY_TEXT.to_owned())
    } else if text::same_text(command, "/allow") || text::same_text(command, "/deny")
        || text::same_text(command, "/allowlist") {
        handle_admin_command(command, rest.as_str(), from.id, message.replied_to, config, store)
    } else if text::same_text(command, "/link") {
        if_allowed(allowed, Action::Link(from.id))
    } else if text::same_text(command, "/unlink") {
        if_allowed(allowed, Action::Unlink(from.id))
    } else if text::same_text(command, "/now") {
        if_allowed(allowed, Action::Now(from.id))
    } else {
        Action::Ignore
    }
}

/// What an admin is told who allowed a user.
pub open spec fn allow_reply(user: u64, added: bool) -> Seq<char> {
    decimal(user as nat) + if added {
        " is now allowlisted."@
    } else {
        " was already allowlisted."@
    }
}

/// Allows a user, and says so.
pub fn allow_command<P: FnOnce(u64, bool) -> Result<()>>(
    store: &mut Store,
    user_id: u64,
    persist: P,
) -> (res: Result<String>)
    requires
        persist.requires((user_id, true)),
    ensures
        old(store)@.allowed.contains(user_id) ==> (res matches Ok(said) && said@ == allow_reply(
            user_id,
            false,
        ) && final(store)@ == old(store)@),
        !old(store)@.allowed.contains(user_id) ==> exists|saved: Result<()>|
            {
                &&& #[trigger] persist.ensures((user_id, true), saved)
                &&& match saved {
                    Ok(_) => {
                        &&& final(store)@ == old(store)@.with_allowed(user_id)
                        &&& res matches Ok(said)
                        &&& said@ == allow_reply(user_id, true)
                    },
                    Err(err) => res == Err::<String, AppError>(err) && final(store)@ == old(store)@,
                }
            },
{
    match store.allow_user(user_id, persist) {
        Ok(added) => {
            let mut said = text::decimal_u64(user_id);
            if added {
                said.append(" is now allowlisted.");
            } else {
                said.append(" was already allowlisted.");
            }
            Ok(said)
        },
        Err(err) => Err(err),
    }
}

/// What an admin is told who denied a user.
pub open spec fn deny_reply(user: u64, removed: bool) -> Seq<char> {
    decimal(user as nat) + if removed {
        " was removed from the allowlist."@
    } else {
        " was not on the allowlist."@
    }
}

/// Takes back that a user is allowed, and says so.
pub fn deny_command<P: FnOnce(u64, bool) -> Result<()>>(
    store: &mut Store,
    user_id: u64,
    persist: P,
) -> (res: Result<String>)
    requires
        persist.requires((user_id, false)),
    ensures
        exists|saved: Result<()>|
            {
                &&& #[trigger] persist.ensures((user_id, false), saved)
                &&& match saved {
                    Ok(_) => {
                        &&& final(store)@ == old(store)@.without_allowed(user_id)
                        &&& res matches Ok(said)
                        &&& said@ == deny_reply(user_id, old(store)@.allowed.contains(user_id))
                    },
                    Err(err) => res == Err::<String, AppError>(err) && final(store)@ == old(store)@,
                }
            },
{
    match store.deny_user(user_id, persist) {
        Ok(removed) => {
            let mut said = text::decimal_u64(user_id);
            if removed {
                said.append(" was removed from the allowlist.");
            } else {
                said.append(" was not on the allowlist.");
            }
            Ok(said)
        },
        Err(err) => Err(err),
    }
}

/// The numbers, each on a line of its own.
pub open spec fn lines(ids: Seq<u64>) -> Seq<char>
    decreases ids.len(),
{
    if ids.len() == 0 {
        Seq::empty()
    } else if ids.len() == 1 {
        decimal(ids[0] as nat)
    } else {
        lines(ids.drop_last()) + "\n"@ + decimal(ids.last() as nat)
    }
}

/// What an admin is told of the allowed users.
pub open spec fn list_reply(ids: Seq<u64>) -> Seq<char> {
    if ids.len() == 0 {
        EMPTY_ALLOWLIST_TEXT@
    } else {
        "Allowlist ("@ + decimal(ids.len()) + "):\n"@ + lines(ids)
    }
}

/// The numbers, each on a line of its own.
fn id_lines(ids: &Vec<u64>) -> (res: String)
    ensures
        res@ == lines(ids@),
{
    let mut res = String::new();
    let mut i: usize = 0;
    proof {
        assert(lines(ids@.take(0)) =~= Seq::empty());
    }
    while i < ids.len()
        invariant
            i <= ids@.len(),
            res@ == lines(ids@.take(i as int)),
        decreases ids@.len() - i,
    {
        proof {
            assert(ids@.take(i + 1).drop_last() =~= ids@.take(i as int));
            assert(ids@.take(i + 1).last() == ids@[i as int]);
        }
        if i > 0 {
            res.append("\n");
        }
        let id = text::decimal_u64(ids[i]);
        res.append(id.as_str());
        proof {
            if i == 0 {
                assert(res@ =~= id@);
            }
        }
        i += 1;
    }
    proof {
        assert(ids@.take(ids@.len() as int) =~= ids@);
    }
    res
}

/// What an admin is told of the allowed users.
pub fn allowlist_text(ids: &Vec<u64>) -> (res: String)
    ensures
        res@ == list_reply(ids@),
{
    if ids.len() == 0 {
        return EMPTY_ALLOWLIST_TEXT.to_owned();
    }
    let count = text::decimal_u64(ids.len() as u64);
    let listed = id_lines(ids);
    let mut res = "Allowlist (".to_owned();
    res.append(count.as_str());
    res.append("):\n");
    res.append(listed.as_str());
    res
}

/// Tells an admin which users are allowed, in rising order.
pub fn allowlist_command(store: &Store) -> (res: String)
    ensures
        exists|ids: Seq<u64>|
            {
                &&& crate::db::rising(ids)
                &&& ids.to_set() == store@.allowed
                &&& res@ == #[trigger] list_reply(ids)
            },
{
    let ids = store.list_allowlist();
    allowlist_text(&ids)
}

/// What a user is told who asked to be unlinked.
pub open spec fn unlink_reply(removed: bool) -> Seq<char> {
    if removed {
        "Your Spotify tokens were deleted."@
    } else {
        "Nothing was stored for your account."@
    }
}

/// Unlinks an account, and says so.
pub fn unlink_command<P: FnOnce(u64, Option<&SpotifyTokens>) -> Result<bool>>(
    store: &mut Store,
    user_id: u64,
    persist: P,
) -> (res: Result<String>)
    requires
        persist.requires((user_id, None::<&SpotifyTokens>)),
    ensures
        exists|saved: Result<bool>|
            {
                &&& #[trigger] persist.ensures((user_id, None::<&SpotifyTokens>), saved)
                &&& match saved {
                    Ok(removed) => {
                        &&& final(store)@ == old(store)@.without_tokens(user_id)
                        &&& res matches Ok(said)
                        &&& said@ == unlink_reply(
                            removed || old(store)@.tokens_of(user_id) is Some,
                        )
                    },
                    Err(err) => res == Err::<String, AppError>(err) && final(store)@ == old(store)@,
                }
            },
{
    match store.delete_tokens(user_id, persist) {
        Ok(removed) => {
            if removed {
                Ok("Your Spotify tokens were deleted.".to_owned())
            } else {
                Ok("Nothing was stored for your account.".to_owned())
            }
        },
        Err(err) => Err(err),
    }
}

/// What stands below a card, or in its place.
pub open spec fn caption(card: Card) -> Seq<char> {
    match card {
        Card::Playing { title, artist, .. } => title + " — "@ + artist,
        Card::Idle => "Nothing is playing on Spotify right now."@,
        Card::NotLinked => "Spotify isn't linked. Open the bot and send /link."@,
        Card::Error { message } => message,
    }
}

/// What stands below a card, or in its place.
pub fn caption_for(kind: &CardKind) -> (res: String)
    ensures
        res@ == caption(kind@),
{
    match kind {
        CardKind::Playing { title, artist, .. } => {
            let mut res = title.clone();
            res.append(" — ");
            res.append(artist.as_str());
            res
        },
        CardKind::Idle => "Nothing is playing on Spotify right now.".to_owned(),
        CardKind::NotLinked => "Spotify isn't linked. Open the bot and send /link.".to_owned(),
        CardKind::Error { message } => message.clone(),
    }
}

/// How the question what is playing is answered in a chat.
#[derive(Debug, PartialEq, Eq)]
pub enum Reply {
    /// With a text.
    Text(String),
    /// With a card, and a button to the track if there is a link to it.
    Photo { caption: String, track_url: Option<String> },
}

fn owned_url(kind: &CardKind) -> (res: Option<String>)
    ensures
        text_of(res) == if kind@ is Playing {
            kind@->track_url
        } else {
            None
        },
{
    match kind.track_url() {
        Some(url) => Some(url.to_owned()),
        None => None,
    }
}

/// How the question what is playing is answered in a chat: with a card only if something is
/// playing.
pub fn now_reply(kind: &CardKind) -> (res: Reply)
    ensures
        match res {
            Reply::Text(said) => !(kind@ is Playing) && said@ == caption(kind@),
            Reply::Photo { caption: below, track_url } => kind@ is Playing && below@ == caption(
                kind@,
            ) && text_of(track_url) == kind@->track_url,
        },
{
    match kind {
        CardKind::Playing { .. } => Reply::Photo {
            caption: caption_for(kind),
            track_url: owned_url(kind),
        },
        _ => Reply::Text(caption_for(kind)),
    }
}

/// Whether a link is the one that a user gets to their own card, issued at a time that the clock
/// shows. Who may not use the bot gets none.
pub open spec fn own_link(
    link: Option<String>,
    settings: Settings,
    store: Contents,
    user: u64,
) -> bool {
    &&& link is Some <==> may_use(settings, store, user)
    &&& link matches Some(url) ==> exists|issued_at: i64|
        clock_shows(issued_at) && url@ == #[trigger] card_link(
            settings.public_base_url,
            user,
            issued_at,
            settings.card_signing_secret,
        )
}

/// The link to a user's own card, for those who may use the bot.
pub fn inline_link(config: &Config, store: &Store, user_id: u64) -> (res: Option<String>)
    ensures
        own_link(res, config@, store@, user_id),
{
    if !can_use(config, store, user_id) {
        return None;
    }
    let base = config.public_base_url.as_str();
    let secret = config.card_signing_secret.as_str();
    let link = card_path(base, user_id, secret);
    proof {
        let issued_at = choose|issued_at: i64|
            clock_shows(issued_at) && link@ == #[trigger] card_link(
                base@,
                user_id,
                issued_at,
                secret@,
            );
        assert(link@ == card_link(
            config@.public_base_url,
            user_id,
            issued_at,
            config@.card_signing_secret,
        ));
    }
    Some(link)
}

/// The card that an inline query is answered with.
#[derive(Debug, PartialEq, Eq)]
pub struct InlinePhoto {
    pub id: String,
    pub url: String,
    pub thumbnail_url: String,
    pub width: u32,
    pub height: u32,
    pub title: String,
    pub caption: String,
    pub track_url: Option<String>,
}

/// Whether a photo shows a card that can be had under a link.
pub open spec fn photo_shows(photo: InlinePhoto, card: Card, url: Seq<char>) -> bool {
    &&& id_made(photo.id@)
    &&& uuid_form(photo.id@)
    &&& photo.url@ == url
    &&& photo.thumbnail_url@ == url
    &&& photo.width == CARD_WIDTH
    &&& photo.height == CARD_HEIGHT
    &&& photo.title@ == caption(card)
    &&& photo.caption@ == caption(card)
    &&& text_of(photo.track_url) == card->track_url
}

/// The photo that shows a card: the one under the link if something is playing, and none else.
pub fn inline_photo(kind: &CardKind, url: &str) -> (res: Option<InlinePhoto>)
    ensures
        res is Some <==> kind@ is Playing,
        res matches Some(photo) ==> photo_shows(photo, kind@, url@),
{
    match kind {
        CardKind::Playing { .. } => Some(
            InlinePhoto {
                id: new_id(),
                url: url.to_owned(),
                thumbnail_url: url.to_owned(),
                width: CARD_WIDTH,
                height: CARD_HEIGHT,
                title: caption_for(kind),
                caption: caption_for(kind),
                track_url: owned_url(kind),
            },
        ),
        _ => None,
    }
}

/// For how many seconds the answer to an inline query may be used again.
pub const INLINE_CACHE_SECS: u32 = 0;

/// Whether the answer to an inline query is for the one who asked only.
pub const INLINE_PERSONAL: bool = true;

/// The answer to an inline query.
#[derive(Debug, PartialEq, Eq)]
pub struct InlineAnswer {
    pub query_id: String,
    pub photo: Option<InlinePhoto>,
    pub cache_secs: u32,
    pub personal: bool,
}

/// Whether an answer to an inline query is the right one. `shown` is the link to the asking user's
/// card and the card, for those who may use the bot.
pub open spec fn inline_answered(
    answer: InlineAnswer,
    query_id: Seq<char>,
    shown: Option<(String, CardKind)>,
) -> bool {
    &&& answer.query_id@ == query_id
    &&& answer.cache_secs == 0
    &&& answer.personal
    &&& match shown {
        Some((url, kind)) => {
            &&& answer.photo is Some <==> kind@ is Playing
            &&& answer.photo matches Some(photo) ==> photo_shows(photo, kind@, url@)
        },
        None => answer.photo is None,
    }
}

/// Answers an inline query: with the asking user's card if they may use the bot and something is
/// playing, and without any else. The answer is for them only, and not to be used again.
pub fn inline_answer(query_id: &str, shown: Option<(String, CardKind)>) -> (res: InlineAnswer)
    ensures
        inline_answered(res, query_id@, shown),
{
    let photo = match &shown {
        Some((url, kind)) => inline_photo(kind, url.as_str()),
        None => None,
    };
    InlineAnswer {
        query_id: query_id.to_owned(),
        photo,
        cache_secs: INLINE_CACHE_SECS,
        personal: INLINE_PERSONAL,
    }
}

/// The name of a file for a card that is about to be sent.
pub fn temp_jpeg_name() -> (res: String)
    ensures
        exists|id: Seq<char>| #[trigger]
            id_made(id) && uuid_form(id) && res@ == "tg-spotifystatusbot-"@ + id + ".jpg"@,
{
    let id = new_id();
    let mut res = "tg-spotifystatusbot-".to_owned();
    res.append(id.as_str());
    res.append(".jpg");
    res
}

/// Where the updates that were not seen yet begin, when this one was seen.
pub fn next_offset(update_id: u32) -> (res: i64)
    ensures
        res == update_id + 1,
{
    update_id as i64 + 1
}

/// The commands, with what they do.
pub fn bot_commands() -> (res: Vec<(&'static str, &'static str)>)
    ensures
        res@.map_values(|entry: (&'static str, &'static str)| (entry.0@, entry.1@)) == seq![
            ("start"@, "Start and see how to link Spotify"@),
            ("link"@, "Connect your Spotify account"@),
            ("unlink"@, "Remove stored Spotify tokens"@),
            ("now"@, "Send a fresh now-playing card"@),
            ("help"@, "How the bot works"@),
            ("privacy"@, "What data is stored"@),
            ("allow"@, "Admin: allow a Telegram user id"@),
            ("deny"@, "Admin: remove a user from the allowlist"@),
            ("allowlist"@, "Admin: show allowed user ids"@),
        ],
{
    let mut res: Vec<(&'static str, &'static str)> = Vec::new();
    res.push(("start", "Start and see how to link Spotify"));
    res.push(("link", "Connect your Spotify account"));
    res.push(("unlink", "Remove stored Spotify tokens"));
    res.push(("now", "Send a fresh now-playing card"));
    res.push(("help", "How the bot works"));
    res.push(("privacy", "What data is stored"));
    res.push(("allow", "Admin: allow a Telegram user id"));
    res.push(("deny", "Admin: remove a user from the allowlist"));
    res.push(("allowlist", "Admin: show allowed user ids"));
    res
}

/// An admin's commands to allow and to deny concern the same user: the one whose id they name, and
/// where they name none, the one whose message they reply to. Without either they do nothing but
/// explain themselves.
pub proof fn allow_and_deny_concern_the_same_user(
    arguments: Seq<char>,
    admin: u64,
    replied_to: Option<u64>,
    settings: Settings,
    store: Contents,
)
    requires
        settings.admin_ids.contains(admin),
    ensures
        ({
            let allow = decided("/allow"@, arguments, admin, replied_to, settings, store);
            let deny = decided("/deny"@, arguments, admin, replied_to, settings, store);
            let named = parsed_u64(trimmed(arguments));
            &&& named matches Some(id) ==> allow == Act::Allow(id) && deny == Act::Deny(id)
            &&& named is None ==> (replied_to matches Some(user) ==> allow == Act::Allow(user)
                && deny == Act::Deny(user))
            &&& named is None && replied_to is None ==> allow == Act::Say(ALLOW_USAGE@) && deny
                == Act::Say(DENY_USAGE@)
        }),
{
    lemma_commands_differ();
}

/// An id that is written out is the one meant, whoever is replied to and whatever white space stands
/// around it; what is no number leaves it to the reply.
pub proof fn written_ids_come_first(replied_to: Option<u64>, id: u64, arguments: Seq<char>)
    ensures
        trimmed(arguments) == decimal(id as nat) ==> target(replied_to, arguments) == Some(id),
        parsed_u64(trimmed(arguments)) is None ==> target(replied_to, arguments) == replied_to,
{
    text::decimal_reads_back(id);
}

proof fn lemma_commands_differ()
    ensures
        "/allow"@ != "/start"@ && "/allow"@ != "/help"@ && "/allow"@ != "/privacy"@,
        "/deny"@ != "/start"@ && "/deny"@ != "/help"@ && "/deny"@ != "/privacy"@,
        "/deny"@ != "/allow"@ && "/allowlist"@ != "/allow"@ && "/allowlist"@ != "/deny"@,
        "/allowlist"@ != "/start"@ && "/allowlist"@ != "/help"@ && "/allowlist"@ != "/privacy"@,
        "/link"@ != "/start"@ && "/link"@ != "/help"@ && "/link"@ != "/privacy"@ && "/link"@
            != "/allow"@ && "/link"@ != "/deny"@ && "/link"@ != "/allowlist"@,
        "/unlink"@ != "/start"@ && "/unlink"@ != "/help"@ && "/unlink"@ != "/privacy"@
            && "/unlink"@ != "/allow"@ && "/unlink"@ != "/deny"@ && "/unlink"@ != "/allowlist"@
            && "/unlink"@ != "/link"@,
        "/now"@ != "/start"@ && "/now"@ != "/help"@ && "/now"@ != "/privacy"@ && "/now"@
            != "/allow"@ && "/now"@ != "/deny"@ && "/now"@ != "/allowlist"@ && "/now"@ != "/link"@
            && "/now"@ != "/unlink"@,
        "/help"@ != "/start"@ && "/privacy"@ != "/start"@ && "/privacy"@ != "/help"@,
{
    reveal_strlit("/start");
    reveal_strlit("/help");
    reveal_strlit("/privacy");
    reveal_strlit("/allow");
    reveal_strlit("/deny");
    reveal_strlit("/allowlist");
    reveal_strlit("/link");
    reveal_strlit("/unlink");
    reveal_strlit("/now");
    assert("/start"@[1] == 's' && "/help"@[1] == 'h' && "/privacy"@[1] == 'p');
    assert("/allow"@[1] == 'a' && "/deny"@[1] == 'd' && "/link"@[1] == 'l');
    assert("/unlink"@[1] == 'u' && "/now"@[1] == 'n');
    assert("/allow"@.len() == 6 && "/allowlist"@.len() == 10);
    assert("/allowlist"@[1] == 'a');
}

/// Who may use the bot gets what they ask for: a link, to be unlinked, their card. Who may not is
/// told that it is private, each time.
pub proof fn users_get_what_they_ask_for(
    arguments: Seq<char>,
    user: u64,
    replied_to: Option<u64>,
    settings: Settings,
    store: Contents,
)
    ensures
        ({
            let link = decided("/link"@, arguments, user, replied_to, settings, store);
            let unlink = decided("/unlink"@, arguments, user, replied_to, settings, store);
            let now = decided("/now"@, arguments, user, replied_to, settings, store);
            let allowed = settings.admin_ids.contains(user) || store.allowed.contains(user);
            &&& allowed ==> link == Act::Link(user) && unlink == Act::Unlink(user) && now
                == Act::Now(user)
            &&& !allowed ==> link == Act::Say(PRIVATE_TEXT@) && unlink == Act::Say(PRIVATE_TEXT@)
                && now == Act::Say(PRIVATE_TEXT@)
        }),
{
    lemma_commands_differ();
}

/// Everyone can read what the bot does and what it stores, and everyone is greeted; who may not use
/// it is also told their id, so that they can ask to be allowed.
pub proof fn everyone_is_told_about_the_bot(
    arguments: Seq<char>,
    user: u64,
    replied_to: Option<u64>,
    settings: Settings,
    store: Contents,
)
    ensures
        ({
            let start = decided("/start"@, arguments, user, replied_to, settings, store);
            let allowed = settings.admin_ids.contains(user) || store.allowed.contains(user);
            &&& decided("/help"@, arguments, user, replied_to, settings, store) == Act::Say(
                HELP_TEXT@,
            )
            &&& decided("/privacy"@, arguments, user, replied_to, settings, store) == Act::Say(
                PRIVACY_TEXT@,
            )
            &&& start is Say
            &&& allowed ==> start->Say_0 == START_TEXT@
            &&& !allowed ==> start->Say_0.take(START_TEXT@.len() as int) == START_TEXT@
                && text::contains_text(start->Say_0, decimal(user as nat))
        }),
{
    lemma_commands_differ();
    let said = welcome(false, user);
    let before = START_TEXT@ + "\n\nThis bot is private. Your Telegram user id is "@;
    let id = decimal(user as nat);
    assert(said.take(START_TEXT@.len() as int) =~= START_TEXT@);
    assert(said.subrange(before.len() as int, before.len() as int + id.len()) =~= id);
}

/// Admins see the allowlist. Who is none is told so for each of the commands for admins, whatever
/// else the message says.
pub proof fn admin_commands_are_answered(
    arguments: Seq<char>,
    user: u64,
    replied_to: Option<u64>,
    settings: Settings,
    store: Contents,
)
    ensures
        settings.admin_ids.contains(user) ==> decided(
            "/allowlist"@,
            arguments,
            user,
            replied_to,
            settings,
            store,
        ) == Act::List,
        !settings.admin_ids.contains(user) ==> {
            &&& decided("/allow"@, arguments, user, replied_to, settings, store) == Act::Say(
                ADMINS_ONLY_TEXT@,
            )
            &&& decided("/deny"@, arguments, user, replied_to, settings, store) == Act::Say(
                ADMINS_ONLY_TEXT@,
            )
            &&& decided("/allowlist"@, arguments, user, replied_to, settings, store) == Act::Say(
                ADMINS_ONLY_TEXT@,
            )
        },
{
    lemma_commands_differ();
}

/// What is none of the commands is ignored.
pub proof fn other_words_are_ignored(
    command: Seq<char>,
    arguments: Seq<char>,
    user: u64,
    replied_to: Option<u64>,
    settings: Settings,
    store: Contents,
)
    requires
        command != "/start"@ && command != "/help"@ && command != "/privacy"@,
        command != "/allow"@ && command != "/deny"@ && command != "/allowlist"@,
        command != "/link"@ && command != "/unlink"@ && command != "/now"@,
    ensures
        decided(command, arguments, user, replied_to, settings, store) is Ignore,
{
}

/// A message of a user is answered by its first word and by what follows it: a command alone, and
/// one with something behind a white space, do what the command does with that.
pub proof fn messages_are_read_word_by_word(
    message: Incoming,
    command: Seq<char>,
    space: char,
    rest: Seq<char>,
    settings: Settings,
    store: Contents,
)
    requires
        forall|i: int| 0 <= i < command.len() ==> !white_space(#[trigger] command[i]),
        forall|i: int| 0 <= i < command.len() ==> #[trigger] command[i] != '@',
        white_space(space),
        message.text is Some,
        message.from matches Some(from) && !from.is_bot,
    ensures
        message.text->0@ == command + seq![space] + rest ==> answered(message, settings, store)
            == decided(
            command,
            trimmed(rest),
            message.from->0.id,
            message.replied_to,
            settings,
            store,
        ),
        message.text->0@ == command ==> answered(message, settings, store) == decided(
            command,
            Seq::empty(),
            message.from->0.id,
            message.replied_to,
            settings,
            store,
        ),
{
    let n = command.len() as int;
    bot_name_is_dropped(command, Seq::empty(), space, rest);
    lemma_first_space(command, n);
    let plain = command + seq![space] + rest;
    lemma_first_space(plain, n);
    assert(plain.take(n) =~= command);
    lemma_first_at_sign(command, n);
    assert(command.take(n) =~= command);
}

/// Who is allowed by an admin may use the bot from then on, and who is denied may not, unless they
/// are an admin.
pub proof fn permission_follows_the_allowlist(settings: Settings, store: Contents, user: u64)
    ensures
        may_use(settings, store.with_allowed(user), user),
        may_use(settings, store.without_allowed(user), user) <==> settings.admin_ids.contains(user),
        settings.admin_ids.contains(user) ==> may_use(settings, store, user),
{
}

/// The allowlist is written out with the number of its entries, then each on a line of its own.
pub proof fn lists_grow_line_by_line(ids: Seq<u64>, id: u64)
    ensures
        list_reply(Seq::empty()) == EMPTY_ALLOWLIST_TEXT@,
        lines(seq![id]) == decimal(id as nat),
        ids.len() > 0 ==> lines(ids.push(id)) == lines(ids) + seq!['\n'] + decimal(id as nat),
        ids.len() > 0 ==> list_reply(ids) == "Allowlist ("@ + decimal(ids.len()) + "):\n"@ + lines(
            ids,
        ),
{
    reveal_strlit("\n");
    assert("\n"@ =~= seq!['\n']);
    assert(ids.push(id).drop_last() =~= ids);
    assert(ids.push(id).last() == id);
}

/// An inline query of a user is answered with a photo exactly if they may use the bot and their
/// card shows a track. The photo is the one of their own card, behind its signed link; the answer
/// is for them only, and not to be used again.
pub proof fn inline_answers_show_own_card(
    answer: InlineAnswer,
    query_id: Seq<char>,
    link: Option<String>,
    kind: CardKind,
    shown: Option<(String, CardKind)>,
    settings: Settings,
    store: Contents,
    user: u64,
)
    requires
        own_link(link, settings, store, user),
        shown == (match link {
            Some(url) => Some((url, kind)),
            None => None,
        }),
        inline_answered(answer, query_id, shown),
    ensures
        answer.query_id@ == query_id,
        answer.cache_secs == 0,
        answer.personal,
        answer.photo is Some <==> may_use(settings, store, user) && kind@ is Playing,
        answer.photo matches Some(photo) ==> {
            &&& photo.width == 1200 && photo.height == 528
            &&& photo.caption@ == kind@->title + " — "@ + kind@->artist
            &&& photo.thumbnail_url@ == photo.url@
            &&& exists|issued_at: i64|
                clock_shows(issued_at) && photo.url@ == #[trigger] card_link(
                    settings.public_base_url,
                    user,
                    issued_at,
                    settings.card_signing_secret,
                )
        },
{
}

/// A command counts the same with the name of a bot behind it, whatever follows.
pub proof fn bot_name_is_dropped(command: Seq<char>, name: Seq<char>, space: char, rest: Seq<char>)
    requires
        forall|i: int| 0 <= i < command.len() ==> !white_space(#[trigger] command[i]),
        forall|i: int| 0 <= i < command.len() ==> #[trigger] command[i] != '@',
        forall|i: int| 0 <= i < name.len() ==> !white_space(#[trigger] name[i]),
        white_space(space),
    ensures
        command_of(command) == command,
        command_of(command + seq!['@'] + name) == command,
        command_of(command + seq!['@'] + name + seq![space] + rest) == command,
        arguments_of(command + seq!['@'] + name + seq![space] + rest) == trimmed(rest),
        arguments_of(command + seq![space] + rest) == trimmed(rest),
{
    let n = command.len() as int;
    lemma_first_space(command, n);
    lemma_first_at_sign(command, n);
    assert(command.take(n) =~= command);
    let full = command + seq!['@'] + name;
    lemma_first_space(full, full.len() as int);
    lemma_first_at_sign(full, n);
    assert(full.take(full.len() as int) =~= full);
    assert(full.take(n) =~= command);
    let long = full + seq![space] + rest;
    lemma_first_space(long, full.len() as int);
    assert(long.take(full.len() as int) =~= full);
    assert(long.skip(full.len() as int + 1) =~= rest);
    let plain = command + seq![space] + rest;
    lemma_first_space(plain, n);
    assert(plain.skip(n + 1) =~= rest);
}

/// Who may not use the bot gets texts at most: no link, no card, and no change to what is stored.
pub proof fn strangers_get_texts(message: Incoming, settings: Settings, store: Contents)
    requires
        message.from matches Some(from) ==> !may_use(settings, store, from.id),
    ensures
        answered(message, settings, store) is Ignore || answered(message, settings, store) is Say,
{
}

/// Only admins change or see the allowlist.
pub proof fn allowlist_is_for_admins(message: Incoming, settings: Settings, store: Contents)
    requires
        ({
            let act = answered(message, settings, store);
            act is Allow || act is Deny || act is List
        }),
    ensures
        message.from matches Some(from) && settings.admin_ids.contains(from.id),
{
}

/// What a user asks for concerns their own account and no other.
pub proof fn users_act_for_themselves(message: Incoming, settings: Settings, store: Contents)
    ensures
        match answered(message, settings, store) {
            Act::Link(user) | Act::Unlink(user) | Act::Now(user) => {
                &&& message.from matches Some(from)
                &&& from.id == user
                &&& may_use(settings, store, user)
            },
            _ => true,
        },
{
}

/// A bot is never answered.
pub proof fn bots_are_ignored(message: Incoming, settings: Settings, store: Contents)
    requires
        message.from matches Some(from) ==> from.is_bot,
    ensures
        answered(message, settings, store) is Ignore,
{
}

} // verus!
