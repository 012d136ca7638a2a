//! The pages and the images that the bot serves.
use vstd::prelude::*;

use crate::card_url::{fresh, signature, verify_card_at};
use crate::config::{Config, Settings};
use crate::db::{clock_shows, now_unix};
use crate::error::{AppError, Failure, Result};
use crate::text;
use crate::text::{ends_with, parsed_u64};

verus! {

pub const HEALTHY: &'static str = "ok";

pub const LINKED_TEXT: &'static str =
    "Spotify is linked. Use /now or mention the bot inline to share what you're playing.";

pub const INVALID_USER: &'static str = "Invalid user";

pub const CARD_TYPE: &'static str = "image/jpeg";

pub const CARD_CACHING: &'static str = "no-store, no-cache, max-age=0";

/// A page, with the status that goes with it.
#[derive(Debug, PartialEq, Eq)]
pub struct Page {
    pub status: u16,
    pub html: String,
}

/// The text of a page with a title and a paragraph.
pub open spec fn page_html(title: Seq<char>, body: Seq<char>) -> Seq<char> {
    "<!doctype html><html lang=\"en\"><head><meta charset=\"utf-8\"><title>"@ + title
        + "</title><style>body{font-family:sans-serif;background:#121212;color:#fff;display:flex;min-height:100vh;align-items:center;justify-content:center} main{max-width:32rem} h1{color:#1ed760}</style></head><body><main><h1>"@
        + title + "</h1><p>"@ + body + "</p></main></body></html>"@
}

/// Whether a page shows a title and a paragraph under a status.
pub open spec fn shows(page: Page, status: u16, title: Seq<char>, body: Seq<char>) -> bool {
    page.status == status && page.html@ == page_html(title, body)
}

/// A page with a title and a paragraph.
pub fn html_page(status: u16, title: &str, body: &str) -> (res: Page)
    ensures
        shows(res, status, title@, body@),
{
    let mut html =
        "<!doctype html><html lang=\"en\"><head><meta charset=\"utf-8\"><title>".to_owned();
    html.append(title);
    html.append(
        "</title><style>body{font-family:sans-serif;background:#121212;color:#fff;display:flex;min-height:100vh;align-items:center;justify-content:center} main{max-width:32rem} h1{color:#1ed760}</style></head><body><main><h1>",
    );
    html.append(title);
    html.append("</h1><p>");
    html.append(body);
    html.append("</p></main></body></html>");
    Page { status, html }
}

/// What is to be done when Spotify sends a user back.
#[derive(Debug, PartialEq, Eq)]
pub enum Callback {
    /// Show a page.
    Show(Page),
    /// Finish the login.
    Finish { code: String, state: String },
}

/// What is to be done when Spotify sends a user back: the login is finished if there is no error
/// and both a code and a state came along.
pub fn oauth_callback(code: Option<String>, state: Option<String>, error: Option<String>) -> (res:
    Callback)
    ensures
        match res {
            Callback::Finish { code: c, state: s } => error is None && code == Some(c) && state
                == Some(s),
            Callback::Show(page) => if error is Some {
                shows(
                    page,
                    400,
                    "Link cancelled"@,
                    "Spotify did not authorize the bot. You can close this tab and send /link again."@,
                )
            } else {
                (code is None || state is None) && shows(
                    page,
                    400,
                    "Missing OAuth parameters"@,
                    "Send /link in Telegram and try the button again."@,
                )
            },
        },
{
    if error.is_some() {
        return Callback::Show(
            html_page(
                400,
                "Link cancelled",
                "Spotify did not authorize the bot. You can close this tab and send /link again.",
            ),
        );
    }
    match (code, state) {
        (Some(code), Some(state)) => Callback::Finish { code, state },
        _ => Callback::Show(
            html_page(
                400,
                "Missing OAuth parameters",
                "Send /link in Telegram and try the button again.",
            ),
        ),
    }
}

/// The page that ends a login.
pub fn linked_page(outcome: &Result<u64>) -> (res: Page)
    ensures
        match outcome {
            Ok(_) => shows(
                res,
                200,
                "Spotify linked"@,
                "You can close this tab and return to Telegram."@,
            ),
            Err(err) => shows(res, 400, "Could not link Spotify"@, err@.told()),
        },
{
    match outcome {
        Ok(_) => html_page(
            200,
            "Spotify linked",
            "You can close this tab and return to Telegram.",
        ),
        Err(err) => html_page(400, "Could not link Spotify", err.user_message()),
    }
}

/// The private chat with a user.
pub fn chat_of(user_id: u64) -> (res: i64)
    ensures
        res == user_id as i64,
{
    user_id as i64
}

/// A text without any `.jpg` at its end.
pub open spec fn without_suffix(s: Seq<char>) -> Seq<char>
    decreases s.len(),
{
    if ends_with(s, seq!['.', 'j', 'p', 'g']) {
        without_suffix(s.take(s.len() - 4))
    } else {
        s
    }
}

/// The user that the last part of a link to a card names.
pub open spec fn user_named(segment: Seq<char>) -> Option<u64> {
    parsed_u64(without_suffix(segment))
}

/// The user that the last part of a link to a card names.
pub fn card_user(segment: &str) -> (res: Option<u64>)
    ensures
        res == user_named(segment@),
{
    let chars = text::chars_of(segment);
    let mut end: usize = chars.len();
    proof {
        assert(chars@.take(end as int) =~= chars@);
    }
    while end >= 4 && chars[end - 4] == '.' && chars[end - 3] == 'j' && chars[end - 2] == 'p'
        && chars[end - 1] == 'g'
        invariant
            end <= chars@.len(),
            without_suffix(chars@) == without_suffix(chars@.take(end as int)),
        decreases end,
    {
        proof {
            let now = chars@.take(end as int);
            assert(now.subrange(now.len() - 4, now.len() as int) =~= seq!['.', 'j', 'p', 'g']);
            assert(now.take(now.len() - 4) =~= chars@.take(end - 4));
        }
        end -= 4;
    }
    let named = text::text_between(&chars, 0, end);
    proof {
        let now = chars@.take(end as int);
        if ends_with(now, seq!['.', 'j', 'p', 'g']) {
            let tail = now.subrange(now.len() - 4, now.len() as int);
            assert(tail[0] == '.' && tail[1] == 'j' && tail[2] == 'p' && tail[3] == 'g');
        }
        assert(named@ =~= chars@.take(end as int));
    }
    text::parse_u64(named.as_str())
}

/// How a request for a card is answered before anything is drawn.
#[derive(Debug)]
pub enum CardAnswer {
    /// With a status and a text.
    Refuse(u16, &'static str),
    /// With the card of this user.
    Draw(u64),
}

/// Whether an answer is the one that a request deserves at a given time.
pub open spec fn deserved(
    res: CardAnswer,
    now: i64,
    segment: Seq<char>,
    issued_at: i64,
    sig: Seq<char>,
    settings: Settings,
) -> bool {
    match user_named(segment) {
        None => res matches CardAnswer::Refuse(status, said) && status == 400 && said@
            == INVALID_USER@,
        Some(user) => if fresh(now, issued_at, settings.http.card_url_ttl_secs) && sig
            == signature(user, issued_at, settings.card_signing_secret) {
            res == CardAnswer::Draw(user)
        } else {
            res matches CardAnswer::Refuse(status, said) && status == 403 && said@
                == Failure::InvalidCardUrl.told()
        },
    }
}

/// How a request for a card is answered at a given time.
pub fn card_request_at(now: i64, segment: &str, issued_at: i64, sig: &str, config: &Config) -> (res:
    CardAnswer)
    ensures
        deserved(res, now, segment@, issued_at, sig@, config@),
{
    let user_id = match card_user(segment) {
        Some(user_id) => user_id,
        None => return CardAnswer::Refuse(400, INVALID_USER),
    };
    match verify_card_at(
        now,
        user_id,
        issued_at,
        sig,
        config.card_signing_secret.as_str(),
        config.http.card_url_ttl_secs,
    ) {
        Ok(()) => CardAnswer::Draw(user_id),
        Err(err) => CardAnswer::Refuse(403, err.user_message()),
    }
}

/// How a request for a card is answered now.
pub fn card_request(segment: &str, issued_at: i64, sig: &str, config: &Config) -> (res: CardAnswer)
    ensures
        exists|now: i64|
            clock_shows(now) && #[trigger] deserved(
                res,
                now,
                segment@,
                issued_at,
                sig@,
                config@,
            ),
{
    let now: i64 = now_unix();
    card_request_at(now, segment, issued_at, sig, config)
}

/// How a card that could not be drawn is answered for.
pub fn draw_failed(err: &AppError) -> (res: (u16, &'static str))
    ensures
        res.0 == 500,
        res.1@ == err@.told(),
{
    (500, err.user_message())
}

} // verus!
