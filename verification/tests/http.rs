use tg_spotifystatusbot::card_url::sign_card;
use tg_spotifystatusbot::config::Config;
use tg_spotifystatusbot::db::now_unix;
use tg_spotifystatusbot::error::AppError;
use tg_spotifystatusbot::http::{
    card_request, card_request_at, card_user, chat_of, draw_failed, html_page, linked_page,
    oauth_callback, Callback, CardAnswer, CARD_CACHING, CARD_TYPE, HEALTHY, INVALID_USER,
    LINKED_TEXT,
};

fn config() -> Config {
    let vars = [
        ("TELEGRAM_BOT_TOKEN", "token"),
        ("SPOTIFY_CLIENT_ID", "id"),
        ("SPOTIFY_CLIENT_SECRET", "secret"),
        ("PUBLIC_BASE_URL", "https://bot.example.com"),
    ];
    let vars = vars.iter().map(|(k, v)| ((*k).to_owned(), (*v).to_owned())).collect();
    Config::from_vars(vars, |_: &str| Ok(())).unwrap()
}

fn text(s: &str) -> Option<String> {
    Some(s.to_owned())
}

#[test]
fn pages_have_a_title_and_a_paragraph() {
    let page = html_page(200, "T", "B");
    assert_eq!(page.status, 200);
    assert_eq!(
        page.html,
        "<!doctype html><html lang=\"en\"><head><meta charset=\"utf-8\"><title>T</title>\
         <style>body{font-family:sans-serif;background:#121212;color:#fff;display:flex;min-height:100vh;\
         align-items:center;justify-content:center} main{max-width:32rem} h1{color:#1ed760}</style>\
         </head><body><main><h1>T</h1><p>B</p></main></body></html>"
    );
}

#[test]
fn a_login_goes_on_with_code_and_state() {
    assert_eq!(
        oauth_callback(text("c"), text("s"), None),
        Callback::Finish { code: "c".to_owned(), state: "s".to_owned() }
    );
    let cancelled = html_page(
        400,
        "Link cancelled",
        "Spotify did not authorize the bot. You can close this tab and send /link again.",
    );
    assert_eq!(
        oauth_callback(text("c"), text("s"), text("access_denied")),
        Callback::Show(cancelled)
    );
    for (code, state) in [(None, text("s")), (text("c"), None), (None, None)] {
        let missing = html_page(
            400,
            "Missing OAuth parameters",
            "Send /link in Telegram and try the button again.",
        );
        assert_eq!(oauth_callback(code, state, None), Callback::Show(missing));
    }
}

#[test]
fn a_login_ends_with_a_page() {
    assert_eq!(
        linked_page(&Ok(5)),
        html_page(200, "Spotify linked", "You can close this tab and return to Telegram.")
    );
    assert_eq!(
        linked_page(&Err(AppError::InvalidOauthState)),
        html_page(
            400,
            "Could not link Spotify",
            "That Spotify login link expired. Send /link and try again."
        )
    );
}

#[test]
fn the_user_is_read_from_the_link() {
    assert_eq!(card_user("42.jpg"), Some(42));
    assert_eq!(card_user("42"), Some(42));
    assert_eq!(card_user("42.jpg.jpg"), Some(42));
    assert_eq!(card_user("42.png"), None);
    assert_eq!(card_user(".jpg"), None);
    assert_eq!(card_user(""), None);
    assert_eq!(card_user("jpg"), None);
    assert_eq!(card_user("42.jpg "), None);
    assert_eq!(card_user("18446744073709551615.jpg"), Some(u64::MAX));
    assert_eq!(card_user("18446744073709551616.jpg"), None);
    for id in [0, 9, 10, 1_000_000_007, u64::MAX] {
        assert_eq!(card_user(&format!("{id}.jpg")), Some(id));
    }
}

#[test]
fn cards_are_drawn_for_good_links_only() {
    let config = config();
    let sig = sign_card(42, 1_000, "card:token");
    assert!(matches!(
        card_request_at(1_300, "42.jpg", 1_000, &sig, &config),
        CardAnswer::Draw(42)
    ));
    let refused = "That status image link is invalid or expired.";
    assert!(matches!(
        card_request_at(1_301, "42.jpg", 1_000, &sig, &config),
        CardAnswer::Refuse(403, said) if said == refused
    ));
    assert!(matches!(
        card_request_at(1_000, "43.jpg", 1_000, &sig, &config),
        CardAnswer::Refuse(403, said) if said == refused
    ));
    assert!(matches!(
        card_request_at(1_000, "x.jpg", 1_000, &sig, &config),
        CardAnswer::Refuse(400, said) if said == INVALID_USER
    ));
    let now = now_unix();
    let sig = sign_card(7, now, "card:token");
    assert!(matches!(card_request("7.jpg", now, &sig, &config), CardAnswer::Draw(7)));
    assert!(matches!(card_request("7.jpg", now - 1, &sig, &config), CardAnswer::Refuse(403, _)));
}

#[test]
fn small_answers() {
    assert_eq!(HEALTHY, "ok");
    assert_eq!(INVALID_USER, "Invalid user");
    assert_eq!(CARD_TYPE, "image/jpeg");
    assert_eq!(CARD_CACHING, "no-store, no-cache, max-age=0");
    assert_eq!(
        LINKED_TEXT,
        "Spotify is linked. Use /now or mention the bot inline to share what you're playing."
    );
    assert_eq!(chat_of(7), 7);
    assert_eq!(chat_of(u64::MAX), -1);
    assert_eq!(
        draw_failed(&AppError::render("x")),
        (500, "Something went wrong. Try again in a moment.")
    );
}
