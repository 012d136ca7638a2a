use tg_spotifystatusbot::config::Config;
use tg_spotifystatusbot::db::{SpotifyTokens, Store};
use tg_spotifystatusbot::error::AppError;
use tg_spotifystatusbot::render::card::CardKind;
use tg_spotifystatusbot::telegram::{
    allow_command, allowlist_command, allowlist_text, bot_commands, can_use, caption_for,
    deny_command, handle_message, inline_answer, inline_link, inline_photo, next_offset, now_reply, split_command, start_text,
    target_user_id, temp_jpeg_name, unlink_command, Action, Incoming, Reply, Sender,
    ADMINS_ONLY_TEXT, ALLOW_USAGE, DENY_USAGE, EMPTY_ALLOWLIST_TEXT, HELP_TEXT, INLINE_CACHE_SECS,
    INLINE_PERSONAL, PRIVACY_TEXT, PRIVATE_TEXT, START_TEXT,
};

fn owned(parts: (&str, &str)) -> (String, String) {
    (parts.0.to_owned(), parts.1.to_owned())
}

fn config(admins: &str) -> Config {
    let vars = [
        ("TELEGRAM_BOT_TOKEN", "token"),
        ("SPOTIFY_CLIENT_ID", "id"),
        ("SPOTIFY_CLIENT_SECRET", "secret"),
        ("PUBLIC_BASE_URL", "https://bot.example.com"),
        ("ADMIN_USER_IDS", admins),
    ];
    Config::from_vars(vars.iter().map(|pair| owned(*pair)).collect(), |_: &str| Ok(())).unwrap()
}

fn store(allowed: &[u64]) -> Store {
    Store::open(vec![], vec![], allowed.iter().map(|id| (*id, 1)).collect())
}

fn message(text: &str, id: u64) -> Incoming {
    Incoming {
        text: Some(text.to_owned()),
        from: Some(Sender { id, is_bot: false }),
        replied_to: None,
    }
}

fn said(text: &str) -> Action {
    Action::Say(text.to_owned())
}

fn playing() -> CardKind {
    CardKind::Playing {
        username: "alex".to_owned(),
        title: "Midnight City".to_owned(),
        artist: "M83".to_owned(),
        album: "Hurry Up".to_owned(),
        progress_ms: 1,
        duration_ms: 2,
        is_playing: true,
        album_art: None,
        avatar: None,
        track_url: Some("https://open.spotify.com/track/abc".to_owned()),
    }
}

#[test]
fn strips_bot_username_from_commands() {
    assert_eq!(split_command("/now@mybot extra"), owned(("/now", "extra")));
    assert_eq!(split_command("/help"), owned(("/help", "")));
}

#[test]
fn splits_at_the_first_white_space() {
    assert_eq!(split_command(""), owned(("", "")));
    assert_eq!(split_command(" /now"), owned(("", "/now")));
    assert_eq!(split_command("/allow \t 42  "), owned(("/allow", "42")));
    assert_eq!(split_command("/deny\u{a0}7\n8"), owned(("/deny", "7\n8")));
    assert_eq!(split_command("/now@a@b"), owned(("/now", "")));
    assert_eq!(split_command("now there@x"), owned(("now", "there@x")));
}

#[test]
fn finds_whom_a_command_is_about() {
    assert_eq!(target_user_id(None, " 42 "), Some(42));
    assert_eq!(target_user_id(Some(7), "42"), Some(42));
    assert_eq!(target_user_id(Some(7), "him"), Some(7));
    assert_eq!(target_user_id(Some(7), ""), Some(7));
    assert_eq!(target_user_id(None, "-3"), None);
}

#[test]
fn strangers_are_told_that_the_bot_is_private() {
    let config = config("1");
    let store = store(&[2]);
    for command in ["/link", "/unlink", "/now"] {
        assert_eq!(handle_message(&message(command, 3), &config, &store), said(PRIVATE_TEXT));
    }
    assert_eq!(handle_message(&message("/link", 2), &config, &store), Action::Link(2));
    assert_eq!(handle_message(&message("/unlink@bot", 1), &config, &store), Action::Unlink(1));
    assert_eq!(handle_message(&message("/now x", 2), &config, &store), Action::Now(2));
    assert!(can_use(&config, &store, 1) && can_use(&config, &store, 2));
    assert!(!can_use(&config, &store, 3));
}

#[test]
fn everyone_can_read_the_texts() {
    let config = config("1");
    let store = store(&[]);
    assert_eq!(handle_message(&message("/help", 3), &config, &store), said(HELP_TEXT));
    assert_eq!(handle_message(&message("/privacy", 3), &config, &store), said(PRIVACY_TEXT));
    assert_eq!(handle_message(&message("/start", 1), &config, &store), said(START_TEXT));
    let private = format!(
        "{START_TEXT}\n\nThis bot is private. Your Telegram user id is 3. Ask an admin to /allow you."
    );
    assert_eq!(handle_message(&message("/start", 3), &config, &store), Action::Say(private.clone()));
    assert_eq!(start_text(false, 3), private);
    assert_eq!(START_TEXT.lines().count(), 3);
    assert_eq!(HELP_TEXT.lines().count(), 11);
    assert_eq!(PRIVACY_TEXT.lines().count(), 5);
}

#[test]
fn only_admins_change_the_allowlist() {
    let config = config("1");
    let store = store(&[2]);
    for command in ["/allow 5", "/deny 5", "/allowlist"] {
        assert_eq!(handle_message(&message(command, 2), &config, &store), said(ADMINS_ONLY_TEXT));
    }
    assert_eq!(handle_message(&message("/allow 5", 1), &config, &store), Action::Allow(5));
    assert_eq!(handle_message(&message("/deny 5", 1), &config, &store), Action::Deny(5));
    assert_eq!(handle_message(&message("/allowlist", 1), &config, &store), Action::List);
    assert_eq!(handle_message(&message("/allow", 1), &config, &store), said(ALLOW_USAGE));
    assert_eq!(handle_message(&message("/deny x", 1), &config, &store), said(DENY_USAGE));
    let reply = Incoming { replied_to: Some(9), ..message("/allow", 1) };
    assert_eq!(handle_message(&reply, &config, &store), Action::Allow(9));
}

#[test]
fn other_messages_are_ignored() {
    let config = config("1");
    let store = store(&[]);
    let bot = Incoming { from: Some(Sender { id: 1, is_bot: true }), ..message("/help", 1) };
    assert_eq!(handle_message(&bot, &config, &store), Action::Ignore);
    let nobody = Incoming { from: None, ..message("/help", 1) };
    assert_eq!(handle_message(&nobody, &config, &store), Action::Ignore);
    let silent = Incoming { text: None, ..message("/help", 1) };
    assert_eq!(handle_message(&silent, &config, &store), Action::Ignore);
    assert_eq!(handle_message(&message("hello", 1), &config, &store), Action::Ignore);
    assert_eq!(handle_message(&message("/helpme", 1), &config, &store), Action::Ignore);
}

#[test]
fn allowing_and_denying_is_reported() {
    let mut store = store(&[]);
    assert_eq!(allow_command(&mut store, 9, |_, _| Ok(())).unwrap(), "9 is now allowlisted.");
    assert_eq!(allow_command(&mut store, 9, |_, _| Ok(())).unwrap(), "9 was already allowlisted.");
    assert_eq!(allowlist_command(&store), "Allowlist (1):\n9");
    assert_eq!(
        deny_command(&mut store, 9, |_, _| Ok(())).unwrap(),
        "9 was removed from the allowlist."
    );
    assert_eq!(deny_command(&mut store, 9, |_, _| Ok(())).unwrap(), "9 was not on the allowlist.");
    assert_eq!(allowlist_command(&store), EMPTY_ALLOWLIST_TEXT);
    let failed = allow_command(&mut store, 9, |_, _| Err(AppError::database("full")));
    assert!(matches!(failed, Err(AppError::Database(text)) if text == "full"));
    assert!(!store.is_allowlisted(9));
}

#[test]
fn the_allowlist_is_listed_line_by_line() {
    assert_eq!(allowlist_text(&vec![3, 9, 12]), "Allowlist (3):\n3\n9\n12");
    assert_eq!(allowlist_command(&store(&[12, 3, 9])), "Allowlist (3):\n3\n9\n12");
}

#[test]
fn unlinking_is_reported() {
    let tokens = SpotifyTokens {
        access_token: "a".to_owned(),
        refresh_token: "r".to_owned(),
        expires_at: 1,
        token_type: "Bearer".to_owned(),
        scope: String::new(),
    };
    let mut store = Store::open(vec![(4, tokens)], vec![], vec![]);
    assert_eq!(
        unlink_command(&mut store, 4, |_, _| Ok(false)).unwrap(),
        "Your Spotify tokens were deleted."
    );
    assert_eq!(
        unlink_command(&mut store, 4, |_, _| Ok(false)).unwrap(),
        "Nothing was stored for your account."
    );
    assert!(unlink_command(&mut store, 4, |_, _| Err(AppError::database("x"))).is_err());
}

#[test]
fn captions_say_what_a_card_shows() {
    assert_eq!(caption_for(&playing()), "Midnight City — M83");
    assert_eq!(caption_for(&CardKind::Idle), "Nothing is playing on Spotify right now.");
    assert_eq!(
        caption_for(&CardKind::NotLinked),
        "Spotify isn't linked. Open the bot and send /link."
    );
    assert_eq!(caption_for(&CardKind::Error { message: "oh".to_owned() }), "oh");
}

#[test]
fn a_card_is_sent_only_if_something_plays() {
    assert_eq!(
        now_reply(&playing()),
        Reply::Photo {
            caption: "Midnight City — M83".to_owned(),
            track_url: Some("https://open.spotify.com/track/abc".to_owned()),
        }
    );
    assert_eq!(
        now_reply(&CardKind::Idle),
        Reply::Text("Nothing is playing on Spotify right now.".to_owned())
    );
    let photo = inline_photo(&playing(), "https://bot.example.com/card/1.jpg").unwrap();
    assert_eq!(photo.url, "https://bot.example.com/card/1.jpg");
    assert_eq!((photo.width, photo.height), (1200, 528));
    assert_eq!(photo.title, "Midnight City — M83");
    assert_eq!(photo.caption, photo.title);
    assert_eq!(photo.track_url.as_deref(), Some("https://open.spotify.com/track/abc"));
    assert!(inline_photo(&CardKind::NotLinked, "x").is_none());
}

#[test]
fn inline_queries_get_the_link_to_their_own_card() {
    let config = config("1");
    let link = inline_link(&config, &store(&[2]), 2).unwrap();
    assert!(link.starts_with("https://bot.example.com/card/2.jpg?t="));
    assert!(inline_link(&config, &store(&[]), 1).is_some());
    assert!(inline_link(&config, &store(&[2]), 3).is_none());
}

#[test]
fn inline_answers_are_personal_and_not_kept() {
    assert_eq!((INLINE_CACHE_SECS, INLINE_PERSONAL), (0, true));
    let answer = inline_answer("q1", Some(("https://x.example/c".to_owned(), playing())));
    assert_eq!((answer.query_id.as_str(), answer.cache_secs, answer.personal), ("q1", 0, true));
    let photo = answer.photo.unwrap();
    assert_eq!((photo.width, photo.height), (1200, 528));
    assert_eq!(photo.url, "https://x.example/c");
    assert_eq!(photo.thumbnail_url, photo.url);
    assert_eq!(photo.caption, "Midnight City — M83");
    for shown in [None, Some(("x".to_owned(), CardKind::Idle)), Some(("x".to_owned(), CardKind::NotLinked))] {
        let answer = inline_answer("q2", shown);
        assert_eq!((answer.query_id.as_str(), answer.cache_secs, answer.personal), ("q2", 0, true));
        assert!(answer.photo.is_none());
    }
}

#[test]
fn ids_are_new_each_time() {
    let first = inline_photo(&playing(), "x").unwrap().id;
    let second = inline_photo(&playing(), "x").unwrap().id;
    assert_ne!(first, second);
    assert_eq!(first.len(), 36);
    for (i, c) in first.chars().enumerate() {
        if [8, 13, 18, 23].contains(&i) {
            assert_eq!(c, '-');
        } else {
            assert!(c.is_ascii_digit() || ('a'..='f').contains(&c));
        }
    }
    let name = temp_jpeg_name();
    assert!(name.starts_with("tg-spotifystatusbot-") && name.ends_with(".jpg"));
    assert_eq!(name.len(), 20 + 36 + 4);
    assert_ne!(name, temp_jpeg_name());
}

#[test]
fn the_next_update_follows() {
    assert_eq!(next_offset(0), 1);
    assert_eq!(next_offset(u32::MAX), 4_294_967_296);
}

#[test]
fn all_commands_are_registered() {
    let commands = bot_commands();
    assert_eq!(commands.len(), 9);
    assert_eq!(commands[0], ("start", "Start and see how to link Spotify"));
    assert_eq!(commands[8], ("allowlist", "Admin: show allowed user ids"));
}
