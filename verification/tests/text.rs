use tg_spotifystatusbot::error::AppError;
use tg_spotifystatusbot::text::{
    decimal_i64, decimal_u64, has_text, is_white_space, parse_u64, same_text, trim,
};

#[test]
fn white_space_is_that_of_unicode() {
    for code in 0..=0x10ffff_u32 {
        if let Some(c) = char::from_u32(code) {
            assert_eq!(is_white_space(c), c.is_whitespace(), "{code:x}");
        }
    }
}

#[test]
fn texts_are_trimmed() {
    for text in ["", " ", "a", " a b\u{2003}", "\u{200b}x\u{200b}", "\t\n\u{85}z", "山\u{3000}"] {
        assert_eq!(trim(text), text.trim());
    }
}

#[test]
fn numbers_are_written_and_read() {
    for n in [0, 1, 9, 10, 99, 100, 1_700_000_000, u64::MAX] {
        assert_eq!(decimal_u64(n), n.to_string());
        assert_eq!(parse_u64(&decimal_u64(n)), Some(n));
    }
    for n in [0, -1, 10, -10, i64::MAX, i64::MIN] {
        assert_eq!(decimal_i64(n), n.to_string());
    }
    for text in ["", "+", "-", "+7", "-7", "007", "7 ", "٧", "18446744073709551616", "1e3", "++1"] {
        assert_eq!(parse_u64(text), text.parse::<u64>().ok(), "{text}");
    }
}

#[test]
fn texts_are_compared_and_searched() {
    assert!(same_text("a山", "a山") && !same_text("a", "b") && !same_text("a", "ab"));
    for (text, part) in [("", ""), ("abc", ""), ("abc", "bc"), ("ab", "abc"), ("aab", "ab"), ("x", "y")] {
        assert_eq!(has_text(text, part), text.contains(part), "{text} {part}");
    }
}

#[test]
fn failures_are_described_and_told() {
    let own = || "why".to_owned();
    let all = [
        (AppError::config("why"), "Configuration error: why"),
        (AppError::database("why"), "Database error: why"),
        (AppError::NotLinked, "Spotify is not linked"),
        (AppError::InvalidOauthState, "Spotify OAuth state is invalid or expired"),
        (AppError::spotify("why"), "Spotify API error: why"),
        (AppError::render("why"), "Failed to render card: why"),
        (AppError::InvalidCardUrl, "Invalid card URL"),
        (AppError::Http(own()), "HTTP client error: why"),
        (AppError::Json(own()), "JSON error: why"),
        (AppError::Io(own()), "I/O error: why"),
        (AppError::telegram("why"), "Telegram API error: why"),
        (AppError::Message(own()), "why"),
    ];
    for (err, described) in &all {
        assert_eq!(err.describe(), *described);
        assert!(!err.user_message().contains("why"));
    }
    assert_eq!(
        AppError::NotLinked.user_message(),
        "Spotify isn't linked yet. Send /link to connect your account."
    );
    assert_eq!(
        AppError::InvalidOauthState.user_message(),
        "That Spotify login link expired. Send /link and try again."
    );
    assert_eq!(
        AppError::spotify("x").user_message(),
        "I couldn't reach Spotify. Play something and try again, or /link if this keeps happening."
    );
    assert_eq!(
        AppError::InvalidCardUrl.user_message(),
        "That status image link is invalid or expired."
    );
    assert_eq!(
        AppError::telegram("x").user_message(),
        "Telegram rejected the request. Try again in a moment."
    );
    assert_eq!(
        AppError::database("x").user_message(),
        "Something went wrong. Try again in a moment."
    );
}
