use tg_spotifystatusbot::card_url::{
    card_path, card_path_at, sign_card, verify_card, verify_card_at,
};
use tg_spotifystatusbot::db::now_unix;
use tg_spotifystatusbot::error::AppError;

#[test]
fn accepts_fresh_signature_and_rejects_bad_ones() {
    let secret = "s3cret";
    let issued_at = now_unix();
    let sig = sign_card(99, issued_at, secret);
    verify_card(99, issued_at, &sig, secret, 300).unwrap();
    assert!(verify_card(98, issued_at, &sig, secret, 300).is_err());
    assert!(verify_card(99, issued_at, "deadbeef", secret, 300).is_err());
    assert!(verify_card(99, issued_at - 10_000, &sig, secret, 300).is_err());
}

#[test]
fn signs_user_and_time() {
    assert_eq!(
        sign_card(99, 1_700_000_000, "s3cret"),
        "51bd07a136fbc161acc0fcca450c8543658d5281362d534227d57695acbb2812"
    );
    assert_eq!(
        card_path_at("https://bot.example.com", 42, 1_700_000_000, "card:token"),
        "https://bot.example.com/card/42.jpg?t=1700000000&sig=77cf278113abea15f991c318d89035aba8c2fd7df84bb7bd8fb80430f6938a90"
    );
}

#[test]
fn links_expire_after_their_time() {
    let sig = sign_card(5, 1_000, "k");
    assert!(verify_card_at(1_300, 5, 1_000, &sig, "k", 300).is_ok());
    assert!(matches!(
        verify_card_at(1_301, 5, 1_000, &sig, "k", 300),
        Err(AppError::InvalidCardUrl)
    ));
    assert!(verify_card_at(900, 5, 1_000, &sig, "k", 300).is_ok());
    let never = sign_card(5, 0, "k");
    assert!(verify_card_at(0, 5, 0, &never, "k", 300).is_err());
    assert!(verify_card_at(1_000, 5, 1_000, &sig, "other", 300).is_err());
    assert!(verify_card_at(1_000, 5, 1_000, &sig[..63], "k", 300).is_err());
}

#[test]
fn a_link_given_out_now_is_accepted() {
    let link = card_path("https://bot.example.com", 7, "k");
    let rest = link.strip_prefix("https://bot.example.com/card/7.jpg?t=").unwrap();
    let (issued_at, sig) = rest.split_once("&sig=").unwrap();
    verify_card(7, issued_at.parse().unwrap(), sig, "k", 300).unwrap();
}

#[test]
fn signatures_have_one_length() {
    assert_eq!(sign_card(1, 2, "").len(), 64);
    let sig = sign_card(5, 1_000, "k");
    assert!(verify_card_at(1_000, 5, 1_000, &format!("{sig}0"), "k", 300).is_err());
    assert!(verify_card_at(1_000, 5, 1_000, "", "k", 300).is_err());
}

#[test]
fn a_minus_sign_is_signed_too() {
    assert_ne!(sign_card(1, -23, "k"), sign_card(1, 23, "k"));
    assert_ne!(sign_card(12, 3, "k"), sign_card(1, 23, "k"));
}
