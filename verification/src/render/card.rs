//! What a card shows.
use vstd::prelude::*;

use crate::text;

verus! {

/// What a card shows: a track, or why there is none.
#[derive(Clone, Debug, PartialEq, Eq)]
pub enum CardKind {
    Playing {
        username: String,
        title: String,
        artist: String,
        album: String,
        progress_ms: u32,
        duration_ms: u32,
        is_playing: bool,
        album_art: Option<Vec<u8>>,
        avatar: Option<Vec<u8>>,
        track_url: Option<String>,
    },
    Idle,
    NotLinked,
    Error { message: String },
}

/// What a card shows, with the characters of its texts and the bytes of its images.
pub enum Card {
    Playing {
        username: Seq<char>,
        title: Seq<char>,
        artist: Seq<char>,
        album: Seq<char>,
        progress_ms: u32,
        duration_ms: u32,
        is_playing: bool,
        album_art: Option<Seq<u8>>,
        avatar: Option<Seq<u8>>,
        track_url: Option<Seq<char>>,
    },
    Idle,
    NotLinked,
    Error { message: Seq<char> },
}

/// The bytes of an image that may be missing.
pub open spec fn bytes_of(image: Option<Vec<u8>>) -> Option<Seq<u8>> {
    match image {
        Some(bytes) => Some(bytes@),
        None => None,
    }
}

/// The characters of a text that may be missing.
pub open spec fn text_of(text: Option<String>) -> Option<Seq<char>> {
    match text {
        Some(text) => Some(text@),
        None => None,
    }
}

impl View for CardKind {
    type V = Card;

    open spec fn view(&self) -> Card {
        match self {
            CardKind::Playing {
                username,
                title,
                artist,
                album,
                progress_ms,
                duration_ms,
                is_playing,
                album_art,
                avatar,
                track_url,
            } => Card::Playing {
                username: username@,
                title: title@,
                artist: artist@,
                album: album@,
                progress_ms: *progress_ms,
                duration_ms: *duration_ms,
                is_playing: *is_playing,
                album_art: bytes_of(*album_art),
                avatar: bytes_of(*avatar),
                track_url: text_of(*track_url),
            },
            CardKind::Idle => Card::Idle,
            CardKind::NotLinked => Card::NotLinked,
            CardKind::Error { message } => Card::Error { message: message@ },
        }
    }
}

impl CardKind {
    /// The encoded cover of the album, if there is one.
    pub fn album_bytes(&self) -> (res: Option<&Vec<u8>>)
        ensures
            res is Some <==> self@ is Playing && self@->album_art is Some,
            res matches Some(bytes) ==> Some(bytes@) == self@->album_art,
    {
        match self {
            CardKind::Playing { album_art, .. } => album_art.as_ref(),
            _ => None,
        }
    }

    /// The link to the track, if there is one.
    pub fn track_url(&self) -> (res: Option<&str>)
        ensures
            res is Some <==> self@ is Playing && self@->track_url is Some,
            res matches Some(url) ==> Some(url@) == self@->track_url,
    {
        match self {
            CardKind::Playing { track_url: Some(url), .. } => Some(url.as_str()),
            _ => None,
        }
    }
}

/// Minutes and seconds, the seconds with two digits.
pub open spec fn clock_text(ms: u32) -> Seq<char> {
    let seconds = ms as nat / 1000;
    text::decimal(seconds / 60) + seq![
        ':',
        text::digit(seconds % 60 / 10),
        text::digit(seconds % 60 % 10),
    ]
}

/// A time in milliseconds as minutes and seconds.
pub fn format_ms(ms: u32) -> (res: String)
    ensures
        res@ == clock_text(ms),
{
    let total: u32 = ms / 1000;
    let minutes: u32 = total / 60;
    let seconds: u32 = total % 60;
    let mut res = text::decimal_u64(minutes as u64);
    res.push(':');
    res.push((48 + (seconds / 10) as u8) as char);
    res.push((48 + (seconds % 10) as u8) as char);
    proof {
        assert(res@ =~= clock_text(ms));
    }
    res
}

/// A track that stands for any other, with given texts and images.
fn example_card(
    username: &str,
    title: &str,
    artist: &str,
    album: &str,
    album_art: Vec<u8>,
    avatar: Vec<u8>,
) -> (res: CardKind)
    ensures
        res@ == example(username@, title@, artist@, album@, album_art@, avatar@),
{
    CardKind::Playing {
        username: username.to_owned(),
        title: title.to_owned(),
        artist: artist.to_owned(),
        album: album.to_owned(),
        progress_ms: 83_000,
        duration_ms: 243_000,
        is_playing: true,
        album_art: Some(album_art),
        avatar: Some(avatar),
        track_url: Some("https://open.spotify.com/track/example".to_owned()),
    }
}

/// A track that stands for any other: about a third of it has been played.
pub open spec fn example(
    username: Seq<char>,
    title: Seq<char>,
    artist: Seq<char>,
    album: Seq<char>,
    album_art: Seq<u8>,
    avatar: Seq<u8>,
) -> Card {
    Card::Playing {
        username,
        title,
        artist,
        album,
        progress_ms: 83_000,
        duration_ms: 243_000,
        is_playing: true,
        album_art: Some(album_art),
        avatar: Some(avatar),
        track_url: Some("https://open.spotify.com/track/example"@),
    }
}

/// The hue, in degrees, of the synthetic cover of the Japanese example, and of a cover that
/// belongs to no example.
pub const HUE_JA: u16 = 264;

/// The hue, in degrees, of the synthetic cover of the Russian example.
pub const HUE_RU: u16 = 28;

/// The hue, in degrees, of the synthetic cover of the English example.
pub const HUE_EN: u16 = 145;

/// The hue, in degrees, of the synthetic cover of the example with long texts.
pub const HUE_LOREM: u16 = 200;

/// The example that is shown where no other is asked for.
pub fn example_playing_card(album_art: Vec<u8>, avatar: Vec<u8>) -> (res: CardKind)
    ensures
        res@ == example(
            "山田"@,
            "荒城の月"@,
            "瀧廉太郎"@,
            "日本の歌曲"@,
            album_art@,
            avatar@,
        ),
{
    example_card_ja(album_art, avatar)
}

/// An example in Japanese.
pub fn example_card_ja(album_art: Vec<u8>, avatar: Vec<u8>) -> (res: CardKind)
    ensures
        res@ == example(
            "山田"@,
            "荒城の月"@,
            "瀧廉太郎"@,
            "日本の歌曲"@,
            album_art@,
            avatar@,
        ),
{
    example_card("山田", "荒城の月", "瀧廉太郎", "日本の歌曲", album_art, avatar)
}

/// An example in Russian.
pub fn example_card_ru(album_art: Vec<u8>, avatar: Vec<u8>) -> (res: CardKind)
    ensures
        res@ == example(
            "Анна"@,
            "Подмосковные вечера"@,
            "Василий Соловьёв-Седой"@,
            "Песни военных лет"@,
            album_art@,
            avatar@,
        ),
{
    example_card(
        "Анна",
        "Подмосковные вечера",
        "Василий Соловьёв-Седой",
        "Песни военных лет",
        album_art,
        avatar,
    )
}

/// An example in English, with symbols.
pub fn example_card_en(album_art: Vec<u8>, avatar: Vec<u8>) -> (res: CardKind)
    ensures
        res@ == example(
            "alex"@,
            "Greensleeves 🎵"@,
            "Traditional ♪"@,
            "English Airs ✨"@,
            album_art@,
            avatar@,
        ),
{
    example_card(
        "alex",
        "Greensleeves 🎵",
        "Traditional ♪",
        "English Airs ✨",
        album_art,
        avatar,
    )
}

/// An example with texts that are too long for a card.
pub fn example_card_lorem(album_art: Vec<u8>, avatar: Vec<u8>) -> (res: CardKind)
    ensures
        res@ == example(
            "lorem"@,
            "Lorem ipsum dolor sit amet, consectetur adipiscing elit, sed do eiusmod tempor incididunt ut labore et dolore magna aliqua"@,
            "Ut enim ad minim veniam, quis nostrud exercitation ullamco laboris nisi ut aliquip ex ea commodo consequat"@,
            "Duis aute irure dolor in reprehenderit in voluptate velit esse cillum dolore eu fugiat nulla pariatur"@,
            album_art@,
            avatar@,
        ),
{
    example_card(
        "lorem",
        "Lorem ipsum dolor sit amet, consectetur adipiscing elit, sed do eiusmod tempor incididunt ut labore et dolore magna aliqua",
        "Ut enim ad minim veniam, quis nostrud exercitation ullamco laboris nisi ut aliquip ex ea commodo consequat",
        "Duis aute irure dolor in reprehenderit in voluptate velit esse cillum dolore eu fugiat nulla pariatur",
        album_art,
        avatar,
    )
}

/// A time is written as minutes, a colon and two digits for the seconds, of which there are fewer
/// than sixty; together they are the whole seconds of the time.
pub proof fn clock_tells_the_time(ms: u32)
    ensures
        ({
            let shown = clock_text(ms);
            let n = shown.len() as int;
            let minutes = text::digits_value(shown.take(n - 3));
            let seconds = text::digits_value(shown.skip(n - 2));
            &&& n >= 4
            &&& shown[n - 3] == ':'
            &&& text::all_digits(shown.take(n - 3)) && text::all_digits(shown.skip(n - 2))
            &&& seconds < 60
            &&& minutes * 60 + seconds == ms / 1000
        }),
{
    let shown = clock_text(ms);
    let n = shown.len() as int;
    let total = ms as nat / 1000;
    text::decimal_digits(total / 60);
    assert(shown.take(n - 3) =~= text::decimal(total / 60));
    let tens = text::digit(total % 60 / 10);
    let ones = text::digit(total % 60 % 10);
    assert(shown.skip(n - 2) =~= seq![tens, ones]);
    reveal_with_fuel(text::digits_value, 3);
    assert(seq![tens, ones].drop_last() =~= seq![tens]);
    assert(seq![tens].drop_last() =~= Seq::empty());
}

} // verus!
