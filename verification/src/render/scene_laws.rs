//! What holds of the scenes of cards.
use vstd::prelude::*;

use crate::outside::image_decodes;
use crate::render::card::Card;
use crate::render::fit::{chosen, chosen_once};
use crate::render::layout::FittedText;
use crate::render::scene::{
    avatar_bytes, cover_bytes, drawn, pictured, playing_strokes, shows_card, stages, text_budget,
    Drawn, Scene, AVATAR_SIZE,
};

verus! {

/// The same card with another cover and another link to the track.
pub open spec fn with_cover(
    card: Card,
    cover: Option<Seq<u8>>,
    link: Option<Seq<char>>,
) -> Card {
    match card {
        Card::Playing {
            username,
            title,
            artist,
            album,
            progress_ms,
            duration_ms,
            is_playing,
            album_art: _,
            avatar,
            track_url: _,
        } => Card::Playing {
            username,
            title,
            artist,
            album,
            progress_ms,
            duration_ms,
            is_playing,
            album_art: cover,
            avatar,
            track_url: link,
        },
        _ => card,
    }
}

/// There is one way to draw a card in given sizes and fonts. Neither its cover nor its link has a
/// part in it.
pub proof fn drawn_one_way<F: Fn(&str, u32, bool) -> i32>(
    strokes: Seq<Drawn>,
    others: Seq<Drawn>,
    measure: F,
    card: Card,
    cover: Option<Seq<u8>>,
    link: Option<Seq<char>>,
    avatar: bool,
    card_width: u32,
    card_height: u32,
)
    requires
        shows_card(strokes, measure, card, avatar, card_width, card_height),
        shows_card(
            others,
            measure,
            with_cover(card, cover, link),
            avatar,
            card_width,
            card_height,
        ),
    ensures
        strokes == others,
{
    if let Card::Playing { title, artist, album, .. } = card {
        let width = (card_width - 476) as i32;
        let budget = text_budget(card_height) as i32;
        let one = choose|fit: FittedText| #[trigger]
            chosen(fit, measure, title, artist, album, width, budget) && strokes.skip(2)
                == playing_strokes(
                measure,
                fit,
                card->username,
                title,
                artist,
                album,
                card->progress_ms,
                card->duration_ms,
                card->is_playing,
                avatar,
                card_width,
                card_height,
            );
        let other = choose|fit: FittedText| #[trigger]
            chosen(fit, measure, title, artist, album, width, budget) && others.skip(2)
                == playing_strokes(
                measure,
                fit,
                card->username,
                title,
                artist,
                album,
                card->progress_ms,
                card->duration_ms,
                card->is_playing,
                avatar,
                card_width,
                card_height,
            );
        chosen_once(one, other, measure, title, artist, album, width, budget);
    }
    assert(strokes =~= strokes.take(2) + strokes.skip(2));
    assert(others =~= others.take(2) + others.skip(2));
}

/// A card whose cover cannot be read is shown as one without a cover, whatever the link to the
/// track: with the same strokes in the same size, no cover, and a picture of the listener from the
/// same bytes. A scene of the one is a scene of the other.
pub proof fn unreadable_cover_is_no_cover<F: Fn(&str, u32, bool) -> i32>(
    scene: Scene,
    other: Scene,
    measure: F,
    card: Card,
    link: Option<Seq<char>>,
    card_width: u32,
    card_height: u32,
)
    requires
        cover_bytes(card) matches Some(bytes) ==> !image_decodes(bytes),
        stages(scene, measure, card, card_width, card_height),
        stages(other, measure, with_cover(card, None, link), card_width, card_height),
    ensures
        scene.cover is None && other.cover is None,
        scene.width == other.width && scene.height == other.height,
        drawn(scene.strokes@) == drawn(other.strokes@),
        pictured(scene.avatar, avatar_bytes(card), AVATAR_SIZE),
        pictured(other.avatar, avatar_bytes(card), AVATAR_SIZE),
        stages(scene, measure, with_cover(card, None, link), card_width, card_height),
        stages(other, measure, card, card_width, card_height),
{
    drawn_one_way(
        drawn(scene.strokes@),
        drawn(other.strokes@),
        measure,
        card,
        None,
        link,
        scene.avatar is Some,
        card_width,
        card_height,
    );
}

} // verus!
