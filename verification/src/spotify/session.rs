//! The course of a question to Spotify: when tokens are renewed, when the question is put again,
//! and what card comes of the answer.
use vstd::prelude::*;

use crate::db::SpotifyTokens;
use crate::error::{AppError, Failure, Result};
use crate::render::card::{bytes_of, text_of, Card, CardKind};
use crate::spotify::answer::{
    best_image, images_in, present_or, unauthorized_failure, widest_url, ImageList, Playback,
};
use crate::text;
use crate::text::contains_text;

verus! {

/// How an account can be read now.
#[derive(Debug, PartialEq, Eq)]
pub enum Access {
    /// With this access token.
    Ready(String),
    /// Only after the tokens were renewed.
    Renew,
}

/// Whether tokens still count for more than a minute.
pub open spec fn still_good(tokens: SpotifyTokens, now: i64) -> bool {
    tokens.expires_at > now + 60
}

/// The tokens of an account, or the failure that it is not linked.
pub fn linked(tokens: Option<SpotifyTokens>) -> (res: Result<SpotifyTokens>)
    ensures
        match tokens {
            Some(tokens) => res == Ok::<SpotifyTokens, AppError>(tokens),
            None => res matches Err(err) && err@ == Failure::NotLinked,
        },
{
    match tokens {
        Some(tokens) => Ok(tokens),
        None => Err(AppError::NotLinked),
    }
}

/// How an account with these tokens can be read now, if it is linked.
pub fn access(tokens: Option<SpotifyTokens>, now: i64) -> (res: Result<Access>)
    ensures
        match tokens {
            None => res matches Err(err) && err@ == Failure::NotLinked,
            Some(tokens) => match res {
                Ok(Access::Ready(token)) => still_good(tokens, now) && token@
                    == tokens.access_token@,
                Ok(Access::Renew) => !still_good(tokens, now),
                Err(_) => false,
            },
        },
        tokens matches Some(tokens) ==> (res matches Ok(Access::Ready(_)) <==> now + 60
            < tokens.expires_at),
        tokens matches Some(tokens) ==> (res matches Ok(Access::Renew) <==> tokens.expires_at
            <= now + 60),
{
    match linked(tokens) {
        Ok(tokens) => {
            if tokens.expires_at as i128 > now as i128 + 60 {
                Ok(Access::Ready(tokens.access_token))
            } else {
                Ok(Access::Renew)
            }
        },
        Err(err) => Err(err),
    }
}

/// Whether the question what an account is playing is put for the first or the second time.
#[derive(Clone, Copy, Debug, PartialEq, Eq)]
pub enum Attempt {
    First,
    Second,
}

/// What is to be done next.
#[derive(Debug)]
pub enum Step {
    /// Renew the tokens, and keep them.
    Renew(Attempt),
    /// Put the question with this access token.
    Ask(Attempt, String),
    /// Return this.
    Done(Result<Playback>),
}

/// What is to be done next, with the characters of the access token.
pub enum Move {
    Renew(Attempt),
    Ask(Attempt, Seq<char>),
    Done(Result<Playback>),
}

impl View for Step {
    type V = Move;

    open spec fn view(&self) -> Move {
        match self {
            Step::Renew(attempt) => Move::Renew(*attempt),
            Step::Ask(attempt, token) => Move::Ask(*attempt, token@),
            Step::Done(outcome) => Move::Done(*outcome),
        }
    }
}

/// Whether a failure says that the access token was refused.
pub open spec fn refused(failure: Failure) -> bool {
    failure matches Failure::Spotify(message) && contains_text(message, "401"@)
}

/// The first step.
pub fn begin(tokens: Option<SpotifyTokens>, now: i64) -> (res: Step)
    ensures
        tokens matches Some(tokens) ==> (res@ is Ask <==> now + 60 < tokens.expires_at),
        tokens matches Some(tokens) ==> (res@ is Renew <==> tokens.expires_at <= now + 60),
        match tokens {
            None => res@ matches Move::Done(Err(err)) && err@ == Failure::NotLinked,
            Some(tokens) => res@ == if still_good(tokens, now) {
                Move::Ask(Attempt::First, tokens.access_token@)
            } else {
                Move::Renew(Attempt::First)
            },
        },
{
    match access(tokens, now) {
        Ok(Access::Ready(token)) => Step::Ask(Attempt::First, token),
        Ok(Access::Renew) => Step::Renew(Attempt::First),
        Err(err) => Step::Done(Err(err)),
    }
}

/// The step after the tokens were renewed, or could not be.
pub open spec fn move_after_renewal(attempt: Attempt, renewed: Result<SpotifyTokens>) -> Move {
    match renewed {
        Ok(tokens) => Move::Ask(attempt, tokens.access_token@),
        Err(err) => Move::Done(Err(err)),
    }
}

/// The step after the tokens were renewed, or could not be.
pub fn after_renewal(attempt: Attempt, renewed: Result<SpotifyTokens>) -> (res: Step)
    ensures
        res@ == move_after_renewal(attempt, renewed),
{
    match renewed {
        Ok(tokens) => Step::Ask(attempt, tokens.access_token),
        Err(err) => Step::Done(Err(err)),
    }
}

/// The step after the question was answered: if the access token was refused the first time, the
/// tokens are renewed.
pub open spec fn move_after_answer(attempt: Attempt, answer: Result<Playback>) -> Move {
    match answer {
        Err(err) if refused(err@) && attempt == Attempt::First => Move::Renew(Attempt::Second),
        _ => Move::Done(answer),
    }
}

/// The step after the question was answered.
pub fn after_answer(attempt: Attempt, answer: Result<Playback>) -> (res: Step)
    ensures
        res@ == move_after_answer(attempt, answer),
{
    match answer {
        Ok(playback) => Step::Done(Ok(playback)),
        Err(AppError::Spotify(message)) => {
            if text::has_text(message.as_str(), "401") {
                if let Attempt::First = attempt {
                    return Step::Renew(Attempt::Second);
                }
            }
            Step::Done(Err(AppError::Spotify(message)))
        },
        Err(err) => Step::Done(Err(err)),
    }
}

/// How many steps follow, at most.
pub open spec fn steps_left(step: Move) -> nat {
    match step {
        Move::Renew(Attempt::First) => 4,
        Move::Ask(Attempt::First, _) => 3,
        Move::Renew(Attempt::Second) => 2,
        Move::Ask(Attempt::Second, _) => 1,
        Move::Done(_) => 0,
    }
}

/// Whatever is answered, the course comes to its end: each step leaves fewer to do.
pub proof fn course_ends(
    attempt: Attempt,
    token: Seq<char>,
    renewed: Result<SpotifyTokens>,
    answer: Result<Playback>,
)
    ensures
        steps_left(move_after_renewal(attempt, renewed)) < steps_left(Move::Renew(attempt)),
        steps_left(move_after_answer(attempt, answer)) < steps_left(Move::Ask(attempt, token)),
{
}

/// A refused access token leads to a renewal the first time, and is returned as the failure the
/// second time.
pub proof fn refusal_is_retried_once(err: AppError)
    requires
        err@ == unauthorized_failure(),
    ensures
        move_after_answer(Attempt::First, Err(err)) == Move::Renew(Attempt::Second),
        move_after_answer(Attempt::Second, Err(err)) == Move::Done(Err(err)),
{
    reveal_strlit("401 unauthorized");
    reveal_strlit("401");
    let message = "401 unauthorized"@;
    assert(message.subrange(0, 0 + "401"@.len() as int) =~= "401"@);
}

/// An access token is handed out only if it lasts for more than a minute, and always if it does. One
/// that is not good at one time is not good at any later time, and one that is good at one time was
/// good at every earlier time. One that has expired is never good.
pub proof fn tokens_wear_out(tokens: SpotifyTokens, now: i64, later: i64)
    requires
        now <= later,
    ensures
        still_good(tokens, now) <==> now + 60 < tokens.expires_at,
        !still_good(tokens, now) ==> !still_good(tokens, later),
        still_good(tokens, later) ==> still_good(tokens, now),
        tokens.expires_at <= now ==> !still_good(tokens, now),
{
}

/// A refusal is a failure of Spotify whose text has the number somewhere; a failure of another kind
/// is none, whatever its text.
pub proof fn refusals_name_the_number(before: Seq<char>, after: Seq<char>, failure: Failure)
    ensures
        refused(Failure::Spotify(before + "401"@ + after)),
        !(failure is Spotify) ==> !refused(failure),
        failure matches Failure::Spotify(text) ==> refused(failure) ==> exists|i: int|
            0 <= i && i + 3 <= text.len() && #[trigger] text[i] == '4' && text[i + 1] == '0'
                && text[i + 2] == '1',
{
    reveal_strlit("401");
    let text = before + "401"@ + after;
    assert(text.subrange(before.len() as int, before.len() as int + "401"@.len()) =~= "401"@);
    if let Failure::Spotify(message) = failure {
        if refused(failure) {
            let i = choose|i: int|
                0 <= i <= message.len() - "401"@.len() && #[trigger] message.subrange(
                    i,
                    i + "401"@.len(),
                ) == "401"@;
            let part = message.subrange(i, i + 3);
            assert(part[0] == message[i] && part[1] == message[i + 1] && part[2] == message[i + 2]);
            assert("401"@[0] == '4' && "401"@[1] == '0' && "401"@[2] == '1');
        }
    }
}

/// An answer that is no refusal is returned as it came, the first time and the second; so is a
/// refusal the second time. Tokens that were renewed are used at once, and a renewal that failed
/// ends the course with its failure.
pub proof fn answers_are_returned_as_they_came(
    attempt: Attempt,
    answer: Result<Playback>,
    renewed: Result<SpotifyTokens>,
)
    ensures
        answer is Ok ==> move_after_answer(attempt, answer) == Move::Done(answer),
        answer matches Err(err) ==> !(err@ is Spotify) ==> move_after_answer(attempt, answer)
            == Move::Done(answer),
        move_after_answer(Attempt::Second, answer) == Move::Done(answer),
        renewed matches Ok(tokens) ==> move_after_renewal(attempt, renewed) == Move::Ask(
            attempt,
            tokens.access_token@,
        ),
        renewed matches Err(err) ==> move_after_renewal(attempt, renewed) == Move::Done(Err(err)),
{
}

/// Who listens: their name and their picture.
#[derive(Debug, PartialEq, Eq)]
pub struct Profile {
    pub name: String,
    pub avatar: Option<Vec<u8>>,
}

/// The name of someone who is not known.
pub open spec fn someone() -> Seq<char> {
    "Someone"@
}

impl Profile {
    /// Someone who is not known.
    pub fn fallback() -> (res: Self)
        ensures
            res.name@ == someone(),
            res.avatar is None,
    {
        Profile { name: "Someone".to_owned(), avatar: None }
    }
}

/// Who listens, or someone who is not known if that could not be found out.
pub fn profile_or_fallback(profile: Result<Profile>) -> (res: Profile)
    ensures
        match profile {
            Ok(known) => res == known,
            Err(_) => res.name@ == someone() && res.avatar is None,
        },
{
    match profile {
        Ok(profile) => profile,
        Err(_) => Profile::fallback(),
    }
}

/// The name to show for a user: the one they chose, or else their id.
pub fn profile_name(display_name: Option<String>, id: Option<String>) -> (res: String)
    ensures
        res@ == present_or(
            display_name,
            match id {
                Some(id) => id@,
                None => someone(),
            },
        ),
{
    if let Some(name) = display_name {
        if !name.as_str().is_empty() {
            return name;
        }
    }
    match id {
        Some(id) => id,
        None => "Someone".to_owned(),
    }
}

/// The link to the picture to show for a user.
pub fn avatar_url(images: Option<ImageList>) -> (res: Option<String>)
    ensures
        text_of(res) == (match images {
            Some(images) => widest_url(images_in(images)),
            None => None,
        }),
{
    match images {
        Some(images) => best_image(&images),
        None => None,
    }
}

/// The link to the cover that has to be fetched for a card.
pub fn cover_url(playback: &Result<Playback>) -> (res: Option<&str>)
    ensures
        match playback {
            Ok(Playback::Playing(now)) => match now.album_art_url {
                Some(url) => res matches Some(found) && found@ == url@,
                None => res is None,
            },
            _ => res is None,
        },
{
    match playback {
        Ok(Playback::Playing(now)) => match &now.album_art_url {
            Some(url) => Some(url.as_str()),
            None => None,
        },
        _ => None,
    }
}

/// The card that shows an outcome.
pub open spec fn card_shown(
    profile: Profile,
    playback: Result<Playback>,
    album_art: Option<Vec<u8>>,
) -> Card {
    match playback {
        Ok(Playback::Playing(now)) => Card::Playing {
            username: profile.name@,
            title: now.title@,
            artist: now.artist@,
            album: now.album@,
            progress_ms: now.progress_ms,
            duration_ms: now.duration_ms,
            is_playing: now.is_playing,
            album_art: bytes_of(album_art),
            avatar: bytes_of(profile.avatar),
            track_url: text_of(now.spotify_url),
        },
        Ok(Playback::Idle) => Card::Idle,
        Err(AppError::NotLinked) => Card::NotLinked,
        Err(err) => Card::Error { message: err@.told() },
    }
}

/// The card that shows what an account is playing, or why that is not known.
pub fn card_for_user(
    profile: Profile,
    playback: Result<Playback>,
    album_art: Option<Vec<u8>>,
) -> (res: CardKind)
    ensures
        res@ == card_shown(profile, playback, album_art),
{
    match playback {
        Ok(Playback::Playing(now)) => CardKind::Playing {
            username: profile.name,
            title: now.title,
            artist: now.artist,
            album: now.album,
            progress_ms: now.progress_ms,
            duration_ms: now.duration_ms,
            is_playing: now.is_playing,
            album_art,
            avatar: profile.avatar,
            track_url: now.spotify_url,
        },
        Ok(Playback::Idle) => CardKind::Idle,
        Err(AppError::NotLinked) => CardKind::NotLinked,
        Err(err) => CardKind::Error { message: err.user_message().to_owned() },
    }
}

/// A card shows a track exactly if one is playing or paused; it shows that the account is not linked
/// exactly if that is the failure; and of any other failure what users are told of it.
pub proof fn cards_show_the_outcome(
    profile: Profile,
    playback: Result<Playback>,
    album_art: Option<Vec<u8>>,
)
    ensures
        ({
            let card = card_shown(profile, playback, album_art);
            &&& card is Playing <==> (playback matches Ok(Playback::Playing(_)))
            &&& card is Idle <==> (playback matches Ok(Playback::Idle))
            &&& card is NotLinked <==> (playback matches Err(err) && err@ == Failure::NotLinked)
            &&& playback matches Err(err) ==> card is Error ==> card->message == err@.told()
            &&& playback matches Ok(Playback::Playing(now)) ==> {
                &&& card->username == profile.name@
                &&& card->title == now@.title
                &&& card->artist == now@.artist
                &&& card->album == now@.album
                &&& card->progress_ms == now@.progress_ms
                &&& card->duration_ms == now@.duration_ms
                &&& card->is_playing == now@.is_playing
                &&& card->track_url == now@.spotify_url
                &&& album_art matches Some(bytes) ==> card->album_art == Some(bytes@)
                &&& album_art is None ==> card->album_art is None
                &&& profile.avatar matches Some(bytes) ==> card->Playing_avatar == Some(bytes@)
                &&& profile.avatar is None ==> card->Playing_avatar is None
            }
        }),
{
}

} // verus!
