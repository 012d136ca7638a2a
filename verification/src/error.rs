//! What can go wrong, how it is described in the log, and what the user is told.
use vstd::prelude::*;

verus! {

/// The result of an operation that can fail.
pub type Result<T> = std::result::Result<T, AppError>;

/// A failure. The text that some kinds carry says what failed.
#[derive(Debug)]
pub enum AppError {
    Config(String),
    Database(String),
    NotLinked,
    InvalidOauthState,
    Spotify(String),
    Render(String),
    InvalidCardUrl,
    Http(String),
    Json(String),
    Io(String),
    Telegram(String),
    Message(String),
}

/// A failure, with the characters of the text it carries.
pub enum Failure {
    Config(Seq<char>),
    Database(Seq<char>),
    NotLinked,
    InvalidOauthState,
    Spotify(Seq<char>),
    Render(Seq<char>),
    InvalidCardUrl,
    Http(Seq<char>),
    Json(Seq<char>),
    Io(Seq<char>),
    Telegram(Seq<char>),
    Message(Seq<char>),
}

impl View for AppError {
    type V = Failure;

    open spec fn view(&self) -> Failure {
        match self {
            AppError::Config(text) => Failure::Config(text@),
            AppError::Database(text) => Failure::Database(text@),
            AppError::NotLinked => Failure::NotLinked,
            AppError::InvalidOauthState => Failure::InvalidOauthState,
            AppError::Spotify(text) => Failure::Spotify(text@),
            AppError::Render(text) => Failure::Render(text@),
            AppError::InvalidCardUrl => Failure::InvalidCardUrl,
            AppError::Http(text) => Failure::Http(text@),
            AppError::Json(text) => Failure::Json(text@),
            AppError::Io(text) => Failure::Io(text@),
            AppError::Telegram(text) => Failure::Telegram(text@),
            AppError::Message(text) => Failure::Message(text@),
        }
    }
}

impl Failure {
    /// How a failure is described in the log.
    pub open spec fn description(self) -> Seq<char> {
        match self {
            Failure::Config(text) => "Configuration error: "@ + text,
            Failure::Database(text) => "Database error: "@ + text,
            Failure::NotLinked => "Spotify is not linked"@,
            Failure::InvalidOauthState => "Spotify OAuth state is invalid or expired"@,
            Failure::Spotify(text) => "Spotify API error: "@ + text,
            Failure::Render(text) => "Failed to render card: "@ + text,
            Failure::InvalidCardUrl => "Invalid card URL"@,
            Failure::Http(text) => "HTTP client error: "@ + text,
            Failure::Json(text) => "JSON error: "@ + text,
            Failure::Io(text) => "I/O error: "@ + text,
            Failure::Telegram(text) => "Telegram API error: "@ + text,
            Failure::Message(text) => text,
        }
    }

    /// What the user is told of a failure. No text that a failure carries is among it.
    pub open spec fn told(self) -> Seq<char> {
        match self {
            Failure::NotLinked =>
                "Spotify isn't linked yet. Send /link to connect your account."@,
            Failure::InvalidOauthState =>
                "That Spotify login link expired. Send /link and try again."@,
            Failure::Spotify(_) =>
                "I couldn't reach Spotify. Play something and try again, or /link if this keeps happening."@,
            Failure::InvalidCardUrl => "That status image link is invalid or expired."@,
            Failure::Telegram(_) => "Telegram rejected the request. Try again in a moment."@,
            _ => "Something went wrong. Try again in a moment."@,
        }
    }
}

/// A description made of a heading and the text a failure carries.
fn headed(heading: &str, text: &String) -> (res: String)
    ensures
        res@ == heading@ + text@,
{
    let mut res = heading.to_owned();
    res.append(text.as_str());
    res
}

impl AppError {
    /// A failure of the store.
    pub fn database(err: &str) -> (res: Self)
        ensures
            res@ == Failure::Database(err@),
    {
        AppError::Database(err.to_owned())
    }

    /// A setting that is missing or makes no sense.
    pub fn config(err: &str) -> (res: Self)
        ensures
            res@ == Failure::Config(err@),
    {
        AppError::Config(err.to_owned())
    }

    /// A failure that Spotify reported.
    pub fn spotify(err: &str) -> (res: Self)
        ensures
            res@ == Failure::Spotify(err@),
    {
        AppError::Spotify(err.to_owned())
    }

    /// A card that could not be drawn or encoded.
    pub fn render(err: &str) -> (res: Self)
        ensures
            res@ == Failure::Render(err@),
    {
        AppError::Render(err.to_owned())
    }

    /// A failure that Telegram reported.
    pub fn telegram(err: &str) -> (res: Self)
        ensures
            res@ == Failure::Telegram(err@),
    {
        AppError::Telegram(err.to_owned())
    }

    /// How the failure is described in the log.
    pub fn describe(&self) -> (res: String)
        ensures
            res@ == self@.description(),
    {
        match self {
            AppError::Config(text) => headed("Configuration error: ", text),
            AppError::Database(text) => headed("Database error: ", text),
            AppError::NotLinked => "Spotify is not linked".to_owned(),
            AppError::InvalidOauthState => "Spotify OAuth state is invalid or expired".to_owned(),
            AppError::Spotify(text) => headed("Spotify API error: ", text),
            AppError::Render(text) => headed("Failed to render card: ", text),
            AppError::InvalidCardUrl => "Invalid card URL".to_owned(),
            AppError::Http(text) => headed("HTTP client error: ", text),
            AppError::Json(text) => headed("JSON error: ", text),
            AppError::Io(text) => headed("I/O error: ", text),
            AppError::Telegram(text) => headed("Telegram API error: ", text),
            AppError::Message(text) => text.clone(),
        }
    }

    /// What the user is told.
    pub fn user_message(&self) -> (res: &'static str)
        ensures
            res@ == self@.told(),
    {
        match self {
            AppError::NotLinked => "Spotify isn't linked yet. Send /link to connect your account.",
            AppError::InvalidOauthState => {
                "That Spotify login link expired. Send /link and try again."
            },
            AppError::Spotify(_) => {
                "I couldn't reach Spotify. Play something and try again, or /link if this keeps happening."
            },
            AppError::InvalidCardUrl => "That status image link is invalid or expired.",
            AppError::Telegram(_) => "Telegram rejected the request. Try again in a moment.",
            _ => "Something went wrong. Try again in a moment.",
        }
    }
}

/// What the user is told does not depend on the text that a failure carries.
pub proof fn texts_are_not_told(one: Seq<char>, other: Seq<char>)
    ensures
        Failure::Config(one).told() == Failure::Config(other).told(),
        Failure::Database(one).told() == Failure::Database(other).told(),
        Failure::Spotify(one).told() == Failure::Spotify(other).told(),
        Failure::Render(one).told() == Failure::Render(other).told(),
        Failure::Http(one).told() == Failure::Http(other).told(),
        Failure::Json(one).told() == Failure::Json(other).told(),
        Failure::Io(one).told() == Failure::Io(other).told(),
        Failure::Telegram(one).told() == Failure::Telegram(other).told(),
        Failure::Message(one).told() == Failure::Message(other).told(),
{
}

} // verus!
