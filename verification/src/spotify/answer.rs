//! What Spotify answers, and what is made of it.
use vstd::prelude::*;

use crate::db::SpotifyTokens;
use crate::error::{AppError, Failure};
use crate::render::card::text_of;
use crate::text;
use crate::text::trimmed;

verus! {

/// The track that is playing.
#[derive(Debug, PartialEq, Eq)]
pub struct NowPlaying {
    pub title: String,
    pub artist: String,
    pub album: String,
    pub album_art_url: Option<String>,
    pub progress_ms: u32,
    pub duration_ms: u32,
    pub is_playing: bool,
    pub spotify_url: Option<String>,
}

/// The track that is playing, with the characters of its texts.
pub struct Track {
    pub title: Seq<char>,
    pub artist: Seq<char>,
    pub album: Seq<char>,
    pub album_art_url: Option<Seq<char>>,
    pub progress_ms: u32,
    pub duration_ms: u32,
    pub is_playing: bool,
    pub spotify_url: Option<Seq<char>>,
}

impl View for NowPlaying {
    type V = Track;

    open spec fn view(&self) -> Track {
        Track {
            title: self.title@,
            artist: self.artist@,
            album: self.album@,
            album_art_url: text_of(self.album_art_url),
            progress_ms: self.progress_ms,
            duration_ms: self.duration_ms,
            is_playing: self.is_playing,
            spotify_url: text_of(self.spotify_url),
        }
    }
}

impl Clone for NowPlaying {
    fn clone(&self) -> (res: Self)
        ensures
            res@ == self@,
    {
        NowPlaying {
            title: self.title.clone(),
            artist: self.artist.clone(),
            album: self.album.clone(),
            album_art_url: self.album_art_url.clone(),
            progress_ms: self.progress_ms,
            duration_ms: self.duration_ms,
            is_playing: self.is_playing,
            spotify_url: self.spotify_url.clone(),
        }
    }
}

/// What an account is playing.
#[derive(Debug, PartialEq, Eq)]
pub enum Playback {
    Playing(NowPlaying),
    Idle,
}

impl View for Playback {
    type V = Option<Track>;

    open spec fn view(&self) -> Option<Track> {
        match self {
            Playback::Playing(now) => Some(now@),
            Playback::Idle => None,
        }
    }
}

impl Clone for Playback {
    fn clone(&self) -> (res: Self)
        ensures
            res@ == self@,
    {
        match self {
            Playback::Playing(now) => Playback::Playing(now.clone()),
            Playback::Idle => Playback::Idle,
        }
    }
}

/// The answer to a request for tokens.
#[derive(Debug)]
pub struct TokenResponse {
    pub access_token: String,
    pub token_type: String,
    pub scope: Option<String>,
    pub expires_in: i64,
    pub refresh_token: Option<String>,
}

/// The answer to the question what is playing.
#[derive(Debug)]
pub struct CurrentlyPlayingResponse {
    pub is_playing: Option<bool>,
    pub progress_ms: Option<u32>,
    pub item: Option<PlayingItem>,
}

/// The track or the episode that is playing.
#[derive(Debug)]
pub struct PlayingItem {
    pub name: Option<String>,
    pub duration_ms: Option<u32>,
    pub artists: Option<NameList>,
    pub album: Option<Album>,
    pub show: Option<Named>,
    pub images: Option<ImageList>,
    pub external_urls: Option<ExternalUrls>,
}

/// Something that may have a name.
#[derive(Debug)]
pub struct Named {
    pub name: Option<String>,
}

/// An album.
#[derive(Debug)]
pub struct Album {
    pub name: Option<String>,
    pub images: Option<ImageList>,
}

/// A picture, in one of its sizes.
#[derive(Debug)]
pub struct Image {
    pub url: Option<String>,
    pub width: Option<u32>,
}

/// Links to an item.
#[derive(Debug)]
pub struct ExternalUrls {
    pub spotify: Option<String>,
}

/// A list of names that keeps up to four of them in place. It is a `SmallVec` of the crate
/// `smallvec`.
#[verifier::external_body]
#[derive(Debug)]
pub struct NameList {
    names: smallvec::SmallVec<[Named; 4]>,
}

/// The names that a list holds.
pub uninterp spec fn names_in(list: NameList) -> Seq<Named>;

/// `SmallVec::from_vec`: a list that holds the same in the same order.
#[verifier::external_body]
fn name_list(names: Vec<Named>) -> (list: NameList)
    ensures
        names_in(list) == names@,
{
    NameList { names: smallvec::SmallVec::from_vec(names) }
}

/// `SmallVec::as_slice`: the names in order.
#[verifier::external_body]
fn name_slice(list: &NameList) -> (res: &[Named])
    ensures
        res@ == names_in(*list),
{
    list.names.as_slice()
}

impl NameList {
    /// A list of these names.
    pub fn new(names: Vec<Named>) -> (res: Self)
        ensures
            names_in(res) == names@,
    {
        name_list(names)
    }
}

/// A list of pictures that keeps up to four of them in place. It is a `SmallVec` of the crate
/// `smallvec`.
#[verifier::external_body]
#[derive(Debug)]
pub struct ImageList {
    images: smallvec::SmallVec<[Image; 4]>,
}

/// The pictures that a list holds.
pub uninterp spec fn images_in(list: ImageList) -> Seq<Image>;

/// `SmallVec::from_vec`: a list that holds the same in the same order.
#[verifier::external_body]
fn image_list(images: Vec<Image>) -> (list: ImageList)
    ensures
        images_in(list) == images@,
{
    ImageList { images: smallvec::SmallVec::from_vec(images) }
}

/// `SmallVec::as_slice`: the pictures in order.
#[verifier::external_body]
fn image_slice(list: &ImageList) -> (res: &[Image])
    ensures
        res@ == images_in(*list),
{
    list.images.as_slice()
}

impl ImageList {
    /// A list of these pictures.
    pub fn new(images: Vec<Image>) -> (res: Self)
        ensures
            images_in(res) == images@,
    {
        image_list(images)
    }
}

/// A text that is there and not empty, or else a given one.
pub open spec fn present_or(text: Option<String>, other: Seq<char>) -> Seq<char> {
    match text {
        Some(text) if text@.len() > 0 => text@,
        _ => other,
    }
}

/// The names that are there.
pub open spec fn names(artists: Seq<Named>) -> Seq<Seq<char>>
    decreases artists.len(),
{
    if artists.len() == 0 {
        Seq::empty()
    } else {
        match artists.last().name {
            Some(name) => names(artists.drop_last()).push(name@),
            None => names(artists.drop_last()),
        }
    }
}

/// Texts with a comma and a space between them.
pub open spec fn listed(texts: Seq<Seq<char>>) -> Seq<char>
    decreases texts.len(),
{
    if texts.len() == 0 {
        Seq::empty()
    } else if texts.len() == 1 {
        texts[0]
    } else {
        listed(texts.drop_last()) + ", "@ + texts.last()
    }
}

/// Who an item is by: its artists, or else its show.
pub open spec fn artist_of(item: PlayingItem) -> Seq<char> {
    match item.artists {
        Some(artists) if listed(names(names_in(artists))).len() > 0 => listed(
            names(names_in(artists)),
        ),
        _ => match item.show {
            Some(Named { name: Some(name) }) => name@,
            _ => "Unknown artist"@,
        },
    }
}

/// The name of an item's album.
pub open spec fn album_of(item: PlayingItem) -> Seq<char> {
    match item.album {
        Some(album) => present_or(album.name, "Unknown album"@),
        None => "Unknown album"@,
    }
}

/// An item's pictures: those of its album, or else its own.
pub open spec fn images_of(item: PlayingItem) -> Seq<Image> {
    match item.album {
        Some(Album { images: Some(images), .. }) => images_in(images),
        _ => match item.images {
            Some(images) => images_in(images),
            None => Seq::empty(),
        },
    }
}

/// How wide a picture is, as far as that is known.
pub open spec fn width_of(image: Image) -> u32 {
    match image.width {
        Some(width) => width,
        None => 0,
    }
}

/// Whether a picture is the widest of those that have a link, and the first one so wide.
pub open spec fn widest_at(images: Seq<Image>, i: int) -> bool {
    &&& 0 <= i < images.len()
    &&& images[i].url is Some
    &&& forall|j: int|
        0 <= j < images.len() && (#[trigger] images[j]).url is Some ==> width_of(images[j])
            <= width_of(images[i])
    &&& forall|j: int|
        0 <= j < i && (#[trigger] images[j]).url is Some ==> width_of(images[j]) < width_of(
            images[i],
        )
}

/// The link to the widest picture that has one, the first of those so wide.
pub open spec fn widest_url(images: Seq<Image>) -> Option<Seq<char>> {
    if exists|i: int| widest_at(images, i) {
        text_of(images[choose|i: int| widest_at(images, i)].url)
    } else {
        None
    }
}

/// What an answer says is playing.
pub open spec fn heard(response: CurrentlyPlayingResponse) -> Option<Track> {
    match response.item {
        None => None,
        Some(item) => Some(
            Track {
                title: present_or(item.name, "Unknown title"@),
                artist: artist_of(item),
                album: album_of(item),
                album_art_url: widest_url(images_of(item)),
                progress_ms: match response.progress_ms {
                    Some(ms) => ms,
                    None => 0,
                },
                duration_ms: match item.duration_ms {
                    Some(ms) => ms,
                    None => 0,
                },
                is_playing: response.is_playing == Some(true),
                spotify_url: match item.external_urls {
                    Some(urls) => text_of(urls.spotify),
                    None => None,
                },
            },
        ),
    }
}

/// A text that is there and not empty, or else a given one.
fn or_else(text: Option<String>, other: &str) -> (res: String)
    ensures
        res@ == present_or(text, other@),
{
    match text {
        Some(text) => if text.as_str().is_empty() {
            other.to_owned()
        } else {
            text
        },
        None => other.to_owned(),
    }
}

/// The names that are there, with a comma and a space between them.
fn join_names(artists: &[Named]) -> (res: String)
    ensures
        res@ == listed(names(artists@)),
{
    let mut res = String::new();
    let mut first = true;
    let mut i: usize = 0;
    proof {
        assert(names(artists@.take(0)) =~= Seq::empty());
    }
    while i < artists.len()
        invariant
            i <= artists@.len(),
            res@ == listed(names(artists@.take(i as int))),
            first == (names(artists@.take(i as int)).len() == 0),
        decreases artists@.len() - i,
    {
        proof {
            assert(artists@.take(i + 1).drop_last() =~= artists@.take(i as int));
            assert(artists@.take(i + 1).last() == artists@[i as int]);
        }
        let ghost before = names(artists@.take(i as int));
        if let Some(name) = &artists[i].name {
            proof {
                assert(before.push(name@).drop_last() =~= before);
            }
            if first {
                first = false;
            } else {
                res.append(", ");
            }
            res.append(name.as_str());
            proof {
                if before.len() == 0 {
                    assert(res@ =~= name@);
                }
            }
        }
        i += 1;
    }
    proof {
        assert(artists@.take(artists@.len() as int) =~= artists@);
    }
    res
}

/// There is at most one widest picture.
proof fn lemma_one_widest(images: Seq<Image>, i: int, j: int)
    requires
        widest_at(images, i),
        widest_at(images, j),
    ensures
        i == j,
{
    assert(images[i].url is Some && images[j].url is Some);
}

/// The link to the widest picture that has one.
pub fn best_image(list: &ImageList) -> (res: Option<String>)
    ensures
        text_of(res) == widest_url(images_in(*list)),
{
    let images = image_slice(list);
    let mut best: Option<usize> = None;
    let mut i: usize = 0;
    while i < images.len()
        invariant
            i <= images@.len(),
            best is None ==> forall|j: int| 0 <= j < i ==> (#[trigger] images@[j]).url is None,
            best matches Some(at) ==> widest_at(images@.take(i as int), at as int),
        decreases images@.len() - i,
    {
        let ghost before = images@.take(i as int);
        let ghost now = images@.take(i + 1);
        proof {
            assert forall|j: int| 0 <= j < i implies before[j] == #[trigger] now[j] by {}
            assert(now[i as int] == images@[i as int]);
        }
        if images[i].url.is_some() {
            let wider = match best {
                None => true,
                Some(at) => width(&images[i]) > width(&images[at]),
            };
            if wider {
                proof {
                    assert(best is None ==> forall|j: int|
                        0 <= j < i ==> (#[trigger] now[j]).url is None);
                }
                best = Some(i);
            }
        }
        proof {
            if let Some(at) = best {
                assert(widest_at(now, at as int));
            }
        }
        i += 1;
    }
    proof {
        assert(images@.take(i as int) =~= images@);
        if let Some(at) = best {
            lemma_one_widest(
                images@,
                at as int,
                choose|j: int| widest_at(images@, j),
            );
        }
    }
    match best {
        Some(at) => images[at].url.clone(),
        None => None,
    }
}

fn width(image: &Image) -> (res: u32)
    ensures
        res == width_of(*image),
{
    match image.width {
        Some(width) => width,
        None => 0,
    }
}

/// What an answer says is playing.
pub fn playback_from_response(response: CurrentlyPlayingResponse) -> (res: Playback)
    ensures
        res@ == heard(response),
{
    let item = match response.item {
        Some(item) => item,
        None => return Playback::Idle,
    };
    let ghost given = item;
    let title = or_else(item.name, "Unknown title");
    let joined = match &item.artists {
        Some(artists) => join_names(name_slice(artists)),
        None => String::new(),
    };
    let artist = if !joined.as_str().is_empty() {
        joined
    } else {
        match item.show {
            Some(Named { name: Some(name) }) => name,
            _ => "Unknown artist".to_owned(),
        }
    };
    let (album, album_images) = match item.album {
        Some(album) => (or_else(album.name, "Unknown album"), album.images),
        None => ("Unknown album".to_owned(), None),
    };
    let images = match album_images {
        Some(images) => images,
        None => match item.images {
            Some(images) => images,
            None => ImageList::new(Vec::new()),
        },
    };
    proof {
        assert(images_in(images) =~= images_of(given));
    }
    let album_art_url = best_image(&images);
    let progress_ms: u32 = match response.progress_ms {
        Some(ms) => ms,
        None => 0,
    };
    let duration_ms: u32 = match item.duration_ms {
        Some(ms) => ms,
        None => 0,
    };
    let is_playing = match response.is_playing {
        Some(playing) => playing,
        None => false,
    };
    let spotify_url = match item.external_urls {
        Some(urls) => urls.spotify,
        None => None,
    };
    Playback::Playing(
        NowPlaying {
            title,
            artist,
            album,
            album_art_url,
            progress_ms,
            duration_ms,
            is_playing,
            spotify_url,
        },
    )
}

/// The refresh token that an answer leaves in use: its own, or else the one given.
pub open spec fn refresh_of(response: TokenResponse, fallback: Option<Seq<char>>) -> Seq<char> {
    match response.refresh_token {
        Some(token) => token@,
        None => match fallback {
            Some(token) => token,
            None => ""@,
        },
    }
}

/// The tokens that an answer gives, with a refresh token to keep if it brings none.
pub fn tokens_from_response(
    response: TokenResponse,
    fallback_refresh: Option<&str>,
    now: i64,
) -> (res: SpotifyTokens)
    requires
        i64::MIN <= now + response.expires_in <= i64::MAX,
    ensures
        res.access_token@ == response.access_token@,
        res.refresh_token@ == refresh_of(
            response,
            match fallback_refresh {
                Some(token) => Some(token@),
                None => None,
            },
        ),
        res.expires_at == now + response.expires_in,
        res.token_type@ == response.token_type@,
        res.scope@ == (match response.scope {
            Some(scope) => scope@,
            None => ""@,
        }),
{
    SpotifyTokens {
        access_token: response.access_token,
        refresh_token: match response.refresh_token {
            Some(token) => token,
            None => match fallback_refresh {
                Some(token) => token.to_owned(),
                None => "".to_owned(),
            },
        },
        expires_at: now + response.expires_in,
        token_type: response.token_type,
        scope: match response.scope {
            Some(scope) => scope,
            None => "".to_owned(),
        },
    }
}

/// The tokens that follow the current ones when Spotify has renewed them. The refresh token
/// stays unless a new one came that is not empty.
pub fn refreshed_tokens(current: &SpotifyTokens, response: TokenResponse, now: i64) -> (res:
    SpotifyTokens)
    requires
        i64::MIN <= now + response.expires_in <= i64::MAX,
    ensures
        res.access_token@ == response.access_token@,
        res.refresh_token@ == present_or(response.refresh_token, current.refresh_token@),
        res.expires_at == now + response.expires_in,
        res.token_type@ == response.token_type@,
        res.scope@ == (match response.scope {
            Some(scope) => scope@,
            None => ""@,
        }),
{
    let mut tokens = tokens_from_response(response, Some(current.refresh_token.as_str()), now);
    if tokens.refresh_token.as_str().is_empty() {
        tokens.refresh_token = current.refresh_token.clone();
    }
    tokens
}

/// What the status of an answer says before its text is looked at.
#[derive(Clone, Copy, Debug, PartialEq, Eq)]
pub enum Answer {
    /// Nothing is playing.
    Nothing,
    /// The access token does not count any more.
    Unauthorized,
    /// Something is wrong; the text may say what.
    Refused,
    /// The text says what is playing.
    Content,
}

/// Whether a status means success.
pub open spec fn success(status: u16) -> bool {
    200 <= status < 300
}

/// Whether a status means success.
pub fn is_success(status: u16) -> (res: bool)
    ensures
        res == success(status),
{
    200 <= status && status < 300
}

/// What the status of an answer means.
pub open spec fn meaning(status: u16) -> Answer {
    if status == 204 {
        Answer::Nothing
    } else if status == 401 {
        Answer::Unauthorized
    } else if success(status) {
        Answer::Content
    } else {
        Answer::Refused
    }
}

/// What the status of an answer to the question what is playing means.
pub fn read_status(status: u16) -> (res: Answer)
    ensures
        res == meaning(status),
{
    if status == 204 {
        Answer::Nothing
    } else if status == 401 {
        Answer::Unauthorized
    } else if is_success(status) {
        Answer::Content
    } else {
        Answer::Refused
    }
}

/// Whether a text says nothing.
pub fn is_blank(body: &str) -> (res: bool)
    ensures
        res == (trimmed(body@).len() == 0),
{
    text::trim(body).as_str().is_empty()
}

/// The failure that an access token does not count any more.
pub open spec fn unauthorized_failure() -> Failure {
    Failure::Spotify("401 unauthorized"@)
}

/// The failure that an access token does not count any more.
pub fn unauthorized() -> (res: AppError)
    ensures
        res@ == unauthorized_failure(),
{
    AppError::spotify("401 unauthorized")
}

/// What an answer says of an error, as far as it could be read.
#[derive(Debug)]
pub struct ApiError {
    pub error: Option<ApiErrorBody>,
    pub error_description: Option<String>,
}

/// The error itself, in one of the two forms that Spotify gives it.
#[derive(Debug)]
pub enum ApiErrorBody {
    Object { message: Option<String> },
    Code(String),
}

/// What an answer says of an error, in a few words: the message or the code, and nothing where
/// there is neither.
pub open spec fn error_message(parsed: Option<ApiError>) -> Seq<char> {
    match parsed {
        Some(ApiError { error: Some(ApiErrorBody::Object { message: Some(message) }), .. }) =>
            message@,
        Some(ApiError { error: Some(ApiErrorBody::Code(code)), .. }) => code@,
        _ => Seq::empty(),
    }
}

/// What an answer says of an error at more length, and nothing where it does not.
pub open spec fn error_details(parsed: Option<ApiError>) -> Seq<char> {
    match parsed {
        Some(ApiError { error_description: Some(description), .. }) => description@,
        _ => Seq::empty(),
    }
}

/// The failure that the status and the text of an answer describe.
pub open spec fn refusal(status: Seq<char>, parsed: Option<ApiError>) -> Failure {
    Failure::Spotify(status + ": "@ + error_message(parsed) + " "@ + error_details(parsed))
}

/// The failure that the status and the text of an answer describe.
pub fn spotify_http_error(status: &str, parsed: Option<ApiError>) -> (res: AppError)
    ensures
        res@ == refusal(status@, parsed),
{
    let mut res = status.to_owned();
    res.append(": ");
    if let Some(answer) = &parsed {
        match &answer.error {
            Some(ApiErrorBody::Object { message: Some(message) }) => res.append(message.as_str()),
            Some(ApiErrorBody::Code(code)) => res.append(code.as_str()),
            _ => {},
        }
    }
    proof {
        assert(res@ =~= status@ + ": "@ + error_message(parsed));
    }
    res.append(" ");
    if let Some(answer) = &parsed {
        if let Some(description) = &answer.error_description {
            res.append(description.as_str());
        }
    }
    proof {
        assert(res@ =~= status@ + ": "@ + error_message(parsed) + " "@ + error_details(parsed));
    }
    AppError::spotify(res.as_str())
}

/// Whether the text of an answer to the question what is playing has to be read.
pub fn has_body(status: u16) -> (res: bool)
    ensures
        res == (meaning(status) != Answer::Nothing),
{
    status != 204
}

/// What an answer to the question what is playing amounts to.
#[derive(Debug)]
pub enum Fetched {
    /// Nothing is playing.
    Idle,
    /// The question failed.
    Fail(AppError),
    /// The text says what is playing.
    Parse,
}

/// What an answer to the question what is playing amounts to: nothing is playing if the status
/// says that there is no text, or the text of a success is blank; a refused access token and any
/// other status but a success are failures; and else the text says what is playing. `error` is
/// what the text says of an error.
pub fn fetched(status: u16, status_text: &str, body: &str, error: Option<ApiError>) -> (res:
    Fetched)
    ensures
        match res {
            Fetched::Idle => status == 204 || (success(status) && trimmed(body@).len() == 0),
            Fetched::Fail(err) => if status == 401 {
                err@ == unauthorized_failure()
            } else {
                !success(status) && err@ == refusal(status_text@, error)
            },
            Fetched::Parse => success(status) && status != 204 && trimmed(body@).len() > 0,
        },
{
    match read_status(status) {
        Answer::Nothing => Fetched::Idle,
        Answer::Unauthorized => Fetched::Fail(unauthorized()),
        Answer::Refused => Fetched::Fail(spotify_http_error(status_text, error)),
        Answer::Content => if is_blank(body) {
            Fetched::Idle
        } else {
            Fetched::Parse
        },
    }
}

/// The failure that something could not be fetched.
pub fn fetch_error(what: &str, status: &str) -> (res: AppError)
    ensures
        res@ == Failure::Spotify("Failed to "@ + what@ + " ("@ + status@ + ")"@),
{
    let mut res = "Failed to ".to_owned();
    res.append(what);
    res.append(" (");
    res.append(status);
    res.append(")");
    AppError::spotify(res.as_str())
}

} // verus!
