use tg_spotifystatusbot::config::Config;
use tg_spotifystatusbot::db::{OauthState, SpotifyTokens, Store};
use tg_spotifystatusbot::error::AppError;
use tg_spotifystatusbot::render::card::CardKind;
use tg_spotifystatusbot::spotify::answer::{
    best_image, fetch_error, fetched, has_body, is_blank, is_success, playback_from_response, read_status,
    refreshed_tokens, spotify_http_error, tokens_from_response, unauthorized, Album, Answer,
    ApiError, ApiErrorBody, CurrentlyPlayingResponse, ExternalUrls, Fetched, Image, ImageList, NameList,
    Named, NowPlaying, Playback, PlayingItem, TokenResponse,
};
use tg_spotifystatusbot::spotify::session::{
    access, after_answer, after_renewal, avatar_url, begin, card_for_user, cover_url, linked,
    profile_name, profile_or_fallback, Access, Attempt, Profile, Step,
};
use tg_spotifystatusbot::spotify::{pkce_challenge, SpotifyClient};

fn text(s: &str) -> Option<String> {
    Some(s.to_owned())
}

fn image(url: Option<&str>, width: Option<u32>) -> Image {
    Image { url: url.map(str::to_owned), width }
}

fn names(all: &[Option<&str>]) -> Option<NameList> {
    let all = all.iter().map(|name| Named { name: name.map(str::to_owned) });
    Some(NameList::new(all.collect()))
}

fn item() -> PlayingItem {
    PlayingItem {
        name: text("Midnight City"),
        duration_ms: Some(243_000),
        artists: names(&[Some("M83")]),
        album: Some(Album {
            name: text("Hurry Up, We're Dreaming"),
            images: Some(ImageList::new(vec![
                image(Some("https://i.scdn.co/large.jpg"), Some(640)),
                image(Some("https://i.scdn.co/small.jpg"), Some(64)),
            ])),
        }),
        show: None,
        images: None,
        external_urls: Some(ExternalUrls {
            spotify: text("https://open.spotify.com/track/abc"),
        }),
    }
}

fn now(item: PlayingItem) -> NowPlaying {
    let response = CurrentlyPlayingResponse {
        is_playing: Some(true),
        progress_ms: Some(83_000),
        item: Some(item),
    };
    match playback_from_response(response) {
        Playback::Playing(now) => now,
        Playback::Idle => panic!("expected playing"),
    }
}

fn tokens(expires_at: i64) -> SpotifyTokens {
    SpotifyTokens {
        access_token: "access".to_owned(),
        refresh_token: "refresh".to_owned(),
        expires_at,
        token_type: "Bearer".to_owned(),
        scope: "scope".to_owned(),
    }
}

fn client() -> SpotifyClient {
    SpotifyClient {
        client_id: "id".to_owned(),
        client_secret: "secret".to_owned(),
        redirect_uri: "https://bot.example.com/oauth/callback".to_owned(),
    }
}

#[test]
fn maps_currently_playing_track() {
    let now = now(item());
    assert_eq!(now.title, "Midnight City");
    assert_eq!(now.artist, "M83");
    assert_eq!(now.album, "Hurry Up, We're Dreaming");
    assert_eq!(now.progress_ms, 83000);
    assert_eq!(now.duration_ms, 243000);
    assert!(now.is_playing);
    assert_eq!(now.album_art_url.as_deref(), Some("https://i.scdn.co/large.jpg"));
    assert_eq!(now.spotify_url.as_deref(), Some("https://open.spotify.com/track/abc"));
}

#[test]
fn empty_item_is_idle() {
    let parsed =
        CurrentlyPlayingResponse { is_playing: Some(false), progress_ms: None, item: None };
    assert_eq!(playback_from_response(parsed), Playback::Idle);
}

#[test]
fn refresh_keeps_existing_refresh_token() {
    let response = TokenResponse {
        access_token: "new-access".into(),
        token_type: "Bearer".into(),
        scope: Some("user-read-currently-playing".into()),
        expires_in: 3600,
        refresh_token: None,
    };
    let tokens = tokens_from_response(response, Some("old-refresh"), 1_000);
    assert_eq!(tokens.access_token, "new-access");
    assert_eq!(tokens.refresh_token, "old-refresh");
    assert_eq!(tokens.expires_at, 4_600);
}

fn response(refresh_token: Option<&str>) -> TokenResponse {
    TokenResponse {
        access_token: "new".to_owned(),
        token_type: "Bearer".to_owned(),
        scope: None,
        expires_in: -5,
        refresh_token: refresh_token.map(str::to_owned),
    }
}

#[test]
fn renewed_tokens_replace_the_old_ones() {
    let renewed = refreshed_tokens(&tokens(7), response(Some("newer")), 10);
    assert_eq!(renewed.refresh_token, "newer");
    assert_eq!(renewed.access_token, "new");
    assert_eq!(renewed.expires_at, 5);
    assert_eq!(renewed.scope, "");
    assert_eq!(refreshed_tokens(&tokens(7), response(None), 10).refresh_token, "refresh");
    assert_eq!(refreshed_tokens(&tokens(7), response(Some("")), 10).refresh_token, "refresh");
    assert_eq!(tokens_from_response(response(None), None, 0).refresh_token, "");
    assert_eq!(tokens_from_response(response(Some("")), Some("x"), 0).refresh_token, "");
}

#[test]
fn missing_names_have_stand_ins() {
    let bare = PlayingItem {
        name: text(""),
        duration_ms: None,
        artists: names(&[None]),
        album: Some(Album { name: text(""), images: None }),
        show: None,
        images: None,
        external_urls: None,
    };
    let now = now(bare);
    assert_eq!(now.title, "Unknown title");
    assert_eq!(now.artist, "Unknown artist");
    assert_eq!(now.album, "Unknown album");
    assert_eq!(now.duration_ms, 0);
    assert_eq!(now.album_art_url, None);
    assert_eq!(now.spotify_url, None);
}

#[test]
fn artists_are_listed_and_a_show_stands_in() {
    let several = PlayingItem {
        artists: names(&[Some("A"), None, Some("B")]),
        ..item()
    };
    assert_eq!(now(several).artist, "A, B");
    let nameless = PlayingItem {
        artists: names(&[Some(""), Some("")]),
        ..item()
    };
    assert_eq!(now(nameless).artist, ", ");
    let episode = PlayingItem {
        artists: None,
        album: None,
        show: Some(Named { name: text("Show") }),
        images: Some(ImageList::new(vec![image(Some("own"), None)])),
        ..item()
    };
    let now = now(episode);
    assert_eq!(now.artist, "Show");
    assert_eq!(now.album, "Unknown album");
    assert_eq!(now.album_art_url.as_deref(), Some("own"));
}

#[test]
fn the_widest_picture_with_a_link_is_taken() {
    let all = || {
        ImageList::new(vec![
            image(None, Some(900)),
            image(Some("a"), Some(64)),
            image(Some("b"), Some(640)),
            image(Some("c"), Some(640)),
            image(Some("d"), None),
        ])
    };
    assert_eq!(best_image(&all()).as_deref(), Some("b"));
    let narrow = ImageList::new(vec![image(Some("x"), None), image(Some("y"), Some(0))]);
    assert_eq!(best_image(&narrow).as_deref(), Some("x"));
    assert_eq!(best_image(&ImageList::new(vec![image(None, Some(1))])), None);
    assert_eq!(best_image(&ImageList::new(vec![])), None);
    assert_eq!(avatar_url(None), None);
    assert_eq!(avatar_url(Some(all())).as_deref(), Some("b"));
}

#[test]
fn statuses_are_read() {
    assert_eq!(read_status(204), Answer::Nothing);
    assert_eq!(read_status(401), Answer::Unauthorized);
    assert_eq!(read_status(200), Answer::Content);
    assert_eq!(read_status(299), Answer::Content);
    assert_eq!(read_status(300), Answer::Refused);
    assert_eq!(read_status(199), Answer::Refused);
    assert_eq!(read_status(500), Answer::Refused);
    assert!(is_success(204) && !is_success(404));
    assert!(is_blank(" \n\u{3000}") && is_blank("") && !is_blank(" {} "));
}

#[test]
fn failures_are_described() {
    let coded = ApiError {
        error: Some(ApiErrorBody::Code("invalid_grant".to_owned())),
        error_description: text("Code expired"),
    };
    assert_eq!(
        spotify_http_error("400 Bad Request", Some(coded)).describe(),
        "Spotify API error: 400 Bad Request: invalid_grant Code expired"
    );
    let told = |message: Option<String>| ApiError {
        error: Some(ApiErrorBody::Object { message }),
        error_description: None,
    };
    assert_eq!(
        spotify_http_error("403 Forbidden", Some(told(text("no")))).describe(),
        "Spotify API error: 403 Forbidden: no "
    );
    assert_eq!(
        spotify_http_error("403 Forbidden", Some(told(None))).describe(),
        "Spotify API error: 403 Forbidden:  "
    );
    assert_eq!(
        spotify_http_error("500 Internal Server Error", None).describe(),
        "Spotify API error: 500 Internal Server Error:  "
    );
    assert_eq!(unauthorized().describe(), "Spotify API error: 401 unauthorized");
    assert_eq!(
        fetch_error("load profile", "404 Not Found").describe(),
        "Spotify API error: Failed to load profile (404 Not Found)"
    );
}

#[test]
fn tokens_are_renewed_in_time() {
    assert_eq!(access(Some(tokens(161)), 100).unwrap(), Access::Ready("access".to_owned()));
    assert_eq!(access(Some(tokens(160)), 100).unwrap(), Access::Renew);
    assert!(matches!(access(None, 100), Err(AppError::NotLinked)));
    assert!(matches!(linked(None), Err(AppError::NotLinked)));
    assert_eq!(linked(Some(tokens(1))).unwrap(), tokens(1));
    assert_eq!(access(Some(tokens(i64::MAX)), i64::MAX).unwrap(), Access::Renew);
}

#[test]
fn a_question_takes_its_course() {
    assert!(matches!(begin(None, 0), Step::Done(Err(AppError::NotLinked))));
    assert!(matches!(begin(Some(tokens(61)), 0), Step::Ask(Attempt::First, token) if token == "access"));
    assert!(matches!(begin(Some(tokens(60)), 0), Step::Renew(Attempt::First)));
    assert!(matches!(
        after_renewal(Attempt::First, Ok(tokens(1))),
        Step::Ask(Attempt::First, token) if token == "access"
    ));
    assert!(matches!(
        after_renewal(Attempt::Second, Err(AppError::NotLinked)),
        Step::Done(Err(AppError::NotLinked))
    ));
    assert!(matches!(after_answer(Attempt::First, Ok(Playback::Idle)), Step::Done(Ok(Playback::Idle))));
    assert!(matches!(after_answer(Attempt::First, Err(unauthorized())), Step::Renew(Attempt::Second)));
    assert!(matches!(
        after_answer(Attempt::Second, Err(unauthorized())),
        Step::Done(Err(AppError::Spotify(message))) if message == "401 unauthorized"
    ));
    assert!(matches!(
        after_answer(Attempt::First, Err(AppError::spotify("500"))),
        Step::Done(Err(AppError::Spotify(_)))
    ));
    assert!(matches!(
        after_answer(Attempt::First, Err(AppError::Message("401".to_owned()))),
        Step::Done(Err(AppError::Message(_)))
    ));
}

#[test]
fn profiles_have_a_name() {
    assert_eq!(profile_name(text("Alex"), text("id")), "Alex");
    assert_eq!(profile_name(text(""), text("id")), "id");
    assert_eq!(profile_name(None, None), "Someone");
    assert_eq!(profile_name(None, text("")), "");
    let unknown = profile_or_fallback(Err(AppError::NotLinked));
    assert_eq!(unknown, Profile { name: "Someone".to_owned(), avatar: None });
    let known = Profile { name: "A".to_owned(), avatar: Some(vec![1]) };
    assert_eq!(
        profile_or_fallback(Ok(Profile { name: "A".to_owned(), avatar: Some(vec![1]) })),
        known
    );
}

#[test]
fn cards_show_the_outcome() {
    let who = || Profile { name: "alex".to_owned(), avatar: Some(vec![9]) };
    let playing = Ok(Playback::Playing(now(item())));
    assert_eq!(cover_url(&playing), Some("https://i.scdn.co/large.jpg"));
    assert_eq!(cover_url(&Ok(Playback::Idle)), None);
    assert_eq!(
        card_for_user(who(), playing, Some(vec![1, 2])),
        CardKind::Playing {
            username: "alex".to_owned(),
            title: "Midnight City".to_owned(),
            artist: "M83".to_owned(),
            album: "Hurry Up, We're Dreaming".to_owned(),
            progress_ms: 83_000,
            duration_ms: 243_000,
            is_playing: true,
            album_art: Some(vec![1, 2]),
            avatar: Some(vec![9]),
            track_url: text("https://open.spotify.com/track/abc"),
        }
    );
    assert_eq!(card_for_user(who(), Ok(Playback::Idle), None), CardKind::Idle);
    assert_eq!(card_for_user(who(), Err(AppError::NotLinked), None), CardKind::NotLinked);
    assert_eq!(
        card_for_user(who(), Err(AppError::InvalidCardUrl), None),
        CardKind::Error { message: "That status image link is invalid or expired.".to_owned() }
    );
}

#[test]
fn the_challenge_is_the_digest_of_the_verifier() {
    assert_eq!(
        pkce_challenge("dBjftJeZ4CVP-mB92K27uhbUJU1p1r_wW1gFWFOEjXk"),
        "E9Melhoa2OwvFrEMTJguCHaoeK1t8URWbuGJSstw-cM"
    );
}

#[test]
fn the_bot_shows_its_secret() {
    assert_eq!(client().basic_auth(), "Basic aWQ6c2VjcmV0");
    let other = SpotifyClient { client_secret: "ü?>~".to_owned(), ..client() };
    assert_eq!(other.basic_auth(), "Basic aWQ6w7w/Pn4=");
}

#[test]
fn links_are_encoded() {
    let strange = SpotifyClient { client_id: "a b/ü~-._".to_owned(), ..client() };
    assert_eq!(
        strange.authorize_url("st&te", "c+h"),
        "https://accounts.spotify.com/authorize?response_type=code&client_id=a%20b%2F%C3%BC~-._\
         &redirect_uri=https%3A%2F%2Fbot.example.com%2Foauth%2Fcallback\
         &scope=user-read-currently-playing%20user-read-playback-state%20user-read-private\
         &state=st%26te&code_challenge_method=S256&code_challenge=c%2Bh&show_dialog=true"
    );
}

#[test]
fn a_login_is_begun_and_finished() {
    let mut store = Store::open(vec![], vec![], vec![]);
    let url = client()
        .start_link_with(&mut store, 5, "state", "verifier".to_owned(), 100, |state, login| {
            assert_eq!(state, "state");
            assert_eq!(login.unwrap().code_verifier, "verifier");
            Ok(true)
        })
        .unwrap();
    assert_eq!(url, client().authorize_url("state", &pkce_challenge("verifier")));
    let login = store.take_oauth_state("state", i64::MAX, |_, _| Ok(true)).unwrap();
    assert_eq!(
        login,
        OauthState {
            telegram_user_id: 5,
            code_verifier: "verifier".to_owned(),
            created_at: 100,
        }
    );
    let user = client().finish_link(&mut store, login, Ok(tokens(9)), |id, new| {
        assert_eq!((id, new), (5, Some(&tokens(9))));
        Ok(true)
    });
    assert_eq!(user.unwrap(), 5);
    assert_eq!(store.get_tokens(5).unwrap(), tokens(9));
    assert!(client().unlink(&mut store, 5, |_, _| Ok(true)).unwrap());
    assert!(store.get_tokens(5).is_none());
}

#[test]
fn a_login_that_fails_links_nothing() {
    let login = || OauthState {
        telegram_user_id: 5,
        code_verifier: String::new(),
        created_at: 0,
    };
    let mut store = Store::open(vec![], vec![], vec![]);
    let refused =
        client().finish_link(&mut store, login(), Err(AppError::spotify("no")), |_, _| Ok(true));
    assert!(matches!(refused, Err(AppError::Spotify(_))));
    let unsaved = client().finish_link(&mut store, login(), Ok(tokens(1)), |_, _| {
        Err(AppError::database("full"))
    });
    assert!(matches!(unsaved, Err(AppError::Database(_))));
    assert!(store.get_tokens(5).is_none());
    let failed = client().start_link(&mut store, 5, |_, _| Err(AppError::database("full")));
    assert!(failed.is_err());
}

#[test]
fn renewed_tokens_are_kept() {
    let mut store = Store::open(vec![(5, tokens(1))], vec![], vec![]);
    let kept = client().keep_tokens(&mut store, 5, Ok(tokens(2)), |_, _| Ok(true)).unwrap();
    assert_eq!(kept, tokens(2));
    assert_eq!(store.get_tokens(5).unwrap(), tokens(2));
    assert!(client()
        .keep_tokens(&mut store, 5, Err(AppError::spotify("x")), |_, _| Ok(true))
        .is_err());
    assert_eq!(store.get_tokens(5).unwrap(), tokens(2));
}

#[test]
fn each_login_is_new() {
    let mut store = Store::open(vec![], vec![], vec![]);
    let mut seen: Vec<(String, String)> = Vec::new();
    for _ in 0..2 {
        let mut this = (String::new(), String::new());
        client()
            .start_link(&mut store, 5, |state, login| {
                this = (state.to_owned(), login.unwrap().code_verifier.clone());
                Ok(true)
            })
            .unwrap();
        assert_eq!(this.0.len(), 36);
        assert_eq!(this.1.len(), 86);
        assert!(this.1.chars().all(|c| c.is_ascii_alphanumeric() || c == '-' || c == '_'));
        seen.push(this);
    }
    assert_ne!(seen[0].0, seen[1].0);
    assert_ne!(seen[0].1, seen[1].1);
}

#[test]
fn forms_hold_what_spotify_asks_for() {
    let pairs = |form: Vec<(String, String)>| -> Vec<String> {
        form.into_iter().map(|(name, value)| format!("{name}={value}")).collect()
    };
    assert_eq!(
        pairs(client().exchange_form("c", "v")),
        vec![
            "grant_type=authorization_code",
            "code=c",
            "redirect_uri=https://bot.example.com/oauth/callback",
            "code_verifier=v",
        ]
    );
    assert_eq!(
        pairs(client().refresh_form(&tokens(1))),
        vec!["grant_type=refresh_token", "refresh_token=refresh"]
    );
}

#[test]
fn the_client_is_made_from_the_settings() {
    let vars = [
        ("TELEGRAM_BOT_TOKEN", "token"),
        ("SPOTIFY_CLIENT_ID", "id"),
        ("SPOTIFY_CLIENT_SECRET", "secret"),
        ("PUBLIC_BASE_URL", "https://bot.example.com"),
    ];
    let vars = vars.iter().map(|(k, v)| ((*k).to_owned(), (*v).to_owned())).collect();
    let made = SpotifyClient::new(&Config::from_vars(vars, |_: &str| Ok(())).unwrap());
    assert_eq!(made.client_id, client().client_id);
    assert_eq!(made.client_secret, client().client_secret);
    assert_eq!(made.redirect_uri, client().redirect_uri);
}

#[test]
fn copies_are_the_same() {
    let playing = Playback::Playing(now(item()));
    assert_eq!(playing.clone(), playing);
    assert_eq!(Playback::Idle.clone(), Playback::Idle);
    assert_eq!(client().clone().basic_auth(), client().basic_auth());
}

#[test]
fn a_login_is_used_up_whatever_comes_of_it() {
    for exchanged in [Ok(tokens(9)), Err(AppError::spotify("refused"))] {
        let worked = exchanged.is_ok();
        let mut store = Store::open(vec![(6, tokens(1))], vec![], vec![(5, 1)]);
        client().start_link(&mut store, 5, |_, _| Ok(true)).unwrap();
        let mut state = String::new();
        client()
            .start_link(&mut store, 5, |new, _| {
                state = new.to_owned();
                Ok(true)
            })
            .unwrap();
        let login = store.take_oauth_state(&state, 900, |_, _| Ok(true)).unwrap();
        let linked = client().finish_link(&mut store, login, exchanged, |_, _| Ok(true));
        assert_eq!(linked.is_ok(), worked);
        assert_eq!(store.get_tokens(5).is_some(), worked);
        assert_eq!(store.get_tokens(6).unwrap(), tokens(1));
        assert!(store.is_allowlisted(5));
        assert!(matches!(
            store.take_oauth_state(&state, 900, |_, _| Ok(true)),
            Err(AppError::InvalidOauthState)
        ));
    }
}

#[test]
fn answers_amount_to_idle_failure_or_content() {
    assert!(!has_body(204) && has_body(200) && has_body(401));
    let error = || ApiError { error: Some(ApiErrorBody::Code("x".to_owned())), error_description: None };
    assert!(matches!(fetched(204, "204 No Content", "{}", None), Fetched::Idle));
    assert!(matches!(fetched(200, "200 OK", " \n", None), Fetched::Idle));
    assert!(matches!(fetched(200, "200 OK", "{}", None), Fetched::Parse));
    let failure = |status: u16, text: &str| match fetched(status, text, "{}", Some(error())) {
        Fetched::Fail(err) => err.describe(),
        other => panic!("{other:?}"),
    };
    assert_eq!(failure(401, "401 Unauthorized"), "Spotify API error: 401 unauthorized");
    assert_eq!(failure(500, "500 Oops"), "Spotify API error: 500 Oops: x ");
    assert_eq!(failure(302, "302 Found"), "Spotify API error: 302 Found: x ");
    assert!(matches!(fetched(500, "500 Oops", "", None), Fetched::Fail(_)));
}
