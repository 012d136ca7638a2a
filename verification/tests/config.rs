use tg_spotifystatusbot::config::{
    base_url_of, normalize_base_url, parse_admin_ids, Config, HttpSettings, DEFAULT_BIND,
    DEFAULT_REDB,
};
use tg_spotifystatusbot::error::AppError;

fn vars(pairs: &[(&str, &str)]) -> Vec<(String, String)> {
    pairs.iter().map(|(k, v)| ((*k).to_owned(), (*v).to_owned())).collect()
}

fn any_address(_: &str) -> Result<(), String> {
    Ok(())
}

const CORE: [(&str, &str); 4] = [
    ("TELEGRAM_BOT_TOKEN", "token"),
    ("SPOTIFY_CLIENT_ID", "id"),
    ("SPOTIFY_CLIENT_SECRET", "secret"),
    ("PUBLIC_BASE_URL", "https://bot.example.com"),
];

fn with(extra: &[(&str, &str)]) -> Vec<(String, String)> {
    let mut all = vars(&CORE);
    all.extend(vars(extra));
    all
}

fn failure(vars: Vec<(String, String)>) -> String {
    Config::from_vars(vars, any_address).unwrap_err().describe()
}

#[test]
fn requires_core_env() {
    let err = Config::from_vars(vars(&[]), any_address).unwrap_err();
    assert!(err.describe().contains("TELEGRAM_BOT_TOKEN"));
}

#[test]
fn loads_defaults() {
    let cfg = Config::from_vars(
        vars(&[
            ("TELEGRAM_BOT_TOKEN", "token"),
            ("SPOTIFY_CLIENT_ID", "id"),
            ("SPOTIFY_CLIENT_SECRET", "secret"),
            ("PUBLIC_BASE_URL", "https://bot.example.com/"),
        ]),
        any_address,
    )
    .unwrap();

    assert_eq!(cfg.oauth_redirect_uri, "https://bot.example.com/oauth/callback");
    assert_eq!(cfg.redb_path, DEFAULT_REDB);
    assert_eq!(cfg.http_bind, DEFAULT_BIND);
    assert_eq!(cfg.http.card_url_ttl_secs, 300);
    assert_eq!(cfg.public_base_url, "https://bot.example.com");
    assert!(cfg.admin_ids.is_empty());
}

#[test]
fn parses_admin_ids() {
    let cfg = Config::from_vars(
        vars(&[
            ("TELEGRAM_BOT_TOKEN", "token"),
            ("SPOTIFY_CLIENT_ID", "id"),
            ("SPOTIFY_CLIENT_SECRET", "secret"),
            ("PUBLIC_BASE_URL", "https://bot.example.com"),
            ("ADMIN_USER_IDS", "42, 7 7,9"),
        ]),
        any_address,
    )
    .unwrap();
    assert_eq!(cfg.admin_ids.as_slice(), &[42, 7, 9]);
    assert!(cfg.is_admin(7));
    assert!(!cfg.is_admin(1));
}

#[test]
fn default_texts() {
    assert_eq!(DEFAULT_BIND, "0.0.0.0:8080");
    assert_eq!(DEFAULT_REDB, "./data/bot.redb");
    let limits = HttpSettings::default();
    assert_eq!(limits.request_timeout_secs, 20);
    assert_eq!(limits.oauth_state_ttl_secs, 900);
    assert_eq!(limits.card_url_ttl_secs, 300);
}

#[test]
fn settings_are_trimmed_and_the_last_one_counts() {
    let cfg = Config::from_vars(
        with(&[
            ("TELEGRAM_BOT_TOKEN", "  other\n"),
            ("OAUTH_REDIRECT_URI", " https://x.example/cb "),
            ("REDB_PATH", " /tmp/b.redb"),
            ("HTTP_BIND", "127.0.0.1:1 "),
            ("CARD_SIGNING_SECRET", "\tkey"),
        ]),
        |at: &str| if at == "127.0.0.1:1" { Ok(()) } else { Err("bad".to_owned()) },
    )
    .unwrap();
    assert_eq!(cfg.telegram_bot_token, "other");
    assert_eq!(cfg.spotify_client_id, "id");
    assert_eq!(cfg.spotify_client_secret, "secret");
    assert_eq!(cfg.oauth_redirect_uri, "https://x.example/cb");
    assert_eq!(cfg.redb_path, "/tmp/b.redb");
    assert_eq!(cfg.http_bind, "127.0.0.1:1");
    assert_eq!(cfg.card_signing_secret, "key");
    let cfg = Config::from_vars(with(&[("CARD_SIGNING_SECRET", "  ")]), any_address).unwrap();
    assert_eq!(cfg.card_signing_secret, "card:token");
}

#[test]
fn each_core_setting_is_missed() {
    for (name, _) in CORE {
        let left: Vec<(String, String)> =
            vars(&CORE).into_iter().filter(|(key, _)| key != name).collect();
        assert_eq!(
            failure(left),
            format!("Configuration error: Missing required env var {name}")
        );
        assert_eq!(
            failure(with(&[(name, " \t")])),
            format!("Configuration error: Missing required env var {name}")
        );
    }
}

#[test]
fn bad_urls_and_addresses_are_refused() {
    assert_eq!(
        failure(with(&[("PUBLIC_BASE_URL", "bot.example.com")])),
        "Configuration error: Invalid PUBLIC_BASE_URL: relative URL without a base"
    );
    assert_eq!(
        failure(with(&[("PUBLIC_BASE_URL", "ftp://bot.example.com")])),
        "Configuration error: PUBLIC_BASE_URL must be an http(s) URL reachable by Telegram and Spotify"
    );
    let err = Config::from_vars(with(&[("HTTP_BIND", "nowhere")]), |at: &str| {
        Err(format!("no address: {at}"))
    })
    .unwrap_err();
    assert_eq!(
        err.describe(),
        "Configuration error: Invalid HTTP_BIND: no address: nowhere"
    );
}

#[test]
fn the_first_thing_wrong_is_reported() {
    let refuse = |_: &str| -> Result<(), String> { Err("bad".to_owned()) };
    let err =
        Config::from_vars(with(&[("ADMIN_USER_IDS", "x")]), refuse).unwrap_err();
    assert_eq!(err.describe(), "Configuration error: Invalid HTTP_BIND: bad");
    let err = Config::from_parts(
        &with(&[("ADMIN_USER_IDS", "x")]),
        Err("broken".to_owned()),
        Err("bad".to_owned()),
    )
    .unwrap_err();
    assert_eq!(err.describe(), "Configuration error: Invalid PUBLIC_BASE_URL: broken");
}

#[test]
fn urls_are_put_into_their_normal_form() {
    assert_eq!(normalize_base_url("HTTP://Bot.Example.com:80").unwrap(), "http://bot.example.com");
    assert_eq!(normalize_base_url("https://b.example/x/").unwrap(), "https://b.example/x");
    assert_eq!(normalize_base_url("https://b.example/x//").unwrap(), "https://b.example/x/");
    let parsed = Ok(("https".to_owned(), "https://b.example/".to_owned()));
    assert_eq!(base_url_of(parsed).unwrap(), "https://b.example");
    assert!(matches!(
        base_url_of(Ok(("file".to_owned(), "file:///".to_owned()))),
        Err(AppError::Config(_))
    ));
}

#[test]
fn ids_are_kept_once_and_in_order() {
    assert_eq!(parse_admin_ids("").unwrap().as_slice(), &[] as &[u64]);
    assert_eq!(parse_admin_ids(" ,, ").unwrap().as_slice(), &[] as &[u64]);
    assert_eq!(parse_admin_ids("3,1\n2\t1,+3").unwrap().as_slice(), &[3, 1, 2]);
    let many: Vec<String> = (0..20u64).map(|id| id.to_string()).collect();
    let wanted: Vec<u64> = (0..20).collect();
    assert_eq!(parse_admin_ids(&many.join(",")).unwrap().as_slice(), wanted.as_slice());
    assert_eq!(
        parse_admin_ids("1,a b").unwrap_err().describe(),
        "Configuration error: Invalid ADMIN_USER_IDS entry: a"
    );
    assert!(parse_admin_ids("18446744073709551616").is_err());
    assert!(parse_admin_ids("18446744073709551615").unwrap().contains(u64::MAX));
}

#[test]
fn a_copy_has_the_same_settings() {
    let cfg = Config::from_vars(with(&[("ADMIN_USER_IDS", "42 7")]), any_address).unwrap();
    let copy = cfg.clone();
    assert_eq!(copy.admin_ids.as_slice(), &[42, 7]);
    assert_eq!(format!("{copy:?}"), format!("{cfg:?}"));
}
