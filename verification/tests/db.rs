use std::cell::RefCell;
use std::collections::BTreeMap;

use tg_spotifystatusbot::db::{
    now_unix, oauth_state_at, unix_seconds, OauthState, SpotifyTokens, Store,
};
use tg_spotifystatusbot::error::{AppError, Result};

/// What would be on disk.
#[derive(Default)]
struct Disk {
    users: RefCell<BTreeMap<u64, SpotifyTokens>>,
    states: RefCell<BTreeMap<String, OauthState>>,
    allowed: RefCell<BTreeMap<u64, u8>>,
}

impl Disk {
    fn user(&self, id: u64, tokens: Option<&SpotifyTokens>) -> Result<bool> {
        match tokens {
            Some(tokens) => {
                self.users.borrow_mut().insert(id, tokens.clone());
                Ok(true)
            }
            None => Ok(self.users.borrow_mut().remove(&id).is_some()),
        }
    }

    fn state(&self, state: &str, value: Option<&OauthState>) -> Result<bool> {
        match value {
            Some(value) => {
                self.states.borrow_mut().insert(state.to_owned(), value.clone());
                Ok(true)
            }
            None => Ok(self.states.borrow_mut().remove(state).is_some()),
        }
    }

    fn allow(&self, id: u64, insert: bool) -> Result<()> {
        if insert {
            self.allowed.borrow_mut().insert(id, 1);
        } else {
            self.allowed.borrow_mut().remove(&id);
        }
        Ok(())
    }

    fn open(&self) -> Store {
        Store::open(
            self.users.borrow().iter().map(|(k, v)| (*k, v.clone())).collect(),
            self.states.borrow().iter().map(|(k, v)| (k.clone(), v.clone())).collect(),
            self.allowed.borrow().iter().map(|(k, v)| (*k, *v)).collect(),
        )
    }
}

fn tokens(access: &str, refresh: &str, expires_at: i64) -> SpotifyTokens {
    SpotifyTokens {
        access_token: access.into(),
        refresh_token: refresh.into(),
        expires_at,
        token_type: "Bearer".into(),
        scope: "user-read-currently-playing".into(),
    }
}

fn login(user: u64, created_at: i64) -> OauthState {
    OauthState { telegram_user_id: user, code_verifier: "verifier".into(), created_at }
}

#[test]
fn save_load_delete_and_refresh_update() {
    let disk = Disk::default();
    let mut store = disk.open();
    let user = 42_u64;
    store.put_tokens(user, &tokens("a1", "r1", 100), |id, t| disk.user(id, t)).unwrap();
    assert_eq!(store.get_tokens(user).unwrap().access_token, "a1");

    store.put_tokens(user, &tokens("a2", "r2", 200), |id, t| disk.user(id, t)).unwrap();
    let updated = store.get_tokens(user).unwrap();
    assert_eq!(updated.access_token, "a2");
    assert_eq!(updated.refresh_token, "r2");
    assert_eq!(updated.expires_at, 200);

    assert!(store.delete_tokens(user, |id, t| disk.user(id, t)).unwrap());
    assert!(store.get_tokens(user).is_none());
    assert!(!store.delete_tokens(user, |id, t| disk.user(id, t)).unwrap());
}

#[test]
fn oauth_state_is_single_use_and_expires() {
    let disk = Disk::default();
    let mut store = disk.open();
    store
        .put_oauth_state(
            "abc",
            &OauthState {
                telegram_user_id: 7,
                code_verifier: "verifier".into(),
                created_at: now_unix(),
            },
            |s, v| disk.state(s, v),
        )
        .unwrap();

    let taken = store.take_oauth_state("abc", 900, |s, v| disk.state(s, v)).unwrap();
    assert_eq!(taken.telegram_user_id, 7);
    assert!(store.take_oauth_state("abc", 900, |s, v| disk.state(s, v)).is_err());

    store
        .put_oauth_state(
            "old",
            &OauthState {
                telegram_user_id: 8,
                code_verifier: "v".into(),
                created_at: now_unix() - 10_000,
            },
            |s, v| disk.state(s, v),
        )
        .unwrap();
    assert!(matches!(
        store.take_oauth_state("old", 900, |s, v| disk.state(s, v)),
        Err(AppError::InvalidOauthState)
    ));
}

#[test]
fn allowlist_add_list_and_remove() {
    let disk = Disk::default();
    let mut store = disk.open();
    assert!(!store.is_allowlisted(9));
    assert!(store.allow_user(9, |id, on| disk.allow(id, on)).unwrap());
    assert!(!store.allow_user(9, |id, on| disk.allow(id, on)).unwrap());
    assert!(store.is_allowlisted(9));
    store.allow_user(3, |id, on| disk.allow(id, on)).unwrap();
    assert_eq!(store.list_allowlist(), vec![3, 9]);
    assert!(store.deny_user(9, |id, on| disk.allow(id, on)).unwrap());
    assert!(!store.is_allowlisted(9));
    assert!(!store.deny_user(9, |id, on| disk.allow(id, on)).unwrap());
}

#[test]
fn reopens_disk_into_cache() {
    let disk = Disk::default();
    {
        let mut store = disk.open();
        store.put_tokens(1, &tokens("a", "r", 1), |id, t| disk.user(id, t)).unwrap();
        store.allow_user(9, |id, on| disk.allow(id, on)).unwrap();
        store.put_oauth_state("s", &login(5, now_unix()), |s, v| disk.state(s, v)).unwrap();
    }
    let mut store = disk.open();
    assert_eq!(store.get_tokens(1).unwrap().access_token, "a");
    assert!(store.is_allowlisted(9));
    let found = store.take_oauth_state("s", 900, |s, v| disk.state(s, v)).unwrap();
    assert_eq!(found.telegram_user_id, 5);
}

#[test]
fn nothing_changes_if_the_disk_fails() {
    let fail = || AppError::database("disk full");
    let disk = Disk::default();
    let mut store = disk.open();
    store.put_tokens(1, &tokens("a", "r", 1), |id, t| disk.user(id, t)).unwrap();
    store.put_oauth_state("s", &login(5, now_unix()), |s, v| disk.state(s, v)).unwrap();
    store.allow_user(9, |id, on| disk.allow(id, on)).unwrap();

    assert!(store.put_tokens(1, &tokens("b", "r", 1), |_, _| Err(fail())).is_err());
    assert!(store.delete_tokens(1, |_, _| Err(fail())).is_err());
    assert_eq!(store.get_tokens(1).unwrap().access_token, "a");
    assert!(store.put_oauth_state("t", &login(6, now_unix()), |_, _| Err(fail())).is_err());
    assert!(matches!(
        store.take_oauth_state("s", 900, |_, _| Err(fail())),
        Err(AppError::Database(text)) if text == "disk full"
    ));
    assert!(matches!(
        store.take_oauth_state("t", 900, |_, _| Err(fail())),
        Err(AppError::Database(_))
    ));
    assert!(store.allow_user(3, |_, _| Err(fail())).is_err());
    assert!(store.deny_user(9, |_, _| Err(fail())).is_err());
    assert_eq!(store.list_allowlist(), vec![9]);
    let found = store.take_oauth_state("s", 900, |s, v| disk.state(s, v)).unwrap();
    assert_eq!(found.telegram_user_id, 5);
}

#[test]
fn a_user_who_is_allowed_is_not_written_again() {
    let mut store = Store::open(vec![], vec![], vec![(9, 1)]);
    let allowed = store.allow_user(9, |_, _| panic!("nothing to write"));
    assert!(!allowed.unwrap());
}

#[test]
fn what_was_read_first_is_kept() {
    let store = Store::open(
        vec![(1, tokens("first", "r", 1)), (1, tokens("second", "r", 1))],
        vec![],
        vec![(4, 1), (2, 1), (4, 0)],
    );
    assert_eq!(store.get_tokens(1).unwrap().access_token, "first");
    assert_eq!(store.list_allowlist(), vec![2, 4]);
}

#[test]
fn deleting_counts_what_was_in_either_place() {
    let mut store = Store::open(vec![(1, tokens("a", "r", 1))], vec![], vec![]);
    assert!(store.delete_tokens(1, |_, _| Ok(false)).unwrap());
    assert!(store.delete_tokens(1, |_, _| Ok(true)).unwrap());
    assert!(!store.delete_tokens(1, |_, _| Ok(false)).unwrap());
}

#[test]
fn other_entries_stay() {
    let mut store = Store::open(
        vec![(1, tokens("a", "r", 1)), (2, tokens("b", "r", 1))],
        vec![("s".into(), login(1, 0)), ("t".into(), login(2, now_unix()))],
        vec![(1, 1), (2, 1)],
    );
    store.delete_tokens(1, |_, _| Ok(true)).unwrap();
    assert_eq!(store.get_tokens(2).unwrap().access_token, "b");
    assert!(store.take_oauth_state("s", 900, |_, _| Ok(true)).is_err());
    assert_eq!(store.take_oauth_state("t", 900, |_, _| Ok(true)).unwrap().telegram_user_id, 2);
    store.deny_user(1, |_, _| Ok(())).unwrap();
    assert_eq!(store.list_allowlist(), vec![2]);
}

#[test]
fn a_long_list_is_sorted() {
    let mut ids: Vec<u64> = (0..200).map(|i| i * 7919 % 1009).collect();
    let store = Store::open(vec![], vec![], ids.iter().map(|id| (*id, 1)).collect());
    ids.sort_unstable();
    assert_eq!(store.list_allowlist(), ids);
}

#[test]
fn logins_are_good_until_their_time_is_over() {
    assert!(oauth_state_at(login(1, 100), 1_000, 900).is_ok());
    assert!(matches!(
        oauth_state_at(login(1, 100), 1_001, 900),
        Err(AppError::InvalidOauthState)
    ));
    assert!(oauth_state_at(login(1, i64::MIN), i64::MAX, i64::MAX).is_err());
}

#[test]
fn the_clock_counts_from_1970() {
    assert_eq!(unix_seconds(None), 0);
    assert_eq!(unix_seconds(Some(1_700_000_000)), 1_700_000_000);
    assert!(now_unix() > 1_700_000_000);
}
