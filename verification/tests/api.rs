use chrono::{DateTime, TimeZone, Utc};

use ghtkn::api::{
    attach_app, check_expired, choose_app, classify_cached_token, config_path_for, normalize_base_url,
    resolve_app_name, resolve_service, stored_token_result, CachedToken, InputGet, TokenCache,
};
use ghtkn::config::{App, Config};
use ghtkn::keyring::AccessToken;
use ghtkn::time::Delta;
use ghtkn::{Error, TimeSpan, Timestamp, DEFAULT_SERVICE_KEY};

fn ts(dt: DateTime<Utc>) -> Timestamp {
    Timestamp {
        secs: dt.timestamp(),
        nanos: dt.timestamp_subsec_nanos(),
    }
}

fn now() -> Timestamp {
    ts(Utc::now())
}

fn app(name: &str, client_id: &str, git_owner: &str) -> App {
    App {
        name: name.into(),
        client_id: client_id.into(),
        git_owner: git_owner.into(),
    }
}

fn token(access_token: &str, expiration_date: Timestamp) -> AccessToken {
    AccessToken {
        access_token: access_token.into(),
        expiration_date,
        login: "testuser".into(),
    }
}

// ---------------------------------------------------------------
// check_expired
// ---------------------------------------------------------------

#[test]
fn test_check_expired_not_expired() {
    let expiration = Utc::now() + chrono::Duration::hours(8);
    assert!(!check_expired(ts(expiration), now(), TimeSpan::zero()));
}

#[test]
fn test_check_expired_is_expired() {
    let expiration = Utc::now() - chrono::Duration::hours(1);
    assert!(check_expired(ts(expiration), now(), TimeSpan::zero()));
}

#[test]
fn test_check_expired_with_min_expiration() {
    let expiration = Utc::now() + chrono::Duration::minutes(5);
    let min_exp = TimeSpan::from_secs(10 * 60);
    assert!(check_expired(ts(expiration), now(), min_exp));
}

#[test]
fn test_check_expired_with_min_expiration_sufficient() {
    let expiration = Utc::now() + chrono::Duration::minutes(20);
    let min_exp = TimeSpan::from_secs(10 * 60);
    assert!(!check_expired(ts(expiration), now(), min_exp));
}

#[test]
fn test_check_expired_exactly_at_boundary() {
    let expiration = Utc.with_ymd_and_hms(1970, 1, 1, 0, 0, 0).unwrap();
    assert!(check_expired(ts(expiration), now(), TimeSpan::zero()));
}

#[test]
fn check_expired_at_exact_deadline_is_not_expired() {
    let t = Timestamp { secs: 1000, nanos: 0 };
    assert!(!check_expired(t, Timestamp { secs: 400, nanos: 0 }, TimeSpan::from_secs(600)));
    assert!(check_expired(t, Timestamp { secs: 400, nanos: 1 }, TimeSpan::from_secs(600)));
}

#[test]
fn check_expired_with_a_margin_beyond_chrono_is_expired() {
    let t = Timestamp { secs: 1000, nanos: 0 };
    let huge = TimeSpan::from_secs(u64::MAX);
    assert!(check_expired(t, Timestamp { secs: 999, nanos: 0 }, huge));
    let far = TimeSpan::from_secs(9_000_000_000_000_000);
    assert!(check_expired(t, Timestamp { secs: 0, nanos: 0 }, far));
    let never = Timestamp { secs: i64::MAX, nanos: 0 };
    assert!(!check_expired(never, Timestamp { secs: 0, nanos: 0 }, far));
}

#[test]
fn check_expired_grows_with_the_margin() {
    let n = Timestamp { secs: 1_000, nanos: 0 };
    let e = Timestamp { secs: 1_300, nanos: 0 };
    let margins = [0u64, 100, 299, 300, 301, 10_000];
    let results: Vec<bool> = margins.iter().map(|m| check_expired(e, n, TimeSpan::from_secs(*m))).collect();
    assert_eq!(results, vec![false, false, false, false, true, true]);
}

#[test]
fn check_expired_at_a_leap_second() {
    let leap = Timestamp { secs: 1_483_228_799, nanos: 1_500_000_000 };
    let next = Timestamp { secs: 1_483_228_800, nanos: 0 };
    assert!(!check_expired(next, leap, TimeSpan::zero()));
    assert!(check_expired(leap, next, TimeSpan::zero()));
}

// ---------------------------------------------------------------
// InputGet
// ---------------------------------------------------------------

#[test]
fn test_input_get_default() {
    let input = InputGet::default();
    assert!(input.keyring_service.is_empty());
    assert!(input.app_name.is_empty());
    assert!(input.config_file_path.is_empty());
    assert!(input.app_owner.is_empty());
    assert_eq!(input.min_expiration, TimeSpan::zero());
}

// ---------------------------------------------------------------
// Flow decisions
// ---------------------------------------------------------------

#[test]
fn service_and_app_name_defaults() {
    assert_eq!(resolve_service(""), DEFAULT_SERVICE_KEY);
    assert_eq!(resolve_service("custom"), "custom");
    assert_eq!(resolve_app_name("", Some("from-env".into())), "from-env");
    assert_eq!(resolve_app_name("", None), "");
    assert_eq!(resolve_app_name("given", Some("from-env".into())), "given");
}

#[test]
fn config_path_given_or_default() {
    let no_env = |_k: &str| -> Option<String> { None };
    assert_eq!(config_path_for("/etc/ghtkn.yaml", no_env, "linux").unwrap(), "/etc/ghtkn.yaml");
    let home = |k: &str| -> Option<String> { if k == "HOME" { Some("/home/u".to_string()) } else { None } };
    assert_eq!(
        std::path::PathBuf::from(config_path_for("", home, "linux").unwrap()),
        std::path::PathBuf::from("/home/u/.config/ghtkn/ghtkn.yaml")
    );
    let e = config_path_for("", no_env, "linux").unwrap_err();
    assert_eq!(e.to_string(), "config error: XDG_CONFIG_HOME or HOME is required on Linux and macOS");
}

#[test]
fn choose_app_errors_and_selection() {
    let e = choose_app(None, "", "").unwrap_err();
    assert_eq!(e.to_string(), "config error: configuration file is empty");
    let e = choose_app(Some(Config { apps: vec![] }), "", "").unwrap_err();
    assert_eq!(e.to_string(), "config error: apps is required");
    let cfg = Config {
        apps: vec![app("a", "1", "org"), app("b", "2", "")],
    };
    let e = choose_app(Some(cfg.clone()), "zzz", "").unwrap_err();
    assert_eq!(e.to_string(), "config error: no matching app found");
    assert_eq!(choose_app(Some(cfg.clone()), "b", "").unwrap().client_id, "2");
    assert_eq!(choose_app(Some(cfg), "b", "org").unwrap().client_id, "1");
}

#[test]
fn classify_cached_token_cases() {
    let n = Timestamp { secs: 1_000_000, nanos: 0 };
    let fresh = token("fresh", Timestamp { secs: 2_000_000, nanos: 0 });
    match classify_cached_token(Ok(Some(fresh.clone())), n, TimeSpan::zero()) {
        CachedToken::Valid(t) => assert_eq!(t, fresh),
        other => panic!("unexpected {other:?}"),
    }
    let old = token("old", Timestamp { secs: 10, nanos: 0 });
    match classify_cached_token(Ok(Some(old)), n, TimeSpan::zero()) {
        CachedToken::Expired(d) => assert_eq!(d, Timestamp { secs: 10, nanos: 0 }),
        other => panic!("unexpected {other:?}"),
    }
    assert!(matches!(classify_cached_token(Ok(None), n, TimeSpan::zero()), CachedToken::NotFound));
    match classify_cached_token(Err(Error::Keyring("locked".into())), n, TimeSpan::zero()) {
        CachedToken::Unreadable(m) => assert_eq!(m, "keyring error: locked"),
        other => panic!("unexpected {other:?}"),
    }
}

#[test]
fn store_failure_is_carried_with_token_and_app() {
    let t = token("tok", Timestamp { secs: 5, nanos: 0 });
    let a = app("n", "c", "");
    assert_eq!(stored_token_result(t.clone(), &a, Ok(())).unwrap(), t);
    match stored_token_result(t.clone(), &a, Err(Error::Keyring("no write".into()))) {
        Err(Error::StoreToken { message, token, app }) => {
            assert_eq!(message, "keyring error: no write");
            assert_eq!(*token, t);
            assert_eq!(*app, a);
        }
        other => panic!("unexpected {other:?}"),
    }
}

#[test]
fn attach_app_rewraps_store_errors() {
    let t = token("tok", Timestamp { secs: 5, nanos: 0 });
    let a = app("n", "c", "");
    let other_app = app("x", "y", "");
    let (got, got_app) = attach_app(Ok(t.clone()), a.clone()).unwrap();
    assert_eq!((got, got_app), (t.clone(), a.clone()));
    let err = Error::StoreToken {
        message: "m".into(),
        token: Box::new(t.clone()),
        app: Box::new(other_app),
    };
    match attach_app(Err(err), a.clone()) {
        Err(Error::StoreToken { app, token, message }) => {
            assert_eq!(*app, a);
            assert_eq!(*token, t);
            assert_eq!(message, "m");
        }
        other => panic!("unexpected {other:?}"),
    }
    let e = attach_app(Err(Error::GitHub("boom".into())), a).unwrap_err();
    assert_eq!(e.to_string(), "github API error: boom");
}

#[test]
fn token_cache_keeps_the_first_token() {
    let mut cache = TokenCache::new();
    assert!(cache.lookup().is_none());
    let a = app("n", "c", "");
    let err = cache.record(Err(Error::Config("missing".into()))).unwrap_err();
    assert_eq!(err.to_string(), "config error: missing");
    assert!(cache.lookup().is_none());
    let t = token("ghu_test_token_abc", Timestamp { secs: 5, nanos: 0 });
    let store_err = Error::StoreToken {
        message: "write failed".into(),
        token: Box::new(t.clone()),
        app: Box::new(a),
    };
    assert_eq!(cache.record(Err(store_err)).unwrap(), "ghu_test_token_abc");
    assert_eq!(cache.lookup().as_deref(), Some("ghu_test_token_abc"));
    assert_eq!(cache.lookup().as_deref(), Some("ghu_test_token_abc"));
}

#[test]
fn normalize_base_url_trims_trailing_slashes() {
    assert_eq!(normalize_base_url("https://ghe.example.com///"), "https://ghe.example.com");
    assert_eq!(normalize_base_url("https://api.github.com"), "https://api.github.com");
    assert_eq!(normalize_base_url("///"), "");
}

#[test]
fn error_texts() {
    assert_eq!(Error::Config("c".into()).to_string(), "config error: c");
    assert_eq!(Error::Keyring("k".into()).to_string(), "keyring error: k");
    assert_eq!(Error::DeviceFlow("d".into()).to_string(), "device flow error: d");
    assert_eq!(Error::GitHub("g".into()).to_string(), "github API error: g");
    assert_eq!(Error::Browser("b".into()).to_string(), "browser error: b");
    assert_eq!(Error::Other("o".into()).to_string(), "o");
    let e = Error::StoreToken {
        message: "s".into(),
        token: Box::new(token("t", Timestamp { secs: 1, nanos: 0 })),
        app: Box::new(app("a", "b", "")),
    };
    assert_eq!(e.to_string(), "store token error: s");
}

#[test]
fn time_span_and_delta() {
    let s = TimeSpan::new(3, 500).unwrap();
    assert_eq!((s.as_secs(), s.subsec_nanos()), (3, 500));
    assert!(TimeSpan::new(3, 1_000_000_000).is_none());
    assert_eq!(Delta::from_span(s), Some(Delta { secs: 3, nanos: 500 }));
    assert_eq!(Delta::from_span(TimeSpan::from_secs(9_223_372_036_854_776)), None);
    assert_eq!(Delta::try_seconds(-7), Some(Delta { secs: -7, nanos: 0 }));
    assert_eq!(Delta::try_seconds(i64::MAX), None);
    let t = Timestamp { secs: 10, nanos: 999_999_999 };
    assert_eq!(t.checked_add(Delta { secs: 1, nanos: 2 }), Some(Timestamp { secs: 12, nanos: 1 }));
    let epoch = Timestamp { secs: 0, nanos: 0 };
    assert!(epoch.is_epoch());
    assert!(t.is_after(&epoch));
    assert!(!epoch.is_after(&t));
}

#[test]
fn check_expired_against_a_leap_second_expiration() {
    let leap = Timestamp { secs: 1_483_228_799, nanos: 1_500_000_000 };
    let just_before = Timestamp { secs: 1_483_228_799, nanos: 999_999_999 };
    assert!(!check_expired(leap, just_before, TimeSpan::zero()));
    assert!(check_expired(leap, just_before, TimeSpan::new(0, 1).unwrap()));
    assert!(check_expired(leap, Timestamp { secs: 0, nanos: 0 }, TimeSpan::from_secs(u64::MAX)));
    assert!(!check_expired(leap, Timestamp { secs: 0, nanos: 0 }, TimeSpan::from_secs(1_000)));
}
