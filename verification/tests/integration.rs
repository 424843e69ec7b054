//! Cross-module behaviour with mocked dependencies.

use std::collections::HashMap;
use std::sync::Mutex;

use chrono::{DateTime, TimeZone, Utc};

use ghtkn::api::check_expired;
use ghtkn::config::{select_app, App, Config};
use ghtkn::keyring::{encode_token_record, AccessToken, Keyring, KeyringBackend, DEFAULT_SERVICE_KEY};
use ghtkn::{Error, TimeSpan, Timestamp};

struct MockBackend {
    store: Mutex<HashMap<(String, String), String>>,
}

impl MockBackend {
    fn new() -> Self {
        Self {
            store: Mutex::new(HashMap::new()),
        }
    }

    fn insert(&self, service: &str, user: &str, json: &str) {
        let mut store = self.store.lock().unwrap();
        store.insert((service.to_string(), user.to_string()), json.to_string());
    }
}

impl KeyringBackend for MockBackend {
    fn get(&self, service: &str, user: &str) -> Result<Option<String>, Error> {
        let store = self.store.lock().unwrap();
        Ok(store.get(&(service.to_string(), user.to_string())).cloned())
    }

    fn set(&self, service: &str, user: &str, password: &str) -> Result<(), Error> {
        let mut store = self.store.lock().unwrap();
        store.insert((service.to_string(), user.to_string()), password.to_string());
        Ok(())
    }
}

fn ts(dt: DateTime<Utc>) -> Timestamp {
    Timestamp {
        secs: dt.timestamp(),
        nanos: dt.timestamp_subsec_nanos(),
    }
}

fn app(name: &str, client_id: &str, git_owner: &str) -> App {
    App {
        name: name.into(),
        client_id: client_id.into(),
        git_owner: git_owner.into(),
    }
}

#[test]
fn token_expiration_threshold_logic() {
    let keyring = Keyring::with_backend(Box::new(MockBackend::new()));

    let expiration = Utc::now() + chrono::Duration::minutes(10);
    let token = AccessToken {
        access_token: "ghu_threshold_test".into(),
        expiration_date: ts(expiration),
        login: "testuser".into(),
    };
    keyring.set(DEFAULT_SERVICE_KEY, "threshold-app", &token).unwrap();

    let got = keyring.get(DEFAULT_SERVICE_KEY, "threshold-app").unwrap().unwrap();

    let expired_5 = check_expired(got.expiration_date, ts(Utc::now()), TimeSpan::from_secs(5 * 60));
    assert!(
        !expired_5,
        "token with 10 min remaining should be valid with 5 min threshold"
    );

    let expired_15 = check_expired(got.expiration_date, ts(Utc::now()), TimeSpan::from_secs(15 * 60));
    assert!(
        expired_15,
        "token with 10 min remaining should be expired with 15 min threshold"
    );
}

#[test]
fn config_validation_catches_empty_apps() {
    let cfg = Config { apps: vec![] };
    let err = cfg.validate().unwrap_err();
    assert!(
        err.to_string().contains("apps is required"),
        "unexpected error: {}",
        err.to_string()
    );
}

#[test]
fn config_validation_catches_empty_name() {
    let cfg = Config {
        apps: vec![app("", "xxx", "")],
    };
    let err = cfg.validate().unwrap_err();
    assert!(
        err.to_string().contains("name is required"),
        "unexpected error: {}",
        err.to_string()
    );
}

#[test]
fn config_validation_catches_empty_client_id() {
    let cfg = Config {
        apps: vec![app("app", "", "")],
    };
    let err = cfg.validate().unwrap_err();
    assert!(
        err.to_string().contains("client_id is required"),
        "unexpected error: {}",
        err.to_string()
    );
}

#[test]
fn config_validation_catches_duplicate_names() {
    let cfg = Config {
        apps: vec![app("dup", "xxx", ""), app("dup", "yyy", "")],
    };
    let err = cfg.validate().unwrap_err();
    assert!(
        err.to_string().contains("app name must be unique"),
        "unexpected error: {}",
        err.to_string()
    );
}

#[test]
fn config_validation_catches_duplicate_git_owners() {
    let cfg = Config {
        apps: vec![app("app1", "xxx", "same-owner"), app("app2", "yyy", "same-owner")],
    };
    let err = cfg.validate().unwrap_err();
    assert!(
        err.to_string().contains("app git_owner must be unique"),
        "unexpected error: {}",
        err.to_string()
    );
}

#[test]
fn keyring_json_compatible_with_go_sdk() {
    let stored_json = r#"{"access_token":"ghu_abc123","expiration_date":"2025-06-15T12:00:00Z","login":"testuser"}"#;

    let backend = MockBackend::new();
    backend.insert(DEFAULT_SERVICE_KEY, "Iv1.go_client", stored_json);
    let keyring = Keyring::with_backend(Box::new(backend));

    let token = keyring.get(DEFAULT_SERVICE_KEY, "Iv1.go_client").unwrap().unwrap();

    assert_eq!(token.access_token, "ghu_abc123");
    assert_eq!(token.login, "testuser");
    assert_eq!(
        token.expiration_date,
        ts(Utc.with_ymd_and_hms(2025, 6, 15, 12, 0, 0).unwrap())
    );
}

#[test]
fn keyring_json_roundtrip_produces_go_compatible_format() {
    let keyring = Keyring::with_backend(Box::new(MockBackend::new()));

    let token = AccessToken {
        access_token: "ghu_rust_token".into(),
        expiration_date: ts(Utc.with_ymd_and_hms(2025, 6, 15, 12, 0, 0).unwrap()),
        login: "rustuser".into(),
    };
    keyring.set(DEFAULT_SERVICE_KEY, "Iv1.rust", &token).unwrap();

    let got = keyring.get(DEFAULT_SERVICE_KEY, "Iv1.rust").unwrap().unwrap();
    assert_eq!(got.access_token, "ghu_rust_token");
    assert_eq!(got.login, "rustuser");
    assert_eq!(
        got.expiration_date,
        ts(Utc.with_ymd_and_hms(2025, 6, 15, 12, 0, 0).unwrap())
    );

    // Re-encode and check the field names of the record.
    let json = encode_token_record(&got).unwrap();
    let parsed: serde_json::Value = serde_json::from_str(&json).unwrap();
    assert!(parsed.get("access_token").is_some(), "missing access_token field");
    assert!(parsed.get("expiration_date").is_some(), "missing expiration_date field");
    assert!(parsed.get("login").is_some(), "missing login field");
    assert_eq!(
        parsed.as_object().unwrap().len(),
        3,
        "expected exactly 3 fields in serialized JSON"
    );
}

#[test]
fn keyring_go_sdk_json_with_subsecond_precision() {
    let json_with_nanos = r#"{"access_token":"ghu_nano","expiration_date":"2025-06-15T12:00:00.123456789Z","login":"nanouser"}"#;

    let backend = MockBackend::new();
    backend.insert(DEFAULT_SERVICE_KEY, "Iv1.nano", json_with_nanos);
    let keyring = Keyring::with_backend(Box::new(backend));

    let token = keyring.get(DEFAULT_SERVICE_KEY, "Iv1.nano").unwrap().unwrap();
    assert_eq!(token.access_token, "ghu_nano");
    assert_eq!(token.login, "nanouser");
    assert_eq!(token.expiration_date.nanos, 123_456_789);
}

#[test]
fn app_selection_priority_owner_first() {
    let cfg = Config {
        apps: vec![
            app("default-app", "cid_default", "default-org"),
            app("owner-app", "cid_owner", "target-org"),
            app("named-app", "cid_named", ""),
        ],
    };
    cfg.validate().unwrap();

    let app = select_app(&cfg, "named-app", "target-org").unwrap();
    assert_eq!(app.name, "owner-app", "owner match should take priority");
}

#[test]
fn app_selection_priority_default_when_no_key() {
    let cfg = Config {
        apps: vec![app("first-app", "cid_first", ""), app("second-app", "cid_second", "")],
    };
    cfg.validate().unwrap();

    let app = select_app(&cfg, "", "").unwrap();
    assert_eq!(app.name, "first-app", "empty key/owner should return first app");
}

#[test]
fn app_selection_priority_name_match() {
    let cfg = Config {
        apps: vec![app("first-app", "cid_first", ""), app("target-app", "cid_target", "")],
    };
    cfg.validate().unwrap();

    let app = select_app(&cfg, "target-app", "").unwrap();
    assert_eq!(app.name, "target-app", "name match should work");
}

#[test]
fn app_selection_owner_miss_falls_through() {
    let cfg = Config {
        apps: vec![app("first-app", "cid_first", "org1"), app("second-app", "cid_second", "org2")],
    };
    cfg.validate().unwrap();

    let app = select_app(&cfg, "", "nonexistent-org").unwrap();
    assert_eq!(app.name, "first-app", "owner miss with empty key should return first app");

    let app = select_app(&cfg, "second-app", "nonexistent-org").unwrap();
    assert_eq!(app.name, "second-app", "owner miss should fall through to name match");

    let app = select_app(&cfg, "nonexistent", "nonexistent-org");
    assert!(app.is_none(), "owner miss + name miss should return None");
}
