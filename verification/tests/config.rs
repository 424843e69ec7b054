use std::collections::HashMap;
use std::path::PathBuf;

use ghtkn::config::{get_path, select_app, App, Config};

fn app(name: &str, client_id: &str, git_owner: &str) -> App {
    App {
        name: name.to_string(),
        client_id: client_id.to_string(),
        git_owner: git_owner.to_string(),
    }
}

// ---------------------------------------------------------------
// Config::validate
// ---------------------------------------------------------------

#[test]
fn validate_valid_single_app() {
    let cfg = Config {
        apps: vec![app("test-app", "xxx", "")],
    };
    assert!(cfg.validate().is_ok());
}

#[test]
fn validate_valid_multiple_apps() {
    let cfg = Config {
        apps: vec![app("app1", "xxx", ""), app("app2", "yyy", "")],
    };
    assert!(cfg.validate().is_ok());
}

#[test]
fn validate_empty_apps() {
    let cfg = Config { apps: vec![] };
    assert!(cfg.validate().is_err());
}

#[test]
fn validate_app_empty_name() {
    let cfg = Config {
        apps: vec![app("", "xxx", "")],
    };
    assert!(cfg.validate().is_err());
}

#[test]
fn validate_app_empty_client_id() {
    let cfg = Config {
        apps: vec![app("app", "", "")],
    };
    assert!(cfg.validate().is_err());
}

#[test]
fn validate_app_both_empty() {
    let cfg = Config {
        apps: vec![app("", "", "")],
    };
    assert!(cfg.validate().is_err());
}

#[test]
fn validate_duplicate_names() {
    let cfg = Config {
        apps: vec![app("dup", "xxx", ""), app("dup", "yyy", "")],
    };
    assert!(cfg.validate().is_err());
}

#[test]
fn validate_duplicate_git_owners() {
    let cfg = Config {
        apps: vec![app("app1", "xxx", "same-owner"), app("app2", "yyy", "same-owner")],
    };
    assert!(cfg.validate().is_err());
}

#[test]
fn validate_unique_git_owners_with_empty() {
    let cfg = Config {
        apps: vec![
            app("app1", "xxx", "owner1"),
            app("app2", "yyy", "owner2"),
            app("app3", "zzz", ""),
        ],
    };
    assert!(cfg.validate().is_ok());
}

#[test]
fn validate_invalid_app_among_valid_ones() {
    let cfg = Config {
        apps: vec![app("valid-app", "xxx", ""), app("", "yyy", "")],
    };
    assert!(cfg.validate().is_err());
}

#[test]
fn validate_reports_first_problem_in_order() {
    // The second app has an empty client id, the third repeats a name:
    // the client id problem comes first.
    let cfg = Config {
        apps: vec![app("a", "1", ""), app("b", "", ""), app("a", "3", "")],
    };
    assert_eq!(cfg.validate().unwrap_err().to_string(), "config error: client_id is required");
}

#[test]
fn validate_empty_owners_may_repeat() {
    let cfg = Config {
        apps: vec![app("a", "1", ""), app("b", "2", ""), app("c", "3", "")],
    };
    assert!(cfg.validate().is_ok());
}

#[test]
fn validate_duplicate_message_names_the_value() {
    let cfg = Config {
        apps: vec![app("a", "1", "org"), app("b", "2", "org")],
    };
    assert_eq!(
        cfg.validate().unwrap_err().to_string(),
        "config error: app git_owner must be unique: org"
    );
    let cfg = Config {
        apps: vec![app("a", "1", ""), app("a", "2", "")],
    };
    assert_eq!(cfg.validate().unwrap_err().to_string(), "config error: app name must be unique: a");
}

// ---------------------------------------------------------------
// get_path
// ---------------------------------------------------------------

fn make_env(pairs: &[(&str, &str)]) -> impl Fn(&str) -> Option<String> {
    let map: HashMap<String, String> = pairs
        .iter()
        .map(|(k, v)| ((*k).to_string(), (*v).to_string()))
        .collect();
    move |key: &str| map.get(key).cloned()
}

#[test]
fn get_path_linux_xdg() {
    let env = make_env(&[("XDG_CONFIG_HOME", "/home/user/.config")]);
    let p = get_path(env, "linux").unwrap();
    assert_eq!(PathBuf::from(p), PathBuf::from("/home/user/.config/ghtkn/ghtkn.yaml"));
}

#[test]
fn get_path_darwin_xdg() {
    let env = make_env(&[("XDG_CONFIG_HOME", "/custom/config/dir")]);
    let p = get_path(env, "darwin").unwrap();
    assert_eq!(PathBuf::from(p), PathBuf::from("/custom/config/dir/ghtkn/ghtkn.yaml"));
}

#[test]
fn get_path_linux_home_fallback() {
    let env = make_env(&[("HOME", "/home/user")]);
    let p = get_path(env, "linux").unwrap();
    assert_eq!(PathBuf::from(p), PathBuf::from("/home/user/.config/ghtkn/ghtkn.yaml"));
}

#[test]
fn get_path_linux_xdg_empty_falls_back_to_home() {
    let env = make_env(&[("XDG_CONFIG_HOME", ""), ("HOME", "/home/user")]);
    let p = get_path(env, "linux").unwrap();
    assert_eq!(PathBuf::from(p), PathBuf::from("/home/user/.config/ghtkn/ghtkn.yaml"));
}

#[test]
fn get_path_linux_no_vars() {
    let env = make_env(&[]);
    let result = get_path(env, "linux");
    assert!(result.is_err());
}

#[test]
fn get_path_linux_both_empty() {
    let env = make_env(&[("XDG_CONFIG_HOME", ""), ("HOME", "")]);
    let result = get_path(env, "linux");
    assert!(result.is_err());
}

#[test]
fn get_path_windows_appdata() {
    let env = make_env(&[("APPDATA", "C:\\Users\\testuser\\AppData\\Roaming")]);
    let p = get_path(env, "windows").unwrap();
    assert_eq!(
        PathBuf::from(p),
        PathBuf::from("C:\\Users\\testuser\\AppData\\Roaming")
            .join("ghtkn")
            .join("ghtkn.yaml")
    );
}

#[test]
fn get_path_windows_no_appdata() {
    let env = make_env(&[]);
    let result = get_path(env, "windows");
    assert!(result.is_err());
}

#[test]
fn get_path_windows_empty_appdata() {
    let env = make_env(&[("APPDATA", "")]);
    let result = get_path(env, "windows");
    assert!(result.is_err());
}

#[test]
fn get_path_relative_xdg() {
    let env = make_env(&[("XDG_CONFIG_HOME", "relative/config")]);
    let p = get_path(env, "linux").unwrap();
    assert_eq!(PathBuf::from(p), PathBuf::from("relative/config/ghtkn/ghtkn.yaml"));
}

#[test]
fn get_path_path_with_spaces() {
    let env = make_env(&[("XDG_CONFIG_HOME", "/path with spaces/config")]);
    let p = get_path(env, "darwin").unwrap();
    assert_eq!(
        PathBuf::from(p),
        PathBuf::from("/path with spaces/config/ghtkn/ghtkn.yaml")
    );
}

#[test]
fn get_path_trailing_separator_is_not_doubled() {
    let env = make_env(&[("XDG_CONFIG_HOME", "/home/user/.config/")]);
    let p = get_path(env, "linux").unwrap();
    assert_eq!(PathBuf::from(&p), PathBuf::from("/home/user/.config/").join("ghtkn").join("ghtkn.yaml"));
    assert_eq!(p, "/home/user/.config/ghtkn/ghtkn.yaml");
}

#[test]
fn get_path_error_messages() {
    let err = get_path(make_env(&[]), "windows").unwrap_err();
    assert_eq!(err.to_string(), "config error: APPDATA is required on Windows");
    let err = get_path(make_env(&[]), "linux").unwrap_err();
    assert_eq!(
        err.to_string(),
        "config error: XDG_CONFIG_HOME or HOME is required on Linux and macOS"
    );
}

#[test]
fn get_path_with_separator_uses_the_given_separator() {
    let env = make_env(&[("APPDATA", "C:\\Roaming")]);
    let p = ghtkn::config::get_path_with_separator(env, "windows", '\\').unwrap();
    assert_eq!(p, "C:\\Roaming\\ghtkn\\ghtkn.yaml");
    let env = make_env(&[("HOME", "/home/u")]);
    let p = ghtkn::config::get_path_with_separator(env, "linux", '/').unwrap();
    assert_eq!(p, "/home/u/.config/ghtkn/ghtkn.yaml");
}

// ---------------------------------------------------------------
// select_app
// ---------------------------------------------------------------

fn test_config() -> Config {
    Config {
        apps: vec![
            app("app1", "xxx", "owner1"),
            app("app2", "yyy", "owner2"),
            app("app3", "zzz", ""),
        ],
    }
}

#[test]
fn select_app_empty_config() {
    let cfg = Config { apps: vec![] };
    assert!(select_app(&cfg, "any", "").is_none());
}

#[test]
fn select_app_by_owner() {
    let cfg = test_config();
    let app = select_app(&cfg, "", "owner2").unwrap();
    assert_eq!(app.name, "app2");
}

#[test]
fn select_app_by_name() {
    let cfg = test_config();
    let app = select_app(&cfg, "app3", "").unwrap();
    assert_eq!(app.name, "app3");
}

#[test]
fn select_app_owner_priority_over_name() {
    let cfg = test_config();
    let app = select_app(&cfg, "app2", "owner1").unwrap();
    assert_eq!(app.name, "app1");
}

#[test]
fn select_app_name_not_found() {
    let cfg = test_config();
    assert!(select_app(&cfg, "nonexistent", "").is_none());
}

#[test]
fn select_app_default_first() {
    let cfg = test_config();
    let app = select_app(&cfg, "", "").unwrap();
    assert_eq!(app.name, "app1");
}

#[test]
fn select_app_owner_not_found_falls_through_to_default() {
    let cfg = test_config();
    let app = select_app(&cfg, "", "nonexistent-owner").unwrap();
    assert_eq!(app.name, "app1");
}

#[test]
fn select_app_owner_not_found_falls_through_to_key() {
    let cfg = test_config();
    let app = select_app(&cfg, "app3", "nonexistent-owner").unwrap();
    assert_eq!(app.name, "app3");
}

#[test]
fn select_app_owner_not_found_key_not_found() {
    let cfg = test_config();
    assert!(select_app(&cfg, "nonexistent", "nonexistent-owner").is_none());
}

#[test]
fn select_app_first_of_repeated_owner_or_name() {
    // On a configuration that does not validate, the first match wins.
    let cfg = Config {
        apps: vec![app("x", "1", "o"), app("y", "2", "o"), app("x", "3", "")],
    };
    assert_eq!(select_app(&cfg, "", "o").unwrap().client_id, "1");
    assert_eq!(select_app(&cfg, "x", "").unwrap().client_id, "1");
}

#[test]
fn app_copied_keeps_fields() {
    let a = app("n", "c", "o");
    assert_eq!(a.copied(), a);
}

#[test]
fn get_path_on_a_bare_windows_drive_adds_no_separator() {
    let env = make_env(&[("APPDATA", "C:")]);
    let p = ghtkn::config::get_path_with_separator(env, "windows", '\\').unwrap();
    assert_eq!(p, "C:ghtkn\\ghtkn.yaml");
    let env = make_env(&[("APPDATA", "C:")]);
    let p = ghtkn::config::get_path_with_separator(env, "windows", '/').unwrap();
    assert_eq!(p, "C:/ghtkn/ghtkn.yaml");
    assert!(ghtkn::text::drive_prefix_only("d:"));
    assert!(!ghtkn::text::drive_prefix_only("1:"));
    assert!(!ghtkn::text::drive_prefix_only("C:\\"));
    assert!(!ghtkn::text::drive_prefix_only("C"));
}
