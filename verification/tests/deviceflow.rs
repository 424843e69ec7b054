use ghtkn::deviceflow::{
    check_deadline, device_code_prompt, expiry_after, prompt_with_date_text, require_client_id, AccessTokenResponse, PollStep,
    Poller,
};
use ghtkn::github::authorization_value;
use ghtkn::{DeviceCodeResponse, Timestamp};

fn resp(error: &str) -> AccessTokenResponse {
    AccessTokenResponse {
        access_token: if error.is_empty() { "ghu_ok".into() } else { String::new() },
        expires_in: if error.is_empty() { 28800 } else { 0 },
        error: error.into(),
    }
}

#[test]
fn initial_interval_is_at_least_five_seconds() {
    assert_eq!(Poller::new(0).interval_secs(), 5);
    assert_eq!(Poller::new(-3).interval_secs(), 5);
    assert_eq!(Poller::new(5).interval_secs(), 5);
    assert_eq!(Poller::new(12).interval_secs(), 12);
}

#[test]
fn polling_follows_the_responses() {
    let mut p = Poller::new(0);
    assert!(matches!(p.on_response(resp("authorization_pending")), PollStep::Retry));
    assert_eq!(p.interval_secs(), 5);
    assert!(matches!(p.on_response(resp("slow_down")), PollStep::Retry));
    assert_eq!(p.interval_secs(), 10);
    assert!(matches!(p.on_response(resp("slow_down")), PollStep::Retry));
    assert_eq!(p.interval_secs(), 15);
    match p.on_response(resp("")) {
        PollStep::Done(r) => {
            assert_eq!(r.access_token, "ghu_ok");
            assert_eq!(r.expires_in, 28800);
        }
        other => panic!("unexpected {other:?}"),
    }
    assert_eq!(p.interval_secs(), 15);
}

#[test]
fn unknown_poll_error_fails_the_flow() {
    let mut p = Poller::new(5);
    match p.on_response(resp("access_denied")) {
        PollStep::Failed(e) => {
            let text = e.to_string();
            assert!(text.contains("access_denied"), "unexpected error: {text}");
            assert_eq!(text, "device flow error: device flow error: access_denied");
        }
        other => panic!("unexpected {other:?}"),
    }
}

#[test]
fn deadline_and_expiry() {
    let issued = Timestamp { secs: 1_000, nanos: 0 };
    let expires = expiry_after(issued, 900).unwrap();
    assert_eq!(expires, Timestamp { secs: 1_900, nanos: 0 });
    assert!(check_deadline(Timestamp { secs: 1_899, nanos: 999_999_999 }, expires).is_ok());
    let err = check_deadline(Timestamp { secs: 1_900, nanos: 0 }, expires).unwrap_err();
    assert!(err.to_string().contains("device code expired"));
    assert_eq!(expiry_after(issued, -10), Some(Timestamp { secs: 990, nanos: 0 }));
    assert_eq!(expiry_after(issued, i64::MAX), None);
}

#[test]
fn test_create_rejects_empty_client_id() {
    let err = require_client_id("").unwrap_err().to_string();
    assert!(err.contains("client id is required"), "unexpected error: {err}");
    assert!(require_client_id("Iv1.abc").is_ok());
}

#[test]
fn bearer_header_value() {
    assert_eq!(authorization_value("test_token"), "Bearer test_token");
}

#[test]
fn device_code_prompt_texts() {
    let dc = DeviceCodeResponse {
        device_code: "dc_test".into(),
        user_code: "ABCD-1234".into(),
        verification_uri: "https://github.com/login/device".into(),
        expires_in: 900,
        interval: 5,
    };
    let until = "2025-06-15T12:15:00+00:00";
    assert_eq!(
        prompt_with_date_text(&dc, until, true),
        "The application uses the device flow to generate your GitHub User Access Token.\n\
         Copy your one-time code: ABCD-1234\n\
         This code is valid until 2025-06-15T12:15:00+00:00\n\
         Press Enter to open https://github.com/login/device in your browser..."
    );
    assert_eq!(
        prompt_with_date_text(&dc, until, false),
        "The application uses the device flow to generate your GitHub User Access Token.\n\
         Copy your one-time code: ABCD-1234\n\
         This code is valid until 2025-06-15T12:15:00+00:00\n\
         https://github.com/login/device will open automatically after a few seconds..."
    );
}

#[test]
fn device_code_prompt_writes_the_date_in_rfc3339() {
    let dc = DeviceCodeResponse {
        device_code: "dc_test".into(),
        user_code: "WXYZ-9876".into(),
        verification_uri: "https://github.com/login/device".into(),
        expires_in: 900,
        interval: 5,
    };
    let expiration = Timestamp { secs: 1_749_989_700, nanos: 0 };
    assert_eq!(
        device_code_prompt(&dc, expiration, false),
        "The application uses the device flow to generate your GitHub User Access Token.\n\
         Copy your one-time code: WXYZ-9876\n\
         This code is valid until 2025-06-15T12:15:00+00:00\n\
         https://github.com/login/device will open automatically after a few seconds..."
    );
    let with_fraction = Timestamp { secs: 1_749_989_700, nanos: 500_000_000 };
    assert!(device_code_prompt(&dc, with_fraction, true).contains("valid until 2025-06-15T12:15:00.500+00:00\n"));
}

#[test]
fn device_code_request_status() {
    assert!(ghtkn::deviceflow::is_success_status(200));
    assert!(ghtkn::deviceflow::is_success_status(299));
    assert!(!ghtkn::deviceflow::is_success_status(199));
    assert!(!ghtkn::deviceflow::is_success_status(404));
    let e = ghtkn::deviceflow::device_code_status_error("404 Not Found", Some("nope".to_string()));
    assert_eq!(e.to_string(), "device flow error: error from GitHub: status=404 Not Found, body=nope");
    let e = ghtkn::deviceflow::device_code_status_error("500 Internal Server Error", None);
    assert_eq!(
        e.to_string(),
        "device flow error: error from GitHub: status=500 Internal Server Error, body=<unreadable>"
    );
}
