//! The OAuth device authorization grant (RFC 8628) as GitHub runs it.
//!
//! The network exchanges happen outside; this module holds what they carry
//! and the decisions between them:
//! 1. a client id is required before anything is requested;
//! 2. the device code expires `expires_in` seconds after it was issued;
//! 3. polling waits `max(server interval, 5 s)` before each request, adds
//!    5 s on `slow_down`, keeps the interval on `authorization_pending`,
//!    succeeds on a response without error and fails on any other error;
//! 4. polling stops once the device code has expired.

use vstd::prelude::*;

use crate::error::{Error, ErrorView};
use crate::keyring::is_plain_date;
use crate::time::{delta_limit, spec_checked_add, Delta, Timestamp, NANOS_PER_SEC};

verus! {

/// The additional interval, in seconds, after a `slow_down` response.
pub const ADDITIONAL_INTERVAL_SECS: u64 = 5;

/// The minimum polling interval in seconds.
pub const MIN_INTERVAL_SECS: i64 = 5;

/// Response of GitHub's device code endpoint (`POST /login/device/code`).
#[derive(Debug, Clone)]
pub struct DeviceCodeResponse {
    pub device_code: String,
    pub user_code: String,
    pub verification_uri: String,
    pub expires_in: i64,
    pub interval: i64,
}

/// Response of GitHub's access token endpoint while polling; missing fields
/// read as empty or zero.
#[derive(Debug, Clone)]
pub struct AccessTokenResponse {
    pub access_token: String,
    pub expires_in: i64,
    pub error: String,
}

/// The mathematical value of an [`AccessTokenResponse`].
pub struct AccessTokenResponseView {
    pub access_token: Seq<char>,
    pub expires_in: i64,
    pub error: Seq<char>,
}

impl View for AccessTokenResponse {
    type V = AccessTokenResponseView;

    open spec fn view(&self) -> AccessTokenResponseView {
        AccessTokenResponseView {
            access_token: self.access_token@,
            expires_in: self.expires_in,
            error: self.error@,
        }
    }
}

/// The result of the device flow: a fresh access token and its expiration date.
#[derive(Debug, Clone)]
pub struct AccessToken {
    pub access_token: String,
    pub expiration_date: Timestamp,
}

/// Shows the device code to the user (terminal, GUI, ...).
pub trait DeviceCodeUI: Send + Sync {
    /// Display the user code and verification URI, valid until `expiration_date`.
    fn show(&self, device_code: &DeviceCodeResponse, expiration_date: Timestamp) -> Result<(), Error>;
}

/// The first lines of the device-code prompt.
pub open spec fn prompt_head(user_code: Seq<char>, valid_until: Seq<char>) -> Seq<char> {
    "The application uses the device flow to generate your GitHub User Access Token.\nCopy your one-time code: "@
        + user_code + "\nThis code is valid until "@ + valid_until + "\n"@
}

/// The device-code prompt: the user code, how long it is valid, and how the
/// verification URI will be opened (after Enter on a terminal, after a few
/// seconds otherwise).
pub open spec fn prompt_text(user_code: Seq<char>, valid_until: Seq<char>, uri: Seq<char>, interactive: bool) -> Seq<char> {
    if interactive {
        prompt_head(user_code, valid_until) + "Press Enter to open "@ + uri + " in your browser..."@
    } else {
        prompt_head(user_code, valid_until) + uri + " will open automatically after a few seconds..."@
    }
}

/// What `DateTime::<Utc>::to_rfc3339` writes for a timestamp (offset
/// `+00:00`), when chrono can represent it.
pub uninterp spec fn spec_display_rfc3339(secs: i64, nanos: u32) -> Option<Seq<char>>;

/// The text of an expiration date in the prompt: chrono's RFC 3339 text, or
/// nothing for a timestamp chrono cannot represent.
pub open spec fn valid_until_text(t: Timestamp) -> Seq<char> {
    match spec_display_rfc3339(t.secs, t.nanos) {
        Some(s) => s,
        None => Seq::<char>::empty(),
    }
}

/// `DateTime::<Utc>::to_rfc3339` of the date rebuilt with
/// `DateTime::from_timestamp`, or `None` where that cannot represent the
/// timestamp.  Trusted: the result is a function of the timestamp, and a date
/// in years 0 to 9999 outside a leap second is always written.
#[verifier::external_body]
fn display_rfc3339(t: Timestamp) -> (r: Option<String>)
    ensures
        r matches Some(s) ==> spec_display_rfc3339(t.secs, t.nanos) == Some(s@),
        r is None ==> spec_display_rfc3339(t.secs, t.nanos) is None,
        r is None ==> !is_plain_date(t),
{
    let d = chrono::DateTime::from_timestamp(t.secs, t.nanos)?;
    Some(d.to_rfc3339())
}

/// The prompt shows the verification URI it is given: two prompts that
/// differ only in the URI differ, and the interactive prompt ends with the
/// URI followed by ` in your browser...`.
pub proof fn lemma_prompt_shows_uri(u: Seq<char>, v: Seq<char>, uri1: Seq<char>, uri2: Seq<char>, interactive: bool)
    ensures
        prompt_text(u, v, uri1, interactive) == prompt_text(u, v, uri2, interactive) ==> uri1 == uri2,
        ({
            let p = prompt_text(u, v, uri1, true);
            let tail = " in your browser..."@;
            p.len() >= uri1.len() + tail.len() && p.subrange(p.len() - tail.len() - uri1.len(), p.len()
                - tail.len()) == uri1
        }),
{
    let h = prompt_head(u, v);
    let pre_i = h + "Press Enter to open "@;
    let post_i = " in your browser..."@;
    let post_n = " will open automatically after a few seconds..."@;
    let p1 = prompt_text(u, v, uri1, interactive);
    let p2 = prompt_text(u, v, uri2, interactive);
    if interactive {
        assert(p1 == pre_i + uri1 + post_i);
        assert(p2 == pre_i + uri2 + post_i);
        if p1 == p2 {
            assert forall|k: int| 0 <= k < uri1.len() implies uri1[k] == uri2[k] by {
                assert(p1[pre_i.len() + k] == uri1[k]);
                assert(p2[pre_i.len() + k] == uri2[k]);
            }
            assert(uri1 =~= uri2);
        }
    } else {
        assert(p1 == h + uri1 + post_n);
        assert(p2 == h + uri2 + post_n);
        if p1 == p2 {
            assert forall|k: int| 0 <= k < uri1.len() implies uri1[k] == uri2[k] by {
                assert(p1[h.len() + k] == uri1[k]);
                assert(p2[h.len() + k] == uri2[k]);
            }
            assert(uri1 =~= uri2);
        }
    }
    let p = prompt_text(u, v, uri1, true);
    assert(p == pre_i + uri1 + post_i);
    assert(p.subrange(p.len() - post_i.len() - uri1.len(), p.len() - post_i.len()) =~= uri1);
}

/// The prompt shows the user code it is given: two prompts that differ only
/// in the user code differ.
pub proof fn lemma_prompt_shows_user_code(u1: Seq<char>, u2: Seq<char>, v: Seq<char>, uri: Seq<char>, interactive: bool)
    ensures
        prompt_text(u1, v, uri, interactive) == prompt_text(u2, v, uri, interactive) ==> u1 == u2,
{
    let pre = "The application uses the device flow to generate your GitHub User Access Token.\nCopy your one-time code: "@;
    let p1 = prompt_text(u1, v, uri, interactive);
    let p2 = prompt_text(u2, v, uri, interactive);
    let rest = "\nThis code is valid until "@ + v + "\n"@ + if interactive {
        "Press Enter to open "@ + uri + " in your browser..."@
    } else {
        uri + " will open automatically after a few seconds..."@
    };
    assert(p1 =~= pre + u1 + rest);
    assert(p2 =~= pre + u2 + rest);
    if p1 == p2 {
        assert forall|k: int| 0 <= k < u1.len() implies u1[k] == u2[k] by {
            assert(p1[pre.len() + k] == u1[k]);
            assert(p2[pre.len() + k] == u2[k]);
        }
        assert(u1 =~= u2);
    }
}

/// The prompt that shows a device code to the user, with the expiration
/// date already written as `valid_until`.
pub fn prompt_with_date_text(device_code: &DeviceCodeResponse, valid_until: &str, interactive: bool) -> (r: String)
    ensures
        r@ == prompt_text(device_code.user_code@, valid_until@, device_code.verification_uri@, interactive),
{
    let head = "The application uses the device flow to generate your GitHub User Access Token.\nCopy your one-time code: "
        .to_owned()
        .concat(device_code.user_code.as_str())
        .concat("\nThis code is valid until ")
        .concat(valid_until)
        .concat("\n");
    if interactive {
        head.concat("Press Enter to open ").concat(device_code.verification_uri.as_str()).concat(
            " in your browser...",
        )
    } else {
        head.concat(device_code.verification_uri.as_str()).concat(" will open automatically after a few seconds...")
    }
}

/// The prompt that shows a device code to the user, valid until
/// `expiration_date` (written by chrono in RFC 3339).
pub fn device_code_prompt(device_code: &DeviceCodeResponse, expiration_date: Timestamp, interactive: bool) -> (r: String)
    ensures
        r@ == prompt_text(
            device_code.user_code@,
            valid_until_text(expiration_date),
            device_code.verification_uri@,
            interactive,
        ),
{
    let valid_until = match display_rfc3339(expiration_date) {
        Some(s) => s,
        None => String::new(),
    };
    prompt_with_date_text(device_code, valid_until.as_str(), interactive)
}

/// `r` is the device-flow error with message `m`.
pub open spec fn device_flow_error_is<T>(r: Result<T, Error>, m: Seq<char>) -> bool {
    r matches Err(e) && e@ == ErrorView::DeviceFlow(m)
}

/// Whether an HTTP status code reports success: `200..=299`.
pub fn is_success_status(code: u16) -> (r: bool)
    ensures
        r == (200 <= code && code < 300),
{
    200 <= code && code < 300
}

/// The error for a device code request that GitHub answered without success:
/// the status as text (`404 Not Found`) and the body of the answer, or
/// `<unreadable>` when the body could not be read.
pub fn device_code_status_error(status: &str, body: Option<String>) -> (r: Error)
    ensures
        r@ == ErrorView::DeviceFlow(
            "error from GitHub: status="@ + status@ + ", body="@ + match body {
                Some(b) => b@,
                None => "<unreadable>"@,
            },
        ),
{
    let body_text = match body {
        Some(b) => b,
        None => "<unreadable>".to_owned(),
    };
    Error::DeviceFlow(
        "error from GitHub: status=".to_owned().concat(status).concat(", body=").concat(body_text.as_str()),
    )
}

/// The flow needs a client id: an error for an empty one.
pub fn require_client_id(client_id: &str) -> (r: Result<(), Error>)
    ensures
        client_id@.len() == 0 ==> device_flow_error_is(r, "client id is required"@),
        client_id@.len() > 0 ==> r is Ok,
{
    if client_id.is_empty() {
        Err(Error::DeviceFlow("client id is required".to_owned()))
    } else {
        Ok(())
    }
}

/// The moment `seconds` seconds after `now`, as `now + TimeDelta::seconds(seconds)`
/// computes it; `None` where chrono would panic (the seconds or the sum out of range).
pub fn expiry_after(now: Timestamp, seconds: i64) -> (r: Option<Timestamp>)
    ensures
        r == (if -delta_limit() <= seconds * NANOS_PER_SEC <= delta_limit() {
            spec_checked_add(now, (Delta { secs: seconds, nanos: 0 }))
        } else {
            None
        }),
        r matches Some(t) ==> (now.is_regular() ==> t.is_regular() && t.total_nanos() == now.total_nanos()
            + seconds * NANOS_PER_SEC),
{
    match Delta::try_seconds(seconds) {
        Some(d) => now.checked_add(d),
        None => None,
    }
}

/// Whether the device code has expired at `now`: once `now` reaches `expiration_date`.
pub fn check_deadline(now: Timestamp, expiration_date: Timestamp) -> (r: Result<(), Error>)
    ensures
        expiration_date.spec_is_after(now) ==> r is Ok,
        !expiration_date.spec_is_after(now) ==> device_flow_error_is(r, "device code expired"@),
{
    if expiration_date.is_after(&now) {
        Ok(())
    } else {
        Err(Error::DeviceFlow("device code expired".to_owned()))
    }
}

/// The interval after a response with the given error text: 5 seconds more
/// after `slow_down`, unchanged otherwise.
pub open spec fn next_interval(interval: int, error: Seq<char>) -> int {
    if error == "slow_down"@ {
        interval + ADDITIONAL_INTERVAL_SECS
    } else {
        interval
    }
}

/// The interval after a series of responses, starting from `start`.
pub open spec fn interval_after(start: int, errors: Seq<Seq<char>>) -> int
    decreases errors.len(),
{
    if errors.len() == 0 {
        start
    } else {
        next_interval(interval_after(start, errors.drop_last()), errors.last())
    }
}

/// The number of `slow_down` responses in a series.
pub open spec fn slow_downs(errors: Seq<Seq<char>>) -> nat
    decreases errors.len(),
{
    if errors.len() == 0 {
        0
    } else {
        slow_downs(errors.drop_last()) + if errors.last() == "slow_down"@ {
            1nat
        } else {
            0nat
        }
    }
}

/// Polling uses fixed steps, not exponential backoff: after any series of
/// responses the interval is the starting interval plus 5 seconds per
/// `slow_down`, so it never shrinks.
pub proof fn lemma_interval_grows_linearly(start: int, errors: Seq<Seq<char>>)
    ensures
        interval_after(start, errors) == start + ADDITIONAL_INTERVAL_SECS * slow_downs(errors),
        interval_after(start, errors) >= start,
    decreases errors.len(),
{
    if errors.len() > 0 {
        lemma_interval_grows_linearly(start, errors.drop_last());
    }
}

/// What one poll response decides.
#[derive(Debug)]
pub enum PollStep {
    /// Keep polling after the current interval.
    Retry,
    /// The user authorized the device: the token response.
    Done(AccessTokenResponse),
    /// The flow failed.
    Failed(Error),
}

/// The polling schedule: the interval to wait before each access token request.
#[derive(Debug)]
pub struct Poller {
    interval_secs: u64,
}

impl Poller {
    #[verifier::type_invariant]
    spec fn at_least_minimum(self) -> bool {
        self.interval_secs >= 5
    }

    /// The current interval in seconds.
    pub closed spec fn spec_interval(self) -> u64 {
        self.interval_secs
    }

    /// Start polling: the interval is the server's interval, but at least 5 seconds.
    pub fn new(server_interval: i64) -> (r: Poller)
        ensures
            r.spec_interval() == if server_interval >= MIN_INTERVAL_SECS {
                server_interval as int
            } else {
                MIN_INTERVAL_SECS as int
            },
    {
        let secs: i64 = if server_interval >= MIN_INTERVAL_SECS {
            server_interval
        } else {
            MIN_INTERVAL_SECS
        };
        Poller { interval_secs: secs as u64 }
    }

    /// The current interval in seconds; never below 5.
    pub fn interval_secs(&self) -> (r: u64)
        ensures
            r == self.spec_interval(),
            r >= 5,
    {
        proof {
            use_type_invariant(self);
        }
        self.interval_secs
    }

    /// Decide on one access token response: success when it carries no error,
    /// another wait on `authorization_pending`, another and 5 seconds longer
    /// wait on `slow_down`, and failure on any other error.
    pub fn on_response(&mut self, resp: AccessTokenResponse) -> (r: PollStep)
        requires
            resp.error@ == "slow_down"@ ==> old(self).spec_interval() + ADDITIONAL_INTERVAL_SECS <= u64::MAX,
        ensures
            final(self).spec_interval() == next_interval(old(self).spec_interval() as int, resp.error@),
            resp.error@.len() == 0 ==> (r matches PollStep::Done(x) && x@ == resp@)
                && final(self).spec_interval() == old(self).spec_interval(),
            resp.error@ == "authorization_pending"@ ==> r is Retry && final(self).spec_interval()
                == old(self).spec_interval(),
            resp.error@ == "slow_down"@ ==> r is Retry && final(self).spec_interval()
                == old(self).spec_interval() + ADDITIONAL_INTERVAL_SECS,
            resp.error@.len() > 0 && resp.error@ != "authorization_pending"@ && resp.error@
                != "slow_down"@ ==> (r matches PollStep::Failed(e) && e@ == ErrorView::DeviceFlow(
                "device flow error: "@ + resp.error@,
            )) && final(self).spec_interval() == old(self).spec_interval(),
    {
        proof {
            use_type_invariant(&*self);
            reveal_strlit("slow_down");
            reveal_strlit("authorization_pending");
        }
        let error = resp.error.clone();
        if error.as_str().is_empty() {
            PollStep::Done(resp)
        } else if error == "authorization_pending".to_owned() {
            PollStep::Retry
        } else if error == "slow_down".to_owned() {
            self.interval_secs = self.interval_secs + ADDITIONAL_INTERVAL_SECS;
            PollStep::Retry
        } else {
            PollStep::Failed(Error::DeviceFlow("device flow error: ".to_owned().concat(error.as_str())))
        }
    }
}

} // verus!
