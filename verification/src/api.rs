//! The decisions of the token flow: config -> app -> keyring -> device flow
//! -> GitHub user -> keyring.
//!
//! The flow itself is asynchronous and runs outside; at each step it hands
//! what it observed to one of these functions and follows the answer.

use vstd::prelude::*;

use crate::config::{
    get_path, is_valid_config, lemma_selection_defaults_to_first, lemma_validation_ok_iff_valid, path_outcome, select_app, select_index, validation, App,
    AppView, Config,
};
use crate::error::{Error, ErrorView};
use crate::keyring::{AccessToken, DEFAULT_SERVICE_KEY};
use crate::text::{trim_end_char, trim_end_matches_char};
use crate::time::{delta_limit, spec_checked_add, Delta, TimeSpan, Timestamp, NANOS_PER_SEC};

verus! {

/// Input parameters for token retrieval; every field has a sensible default.
#[derive(Debug, Clone, PartialEq, Eq)]
pub struct InputGet {
    /// Keyring service name; when empty, [`DEFAULT_SERVICE_KEY`] is used.
    pub keyring_service: String,
    /// App selection by name; when empty, the `GHTKN_APP` environment variable is used.
    pub app_name: String,
    /// Configuration file path; when empty, the platform default is used.
    pub config_file_path: String,
    /// App selection by git owner.
    pub app_owner: String,
    /// Minimum remaining token lifetime: a token that expires within this
    /// span from now is treated as expired.
    pub min_expiration: TimeSpan,
}

impl Default for InputGet {
    fn default() -> (r: InputGet)
        ensures
            r.keyring_service@.len() == 0,
            r.app_name@.len() == 0,
            r.config_file_path@.len() == 0,
            r.app_owner@.len() == 0,
            r.min_expiration.total_nanos() == 0,
    {
        InputGet {
            keyring_service: String::new(),
            app_name: String::new(),
            config_file_path: String::new(),
            app_owner: String::new(),
            min_expiration: TimeSpan::zero(),
        }
    }
}

/// The configuration file to read: the given path, or the platform default
/// ([`get_path`]) when it is empty.
pub fn config_path_for<F: Fn(&str) -> Option<String>>(config_file_path: &str, get_env: F, os: &str) -> (r: Result<String, Error>)
    requires
        forall|k: &str| #[trigger] get_env.requires((k,)),
    ensures
        config_file_path@.len() > 0 ==> (r matches Ok(p) && p@ == config_file_path@),
        config_file_path@.len() == 0 ==> exists|sep: char|
            (sep == '/' || sep == '\\') && #[trigger] path_outcome(get_env, os@, sep, r),
{
    if config_file_path.is_empty() {
        get_path(get_env, os)
    } else {
        Ok(config_file_path.to_owned())
    }
}

/// The keyring service to use: the given one, or [`DEFAULT_SERVICE_KEY`] when it is empty.
pub fn resolve_service(keyring_service: &str) -> (r: String)
    ensures
        r@ == if keyring_service@.len() == 0 {
            DEFAULT_SERVICE_KEY@
        } else {
            keyring_service@
        },
{
    if keyring_service.is_empty() {
        DEFAULT_SERVICE_KEY.to_owned()
    } else {
        keyring_service.to_owned()
    }
}

/// The app name to select by: the given one, or the value of `GHTKN_APP`
/// (empty when unset) when it is empty.
pub fn resolve_app_name(app_name: &str, env_app: Option<String>) -> (r: String)
    ensures
        r@ == if app_name@.len() > 0 {
            app_name@
        } else {
            match env_app {
                Some(v) => v@,
                None => Seq::<char>::empty(),
            }
        },
{
    if app_name.is_empty() {
        match env_app {
            Some(v) => v,
            None => String::new(),
        }
    } else {
        app_name.to_owned()
    }
}

/// What choosing the app from a configuration file gives, as a value.
pub open spec fn configured_app(cfg: Option<Seq<AppView>>, key: Seq<char>, owner: Seq<char>) -> Result<AppView, ErrorView> {
    match cfg {
        None => Err(ErrorView::Config("configuration file is empty"@)),
        Some(apps) => match validation(apps) {
            Err(m) => Err(ErrorView::Config(m)),
            Ok(()) => match select_index(apps, key, owner) {
                Some(i) => Ok(apps[i]),
                None => Err(ErrorView::Config("no matching app found"@)),
            },
        },
    }
}

/// An app is chosen only from a valid configuration: whatever the name and
/// owner asked for, an invalid configuration is answered with the first
/// problem validation finds, and a chosen app is one of the configuration's
/// apps, found as [`select_app`] finds it.
pub proof fn lemma_configured_app_needs_valid_config(apps: Seq<AppView>, key: Seq<char>, owner: Seq<char>)
    ensures
        configured_app(Some(apps), key, owner) is Ok ==> is_valid_config(apps),
        !is_valid_config(apps) ==> configured_app(Some(apps), key, owner) == Err::<AppView, ErrorView>(
            ErrorView::Config(validation(apps)->Err_0),
        ),
        configured_app(Some(apps), key, owner) matches Ok(a) ==> exists|i: int|
            0 <= i < apps.len() && apps[i] == a && select_index(apps, key, owner) == Some(i),
        configured_app(None, key, owner) is Err,
{
    lemma_validation_ok_iff_valid(apps);
    if configured_app(Some(apps), key, owner) is Ok {
        lemma_selection_defaults_to_first(apps, key, owner);
        let i = select_index(apps, key, owner)->0;
        assert(0 <= i < apps.len() && select_index(apps, key, owner) == Some(i));
    }
}

/// Choose the app for a token: the configuration must be present and valid,
/// and [`select_app`] must find an app for `app_name` and `owner`.
pub fn choose_app(cfg: Option<Config>, app_name: &str, owner: &str) -> (r: Result<App, Error>)
    ensures
        match configured_app(
            match cfg {
                Some(c) => Some(c@),
                None => None,
            },
            app_name@,
            owner@,
        ) {
            Ok(a) => r matches Ok(x) && x@ == a,
            Err(e) => r matches Err(x) && x@ == e,
        },
        r is Ok ==> (cfg matches Some(c) && is_valid_config(c@)),
        cfg matches Some(c) ==> (!is_valid_config(c@) ==> (r matches Err(x) && x@ == ErrorView::Config(
            validation(c@)->Err_0,
        ))),
{
    let cfg = match cfg {
        Some(c) => c,
        None => return Err(Error::Config("configuration file is empty".to_owned())),
    };
    proof {
        lemma_configured_app_needs_valid_config(cfg@, app_name@, owner@);
    }
    match cfg.validate() {
        Ok(()) => {},
        Err(e) => return Err(e),
    }
    match select_app(&cfg, app_name, owner) {
        Some(app) => Ok(app.copied()),
        None => Err(Error::Config("no matching app found".to_owned())),
    }
}

/// The moment `min_expiration` after `now` as chrono computes it
/// (`now + TimeDelta::from_std(min_expiration)`), or `None` where chrono cannot:
/// the span beyond its range of deltas, or the sum beyond its range of dates.
pub open spec fn chrono_deadline(now: Timestamp, min_expiration: TimeSpan) -> Option<Timestamp> {
    if min_expiration.total_nanos() <= delta_limit() {
        spec_checked_add(
            now,
            (Delta { secs: min_expiration.spec_secs() as i64, nanos: min_expiration.spec_subsec_nanos() }),
        )
    } else {
        None
    }
}

/// `now + min_expiration` lies after `expiration_date`, counted in
/// nanoseconds; a leap-second `expiration_date` counts as the last nanosecond
/// of the second before it, which is chrono's order.
pub open spec fn expires_within(expiration_date: Timestamp, now: Timestamp, min_expiration: TimeSpan) -> bool {
    now.total_nanos() + min_expiration.total_nanos() > expiration_date.clamped_nanos()
}

/// Whether a token expiring at `expiration_date` counts as expired at `now`
/// with at least `min_expiration` of lifetime required: `now + min_expiration`
/// lies after `expiration_date`, so that less than `min_expiration` remains.
/// For a `now` outside a leap second (the clock never reports one) this is
/// [`expires_within`], whatever the size of `min_expiration`.  At a leap
/// second `now + min_expiration` is chrono's sum where chrono can compute it,
/// and the nanosecond count otherwise.
pub open spec fn spec_check_expired(expiration_date: Timestamp, now: Timestamp, min_expiration: TimeSpan) -> bool {
    if now.is_regular() {
        expires_within(expiration_date, now, min_expiration)
    } else {
        match chrono_deadline(now, min_expiration) {
            Some(deadline) => deadline.spec_is_after(expiration_date),
            None => expires_within(expiration_date, now, min_expiration),
        }
    }
}

/// A timestamp's seconds and nanoseconds as one count of nanoseconds.
fn timestamp_nanos(t: Timestamp) -> (r: i128)
    ensures
        r == t.total_nanos(),
{
    let secs = t.secs as i128;
    assert(secs * 1_000_000_000 <= 9_223_372_036_854_775_807i128 * 1_000_000_000) by (nonlinear_arith)
        requires secs <= 9_223_372_036_854_775_807i128;
    assert(secs * 1_000_000_000 >= -9_223_372_036_854_775_808i128 * 1_000_000_000) by (nonlinear_arith)
        requires secs >= -9_223_372_036_854_775_808i128;
    secs * 1_000_000_000 + t.nanos as i128
}

/// A span's seconds and nanoseconds as one count of nanoseconds.
fn span_nanos(s: TimeSpan) -> (r: i128)
    ensures
        r == s.total_nanos(),
{
    let secs = s.as_secs() as i128;
    assert(secs * 1_000_000_000 <= 18_446_744_073_709_551_615i128 * 1_000_000_000) by (nonlinear_arith)
        requires 0 <= secs <= 18_446_744_073_709_551_615i128;
    assert(secs * 1_000_000_000 >= 0) by (nonlinear_arith)
        requires 0 <= secs;
    secs * 1_000_000_000 + s.subsec_nanos() as i128
}

/// A timestamp's clamped count of nanoseconds.
fn clamped_timestamp_nanos(t: Timestamp) -> (r: i128)
    ensures
        r == t.clamped_nanos(),
{
    let whole = timestamp_nanos(Timestamp { secs: t.secs, nanos: 0 });
    if t.nanos < NANOS_PER_SEC {
        whole + t.nanos as i128
    } else {
        whole + 999_999_999
    }
}

/// Whether a token expiring at `expiration_date` counts as expired at `now`.
pub fn check_expired(expiration_date: Timestamp, now: Timestamp, min_expiration: TimeSpan) -> (r: bool)
    ensures
        r == spec_check_expired(expiration_date, now, min_expiration),
        now.is_regular() ==> r == expires_within(expiration_date, now, min_expiration),
        now.is_regular() && expiration_date.is_regular() ==> r == (now.total_nanos()
            + min_expiration.total_nanos() > expiration_date.total_nanos()),
{
    if let Some(margin) = Delta::from_span(min_expiration) {
        if let Some(deadline) = now.checked_add(margin) {
            proof {
                if now.is_regular() {
                    deadline.lemma_after_clamped(expiration_date);
                }
            }
            return deadline.is_after(&expiration_date);
        }
    }
    let now_n = timestamp_nanos(now);
    let margin_n = span_nanos(min_expiration);
    let exp_n = clamped_timestamp_nanos(expiration_date);
    now_n + margin_n > exp_n
}

/// Requiring more remaining lifetime, or holding a token that expires no
/// later, never turns an expired token into a valid one: for any `now`
/// outside a leap second, leap-second expiration dates included.
pub proof fn lemma_check_expired_monotone(
    now: Timestamp,
    e1: Timestamp,
    e2: Timestamp,
    d1: TimeSpan,
    d2: TimeSpan,
)
    requires
        now.is_regular(),
        d1.total_nanos() <= d2.total_nanos(),
        !e2.spec_is_after(e1),
        spec_check_expired(e1, now, d1),
    ensures
        spec_check_expired(e2, now, d2),
{
    e2.lemma_clamped_monotone(e1);
}

/// What the keyring lookup for a token means for the flow.
#[derive(Debug)]
pub enum CachedToken {
    /// A stored token that is still valid long enough: use it.
    Valid(AccessToken),
    /// A stored token that expires too soon (its expiration date): create a new one.
    Expired(Timestamp),
    /// No stored token: create one.
    NotFound,
    /// Reading the keyring failed (the error text): create a new token.
    Unreadable(String),
}

/// Classify the result of the keyring lookup at `now`.
pub fn classify_cached_token(
    lookup: Result<Option<AccessToken>, Error>,
    now: Timestamp,
    min_expiration: TimeSpan,
) -> (r: CachedToken)
    ensures
        match lookup {
            Ok(Some(t)) => if spec_check_expired(t.expiration_date, now, min_expiration) {
                r matches CachedToken::Expired(d) && d == t.expiration_date
            } else {
                r matches CachedToken::Valid(x) && x == t
            },
            Ok(None) => r matches CachedToken::NotFound,
            Err(e) => r matches CachedToken::Unreadable(m) && m@ == e@.text(),
        },
{
    match lookup {
        Ok(Some(t)) => if check_expired(t.expiration_date, now, min_expiration) {
            CachedToken::Expired(t.expiration_date)
        } else {
            CachedToken::Valid(t)
        },
        Ok(None) => CachedToken::NotFound,
        Err(e) => CachedToken::Unreadable(e.to_string()),
    }
}

/// The outcome of storing a freshly created token: the token, or, when the
/// keyring write failed, the non-fatal store error carrying the token and its app.
pub fn stored_token_result(token: AccessToken, app: &App, store: Result<(), Error>) -> (r: Result<AccessToken, Error>)
    ensures
        match store {
            Ok(()) => r matches Ok(t) && t == token,
            Err(e) => r matches Err(x) && x@ == (ErrorView::StoreToken {
                message: e@.text(),
                token: token@,
                app: app@,
            }),
        },
{
    match store {
        Ok(()) => Ok(token),
        Err(e) => Err(
            Error::StoreToken { message: e.to_string(), token: Box::new(token), app: Box::new(app.copied()) },
        ),
    }
}

/// The answer of a token request for `app`: the token with the app, or the
/// error; a store error is answered with the token it carries and `app`.
pub fn attach_app(outcome: Result<AccessToken, Error>, app: App) -> (r: Result<(AccessToken, App), Error>)
    ensures
        match outcome {
            Ok(t) => r matches Ok((x, a)) && x == t && a == app,
            Err(Error::StoreToken { message, token, .. }) => r matches Err(x) && x@ == (ErrorView::StoreToken {
                message: message@,
                token: (*token)@,
                app: app@,
            }),
            Err(e) => r matches Err(x) && x == e,
        },
{
    match outcome {
        Ok(t) => Ok((t, app)),
        Err(Error::StoreToken { message, token, .. }) => Err(Error::StoreToken { message, token, app: Box::new(app) }),
        Err(e) => Err(e),
    }
}

/// A base URL without its trailing slashes.
pub fn normalize_base_url(url: &str) -> (r: String)
    ensures
        r@ == trim_end_char(url@, '/'),
{
    trim_end_matches_char(url, '/')
}

/// The access token a token source caches, once one was obtained.
#[derive(Debug)]
pub struct TokenCache {
    cached: Option<String>,
}

impl TokenCache {
    /// The cached token, if any.
    pub closed spec fn spec_cached(self) -> Option<Seq<char>> {
        match self.cached {
            Some(t) => Some(t@),
            None => None,
        }
    }

    /// An empty cache.
    pub fn new() -> (r: TokenCache)
        ensures
            r.spec_cached() is None,
    {
        TokenCache { cached: None }
    }

    /// The cached token, if any.
    pub fn lookup(&self) -> (r: Option<String>)
        ensures
            match self.spec_cached() {
                Some(t) => r matches Some(s) && s@ == t,
                None => r is None,
            },
    {
        match &self.cached {
            Some(t) => Some(t.clone()),
            None => None,
        }
    }

    /// Take the answer of a token request (made on a cache miss): its access
    /// token (also the one a store error carries) is cached and returned; any
    /// other error is returned and the cache is left as it was.
    pub fn record(&mut self, outcome: Result<(AccessToken, App), Error>) -> (r: Result<String, Error>)
        ensures
            match outcome {
                Ok((t, _)) => r matches Ok(s) && s@ == t.access_token@ && final(self).spec_cached()
                    == Some(t.access_token@),
                Err(Error::StoreToken { token, .. }) => r matches Ok(s) && s@ == token.access_token@
                    && final(self).spec_cached() == Some(token.access_token@),
                Err(e) => r matches Err(x) && x == e && final(self).spec_cached() == old(self).spec_cached(),
            },
    {
        let access_token = match outcome {
            Ok((t, _)) => t.access_token,
            Err(Error::StoreToken { token, .. }) => token.access_token,
            Err(e) => return Err(e),
        };
        self.cached = Some(access_token.clone());
        Ok(access_token)
    }
}

} // verus!
