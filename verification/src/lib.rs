//! GitHub token management via the OAuth device flow.
//!
//! The verified core of the library: configuration validation and app
//! selection, the keyring record format, the device-flow polling rules and
//! the decisions of the token flow.  The asynchronous network, keyring and
//! terminal plumbing drives these functions from the outside.

pub mod api;
pub mod browser;
pub mod config;
pub mod deviceflow;
pub mod error;
pub mod github;
pub mod json_keys;
pub mod keyring;
pub mod text;
pub mod time;

pub use api::{InputGet, TokenCache};
pub use browser::{Browser, BrowserError};
pub use config::{App, Config};
pub use deviceflow::{DeviceCodeResponse, DeviceCodeUI};
pub use error::Error;
pub use keyring::{AccessToken, Keyring, KeyringBackend, DEFAULT_SERVICE_KEY};
pub use time::{TimeSpan, Timestamp};
