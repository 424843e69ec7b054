//! The error type of the library.

use vstd::prelude::*;

use crate::config::{App, AppView};
use crate::keyring::{AccessToken, AccessTokenView};

verus! {

/// All possible errors of the library.
#[derive(Debug)]
pub enum Error {
    Config(String),
    Keyring(String),
    DeviceFlow(String),
    GitHub(String),
    Browser(String),
    /// Non-fatal: a token was obtained but could not be stored; it is carried
    /// here together with the app it belongs to.
    StoreToken { message: String, token: Box<AccessToken>, app: Box<App> },
    Other(String),
}

/// The mathematical value of an [`Error`].
pub enum ErrorView {
    Config(Seq<char>),
    Keyring(Seq<char>),
    DeviceFlow(Seq<char>),
    GitHub(Seq<char>),
    Browser(Seq<char>),
    StoreToken { message: Seq<char>, token: AccessTokenView, app: AppView },
    Other(Seq<char>),
}

impl View for Error {
    type V = ErrorView;

    open spec fn view(&self) -> ErrorView {
        match self {
            Error::Config(m) => ErrorView::Config(m@),
            Error::Keyring(m) => ErrorView::Keyring(m@),
            Error::DeviceFlow(m) => ErrorView::DeviceFlow(m@),
            Error::GitHub(m) => ErrorView::GitHub(m@),
            Error::Browser(m) => ErrorView::Browser(m@),
            Error::StoreToken { message, token, app } => ErrorView::StoreToken {
                message: message@,
                token: (**token)@,
                app: (**app)@,
            },
            Error::Other(m) => ErrorView::Other(m@),
        }
    }
}

impl ErrorView {
    /// The human-readable text of the error.
    pub open spec fn text(self) -> Seq<char> {
        match self {
            ErrorView::Config(m) => "config error: "@ + m,
            ErrorView::Keyring(m) => "keyring error: "@ + m,
            ErrorView::DeviceFlow(m) => "device flow error: "@ + m,
            ErrorView::GitHub(m) => "github API error: "@ + m,
            ErrorView::Browser(m) => "browser error: "@ + m,
            ErrorView::StoreToken { message, .. } => "store token error: "@ + message,
            ErrorView::Other(m) => m,
        }
    }
}

impl Error {
    /// The human-readable text of the error.
    pub fn to_string(&self) -> (r: String)
        ensures
            r@ == self@.text(),
    {
        match self {
            Error::Config(m) => "config error: ".to_owned().concat(m.as_str()),
            Error::Keyring(m) => "keyring error: ".to_owned().concat(m.as_str()),
            Error::DeviceFlow(m) => "device flow error: ".to_owned().concat(m.as_str()),
            Error::GitHub(m) => "github API error: ".to_owned().concat(m.as_str()),
            Error::Browser(m) => "browser error: ".to_owned().concat(m.as_str()),
            Error::StoreToken { message, .. } => "store token error: ".to_owned().concat(
                message.as_str(),
            ),
            Error::Other(m) => m.clone(),
        }
    }
}

} // verus!
