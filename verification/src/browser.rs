//! Opening URLs in a web browser.

use vstd::prelude::*;

verus! {

/// Errors from opening a browser.
#[derive(Debug)]
pub enum BrowserError {
    /// No browser command was found on the system.
    NoCommandFound,
    /// The browser command existed but failed.
    Failed(String),
}

/// The mathematical value of a [`BrowserError`].
pub enum BrowserErrorView {
    NoCommandFound,
    Failed(Seq<char>),
}

impl View for BrowserError {
    type V = BrowserErrorView;

    open spec fn view(&self) -> BrowserErrorView {
        match self {
            BrowserError::NoCommandFound => BrowserErrorView::NoCommandFound,
            BrowserError::Failed(m) => BrowserErrorView::Failed(m@),
        }
    }
}

impl BrowserErrorView {
    /// The human-readable text of the error.
    pub open spec fn text(self) -> Seq<char> {
        match self {
            BrowserErrorView::NoCommandFound => "no command found to open the browser"@,
            BrowserErrorView::Failed(m) => m,
        }
    }
}

impl BrowserError {
    /// The human-readable text of the error.
    pub fn to_string(&self) -> (r: String)
        ensures
            r@ == self@.text(),
    {
        match self {
            BrowserError::NoCommandFound => "no command found to open the browser".to_owned(),
            BrowserError::Failed(m) => m.clone(),
        }
    }
}

/// Something that opens URLs, such as the user's default browser.
pub trait Browser: Send + Sync {
    /// Open `url`.
    fn open(&self, url: &str) -> Result<(), BrowserError>;
}

/// What a failed attempt to open the browser is reported as: nothing when it
/// succeeded or when no browser command exists, the failure's message otherwise.
pub fn browser_warning(result: &Result<(), BrowserError>) -> (r: Option<String>)
    ensures
        match result {
            Err(BrowserError::Failed(m)) => r matches Some(s) && s@ == m@,
            _ => r is None,
        },
{
    match result {
        Err(BrowserError::Failed(m)) => Some(m.clone()),
        _ => None,
    }
}

} // verus!
