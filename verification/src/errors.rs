//! The failures that the stages report. None is retried; each ends the unit of
//! work that met it.

use vstd::prelude::*;

verus! {

/// A request that got no usable answer.
#[derive(Debug, Clone, Copy, PartialEq, Eq, Structural)]
pub enum NetworkError {
    /// The server answered with a status outside 200..=299.
    HttpStatus(u16),
    /// The request could not be sent or its answer could not be read.
    Transport,
    /// No answer came within the time allowed.
    Timeout,
}

/// The portal refused the credentials.
#[derive(Debug, Clone, Copy, PartialEq, Eq, Structural)]
pub enum AuthError {
    /// The login request was answered with this status, outside 200..=299.
    Rejected(u16),
}

/// A session snapshot that cannot be used.
#[derive(Debug, Clone, Copy, PartialEq, Eq, Structural)]
pub enum SessionError {
    /// The bytes are no snapshot of a cookie collection.
    Corrupt,
    /// The cookie collection could not be written out.
    Unwritable,
}

/// The form handshake did not come to an end.
#[derive(Debug, Clone, Copy, PartialEq, Eq, Structural)]
pub enum NavigationError {
    /// A further request was called for after `ceiling` requests had been sent.
    TooManyHops { ceiling: usize },
}

/// A page or an asset could not be fetched.
#[derive(Debug, Clone, Copy, PartialEq, Eq, Structural)]
pub enum DownloadError {
    /// The server answered with this status, outside 200..=299.
    HttpStatus(u16),
}

/// Markup that does not hold what is needed.
#[derive(Debug, Clone, PartialEq, Eq)]
pub enum ParseError {
    /// No meta tag has this name.
    MissingField(String),
    /// This text is no unsigned numeral, or its value does not fit.
    InvalidNumber(String),
    /// The pattern was found nowhere.
    NoMatches,
    /// A search pattern was refused by the matcher.
    BadPattern,
}

/// What a `ParseError` says, with texts as sequences of characters.
pub enum ParseErrorView {
    MissingField(Seq<char>),
    InvalidNumber(Seq<char>),
    NoMatches,
    BadPattern,
}

impl View for ParseError {
    type V = ParseErrorView;

    open spec fn view(&self) -> ParseErrorView {
        match self {
            ParseError::MissingField(key) => ParseErrorView::MissingField(key@),
            ParseError::InvalidNumber(text) => ParseErrorView::InvalidNumber(text@),
            ParseError::NoMatches => ParseErrorView::NoMatches,
            ParseError::BadPattern => ParseErrorView::BadPattern,
        }
    }
}

/// The view of a parsing result: that of the value or that of the error.
pub open spec fn parsed_view<T: View>(r: Result<T, ParseError>) -> Result<T::V, ParseErrorView> {
    match r {
        Ok(value) => Ok(value@),
        Err(e) => Err(e@),
    }
}

/// Any failure of the pipeline.
#[derive(Debug, Clone, PartialEq, Eq)]
pub enum Failure {
    Network(NetworkError),
    Auth(AuthError),
    Session(SessionError),
    Navigation(NavigationError),
    Download(DownloadError),
    Parse(ParseError),
}

/// What a `Failure` says, with texts as sequences of characters.
pub enum FailureView {
    Network(NetworkError),
    Auth(AuthError),
    Session(SessionError),
    Navigation(NavigationError),
    Download(DownloadError),
    Parse(ParseErrorView),
}

impl View for Failure {
    type V = FailureView;

    open spec fn view(&self) -> FailureView {
        match self {
            Failure::Network(e) => FailureView::Network(*e),
            Failure::Auth(e) => FailureView::Auth(*e),
            Failure::Session(e) => FailureView::Session(*e),
            Failure::Navigation(e) => FailureView::Navigation(*e),
            Failure::Download(e) => FailureView::Download(*e),
            Failure::Parse(e) => FailureView::Parse(e@),
        }
    }
}

} // verus!
