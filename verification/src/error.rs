//! What can go wrong while a request is served, and how a client sees it.

use vstd::prelude::*;
use vstd::string::*;

verus! {

/// A failure of a request. Each variant carries the text that describes the
/// cause.
#[derive(Debug, Clone, PartialEq, Eq)]
pub enum Error {
    /// The session store could not be read.
    SessionGetError(String),
    /// The session store could not be written.
    SessionInsertError(String),
    /// The session id in the request's path is no UUID.
    BadUuid(String),
    /// The media stack refused or failed an operation.
    WebrtcError(String),
    /// Anything else, such as a malformed SDP fragment.
    InternalError(String),
}

/// An [`Error`] with its text as a sequence of characters.
pub enum ErrorView {
    SessionGetError(Seq<char>),
    SessionInsertError(Seq<char>),
    BadUuid(Seq<char>),
    WebrtcError(Seq<char>),
    InternalError(Seq<char>),
}

impl View for Error {
    type V = ErrorView;

    open spec fn view(&self) -> ErrorView {
        match self {
            Error::SessionGetError(cause) => ErrorView::SessionGetError(cause@),
            Error::SessionInsertError(cause) => ErrorView::SessionInsertError(cause@),
            Error::BadUuid(cause) => ErrorView::BadUuid(cause@),
            Error::WebrtcError(cause) => ErrorView::WebrtcError(cause@),
            Error::InternalError(cause) => ErrorView::InternalError(cause@),
        }
    }
}

impl ErrorView {
    /// The HTTP status that answers a request which failed this way.
    pub open spec fn status(self) -> u16 {
        match self {
            ErrorView::SessionGetError(_) => 503,
            ErrorView::SessionInsertError(_) => 503,
            ErrorView::BadUuid(_) => 400,
            ErrorView::WebrtcError(_) => 500,
            ErrorView::InternalError(_) => 500,
        }
    }

    /// The text sent to the client as the body of the answer.
    pub open spec fn text(self) -> Seq<char> {
        match self {
            ErrorView::SessionGetError(cause) => cause,
            ErrorView::SessionInsertError(cause) => cause,
            ErrorView::BadUuid(cause) => "Bad UUID: "@ + cause,
            ErrorView::WebrtcError(cause) => "Webrtc Error: "@ + cause,
            ErrorView::InternalError(cause) => "Internal Error: "@ + cause,
        }
    }
}

impl Error {
    /// The HTTP status that answers a request which failed this way: 503
    /// for the session store, 400 for a bad session id, 500 otherwise.
    pub fn status_code(&self) -> (code: u16)
        ensures
            code == self@.status(),
    {
        match self {
            Error::SessionGetError(_) => 503,
            Error::SessionInsertError(_) => 503,
            Error::BadUuid(_) => 400,
            Error::WebrtcError(_) => 500,
            Error::InternalError(_) => 500,
        }
    }

    /// The text sent to the client as the body of the answer.
    pub fn message(&self) -> (text: String)
        ensures
            text@ == self@.text(),
    {
        match self {
            Error::SessionGetError(cause) => cause.clone(),
            Error::SessionInsertError(cause) => cause.clone(),
            Error::BadUuid(cause) => "Bad UUID: ".to_owned().concat(cause.as_str()),
            Error::WebrtcError(cause) => "Webrtc Error: ".to_owned().concat(cause.as_str()),
            Error::InternalError(cause) => "Internal Error: ".to_owned().concat(cause.as_str()),
        }
    }

    /// The failure reported for an SDP text that lacks a field it must
    /// have, or has it too often.
    pub fn malformed_sdp() -> (error: Error)
        ensures
            error@ == ErrorView::InternalError("SDP malformed"@),
    {
        Error::InternalError("SDP malformed".to_owned())
    }
}

} // verus!
