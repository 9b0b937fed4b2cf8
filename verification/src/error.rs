//! The errors of the library, and the text that describes each.

use crate::text::{decimal_digits, push_decimal};
use vstd::prelude::*;
use vstd::string::StringExecFns;

verus! {

/// The error envelope that the remote service sends with a failed call.
#[derive(Debug, Clone)]
pub struct LastFmErrorResponse {
    /// What went wrong, in the service's words.
    pub message: String,
    /// The service's number for the error.
    pub error: u32,
}

/// What a [`LastFmErrorResponse`] stands for.
pub struct LastFmErrorResponseView {
    pub message: Seq<char>,
    pub error: u32,
}

impl View for LastFmErrorResponse {
    type V = LastFmErrorResponseView;

    open spec fn view(&self) -> LastFmErrorResponseView {
        LastFmErrorResponseView { message: self.message@, error: self.error }
    }
}

/// What can go wrong when items are fetched.
#[derive(Debug, Clone)]
pub enum LastFmError {
    /// The remote service answered with an error of its own.
    Api(LastFmErrorResponse),
    /// The request did not get through: no connection, a timeout, a failed
    /// handshake. Holds the diagnostic.
    Http(String),
    /// A response did not have the expected form, or one of its fields did
    /// not hold what it should. Holds the diagnostic.
    Parse(String),
    /// A file could not be read or written. Holds the diagnostic.
    Io(String),
    /// A required setting is missing. Holds its name.
    MissingEnvVar(String),
    /// Anything else. Holds the diagnostic.
    Other(String),
}

/// What a [`LastFmError`] stands for.
pub enum LastFmErrorView {
    Api(LastFmErrorResponseView),
    Http(Seq<char>),
    Parse(Seq<char>),
    Io(Seq<char>),
    MissingEnvVar(Seq<char>),
    Other(Seq<char>),
}

impl View for LastFmError {
    type V = LastFmErrorView;

    open spec fn view(&self) -> LastFmErrorView {
        match self {
            LastFmError::Api(e) => LastFmErrorView::Api(e@),
            LastFmError::Http(e) => LastFmErrorView::Http(e@),
            LastFmError::Parse(e) => LastFmErrorView::Parse(e@),
            LastFmError::Io(e) => LastFmErrorView::Io(e@),
            LastFmError::MissingEnvVar(e) => LastFmErrorView::MissingEnvVar(e@),
            LastFmError::Other(e) => LastFmErrorView::Other(e@),
        }
    }
}

/// A decoded payload as the contracts see it.
pub open spec fn payload_view<T>(payload: Result<T, String>) -> Result<T, Seq<char>> {
    match payload {
        Ok(p) => Ok(p),
        Err(d) => Err(d@),
    }
}

/// A decoded error envelope as the contracts see it.
pub open spec fn envelope_view(envelope: Result<LastFmErrorResponse, String>) -> Result<
    LastFmErrorResponseView,
    Seq<char>,
> {
    match envelope {
        Ok(e) => Ok(e@),
        Err(d) => Err(d@),
    }
}

/// The text that describes an error.
pub open spec fn error_text(e: LastFmErrorView) -> Seq<char> {
    match e {
        LastFmErrorView::Api(r) => "Last.fm API error "@ + decimal_digits(r.error as nat) + ": "@
            + r.message,
        LastFmErrorView::Http(d) => "HTTP error: "@ + d,
        LastFmErrorView::Parse(d) => "Parse error: "@ + d,
        LastFmErrorView::Io(d) => "I/O error: "@ + d,
        LastFmErrorView::MissingEnvVar(name) => "Missing required environment variable: "@ + name
            + "\nPlease set it in your environment or .env file"@,
        LastFmErrorView::Other(d) => "Error: "@ + d,
    }
}

/// The error for a request that came to nothing: a body that could not be
/// decoded is a parse error, anything else is a failure of the transport.
pub open spec fn failure_of(decode: bool, diagnostic: Seq<char>) -> LastFmErrorView {
    if decode {
        LastFmErrorView::Parse(diagnostic)
    } else {
        LastFmErrorView::Http(diagnostic)
    }
}

/// What a reply with the given status and decoded bodies amounts to. With a
/// status that is no success the body is an error envelope and never a
/// payload; where the body in question could not be decoded, the reply is a
/// parse error with the diagnostic.
pub open spec fn reply_of<T>(
    success: bool,
    payload: Result<T, Seq<char>>,
    envelope: Result<LastFmErrorResponseView, Seq<char>>,
) -> Result<T, LastFmErrorView> {
    if success {
        match payload {
            Ok(p) => Ok(p),
            Err(d) => Err(LastFmErrorView::Parse(d)),
        }
    } else {
        match envelope {
            Ok(e) => Err(LastFmErrorView::Api(e)),
            Err(d) => Err(LastFmErrorView::Parse(d)),
        }
    }
}

impl LastFmError {
    /// The error for a request that came to nothing, with its diagnostic:
    /// `decode` says that a body arrived and could not be decoded.
    pub fn from_failure(decode: bool, diagnostic: String) -> (e: LastFmError)
        ensures
            e@ == failure_of(decode, diagnostic@),
    {
        if decode {
            LastFmError::Parse(diagnostic)
        } else {
            LastFmError::Http(diagnostic)
        }
    }

    /// What a reply amounts to, given whether its status was a success and
    /// what decoding its body gave: as a payload, and as an error envelope.
    pub fn from_reply<T>(
        success: bool,
        payload: Result<T, String>,
        envelope: Result<LastFmErrorResponse, String>,
    ) -> (r: Result<T, LastFmError>)
        ensures
            match r {
                Ok(p) => reply_of(
                    success,
                    payload_view(payload),
                    envelope_view(envelope),
                ) == Ok::<T, LastFmErrorView>(p),
                Err(e) => reply_of(
                    success,
                    payload_view(payload),
                    envelope_view(envelope),
                ) == Err::<T, LastFmErrorView>(e@),
            },
    {
        if success {
            match payload {
                Ok(p) => Ok(p),
                Err(d) => Err(LastFmError::Parse(d)),
            }
        } else {
            match envelope {
                Ok(e) => Err(LastFmError::Api(e)),
                Err(d) => Err(LastFmError::Parse(d)),
            }
        }
    }

    /// The text that describes the error.
    pub fn message(&self) -> (text: String)
        ensures
            text@ == error_text(self@),
    {
        match self {
            LastFmError::Api(r) => {
                let mut text = "Last.fm API error ".to_owned();
                push_decimal(&mut text, r.error as u64);
                text.append(": ");
                text.append(r.message.as_str());
                text
            },
            LastFmError::Http(d) => "HTTP error: ".to_owned().concat(d.as_str()),
            LastFmError::Parse(d) => "Parse error: ".to_owned().concat(d.as_str()),
            LastFmError::Io(d) => "I/O error: ".to_owned().concat(d.as_str()),
            LastFmError::MissingEnvVar(name) => {
                let mut text = "Missing required environment variable: ".to_owned();
                text.append(name.as_str());
                text.append("\nPlease set it in your environment or .env file");
                text
            },
            LastFmError::Other(d) => "Error: ".to_owned().concat(d.as_str()),
        }
    }
}

} // verus!
