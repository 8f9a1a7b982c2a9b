//! The errors of the protocol.

use crate::responses::{FxpStatus, FxpStatusCode, SftpResponsePacket};
use std::sync::Arc;
use vstd::prelude::*;
use vstd::string::StringExecFns;

verus! {

/// What can go wrong between a request and its reply.
#[derive(Debug, Clone, PartialEq, Eq)]
pub enum Error {
    /// The reader of replies has stopped; the cause is shared by every
    /// request that was waiting and by every later one.
    ReceiverDisconnected(Arc<Box<Error>>),
    /// The stream below failed; the text is the stream's own account of it.
    Io(String),
    /// A frame is longer than the message in it.
    UnexpectedData,
    /// A frame or a field ends before it is complete.
    UnexpectedEOF,
    /// The text of a status message is not UTF-8.
    Utf8,
    /// A reply names a request that nobody waits for.
    NoMatchingRequest(u32),
    /// The server speaks another version of the protocol.
    MismatchedVersion(u32),
    /// A well-formed reply of a kind that the request cannot have.
    UnexpectedResponse(Box<SftpResponsePacket>),
    /// The server refused the request.
    ServerError(Box<FxpStatus>),
}

/// The kinds of failure that a file operation reports.
#[derive(Debug, Clone, Copy, PartialEq, Eq)]
pub enum IoErrorKind {
    /// The file does not exist.
    NotFound,
    /// The server does not allow the operation.
    PermissionDenied,
    /// The operation was asked for in a way that cannot be carried out.
    InvalidInput,
    /// Any other failure.
    Other,
}

/// Why reading, writing or seeking in a file failed.
#[derive(Debug, Clone, PartialEq, Eq)]
pub enum IoError {
    /// The server answered with this status.
    Status(FxpStatus),
    /// The exchange with the server failed, or its reply was out of place.
    Unknown,
    /// The position asked for lies before the start of the file, or beyond
    /// what a position can hold.
    InvalidSeek,
    /// The server did not tell the size of the file.
    SizeNotKnown,
}

impl IoError {
    /// The kind of this failure, as mathematics sees it.
    pub open spec fn spec_kind(&self) -> IoErrorKind {
        match self {
            IoError::Status(status) => match status.code {
                FxpStatusCode::NoSuchFile => IoErrorKind::NotFound,
                FxpStatusCode::PermissionDenied => IoErrorKind::PermissionDenied,
                _ => IoErrorKind::Other,
            },
            IoError::Unknown => IoErrorKind::Other,
            IoError::InvalidSeek => IoErrorKind::InvalidInput,
            IoError::SizeNotKnown => IoErrorKind::Other,
        }
    }

    /// The kind of this failure: a missing file and a refusal have kinds of
    /// their own, a bad seek is invalid input, all else is `Other`.
    pub fn kind(&self) -> (k: IoErrorKind)
        ensures
            k == self.spec_kind(),
    {
        match self {
            IoError::Status(status) => match status.code {
                FxpStatusCode::NoSuchFile => IoErrorKind::NotFound,
                FxpStatusCode::PermissionDenied => IoErrorKind::PermissionDenied,
                _ => IoErrorKind::Other,
            },
            IoError::Unknown => IoErrorKind::Other,
            IoError::InvalidSeek => IoErrorKind::InvalidInput,
            IoError::SizeNotKnown => IoErrorKind::Other,
        }
    }
}

/// The character for the digit `d`.
pub open spec fn digit_char(d: nat) -> char
    recommends
        d < 10,
{
    (0x30 + d) as u8 as char
}

/// The number `n` in decimal digits, without leading zeros.
pub open spec fn decimal(n: nat) -> Seq<char>
    decreases n,
{
    if n < 10 {
        seq![digit_char(n)]
    } else {
        decimal(n / 10).push(digit_char(n % 10))
    }
}

/// `u32::to_string`: the number in decimal digits, without leading zeros.
#[verifier::external_body]
fn decimal_string(n: u32) -> (s: String)
    ensures
        s@ == decimal(n as nat),
{
    n.to_string()
}

impl FxpStatusCode {
    /// The name of this code, as mathematics sees it.
    pub open spec fn spec_name(&self) -> Seq<char> {
        match self {
            FxpStatusCode::Okay => "Ok"@,
            FxpStatusCode::EOF => "EOF"@,
            FxpStatusCode::NoSuchFile => "NoSuchFile"@,
            FxpStatusCode::PermissionDenied => "PermissionDenied"@,
            FxpStatusCode::Failure => "Failure"@,
            FxpStatusCode::BadMessage => "BadMessage"@,
            FxpStatusCode::NoConnection => "NoConnection"@,
            FxpStatusCode::ConnectionLost => "ConnectionLost"@,
            FxpStatusCode::OpUnsupported => "OpUnsupported"@,
            FxpStatusCode::UnknownCode(_) => "UnknownCode"@,
        }
    }

    /// The name of this code.
    pub fn name(&self) -> (s: &'static str)
        ensures
            s@ == self.spec_name(),
    {
        match self {
            FxpStatusCode::Okay => "Ok",
            FxpStatusCode::EOF => "EOF",
            FxpStatusCode::NoSuchFile => "NoSuchFile",
            FxpStatusCode::PermissionDenied => "PermissionDenied",
            FxpStatusCode::Failure => "Failure",
            FxpStatusCode::BadMessage => "BadMessage",
            FxpStatusCode::NoConnection => "NoConnection",
            FxpStatusCode::ConnectionLost => "ConnectionLost",
            FxpStatusCode::OpUnsupported => "OpUnsupported",
            FxpStatusCode::UnknownCode(_) => "UnknownCode",
        }
    }
}

impl FxpStatus {
    /// The text that the server sent.
    pub fn description(&self) -> (s: &str)
        ensures
            s@ == self.msg@,
    {
        self.msg.as_str()
    }

    /// This status in words, as mathematics sees it.
    pub open spec fn spec_message(&self) -> Seq<char> {
        self.code.spec_name() + ": "@ + self.msg@
    }

    /// This status in words: the name of the code, a colon, the text.
    pub fn message(&self) -> (s: String)
        ensures
            s@ == self.spec_message(),
    {
        let mut s = String::from_str(self.code.name());
        s.append(": ");
        s.append(self.msg.as_str());
        s
    }
}

impl IoError {
    /// This failure in words, as mathematics sees it.
    pub open spec fn spec_message(&self) -> Seq<char> {
        match self {
            IoError::Status(status) => status.spec_message(),
            IoError::Unknown => "unknown error"@,
            IoError::InvalidSeek => "can not seek past beginning of file"@,
            IoError::SizeNotKnown => "size not known"@,
        }
    }

    /// This failure in words.
    pub fn message(&self) -> (s: String)
        ensures
            s@ == self.spec_message(),
    {
        match self {
            IoError::Status(status) => status.message(),
            IoError::Unknown => String::from_str("unknown error"),
            IoError::InvalidSeek => String::from_str("can not seek past beginning of file"),
            IoError::SizeNotKnown => String::from_str("size not known"),
        }
    }
}

impl Error {
    /// The error for a failure of the stream below: a stream that ended
    /// too early is an unexpected end, and any other failure is kept with
    /// the stream's account of it.
    pub fn from_io(unexpected_eof: bool, text: String) -> (e: Error)
        ensures
            e == if unexpected_eof {
                Error::UnexpectedEOF
            } else {
                Error::Io(text)
            },
    {
        if unexpected_eof {
            Error::UnexpectedEOF
        } else {
            Error::Io(text)
        }
    }

    /// What kind of error this is, in a few words, as mathematics sees it.
    pub open spec fn spec_description(&self) -> Seq<char> {
        match self {
            Error::ReceiverDisconnected(_) => "Receiver disconnected."@,
            Error::Io(text) => text@,
            Error::UnexpectedData => "Unexpected data in message."@,
            Error::UnexpectedEOF => "Unexpected EOF."@,
            Error::Utf8 => "Invalid UTF-8 in status message."@,
            Error::NoMatchingRequest(_) => "Response received with an unexpected request-id."@,
            Error::MismatchedVersion(_) => "Server responded with an incorrect version"@,
            Error::UnexpectedResponse(_) => "Unexpected response"@,
            Error::ServerError(status) => status.msg@,
        }
    }

    /// What kind of error this is, in a few words.
    pub fn description(&self) -> (s: &str)
        ensures
            s@ == self.spec_description(),
    {
        match self {
            Error::ReceiverDisconnected(_) => "Receiver disconnected.",
            Error::Io(text) => text.as_str(),
            Error::UnexpectedData => "Unexpected data in message.",
            Error::UnexpectedEOF => "Unexpected EOF.",
            Error::Utf8 => "Invalid UTF-8 in status message.",
            Error::NoMatchingRequest(_) => "Response received with an unexpected request-id.",
            Error::MismatchedVersion(_) => "Server responded with an incorrect version",
            Error::UnexpectedResponse(_) => "Unexpected response",
            Error::ServerError(status) => status.description(),
        }
    }

    /// The error behind this one: the cause for which the reader of
    /// replies stopped, and nothing for any other error.
    pub fn cause(&self) -> (c: Option<&Error>)
        ensures
            c == match self {
                Error::ReceiverDisconnected(e) => Some(&***e),
                _ => None,
            },
    {
        match self {
            Error::ReceiverDisconnected(e) => Some(&***e),
            _ => None,
        }
    }

    /// This error in words, as mathematics sees it.
    pub open spec fn spec_message(&self) -> Seq<char>
        decreases self,
    {
        match self {
            Error::ReceiverDisconnected(reason) => "Receiver disconnected: "@
                + reason.spec_message(),
            Error::Io(text) => text@,
            Error::UnexpectedData => "Unexpected data in message."@,
            Error::UnexpectedEOF => "Unexpected EOF."@,
            Error::Utf8 => "Invalid UTF-8 in status message."@,
            Error::NoMatchingRequest(id) => "Response received with an unexpected request-id: "@
                + decimal(*id as nat),
            Error::MismatchedVersion(version) => "Server responded with version "@ + decimal(
                *version as nat,
            ) + ". Only version 3 is supported."@,
            Error::UnexpectedResponse(_) => "Unexpected response"@,
            Error::ServerError(status) => status.spec_message(),
        }
    }

    /// This error in words.
    pub fn message(&self) -> (s: String)
        ensures
            s@ == self.spec_message(),
        decreases self,
    {
        match self {
            Error::ReceiverDisconnected(reason) => {
                let mut s = String::from_str("Receiver disconnected: ");
                let inner = reason.message();
                s.append(inner.as_str());
                s
            },
            Error::Io(text) => String::from_str(text.as_str()),
            Error::UnexpectedData => String::from_str("Unexpected data in message."),
            Error::UnexpectedEOF => String::from_str("Unexpected EOF."),
            Error::Utf8 => String::from_str("Invalid UTF-8 in status message."),
            Error::NoMatchingRequest(id) => {
                let mut s = String::from_str("Response received with an unexpected request-id: ");
                s.append(decimal_string(*id).as_str());
                s
            },
            Error::MismatchedVersion(version) => {
                let mut s = String::from_str("Server responded with version ");
                s.append(decimal_string(*version).as_str());
                s.append(". Only version 3 is supported.");
                s
            },
            Error::UnexpectedResponse(_) => String::from_str("Unexpected response"),
            Error::ServerError(status) => status.message(),
        }
    }
}

} // verus!
