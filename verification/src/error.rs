//! The ways in which a request can fail.

use vstd::prelude::*;
use vstd::string::StringExecFns;

verus! {

/// Why a call failed. Nothing is retried and nothing is swallowed: the first
/// failure of a call is what the caller gets.
#[derive(Debug, Clone, PartialEq, Eq)]
pub enum ClientError {
    /// The URL does not parse, or it names no host. The text names the defect.
    InvalidInput(String),
    /// The connection could not be opened. The text is the transport's reason.
    ConnectionFailure(String),
    /// Writing the request or reading the response failed. The text is the
    /// transport's reason.
    IoFailure(String),
    /// No backend is available to drive the socket.
    UnsupportedConfiguration,
}

/// A [`ClientError`] as a mathematical value.
pub ghost enum ErrorModel {
    InvalidInput(Seq<char>),
    ConnectionFailure(Seq<char>),
    IoFailure(Seq<char>),
    UnsupportedConfiguration,
}

impl View for ClientError {
    type V = ErrorModel;

    open spec fn view(&self) -> ErrorModel {
        match self {
            ClientError::InvalidInput(text) => ErrorModel::InvalidInput(text@),
            ClientError::ConnectionFailure(text) => ErrorModel::ConnectionFailure(text@),
            ClientError::IoFailure(text) => ErrorModel::IoFailure(text@),
            ClientError::UnsupportedConfiguration => ErrorModel::UnsupportedConfiguration,
        }
    }
}

/// The text that describes an error: what kind it is, and the detail it carries.
pub open spec fn message_of(error: ErrorModel) -> Seq<char> {
    match error {
        ErrorModel::InvalidInput(text) => "invalid input: "@ + text,
        ErrorModel::ConnectionFailure(text) => "connection failed: "@ + text,
        ErrorModel::IoFailure(text) => "i/o failed: "@ + text,
        ErrorModel::UnsupportedConfiguration => "No async runtime feature enabled"@,
    }
}

impl ClientError {
    /// Describes the error in one line.
    pub fn message(&self) -> (text: String)
        ensures
            text@ == message_of(self@),
    {
        match self {
            ClientError::InvalidInput(detail) => {
                let mut text: String = String::from_str("invalid input: ");
                text.append(detail.as_str());
                text
            },
            ClientError::ConnectionFailure(detail) => {
                let mut text: String = String::from_str("connection failed: ");
                text.append(detail.as_str());
                text
            },
            ClientError::IoFailure(detail) => {
                let mut text: String = String::from_str("i/o failed: ");
                text.append(detail.as_str());
                text
            },
            ClientError::UnsupportedConfiguration => String::from_str(
                "No async runtime feature enabled",
            ),
        }
    }
}

} // verus!
