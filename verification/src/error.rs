//! The failures that a transcription can end in.

use vstd::prelude::*;
use crate::text;

verus! {

/// A failed operation.
#[derive(Debug)]
pub enum Error {
    /// A failure described by its text alone.
    Message(String),
    /// The service recognized nothing.
    NoSpeech,
    /// The service has no route to the device.
    Unroutable,
    /// The service refused the session with this status code.
    ProviderRejected(u64),
    /// The operation was cancelled or ran out of time.
    Timeout,
    /// An input or output operation failed with this description.
    Io(String),
}

/// What an [`Error`] says.
pub enum ErrorModel {
    Message(Seq<char>),
    NoSpeech,
    Unroutable,
    ProviderRejected(u64),
    Timeout,
    Io(Seq<char>),
}

impl View for Error {
    type V = ErrorModel;

    open spec fn view(&self) -> ErrorModel {
        match self {
            Error::Message(value) => ErrorModel::Message(value@),
            Error::NoSpeech => ErrorModel::NoSpeech,
            Error::Unroutable => ErrorModel::Unroutable,
            Error::ProviderRejected(code) => ErrorModel::ProviderRejected(*code),
            Error::Timeout => ErrorModel::Timeout,
            Error::Io(value) => ErrorModel::Io(value@),
        }
    }
}

/// A failed result by what its error says.
pub open spec fn failure<T>(r: Result<T, Error>) -> Option<ErrorModel> {
    match r {
        Ok(_) => None,
        Err(e) => Some(e@),
    }
}

impl ErrorModel {
    /// Whether new credentials may cure the failure: the service rejected the
    /// session or could not route it.
    pub open spec fn is_rejection(self) -> bool {
        self is Unroutable || self is ProviderRejected
    }

    /// The text that describes the failure to a user.
    pub open spec fn text(self) -> Seq<char> {
        match self {
            ErrorModel::Message(value) => value,
            ErrorModel::NoSpeech => "Doubao ASR completed but returned no text"@,
            ErrorModel::Unroutable => "Doubao did not provide a routable ASR device"@,
            ErrorModel::ProviderRejected(code) => "Doubao ASR rejected the session (code "@
                + text::decimal(code as nat) + ")"@,
            ErrorModel::Timeout => "operation was cancelled or timed out"@,
            ErrorModel::Io(value) => value,
        }
    }
}

impl Error {
    /// Builds a failure that is described by a text.
    pub fn msg(value: &str) -> (r: Error)
        ensures
            r@ == ErrorModel::Message(value@),
    {
        Error::Message(value.to_owned())
    }

    /// Builds a failure from a fixed text and a detail that follows it.
    pub fn detailed(label: &str, detail: &str) -> (r: Error)
        ensures
            r@ == ErrorModel::Message(label@ + detail@),
    {
        let mut value = label.to_owned();
        value.append(detail);
        Error::Message(value)
    }

    /// Tells whether refreshed credentials may cure the failure.
    pub fn should_refresh_credentials(&self) -> (r: bool)
        ensures
            r == self@.is_rejection(),
    {
        match self {
            Error::Unroutable => true,
            Error::ProviderRejected(_) => true,
            _ => false,
        }
    }

    /// Describes the failure to a user.
    pub fn message(&self) -> (r: String)
        ensures
            r@ == self@.text(),
    {
        match self {
            Error::Message(value) => value.as_str().to_owned(),
            Error::NoSpeech => "Doubao ASR completed but returned no text".to_owned(),
            Error::Unroutable => "Doubao did not provide a routable ASR device".to_owned(),
            Error::ProviderRejected(code) => {
                let mut out = "Doubao ASR rejected the session (code ".to_owned();
                text::push_decimal(&mut out, *code as u128);
                out.append(")");
                out
            },
            Error::Timeout => "operation was cancelled or timed out".to_owned(),
            Error::Io(value) => value.as_str().to_owned(),
        }
    }
}

/// A failure says what it was made with: a message and the description of an input or
/// output operation as they are, and a refused session its status code. The others
/// have words of their own.
pub proof fn law_failures_say_what_happened(value: Seq<char>, code: u64)
    ensures
        ErrorModel::Message(value).text() == value,
        ErrorModel::Io(value).text() == value,
        ErrorModel::ProviderRejected(code).text() == "Doubao ASR rejected the session (code "@
            + text::decimal(code as nat) + ")"@,
        ErrorModel::NoSpeech.text() == "Doubao ASR completed but returned no text"@,
        ErrorModel::Unroutable.text() == "Doubao did not provide a routable ASR device"@,
        ErrorModel::Timeout.text() == "operation was cancelled or timed out"@,
{
}

/// New credentials are worth a try after a refused session and a device that is not
/// routable, and after nothing else.
pub proof fn law_rejections_are_the_two_refusals(value: Seq<char>, code: u64)
    ensures
        ErrorModel::ProviderRejected(code).is_rejection(),
        ErrorModel::Unroutable.is_rejection(),
        !ErrorModel::Message(value).is_rejection(),
        !ErrorModel::Io(value).is_rejection(),
        !ErrorModel::NoSpeech.is_rejection(),
        !ErrorModel::Timeout.is_rejection(),
{
}

/// A failure is known by its kind and the whole of its text or code.
pub proof fn law_failures_are_known_by_what_they_hold(error: Error)
    ensures
        failure(Err::<(), Error>(error)) == Some(error@),
        failure(Ok::<(), Error>(())) is None,
        error matches Error::Message(value) ==> error@ == ErrorModel::Message(value@),
        error is NoSpeech ==> error@ == ErrorModel::NoSpeech,
        error is Unroutable ==> error@ == ErrorModel::Unroutable,
        error matches Error::ProviderRejected(code) ==> error@ == ErrorModel::ProviderRejected(code),
        error is Timeout ==> error@ == ErrorModel::Timeout,
        error matches Error::Io(value) ==> error@ == ErrorModel::Io(value@),
{
}

} // verus!
