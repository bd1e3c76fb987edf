//! The errors of the gateway.

use vstd::prelude::*;
use vstd::string::*;

verus! {

/// An error with the message that is shown for it.
#[derive(Debug)]
pub enum Error {
    /// The configuration cannot be used, or names no such server.
    Config(String),
    /// An upstream server failed or is unknown.
    Upstream(String),
    /// Anything else.
    Other(String),
}

/// An error by the characters of its message.
pub enum ErrorView {
    Config(Seq<char>),
    Upstream(Seq<char>),
    Other(Seq<char>),
}

impl View for Error {
    type V = ErrorView;

    open spec fn view(&self) -> ErrorView {
        match self {
            Error::Config(m) => ErrorView::Config(m@),
            Error::Upstream(m) => ErrorView::Upstream(m@),
            Error::Other(m) => ErrorView::Other(m@),
        }
    }
}

/// The message of an error.
pub open spec fn message_of(e: ErrorView) -> Seq<char> {
    match e {
        ErrorView::Config(m) => m,
        ErrorView::Upstream(m) => m,
        ErrorView::Other(m) => m,
    }
}

impl Error {
    /// The message.
    pub fn message(&self) -> (r: &str)
        ensures
            r@ == message_of(self@),
    {
        match self {
            Error::Config(m) => m.as_str(),
            Error::Upstream(m) => m.as_str(),
            Error::Other(m) => m.as_str(),
        }
    }
}

/// A string in quotes, as `Debug` writes it.
pub uninterp spec fn quoted(s: Seq<char>) -> Seq<char>;

/// Calls the `Debug` formatting of `str`. What it writes depends on the string
/// alone; which characters it escapes is not stated.
#[verifier::external_body]
pub(crate) fn quote(s: &str) -> (r: String)
    ensures
        r@ == quoted(s@),
{
    format!("{s:?}")
}

/// The message of an error is the text that it was made with, whatever its kind.
pub proof fn law_message_is_kept(text: Seq<char>)
    ensures
        message_of(ErrorView::Config(text)) == text,
        message_of(ErrorView::Upstream(text)) == text,
        message_of(ErrorView::Other(text)) == text,
{
}

/// An error means its kind and its message.
pub proof fn law_errors_mean_what_they_carry(text: String)
    ensures
        Error::Config(text)@ == ErrorView::Config(text@),
        Error::Upstream(text)@ == ErrorView::Upstream(text@),
        Error::Other(text)@ == ErrorView::Other(text@),
{
}

} // verus!
