//! The failures a run can end with, and the line of text each is shown as.

use vstd::prelude::*;
use vstd::string::StringExecFns;
use crate::text::join;
use crate::text::join3;

verus! {

/// Every way a run can fail.
///
/// Values that come from the network, the file system or a child process are
/// carried as plain data: the status as its number, the kind of an I/O failure
/// and the code of a repository failure by their names. The line that reports
/// a status shows it as the HTTP client does, with its reason.
#[derive(Debug, PartialEq, Eq)]
pub enum Error {
    /// The reference does not have any of the accepted shapes.
    BadInput,
    /// The reference names a host other than GitHub.
    BadHost,
    /// No owner could be read from the reference.
    BadOwner,
    /// No repository name could be read from the reference.
    BadRepo,
    /// The download did not answer in time.
    ClientTimeout,
    /// The download was answered with this status.
    ClientWithStatus(u16),
    /// The download failed in some other way.
    ClientOther,
    /// A file system operation failed; the name of the failure's kind.
    Io(String),
    /// An archive entry had no leading component to remove.
    StripPrefixError,
    /// The destination, named here, already holds entries.
    DestinationNotEmpty(String),
    /// The filter selected nothing.
    NoMatchingFiles,
    /// The clone failed; what the version-control client reported.
    CloneError(String),
    /// Reading repository metadata failed; the code's name and the message.
    GitError(String, String),
}

pub type AppResult<T> = Result<T, Error>;

/// The mathematical value of an [`Error`].
pub enum ErrorView {
    BadInput,
    BadHost,
    BadOwner,
    BadRepo,
    ClientTimeout,
    ClientWithStatus(u16),
    ClientOther,
    Io(Seq<char>),
    StripPrefixError,
    DestinationNotEmpty(Seq<char>),
    NoMatchingFiles,
    CloneError(Seq<char>),
    GitError(Seq<char>, Seq<char>),
}

impl View for Error {
    type V = ErrorView;

    open spec fn view(&self) -> ErrorView {
        match self {
            Error::BadInput => ErrorView::BadInput,
            Error::BadHost => ErrorView::BadHost,
            Error::BadOwner => ErrorView::BadOwner,
            Error::BadRepo => ErrorView::BadRepo,
            Error::ClientTimeout => ErrorView::ClientTimeout,
            Error::ClientWithStatus(status) => ErrorView::ClientWithStatus(*status),
            Error::ClientOther => ErrorView::ClientOther,
            Error::Io(kind) => ErrorView::Io(kind@),
            Error::StripPrefixError => ErrorView::StripPrefixError,
            Error::DestinationNotEmpty(destination) => ErrorView::DestinationNotEmpty(
                destination@,
            ),
            Error::NoMatchingFiles => ErrorView::NoMatchingFiles,
            Error::CloneError(report) => ErrorView::CloneError(report@),
            Error::GitError(code, message) => ErrorView::GitError(code@, message@),
        }
    }
}

/// The value of a result that holds text.
pub open spec fn text_result(r: AppResult<String>) -> Result<Seq<char>, ErrorView> {
    match r {
        Ok(text) => Ok(text@),
        Err(e) => Err(e@),
    }
}

/// How `reqwest` writes a status: for a number from 100 to 999 the number, a
/// space and the reason that goes with it (`404 Not Found`); for any other
/// number the number alone.
pub uninterp spec fn status_line(status: u16) -> Seq<char>;

/// The text of a status, from `reqwest::StatusCode::from_u16` and the
/// `Display` of the status it gives.
///
/// Trusted: the result is what those two give for this number. A number that
/// is no status, below 100 or above 999, is written as it is.
#[verifier::external_body]
fn status_text(status: u16) -> (r: String)
    ensures
        r@ == status_line(status),
{
    match reqwest::StatusCode::from_u16(status) {
        Ok(code) => code.to_string(),
        Err(_) => status.to_string(),
    }
}

/// The line of text that reports an error.
pub open spec fn message_text(e: ErrorView) -> Seq<char> {
    match e {
        ErrorView::BadInput => "Invalid source specified."@,
        ErrorView::BadHost => "Only GitHub is supported."@,
        ErrorView::BadOwner => "No owner detected in source."@,
        ErrorView::BadRepo => "No repo detected in source."@,
        ErrorView::ClientTimeout => "Timeout during request"@,
        ErrorView::ClientWithStatus(status) => "Got status code: "@ + status_line(status)
            + "."@,
        ErrorView::ClientOther => "Unknown client error."@,
        ErrorView::Io(kind) => "IO error: "@ + kind,
        ErrorView::StripPrefixError => "Strip prefix error writing files."@,
        ErrorView::DestinationNotEmpty(destination) => "Destination "@ + destination
            + " is not empty."@,
        ErrorView::NoMatchingFiles => "No matching files found for filter."@,
        ErrorView::CloneError(report) => "Error cloning repo.\n"@ + report,
        ErrorView::GitError(code, message) => "Git error: "@ + code + " - "@ + message,
    }
}

/// How a failed download is classified from what the HTTP client reported:
/// a timeout first, then a status if one came back, else the catch-all.
pub open spec fn client_failure_of(timed_out: bool, status: Option<u16>) -> ErrorView {
    if timed_out {
        ErrorView::ClientTimeout
    } else {
        match status {
            Some(s) => ErrorView::ClientWithStatus(s),
            None => ErrorView::ClientOther,
        }
    }
}

impl Error {
    /// The error for a download that failed before a response could be read.
    pub fn client_failure(timed_out: bool, status: Option<u16>) -> (e: Error)
        ensures
            e@ == client_failure_of(timed_out, status),
    {
        if timed_out {
            return Error::ClientTimeout;
        }
        match status {
            Some(s) => Error::ClientWithStatus(s),
            None => Error::ClientOther,
        }
    }

    /// The single line this error is reported with.
    pub fn message(&self) -> (r: String)
        ensures
            r@ == message_text(self@),
    {
        match self {
            Error::BadInput => "Invalid source specified.".to_owned(),
            Error::BadHost => "Only GitHub is supported.".to_owned(),
            Error::BadOwner => "No owner detected in source.".to_owned(),
            Error::BadRepo => "No repo detected in source.".to_owned(),
            Error::ClientTimeout => "Timeout during request".to_owned(),
            Error::ClientWithStatus(status) => join3(
                "Got status code: ",
                status_text(*status).as_str(),
                ".",
            ),
            Error::ClientOther => "Unknown client error.".to_owned(),
            Error::Io(kind) => join("IO error: ", kind.as_str()),
            Error::StripPrefixError => "Strip prefix error writing files.".to_owned(),
            Error::DestinationNotEmpty(destination) => join3(
                "Destination ",
                destination.as_str(),
                " is not empty.",
            ),
            Error::NoMatchingFiles => "No matching files found for filter.".to_owned(),
            Error::CloneError(report) => join("Error cloning repo.\n", report.as_str()),
            Error::GitError(code, message) => {
                let mut out = join3("Git error: ", code.as_str(), " - ");
                out.append(message.as_str());
                out
            },
        }
    }
}

} // verus!
