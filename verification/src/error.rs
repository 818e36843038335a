//! The failures a session can report.

use vstd::prelude::*;
use vstd::string::StringExecFns;

verus! {

/// The error type of the standard I/O library, carried through unopened.
#[verifier::external_type_specification]
#[verifier::external_body]
pub struct ExIoError(std::io::Error);

/// What can go wrong while talking to a server.
#[derive(Debug)]
pub enum Error {
    /// The server refused the password.
    Auth,
    /// The command is longer than a request may be.
    CommandTooLong,
    /// A transfer failed, or what arrived is not a frame.
    Io(std::io::Error),
}

impl Error {
    /// A fixed, short text for each kind of error.
    pub fn description(&self) -> (text: &'static str)
        ensures
            *self is Auth ==> text@ == "authentication failed"@,
            *self is CommandTooLong ==> text@ == "command exceeds the maximum length"@,
            *self is Io ==> text@ == "unable to send"@,
    {
        match self {
            Error::Auth => "authentication failed",
            Error::CommandTooLong => "command exceeds the maximum length",
            Error::Io(_) => "unable to send",
        }
    }

    /// The I/O error behind this error, where there is one.
    pub fn cause(&self) -> (source: Option<&std::io::Error>)
        ensures
            match *self {
                Error::Io(err) => source == Some(&err),
                _ => source is None,
            },
    {
        match self {
            Error::Io(err) => Some(err),
            _ => None,
        }
    }

    /// The text to show for this error: for an I/O error the words
    /// `IO error: ` and then, unchanged, the text that the I/O error displays;
    /// for the others their description.
    pub fn message(&self) -> (text: String)
        ensures
            match *self {
                Error::Auth => text@ == "authentication failed"@,
                Error::CommandTooLong => text@ == "command exceeds the maximum length"@,
                Error::Io(err) => exists|detail: String|
                    #[trigger] vstd::string::to_string_from_display_ensures::<std::io::Error>(
                        &err,
                        detail,
                    ) && text@ == "IO error: "@ + detail@,
            },
    {
        match self {
            Error::Io(err) => {
                let detail = err.to_string();
                String::from_str("IO error: ").concat(detail.as_str())
            },
            _ => String::from_str(self.description()),
        }
    }
}

impl From<std::io::Error> for Error {
    /// Wraps an I/O error.
    fn from(err: std::io::Error) -> (error: Error) {
        Error::Io(err)
    }
}

impl vstd::std_specs::convert::FromSpecImpl<std::io::Error> for Error {
    open spec fn obeys_from_spec() -> bool {
        true
    }

    open spec fn from_spec(err: std::io::Error) -> Error {
        Error::Io(err)
    }
}

} // verus!
