//! The errors that the editor reports.
//!
//! The engine's own operations do not fail. Errors arise where a document is
//! read from or written to a file, and are built from what the operating
//! system said.

use vstd::prelude::*;
use vstd::string::StringExecFns;

verus! {

/// `std::io::Error`, made known to Verus as a type whose inside it does not
/// see.
#[verifier::external_type_specification]
#[verifier::external_body]
pub struct ExIoError(std::io::Error);

/// An error of the editor: a failure of the system, or a misuse of the
/// engine.
#[derive(Debug)]
pub enum CoreError {
    System(SystemError),
    Domain(DomainError),
}

/// A failure of the system, with what was being done when it struck and
/// whether trying again may help.
#[derive(Debug)]
pub struct SystemError {
    pub kind: SystemErrorKind,
    pub context: String,
    pub retriable: bool,
}

#[derive(Debug, Clone, Copy, PartialEq, Eq, Structural)]
pub enum SystemErrorKind {
    Io,
    Permission,
    Encoding,
    Os,
    Unknown,
}

/// A misuse of the engine, with what was being done.
#[derive(Debug)]
pub struct DomainError {
    pub kind: DomainErrorKind,
    pub context: String,
}

#[derive(Debug, Clone, Copy, PartialEq, Eq, Structural)]
pub enum DomainErrorKind {
    InvalidOperation,
    InvalidState,
    OutOfRange,
    EmptySelection,
}

/// How the operating system classed a failed read or write.
#[derive(Debug, Clone, Copy, PartialEq, Eq, Structural)]
pub enum IoFailure {
    NotFound,
    AlreadyExists,
    PermissionDenied,
    InvalidData,
    InvalidInput,
    Interrupted,
    WouldBlock,
    TimedOut,
    Other,
}

/// The kind of system error that a failed read or write is reported as.
pub open spec fn kind_of(failure: IoFailure) -> SystemErrorKind {
    match failure {
        IoFailure::NotFound | IoFailure::AlreadyExists | IoFailure::PermissionDenied =>
            SystemErrorKind::Permission,
        IoFailure::InvalidData | IoFailure::InvalidInput => SystemErrorKind::Encoding,
        _ => SystemErrorKind::Io,
    }
}

/// Whether a failed read or write may succeed when it is tried again.
pub open spec fn retriable(failure: IoFailure) -> bool {
    failure == IoFailure::Interrupted || failure == IoFailure::WouldBlock || failure
        == IoFailure::TimedOut
}

/// The name of a kind of system error, as it is printed.
pub open spec fn system_kind_name(kind: SystemErrorKind) -> Seq<char> {
    match kind {
        SystemErrorKind::Io => "Io"@,
        SystemErrorKind::Permission => "Permission"@,
        SystemErrorKind::Encoding => "Encoding"@,
        SystemErrorKind::Os => "Os"@,
        SystemErrorKind::Unknown => "Unknown"@,
    }
}

/// The name of a kind of domain error, as it is printed.
pub open spec fn domain_kind_name(kind: DomainErrorKind) -> Seq<char> {
    match kind {
        DomainErrorKind::InvalidOperation => "InvalidOperation"@,
        DomainErrorKind::InvalidState => "InvalidState"@,
        DomainErrorKind::OutOfRange => "OutOfRange"@,
        DomainErrorKind::EmptySelection => "EmptySelection"@,
    }
}

/// The line that describes an error.
pub open spec fn description_of(error: CoreError) -> Seq<char> {
    match error {
        CoreError::System(err) => "system error: "@ + system_kind_name(err.kind)
            + " (retriable="@ + (if err.retriable {
            "true"@
        } else {
            "false"@
        }) + ") "@ + err.context@,
        CoreError::Domain(err) => "domain error: "@ + domain_kind_name(err.kind) + " "@
            + err.context@,
    }
}

/// Whether `error` is the report of a read or write that failed as `failure`
/// with the system's `message`, while `context` was being done.
pub open spec fn reports(
    error: CoreError,
    context: Seq<char>,
    failure: IoFailure,
    message: Seq<char>,
) -> bool {
    &&& error matches CoreError::System(err)
    &&& err.kind == kind_of(failure)
    &&& err.retriable == retriable(failure)
    &&& err.context@ == context + ": "@ + message
}

/// The class of failure that a `std::io::Error` carries.
pub uninterp spec fn failure_class(err: &std::io::Error) -> IoFailure;

/// `std::io::Error::kind`, as the editor's own classes: the class that the
/// error carries.
#[verifier::external_body]
fn failure_of(err: &std::io::Error) -> (failure: IoFailure)
    ensures
        failure == failure_class(err),
{
    match err.kind() {
        std::io::ErrorKind::NotFound => IoFailure::NotFound,
        std::io::ErrorKind::AlreadyExists => IoFailure::AlreadyExists,
        std::io::ErrorKind::PermissionDenied => IoFailure::PermissionDenied,
        std::io::ErrorKind::InvalidData => IoFailure::InvalidData,
        std::io::ErrorKind::InvalidInput => IoFailure::InvalidInput,
        std::io::ErrorKind::Interrupted => IoFailure::Interrupted,
        std::io::ErrorKind::WouldBlock => IoFailure::WouldBlock,
        std::io::ErrorKind::TimedOut => IoFailure::TimedOut,
        _ => IoFailure::Other,
    }
}

/// The message of a `std::io::Error`, as its `Display` gives it. Nothing is
/// claimed of the result: it is the operating system's wording.
#[verifier::external_body]
fn message_of(err: &std::io::Error) -> String {
    err.to_string()
}

impl CoreError {
    /// The report of a read or write that failed as `failure` with the
    /// system's `message`, while `context` was being done.
    pub fn from_failure(context: &str, failure: IoFailure, message: &str) -> (error: CoreError)
        ensures
            reports(error, context@, failure, message@),
    {
        let kind = match failure {
            IoFailure::NotFound | IoFailure::AlreadyExists | IoFailure::PermissionDenied =>
                SystemErrorKind::Permission,
            IoFailure::InvalidData | IoFailure::InvalidInput => SystemErrorKind::Encoding,
            _ => SystemErrorKind::Io,
        };
        let retriable = match failure {
            IoFailure::Interrupted | IoFailure::WouldBlock | IoFailure::TimedOut => true,
            _ => false,
        };
        let mut text = String::from_str(context);
        text.append(": ");
        text.append(message);
        CoreError::System(SystemError { kind, context: text, retriable })
    }

    /// The report of a failed read or write, from the error that the standard
    /// library returned for it: built as [`CoreError::from_failure`] says
    /// from the class that the error carries and from its message, whose
    /// wording is the system's.
    pub fn from_io(context: &str, err: std::io::Error) -> (error: CoreError)
        ensures
            exists|message: Seq<char>| reports(error, context@, failure_class(&err), message),
    {
        let failure = failure_of(&err);
        let message = message_of(&err);
        let error = CoreError::from_failure(context, failure, message.as_str());
        proof {
            assert(reports(error, context@, failure, message@));
        }
        error
    }

    /// One line that describes the error.
    pub fn describe(&self) -> (line: String)
        ensures
            line@ == description_of(*self),
    {
        match self {
            CoreError::System(err) => {
                let mut line = String::from_str("system error: ");
                line.append(
                    match err.kind {
                        SystemErrorKind::Io => "Io",
                        SystemErrorKind::Permission => "Permission",
                        SystemErrorKind::Encoding => "Encoding",
                        SystemErrorKind::Os => "Os",
                        SystemErrorKind::Unknown => "Unknown",
                    },
                );
                line.append(" (retriable=");
                line.append(
                    if err.retriable {
                        "true"
                    } else {
                        "false"
                    },
                );
                line.append(") ");
                line.append(err.context.as_str());
                line
            },
            CoreError::Domain(err) => {
                let mut line = String::from_str("domain error: ");
                line.append(
                    match err.kind {
                        DomainErrorKind::InvalidOperation => "InvalidOperation",
                        DomainErrorKind::InvalidState => "InvalidState",
                        DomainErrorKind::OutOfRange => "OutOfRange",
                        DomainErrorKind::EmptySelection => "EmptySelection",
                    },
                );
                line.append(" ");
                line.append(err.context.as_str());
                line
            },
        }
    }
}

} // verus!
