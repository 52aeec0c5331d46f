//! Error taxonomy of the library.

use std::io::Error as IoFault;
use crate::text::concat;
use crate::text::decimal_string;
use crate::text::decimal_text;
use vstd::prelude::*;

verus! {

#[verifier::external_type_specification]
#[verifier::external_body]
pub struct ExIoFault(IoFault);

/// Everything that can go wrong while a document is detected, parsed or rendered.
#[derive(Debug)]
pub enum Error {
    /// Format detection failed.
    DetectionFailed(String),
    /// The format is known but not supported.
    UnsupportedFormat(String),
    /// The content is malformed.
    ParseError(String),
    /// Rendering failed.
    RenderError(String),
    /// The caller handed over something unusable.
    InvalidInput(String),
    /// The document is password-protected.
    Encrypted(String),
    /// The container is structurally broken.
    Corrupted(String),
    /// A referenced resource is missing.
    ResourceNotFound(String),
    /// An I/O fault reported by the caller's environment.
    Io(IoFault),
    /// The operation ran longer than allowed.
    Timeout(std::time::Duration),
    /// The operation used more memory than allowed.
    MemoryLimitExceeded { used: usize, limit: usize },
    /// The sandbox failed.
    SandboxError(String),
    /// The configuration is invalid.
    ConfigError(String),
    /// A fault of the library itself.
    Internal(String),
}

pub ghost enum ErrorView {
    DetectionFailed(Seq<char>),
    UnsupportedFormat(Seq<char>),
    ParseError(Seq<char>),
    RenderError(Seq<char>),
    InvalidInput(Seq<char>),
    Encrypted(Seq<char>),
    Corrupted(Seq<char>),
    ResourceNotFound(Seq<char>),
    Io,
    /// The span of time that was allowed, in nanoseconds.
    Timeout(nat),
    MemoryLimitExceeded { used: nat, limit: nat },
    SandboxError(Seq<char>),
    ConfigError(Seq<char>),
    Internal(Seq<char>),
}

impl DeepView for Error {
    type V = ErrorView;

    open spec fn deep_view(&self) -> ErrorView {
        match self {
            Error::DetectionFailed(m) => ErrorView::DetectionFailed(m@),
            Error::UnsupportedFormat(m) => ErrorView::UnsupportedFormat(m@),
            Error::ParseError(m) => ErrorView::ParseError(m@),
            Error::RenderError(m) => ErrorView::RenderError(m@),
            Error::InvalidInput(m) => ErrorView::InvalidInput(m@),
            Error::Encrypted(m) => ErrorView::Encrypted(m@),
            Error::Corrupted(m) => ErrorView::Corrupted(m@),
            Error::ResourceNotFound(m) => ErrorView::ResourceNotFound(m@),
            Error::Io(_) => ErrorView::Io,
            Error::Timeout(span) => ErrorView::Timeout(span_nanos(*span)),
            Error::MemoryLimitExceeded { used, limit } => ErrorView::MemoryLimitExceeded {
                used: *used as nat,
                limit: *limit as nat,
            },
            Error::SandboxError(m) => ErrorView::SandboxError(m@),
            Error::ConfigError(m) => ErrorView::ConfigError(m@),
            Error::Internal(m) => ErrorView::Internal(m@),
        }
    }
}

impl Error {
    /// Whether a retry with adjusted limits may succeed: only a timeout or an exceeded
    /// memory limit.
    pub open spec fn spec_is_recoverable(&self) -> bool {
        self is Timeout || self is MemoryLimitExceeded
    }

    /// Whether the input itself is unsuitable.
    pub open spec fn spec_is_input_error(&self) -> bool {
        self is InvalidInput || self is Corrupted || self is UnsupportedFormat
            || self is ParseError
    }

    pub fn is_recoverable(&self) -> (r: bool)
        ensures
            r == self.spec_is_recoverable(),
    {
        match self {
            Error::Timeout(_) => true,
            Error::MemoryLimitExceeded { .. } => true,
            _ => false,
        }
    }

    pub fn is_input_error(&self) -> (r: bool)
        ensures
            r == self.spec_is_input_error(),
    {
        match self {
            Error::InvalidInput(_) => true,
            Error::Corrupted(_) => true,
            Error::UnsupportedFormat(_) => true,
            Error::ParseError(_) => true,
            _ => false,
        }
    }

    /// A parse error with the given message.
    pub fn parse(msg: &str) -> (e: Error)
        ensures
            e.deep_view() == ErrorView::ParseError(msg@),
    {
        Error::ParseError(msg.to_owned())
    }

    /// An internal error with the given message.
    pub fn internal(msg: &str) -> (e: Error)
        ensures
            e.deep_view() == ErrorView::Internal(msg@),
    {
        Error::Internal(msg.to_owned())
    }

    /// A parse error whose message is `prefix` followed by `detail`.
    pub fn parse_with(prefix: &str, detail: &str) -> (e: Error)
        ensures
            e.deep_view() == ErrorView::ParseError(prefix@ + detail@),
    {
        Error::ParseError(concat(prefix, detail))
    }
}

/// The text of an I/O fault, from its `Display`. Nothing is promised of it.
#[verifier::external_body]
fn io_fault_text(fault: &IoFault) -> String {
    fault.to_string()
}

/// The length of a span of time in nanoseconds: what `Duration::as_nanos` gives.
pub uninterp spec fn span_nanos(span: std::time::Duration) -> nat;

/// How a span of so many nanoseconds is written where a span is shown for debugging, such
/// as `30s` or `1.5ms`.
pub uninterp spec fn span_text(nanos: nat) -> Seq<char>;

/// The text of a span of time, from its `Debug`, which writes the span's length and nothing
/// else.
#[verifier::external_body]
fn duration_text(span: &std::time::Duration) -> (r: String)
    ensures
        r@ == span_text(span_nanos(*span)),
{
    format!("{span:?}")
}

impl Error {
    /// What the error says, for the variants whose text the error itself fixes; `None` for
    /// an I/O fault, whose text comes from the fault that it carries.
    pub open spec fn spec_to_string(e: ErrorView) -> Option<Seq<char>> {
        match e {
            ErrorView::DetectionFailed(m) => Some("Unable to detect document format: "@ + m),
            ErrorView::UnsupportedFormat(m) => Some("Unsupported document format: "@ + m),
            ErrorView::ParseError(m) => Some("Failed to parse document: "@ + m),
            ErrorView::RenderError(m) => Some("Failed to render document: "@ + m),
            ErrorView::InvalidInput(m) => Some("Invalid input: "@ + m),
            ErrorView::Encrypted(m) => Some("Document is encrypted: "@ + m),
            ErrorView::Corrupted(m) => Some("Document is corrupted: "@ + m),
            ErrorView::ResourceNotFound(m) => Some("Resource not found: "@ + m),
            ErrorView::Io => None,
            ErrorView::Timeout(nanos) => Some("Operation timed out after "@ + span_text(nanos)),
            ErrorView::MemoryLimitExceeded { used, limit } => Some(
                "Memory limit exceeded: "@ + decimal_text(used) + " bytes used, "@ + decimal_text(
                    limit,
                ) + " bytes allowed"@,
            ),
            ErrorView::SandboxError(m) => Some("Sandbox error: "@ + m),
            ErrorView::ConfigError(m) => Some("Configuration error: "@ + m),
            ErrorView::Internal(m) => Some("Internal error: "@ + m),
        }
    }

    /// What the error says.
    pub fn to_string(&self) -> (r: String)
        ensures
            Self::spec_to_string(self.deep_view()) matches Some(text) ==> r@ == text,
    {
        match self {
            Error::DetectionFailed(m) => concat("Unable to detect document format: ", m.as_str()),
            Error::UnsupportedFormat(m) => concat("Unsupported document format: ", m.as_str()),
            Error::ParseError(m) => concat("Failed to parse document: ", m.as_str()),
            Error::RenderError(m) => concat("Failed to render document: ", m.as_str()),
            Error::InvalidInput(m) => concat("Invalid input: ", m.as_str()),
            Error::Encrypted(m) => concat("Document is encrypted: ", m.as_str()),
            Error::Corrupted(m) => concat("Document is corrupted: ", m.as_str()),
            Error::ResourceNotFound(m) => concat("Resource not found: ", m.as_str()),
            Error::Io(fault) => {
                let text = io_fault_text(fault);
                concat("IO error: ", text.as_str())
            },
            Error::Timeout(span) => {
                let text = duration_text(span);
                concat("Operation timed out after ", text.as_str())
            },
            Error::MemoryLimitExceeded { used, limit } => {
                let used_text = decimal_string(*used as u64);
                let limit_text = decimal_string(*limit as u64);
                let a = concat("Memory limit exceeded: ", used_text.as_str());
                let b = concat(a.as_str(), " bytes used, ");
                let c = concat(b.as_str(), limit_text.as_str());
                let d = concat(c.as_str(), " bytes allowed");
                assert(d@ =~= "Memory limit exceeded: "@ + decimal_text(*used as nat)
                    + " bytes used, "@ + decimal_text(*limit as nat) + " bytes allowed"@);
                d
            },
            Error::SandboxError(m) => concat("Sandbox error: ", m.as_str()),
            Error::ConfigError(m) => concat("Configuration error: ", m.as_str()),
            Error::Internal(m) => concat("Internal error: ", m.as_str()),
        }
    }
}

/// Adds context to the error of a result.
pub trait ResultExt<T> {
    /// The result with its error, if any, wrapped into an internal error that names the
    /// context.
    fn context(self, msg: &str) -> Result<T, Error>;
}

impl<T> ResultExt<T> for Result<T, Error> {
    fn context(self, msg: &str) -> (r: Result<T, Error>)
        ensures
            self is Ok ==> r == self,
            self matches Err(e) ==> r is Err && (Error::spec_to_string(
                e.deep_view(),
            ) matches Some(text) ==> r->Err_0.deep_view() == ErrorView::Internal(
                msg@ + ": "@ + text,
            )),
    {
        match self {
            Ok(v) => Ok(v),
            Err(e) => {
                let inner = e.to_string();
                let head = concat(msg, ": ");
                let full = concat(head.as_str(), inner.as_str());
                Err(Error::Internal(full))
            },
        }
    }
}

} // verus!
