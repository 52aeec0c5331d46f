//! Plain values of a conversion service: its limits, and what it answers.

use vstd::prelude::*;
use crate::format::Format;
use crate::format::FormatView;

verus! {

/// Bytes of the largest file that a service takes where nothing else is said: 50 MiB.
pub const DEFAULT_MAX_FILE_SIZE: usize = 52428800;

/// Seconds that a request may take where nothing else is said.
pub const DEFAULT_TIMEOUT_SECONDS: u64 = 30;

/// The limits of a conversion service.
#[derive(Debug, Clone, Copy, PartialEq, Eq)]
pub struct ServerConfig {
    /// Size of the largest file that is taken, in bytes.
    pub max_file_size: usize,
    /// Longest time of a request, in seconds.
    pub timeout_seconds: u64,
    /// Whether a format without a parser is answered with what was detected of it.
    pub enable_fallback: bool,
}

impl Default for ServerConfig {
    fn default() -> (r: ServerConfig)
        ensures
            r.max_file_size == DEFAULT_MAX_FILE_SIZE,
            r.timeout_seconds == DEFAULT_TIMEOUT_SECONDS,
            r.enable_fallback,
    {
        ServerConfig {
            max_file_size: DEFAULT_MAX_FILE_SIZE,
            timeout_seconds: DEFAULT_TIMEOUT_SECONDS,
            enable_fallback: true,
        }
    }
}

/// What a service says of a format.
#[derive(Debug, Clone, PartialEq, Eq)]
pub struct FormatInfo {
    pub mime_type: String,
    pub extension: String,
    /// The name of the format's family.
    pub family: String,
    pub name: String,
    /// Whether files of this format can hold other files.
    pub is_container: bool,
}

pub ghost struct FormatInfoView {
    pub mime_type: Seq<char>,
    pub extension: Seq<char>,
    pub family: Seq<char>,
    pub name: Seq<char>,
    pub is_container: bool,
}

impl DeepView for FormatInfo {
    type V = FormatInfoView;

    open spec fn deep_view(&self) -> FormatInfoView {
        FormatInfoView {
            mime_type: self.mime_type@,
            extension: self.extension@,
            family: self.family@,
            name: self.name@,
            is_container: self.is_container,
        }
    }
}

/// What is said of a format: its own properties, the family by its name.
pub open spec fn format_info(format: FormatView) -> FormatInfoView {
    FormatInfoView {
        mime_type: format.mime_type,
        extension: format.extension,
        family: format.family.spec_name(),
        name: format.name,
        is_container: format.is_container,
    }
}

impl FormatInfo {
    /// What is said of `format`.
    pub fn of(format: &Format) -> (r: FormatInfo)
        ensures
            r.deep_view() == format_info(format.deep_view()),
    {
        FormatInfo {
            mime_type: format.mime_type.clone(),
            extension: format.extension.clone(),
            family: format.family.name().to_owned(),
            name: format.name.clone(),
            is_container: format.is_container,
        }
    }
}

/// The body of an answer that reports an error.
#[derive(Debug, Clone, PartialEq, Eq)]
pub struct ErrorResponse {
    /// The status of the answer.
    pub error: String,
    pub message: String,
}

/// What a service answers when it cannot serve a request.
#[derive(Debug, Clone, PartialEq, Eq)]
pub enum ApiError {
    /// The request is malformed.
    BadRequest(String),
    /// The format of the file is not served.
    UnsupportedMediaType(String),
    /// The format is known, but there is no parser for it.
    NotImplemented(String),
    /// The service itself failed.
    InternalServerError(String),
}

impl ApiError {
    /// The HTTP status code of the error.
    pub open spec fn spec_status_code(&self) -> u16 {
        match self {
            ApiError::BadRequest(_) => 400,
            ApiError::UnsupportedMediaType(_) => 415,
            ApiError::NotImplemented(_) => 501,
            ApiError::InternalServerError(_) => 500,
        }
    }

    /// The HTTP status code of the error.
    pub fn status_code(&self) -> (r: u16)
        ensures
            r == self.spec_status_code(),
    {
        match self {
            ApiError::BadRequest(_) => 400,
            ApiError::UnsupportedMediaType(_) => 415,
            ApiError::NotImplemented(_) => 501,
            ApiError::InternalServerError(_) => 500,
        }
    }

    /// The message of the error.
    pub open spec fn spec_message(&self) -> Seq<char> {
        match self {
            ApiError::BadRequest(m) => m@,
            ApiError::UnsupportedMediaType(m) => m@,
            ApiError::NotImplemented(m) => m@,
            ApiError::InternalServerError(m) => m@,
        }
    }

    /// The message of the error.
    pub fn message(&self) -> (r: &String)
        ensures
            r@ == self.spec_message(),
    {
        match self {
            ApiError::BadRequest(m) => m,
            ApiError::UnsupportedMediaType(m) => m,
            ApiError::NotImplemented(m) => m,
            ApiError::InternalServerError(m) => m,
        }
    }
}

} // verus!
