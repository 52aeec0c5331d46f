//! What a parser is handed and what it says of itself.

use crate::document::Document;
use crate::document::DocumentView;
use crate::error::Error;
use crate::error::ErrorView;
use crate::format::Format;
use crate::format::FormatView;
use crate::xml::result_view;
use vstd::prelude::*;

verus! {

/// Options for parsing documents.
#[derive(Debug, Clone)]
pub struct ParseOptions {
    /// Whether to extract images.
    pub extract_images: bool,
    /// Whether to preserve formatting.
    pub preserve_formatting: bool,
    /// Whether to extract headings and the table of contents.
    pub extract_structure: bool,
    /// Most memory to use, in bytes.
    pub max_memory: Option<usize>,
    /// Longest time to take, in seconds.
    pub timeout: Option<u64>,
    /// Password for encrypted documents.
    pub password: Option<String>,
}

impl Default for ParseOptions {
    fn default() -> (r: ParseOptions)
        ensures
            !r.extract_images,
            !r.preserve_formatting,
            !r.extract_structure,
            r.max_memory is None,
            r.timeout is None,
            r.password is None,
    {
        ParseOptions {
            extract_images: false,
            preserve_formatting: false,
            extract_structure: false,
            max_memory: None,
            timeout: None,
            password: None,
        }
    }
}

/// What a parser is told about the document at hand.
#[derive(Debug, Clone)]
pub struct ParseContext {
    /// The detected format.
    pub format: Format,
    /// File name of the source, where known.
    pub filename: Option<String>,
    /// File size in bytes.
    pub size: usize,
    pub options: ParseOptions,
}

/// Features that a parser may support.
#[derive(Debug, Clone, Copy, PartialEq, Eq, Structural)]
pub enum ParserFeature {
    TextExtraction,
    ImageExtraction,
    TableExtraction,
    StructureExtraction,
    MetadataExtraction,
    EncryptionSupport,
    StreamingSupport,
}

/// What a parser says of itself.
#[derive(Debug, Clone)]
pub struct ParserMetadata {
    pub name: String,
    pub version: String,
    pub features: Vec<ParserFeature>,
    pub requires_sandbox: bool,
}

pub ghost struct ParserMetadataView {
    pub name: Seq<char>,
    pub version: Seq<char>,
    pub features: Seq<ParserFeature>,
    pub requires_sandbox: bool,
}

impl DeepView for ParserMetadata {
    type V = ParserMetadataView;

    open spec fn deep_view(&self) -> ParserMetadataView {
        ParserMetadataView {
            name: self.name@,
            version: self.version@,
            features: self.features@,
            requires_sandbox: self.requires_sandbox,
        }
    }
}

impl Default for ParserMetadata {
    fn default() -> (r: ParserMetadata)
        ensures
            r.deep_view() == (ParserMetadataView {
                name: Seq::empty(),
                version: Seq::empty(),
                features: Seq::empty(),
                requires_sandbox: false,
            }),
    {
        ParserMetadata {
            name: String::new(),
            version: String::new(),
            features: Vec::new(),
            requires_sandbox: false,
        }
    }
}

impl ParserMetadata {
    /// The metadata of a parser of this library that needs no sandbox.
    pub fn of(name: &str, features: Vec<ParserFeature>) -> (r: ParserMetadata)
        ensures
            r.deep_view() == (ParserMetadataView {
                name: name@,
                version: crate::VERSION@,
                features: features@,
                requires_sandbox: false,
            }),
    {
        ParserMetadata {
            name: name.to_owned(),
            version: crate::VERSION.to_owned(),
            features,
            requires_sandbox: false,
        }
    }
}

/// What every parser offers: the format that it handles, a cheap check that data is of that
/// format, the parse itself, and what the parser says of itself. What a parse gives is, but
/// for the identifier of the document, a function of the data and the file name alone.
pub trait Parser {
    /// The format that the parser handles.
    spec fn handled(&self) -> FormatView;

    /// Whether the parser's cheap check accepts the data.
    spec fn accepts(&self, data: Seq<u8>) -> bool;

    /// What the parser makes of the data of a file of the given name.
    spec fn outcome(&self, data: Seq<u8>, filename: Option<Seq<char>>) -> Result<
        DocumentView,
        ErrorView,
    >;

    /// What the parser says of itself.
    spec fn described(&self) -> ParserMetadataView;

    fn format(&self) -> (r: Format)
        ensures
            r.deep_view() == self.handled(),
    ;

    fn can_parse(&self, data: &[u8]) -> (r: bool)
        ensures
            r == self.accepts(data@),
    ;

    fn parse(&self, data: &[u8], context: ParseContext) -> (r: Result<Document, Error>)
        ensures
            result_view(r) == self.outcome(data@, context.filename.deep_view()),
    ;

    fn metadata(&self) -> (r: ParserMetadata)
        ensures
            r.deep_view() == self.described(),
    ;
}

} // verus!
