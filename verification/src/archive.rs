//! Reading the parts of a ZIP package that is held in memory.

use vstd::prelude::*;
use vstd::utf8::valid_utf8;
use crate::format::Format;
use crate::format::FormatView;
use crate::parser::ParserFeature;
use crate::parser::ParserMetadata;
use crate::parser::ParserMetadataView;
use crate::text::concat;
use crate::text::utf8_text;

verus! {

/// What a look for an entry of an archive gives.
#[derive(Debug)]
pub enum ZipEntry {
    /// There is no such entry, or no archive to look in.
    Missing,
    /// The entry is there but cannot be read; the text says why.
    Unreadable(String),
    /// The entry's content.
    Data(Vec<u8>),
}

pub ghost enum ZipEntryView {
    Missing,
    Unreadable(Seq<char>),
    Data(Seq<u8>),
}

impl DeepView for ZipEntry {
    type V = ZipEntryView;

    open spec fn deep_view(&self) -> ZipEntryView {
        match self {
            ZipEntry::Missing => ZipEntryView::Missing,
            ZipEntry::Unreadable(m) => ZipEntryView::Unreadable(m@),
            ZipEntry::Data(d) => ZipEntryView::Data(d@),
        }
    }
}

/// Why `data` cannot be opened as a ZIP archive, in the archive reader's words; `None`
/// where it can.
pub uninterp spec fn zip_open_error(data: Seq<u8>) -> Option<Seq<char>>;

/// What the archive `data` holds under the entry name `name`, read without a password.
pub uninterp spec fn zip_entry(data: Seq<u8>, name: Seq<char>) -> ZipEntryView;

/// Tries to open `data` as a ZIP archive. Calls `ZipArchive::new` on a cursor over `data`
/// and gives the error's own description where that fails.
#[verifier::external_body]
pub(crate) fn zip_check(data: &[u8]) -> (r: Option<String>)
    ensures
        r.deep_view() == zip_open_error(data@),
{
    zip::ZipArchive::new(std::io::Cursor::new(data)).err().map(|e| e.to_string())
}

/// Reads one entry of the archive `data`. Calls `ZipArchive::new`, `ZipArchive::by_name_decrypt`
/// with an empty password, and `Read::read_to_end` on the entry: `Missing` where the archive
/// does not open or has no such entry, `Unreadable` with the error's own description where
/// the entry wants a password, is of a kind that the reader does not support, or does not
/// read.
#[verifier::external_body]
pub(crate) fn zip_read(data: &[u8], name: &str) -> (r: ZipEntry)
    ensures
        r.deep_view() == zip_entry(data@, name@),
{
    let Ok(mut archive) = zip::ZipArchive::new(std::io::Cursor::new(data)) else {
        return ZipEntry::Missing;
    };
    let mut file = match archive.by_name_decrypt(name, &[]) {
        Ok(Ok(file)) => file,
        Ok(Err(e)) => return ZipEntry::Unreadable(e.to_string()),
        Err(zip::result::ZipError::FileNotFound) => return ZipEntry::Missing,
        Err(e) => return ZipEntry::Unreadable(e.to_string()),
    };
    let mut bytes = Vec::new();
    match std::io::Read::read_to_end(&mut file, &mut bytes) {
        Ok(_) => ZipEntry::Data(bytes),
        Err(e) => ZipEntry::Unreadable(e.to_string()),
    }
}

/// An entry as text: content that is not UTF-8 counts as unreadable.
pub open spec fn text_entry(entry: ZipEntryView) -> ZipEntryView {
    match entry {
        ZipEntryView::Data(bytes) => if valid_utf8(bytes) {
            entry
        } else {
            ZipEntryView::Unreadable("stream did not contain valid UTF-8"@)
        },
        _ => entry,
    }
}

/// Reads one entry of the archive `data` that is to hold text.
pub fn zip_read_text(data: &[u8], name: &str) -> (r: ZipEntry)
    ensures
        r.deep_view() == text_entry(zip_entry(data@, name@)),
        r matches ZipEntry::Data(bytes) ==> valid_utf8(bytes@),
{
    match zip_read(data, name) {
        ZipEntry::Data(bytes) => {
            if utf8_text(bytes.as_slice()).is_some() {
                ZipEntry::Data(bytes)
            } else {
                ZipEntry::Unreadable("stream did not contain valid UTF-8".to_owned())
            }
        },
        other => other,
    }
}

/// The parser for archives of one format.
#[derive(Debug, Clone)]
pub struct ArchiveParser {
    format: Format,
}

impl ArchiveParser {
    /// The format of the archives that the parser reads.
    pub closed spec fn spec_format(&self) -> FormatView {
        self.format.deep_view()
    }

    /// A parser for archives of the given format.
    pub fn new(format: Format) -> (r: ArchiveParser)
        ensures
            r.spec_format() == format.deep_view(),
    {
        ArchiveParser { format }
    }

    pub fn format(&self) -> (r: Format)
        ensures
            r.deep_view() == self.spec_format(),
    {
        Format {
            mime_type: self.format.mime_type.clone(),
            extension: self.format.extension.clone(),
            family: self.format.family,
            name: self.format.name.clone(),
            is_container: self.format.is_container,
        }
    }

    /// Any content may be an archive.
    pub fn can_parse(&self, data: &[u8]) -> (r: bool)
        ensures
            r,
    {
        true
    }

    /// What the parser says of itself: it is named after its format.
    pub fn metadata(&self) -> (r: ParserMetadata)
        ensures
            r.deep_view() == (ParserMetadataView {
                name: self.spec_format().name + " Parser"@,
                version: crate::VERSION@,
                features: seq![ParserFeature::MetadataExtraction, ParserFeature::TableExtraction],
                requires_sandbox: false,
            }),
    {
        let mut features: Vec<ParserFeature> = Vec::new();
        features.push(ParserFeature::MetadataExtraction);
        features.push(ParserFeature::TableExtraction);
        assert(features@ =~= seq![
            ParserFeature::MetadataExtraction,
            ParserFeature::TableExtraction,
        ]);
        let name = concat(self.format.name.as_str(), " Parser");
        ParserMetadata::of(name.as_str(), features)
    }
}

} // verus!
