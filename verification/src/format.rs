//! Format detection: magic bytes first, then a look into ZIP containers, then the file
//! extension.

use vstd::prelude::*;
use vstd::slice::slice_subrange;
use vstd::string::StringSliceAdditionalSpecFns;
use crate::text::bytes_eq;
use crate::text::lit;
use crate::text::str_eq;

verus! {

/// Format families for categorization.
#[derive(Debug, Clone, Copy, PartialEq, Eq, Hash, Structural)]
pub enum FormatFamily {
    /// PDF documents.
    Document,
    /// Microsoft Office and similar.
    Office,
    /// Email formats.
    Email,
    /// Image formats.
    Image,
    /// Archive formats.
    Archive,
    /// CAD formats.
    Cad,
    /// Text and code files.
    Text,
    /// Audio files.
    Audio,
    /// Video files.
    Video,
    /// Legacy and specialty formats.
    Legacy,
    /// Unknown or other.
    Unknown,
}

impl FormatFamily {
    /// The family's name for people.
    pub open spec fn spec_name(&self) -> Seq<char> {
        match self {
            FormatFamily::Document => "Document"@,
            FormatFamily::Office => "Office"@,
            FormatFamily::Email => "Email"@,
            FormatFamily::Image => "Image"@,
            FormatFamily::Archive => "Archive"@,
            FormatFamily::Cad => "CAD"@,
            FormatFamily::Text => "Text"@,
            FormatFamily::Audio => "Audio"@,
            FormatFamily::Video => "Video"@,
            FormatFamily::Legacy => "Legacy"@,
            FormatFamily::Unknown => "Unknown"@,
        }
    }

    pub fn name(&self) -> (r: &'static str)
        ensures
            r@ == self.spec_name(),
    {
        match self {
            FormatFamily::Document => "Document",
            FormatFamily::Office => "Office",
            FormatFamily::Email => "Email",
            FormatFamily::Image => "Image",
            FormatFamily::Archive => "Archive",
            FormatFamily::Cad => "CAD",
            FormatFamily::Text => "Text",
            FormatFamily::Audio => "Audio",
            FormatFamily::Video => "Video",
            FormatFamily::Legacy => "Legacy",
            FormatFamily::Unknown => "Unknown",
        }
    }
}

/// A file format.
#[derive(Debug, Clone, PartialEq, Eq, Hash)]
pub struct Format {
    /// MIME type, such as `application/pdf`.
    pub mime_type: String,
    /// Usual file extension, such as `pdf`.
    pub extension: String,
    pub family: FormatFamily,
    /// Name for people.
    pub name: String,
    /// Whether files of this format can hold other files.
    pub is_container: bool,
}

pub ghost struct FormatView {
    pub mime_type: Seq<char>,
    pub extension: Seq<char>,
    pub family: FormatFamily,
    pub name: Seq<char>,
    pub is_container: bool,
}

impl DeepView for Format {
    type V = FormatView;

    open spec fn deep_view(&self) -> FormatView {
        FormatView {
            mime_type: self.mime_type@,
            extension: self.extension@,
            family: self.family,
            name: self.name@,
            is_container: self.is_container,
        }
    }
}

/// The format with the given properties.
pub open spec fn format_of(
    mime_type: &str,
    extension: &str,
    family: FormatFamily,
    name: &str,
    is_container: bool,
) -> FormatView {
    FormatView { mime_type: mime_type@, extension: extension@, family, name: name@, is_container }
}

pub open spec fn pdf_format() -> FormatView {
    format_of("application/pdf", "pdf", FormatFamily::Document, "PDF", false)
}

pub open spec fn docx_format() -> FormatView {
    format_of(
        "application/vnd.openxmlformats-officedocument.wordprocessingml.document",
        "docx",
        FormatFamily::Office,
        "Microsoft Word (DOCX)",
        true,
    )
}

pub open spec fn xlsx_format() -> FormatView {
    format_of(
        "application/vnd.openxmlformats-officedocument.spreadsheetml.sheet",
        "xlsx",
        FormatFamily::Office,
        "Microsoft Excel (XLSX)",
        true,
    )
}

pub open spec fn pptx_format() -> FormatView {
    format_of(
        "application/vnd.openxmlformats-officedocument.presentationml.presentation",
        "pptx",
        FormatFamily::Office,
        "Microsoft PowerPoint (PPTX)",
        true,
    )
}

pub open spec fn png_format() -> FormatView {
    format_of("image/png", "png", FormatFamily::Image, "PNG Image", false)
}

pub open spec fn jpeg_format() -> FormatView {
    format_of("image/jpeg", "jpg", FormatFamily::Image, "JPEG Image", false)
}

pub open spec fn zip_format() -> FormatView {
    format_of("application/zip", "zip", FormatFamily::Archive, "ZIP Archive", true)
}

pub open spec fn gif_format() -> FormatView {
    format_of("image/gif", "gif", FormatFamily::Image, "GIF Image", false)
}

pub open spec fn tiff_format() -> FormatView {
    format_of("image/tiff", "tiff", FormatFamily::Image, "TIFF Image", false)
}

pub open spec fn cfb_format() -> FormatView {
    format_of("application/x-cfb", "", FormatFamily::Office, "OLE Compound File", true)
}

pub open spec fn rar_format() -> FormatView {
    format_of("application/vnd.rar", "rar", FormatFamily::Archive, "RAR Archive", true)
}

pub open spec fn seven_zip_format() -> FormatView {
    format_of("application/x-7z-compressed", "7z", FormatFamily::Archive, "7-Zip Archive", true)
}

impl Format {
    /// A format with the given properties.
    pub fn make(
        mime_type: &str,
        extension: &str,
        family: FormatFamily,
        name: &str,
        is_container: bool,
    ) -> (r: Format)
        ensures
            r.deep_view() == format_of(mime_type, extension, family, name, is_container),
    {
        Format {
            mime_type: mime_type.to_owned(),
            extension: extension.to_owned(),
            family,
            name: name.to_owned(),
            is_container,
        }
    }

    pub fn pdf() -> (r: Format)
        ensures
            r.deep_view() == pdf_format(),
    {
        Format::make("application/pdf", "pdf", FormatFamily::Document, "PDF", false)
    }

    pub fn docx() -> (r: Format)
        ensures
            r.deep_view() == docx_format(),
    {
        Format::make(
            "application/vnd.openxmlformats-officedocument.wordprocessingml.document",
            "docx",
            FormatFamily::Office,
            "Microsoft Word (DOCX)",
            true,
        )
    }

    pub fn xlsx() -> (r: Format)
        ensures
            r.deep_view() == xlsx_format(),
    {
        Format::make(
            "application/vnd.openxmlformats-officedocument.spreadsheetml.sheet",
            "xlsx",
            FormatFamily::Office,
            "Microsoft Excel (XLSX)",
            true,
        )
    }

    pub fn pptx() -> (r: Format)
        ensures
            r.deep_view() == pptx_format(),
    {
        Format::make(
            "application/vnd.openxmlformats-officedocument.presentationml.presentation",
            "pptx",
            FormatFamily::Office,
            "Microsoft PowerPoint (PPTX)",
            true,
        )
    }

    pub fn png() -> (r: Format)
        ensures
            r.deep_view() == png_format(),
    {
        Format::make("image/png", "png", FormatFamily::Image, "PNG Image", false)
    }

    pub fn jpeg() -> (r: Format)
        ensures
            r.deep_view() == jpeg_format(),
    {
        Format::make("image/jpeg", "jpg", FormatFamily::Image, "JPEG Image", false)
    }

    pub fn zip() -> (r: Format)
        ensures
            r.deep_view() == zip_format(),
    {
        Format::make("application/zip", "zip", FormatFamily::Archive, "ZIP Archive", true)
    }

    pub fn gif() -> (r: Format)
        ensures
            r.deep_view() == gif_format(),
    {
        Format::make("image/gif", "gif", FormatFamily::Image, "GIF Image", false)
    }

    pub fn tiff() -> (r: Format)
        ensures
            r.deep_view() == tiff_format(),
    {
        Format::make("image/tiff", "tiff", FormatFamily::Image, "TIFF Image", false)
    }

    pub fn cfb() -> (r: Format)
        ensures
            r.deep_view() == cfb_format(),
    {
        Format::make("application/x-cfb", "", FormatFamily::Office, "OLE Compound File", true)
    }

    pub fn rar() -> (r: Format)
        ensures
            r.deep_view() == rar_format(),
    {
        Format::make("application/vnd.rar", "rar", FormatFamily::Archive, "RAR Archive", true)
    }

    pub fn seven_zip() -> (r: Format)
        ensures
            r.deep_view() == seven_zip_format(),
    {
        Format::make(
            "application/x-7z-compressed",
            "7z",
            FormatFamily::Archive,
            "7-Zip Archive",
            true,
        )
    }
}

/// How a format was detected.
#[derive(Debug, Clone, Copy, PartialEq, Eq, Structural)]
pub enum DetectionMethod {
    /// By a signature at the start of the content.
    MagicBytes,
    /// By the file extension.
    Extension,
    /// By analysing the content.
    ContentAnalysis,
    /// By looking into a container.
    ContainerInspection,
}

/// Confidence, in percent, of a detection by signature.
pub const MAGIC_CONFIDENCE: u8 = 99;

/// Confidence, in percent, of a detection by looking into a container.
pub const CONTAINER_CONFIDENCE: u8 = 95;

/// Confidence, in percent, of a detection by file extension.
pub const EXTENSION_CONFIDENCE: u8 = 70;

/// A detected format, how sure the detection is, and how it was made.
#[derive(Debug, Clone)]
pub struct DetectionResult {
    pub format: Format,
    /// Confidence in percent, from 0 to 100.
    pub confidence: u8,
    pub method: DetectionMethod,
}

pub ghost struct DetectionView {
    pub format: FormatView,
    pub confidence: u8,
    pub method: DetectionMethod,
}

impl DeepView for DetectionResult {
    type V = DetectionView;

    open spec fn deep_view(&self) -> DetectionView {
        DetectionView {
            format: self.format.deep_view(),
            confidence: self.confidence,
            method: self.method,
        }
    }
}

/// A signature: bytes that files of a format hold at a fixed offset.
#[derive(Debug, Clone)]
pub struct FormatSignature {
    pub bytes: Vec<u8>,
    pub offset: usize,
    pub format: Format,
}

pub ghost struct FormatSignatureView {
    pub bytes: Seq<u8>,
    pub offset: nat,
    pub format: FormatView,
}

impl DeepView for FormatSignature {
    type V = FormatSignatureView;

    open spec fn deep_view(&self) -> FormatSignatureView {
        FormatSignatureView {
            bytes: self.bytes@,
            offset: self.offset as nat,
            format: self.format.deep_view(),
        }
    }
}

/// A signature at offset 0.
pub open spec fn signature(bytes: Seq<u8>, format: FormatView) -> FormatSignatureView {
    FormatSignatureView { bytes, offset: 0, format }
}

pub open spec fn pdf_magic() -> Seq<u8> {
    seq![0x25u8, 0x50u8, 0x44u8, 0x46u8]
}

pub open spec fn png_magic() -> Seq<u8> {
    seq![0x89u8, 0x50u8, 0x4Eu8, 0x47u8, 0x0Du8, 0x0Au8, 0x1Au8, 0x0Au8]
}

pub open spec fn jpeg_magic() -> Seq<u8> {
    seq![0xFFu8, 0xD8u8, 0xFFu8]
}

pub open spec fn zip_magic() -> Seq<u8> {
    seq![0x50u8, 0x4Bu8, 0x03u8, 0x04u8]
}

pub open spec fn gif87_magic() -> Seq<u8> {
    seq![0x47u8, 0x49u8, 0x46u8, 0x38u8, 0x37u8, 0x61u8]
}

pub open spec fn gif89_magic() -> Seq<u8> {
    seq![0x47u8, 0x49u8, 0x46u8, 0x38u8, 0x39u8, 0x61u8]
}

pub open spec fn tiff_le_magic() -> Seq<u8> {
    seq![0x49u8, 0x49u8, 0x2Au8, 0x00u8]
}

pub open spec fn tiff_be_magic() -> Seq<u8> {
    seq![0x4Du8, 0x4Du8, 0x00u8, 0x2Au8]
}

pub open spec fn cfb_magic() -> Seq<u8> {
    seq![0xD0u8, 0xCFu8, 0x11u8, 0xE0u8, 0xA1u8, 0xB1u8, 0x1Au8, 0xE1u8]
}

pub open spec fn rar_magic() -> Seq<u8> {
    seq![0x52u8, 0x61u8, 0x72u8, 0x21u8, 0x1Au8, 0x07u8]
}

pub open spec fn seven_zip_magic() -> Seq<u8> {
    seq![0x37u8, 0x7Au8, 0xBCu8, 0xAFu8, 0x27u8, 0x1Cu8]
}

/// The known signatures, in the order in which they are tried.
pub open spec fn signature_table() -> Seq<FormatSignatureView> {
    seq![
        signature(pdf_magic(), pdf_format()),
        signature(png_magic(), png_format()),
        signature(jpeg_magic(), jpeg_format()),
        signature(zip_magic(), zip_format()),
        signature(gif87_magic(), gif_format()),
        signature(gif89_magic(), gif_format()),
        signature(tiff_le_magic(), tiff_format()),
        signature(tiff_be_magic(), tiff_format()),
        signature(cfb_magic(), cfb_format()),
        signature(rar_magic(), rar_format()),
        signature(seven_zip_magic(), seven_zip_format()),
    ]
}

fn make_signature(bytes: Vec<u8>, format: Format) -> (r: FormatSignature)
    ensures
        r.deep_view() == signature(bytes@, format.deep_view()),
{
    FormatSignature { bytes, offset: 0, format }
}

/// The known signatures, in the order in which they are tried.
pub fn signatures() -> (r: Vec<FormatSignature>)
    ensures
        r.deep_view() == signature_table(),
{
    let mut table: Vec<FormatSignature> = Vec::new();
    table.push(make_signature(vec![0x25u8, 0x50u8, 0x44u8, 0x46u8], Format::pdf()));
    table.push(
        make_signature(
            vec![0x89u8, 0x50u8, 0x4Eu8, 0x47u8, 0x0Du8, 0x0Au8, 0x1Au8, 0x0Au8],
            Format::png(),
        ),
    );
    table.push(make_signature(vec![0xFFu8, 0xD8u8, 0xFFu8], Format::jpeg()));
    table.push(make_signature(vec![0x50u8, 0x4Bu8, 0x03u8, 0x04u8], Format::zip()));
    table.push(
        make_signature(vec![0x47u8, 0x49u8, 0x46u8, 0x38u8, 0x37u8, 0x61u8], Format::gif()),
    );
    table.push(
        make_signature(vec![0x47u8, 0x49u8, 0x46u8, 0x38u8, 0x39u8, 0x61u8], Format::gif()),
    );
    table.push(make_signature(vec![0x49u8, 0x49u8, 0x2Au8, 0x00u8], Format::tiff()));
    table.push(make_signature(vec![0x4Du8, 0x4Du8, 0x00u8, 0x2Au8], Format::tiff()));
    table.push(
        make_signature(
            vec![0xD0u8, 0xCFu8, 0x11u8, 0xE0u8, 0xA1u8, 0xB1u8, 0x1Au8, 0xE1u8],
            Format::cfb(),
        ),
    );
    table.push(
        make_signature(vec![0x52u8, 0x61u8, 0x72u8, 0x21u8, 0x1Au8, 0x07u8], Format::rar()),
    );
    table.push(
        make_signature(
            vec![0x37u8, 0x7Au8, 0xBCu8, 0xAFu8, 0x27u8, 0x1Cu8],
            Format::seven_zip(),
        ),
    );
    table
}

/// Whether `data` holds `pattern` at `offset`.
pub open spec fn spec_holds_at(data: Seq<u8>, offset: nat, pattern: Seq<u8>) -> bool {
    data.len() >= offset + pattern.len() && data.subrange(
        offset as int,
        (offset + pattern.len()) as int,
    ) == pattern
}

pub fn holds_at(data: &[u8], offset: usize, pattern: &[u8]) -> (r: bool)
    ensures
        r == spec_holds_at(data@, offset as nat, pattern@),
{
    if offset > data.len() || pattern.len() > data.len() - offset {
        return false;
    }
    bytes_eq(slice_subrange(data, offset, offset + pattern.len()), pattern)
}

/// The format of the first signature at or behind index `from` that `data` holds.
pub open spec fn magic_from(data: Seq<u8>, table: Seq<FormatSignatureView>, from: int) -> Option<
    FormatView,
>
    decreases table.len() - from,
{
    if from < 0 || from >= table.len() {
        None
    } else if spec_holds_at(data, table[from].offset, table[from].bytes) {
        Some(table[from].format)
    } else {
        magic_from(data, table, from + 1)
    }
}

/// Detection by signature: the first signature of the table that `data` holds decides.
pub open spec fn spec_detect_by_magic(data: Seq<u8>) -> Option<DetectionView> {
    match magic_from(data, signature_table(), 0) {
        Some(format) => Some(
            DetectionView { format, confidence: MAGIC_CONFIDENCE, method: DetectionMethod::MagicBytes },
        ),
        None => None,
    }
}

pub fn detect_by_magic(data: &[u8]) -> (r: Option<DetectionResult>)
    ensures
        r.deep_view() == spec_detect_by_magic(data@),
{
    let mut table = signatures();
    let mut i: usize = 0;
    while i < table.len()
        invariant
            i <= table.len(),
            table.deep_view() == signature_table(),
            magic_from(data@, signature_table(), i as int) == magic_from(
                data@,
                signature_table(),
                0,
            ),
        decreases table.len() - i,
    {
        if holds_at(data, table[i].offset, table[i].bytes.as_slice()) {
            let sig = table.swap_remove(i);
            return Some(
                DetectionResult {
                    format: sig.format,
                    confidence: MAGIC_CONFIDENCE,
                    method: DetectionMethod::MagicBytes,
                },
            );
        }
        i += 1;
    }
    None
}

/// Whether `needle` occurs somewhere in `hay`.
pub open spec fn spec_contains(hay: Seq<u8>, needle: Seq<u8>) -> bool {
    exists|i: nat| #[trigger] spec_holds_at(hay, i, needle)
}

pub fn contains(hay: &[u8], needle: &[u8]) -> (r: bool)
    ensures
        r == spec_contains(hay@, needle@),
{
    if needle.len() > hay.len() {
        return false;
    }
    let last: usize = hay.len() - needle.len();
    let mut i: usize = 0;
    loop
        invariant
            i <= last,
            last == hay.len() - needle.len(),
            forall|k: nat| k < i ==> !#[trigger] spec_holds_at(hay@, k, needle@),
        decreases last - i,
    {
        if holds_at(hay, i, needle) {
            return true;
        }
        if i == last {
            return false;
        }
        i += 1;
    }
}

/// The Office format of a ZIP container: the content must hold the marker
/// `[Content_Types].xml`, and the first of `word`, `xl` and `ppt` that it holds decides.
pub open spec fn spec_detect_office_in_zip(data: Seq<u8>) -> Option<FormatView> {
    if !spec_contains(data, lit("[Content_Types].xml")) {
        None
    } else if spec_contains(data, lit("word")) {
        Some(docx_format())
    } else if spec_contains(data, lit("xl")) {
        Some(xlsx_format())
    } else if spec_contains(data, lit("ppt")) {
        Some(pptx_format())
    } else {
        None
    }
}

pub fn detect_office_in_zip(data: &[u8]) -> (r: Option<Format>)
    ensures
        r.deep_view() == spec_detect_office_in_zip(data@),
{
    if !contains(data, "[Content_Types].xml".as_bytes()) {
        None
    } else if contains(data, "word".as_bytes()) {
        Some(Format::docx())
    } else if contains(data, "xl".as_bytes()) {
        Some(Format::xlsx())
    } else if contains(data, "ppt".as_bytes()) {
        Some(Format::pptx())
    } else {
        None
    }
}

/// The lower-case form of an ASCII letter; any other byte as it is.
pub open spec fn lower_byte(b: u8) -> u8 {
    if 0x41 <= b <= 0x5A {
        (b + 0x20) as u8
    } else {
        b
    }
}

/// The bytes with ASCII letters in lower case.
pub open spec fn lower_bytes(s: Seq<u8>) -> Seq<u8> {
    Seq::new(s.len(), |i: int| lower_byte(s[i]))
}

/// Whether `a`, ASCII letters taken in lower case, is `b`.
pub fn eq_lower(a: &[u8], b: &[u8]) -> (r: bool)
    ensures
        r == (lower_bytes(a@) == b@),
{
    if a.len() != b.len() {
        return false;
    }
    let mut i: usize = 0;
    while i < a.len()
        invariant
            i <= a.len(),
            a.len() == b.len(),
            forall|k: int| 0 <= k < i ==> lower_byte(a@[k]) == b@[k],
        decreases a.len() - i,
    {
        let c = a[i];
        let low = if 0x41 <= c && c <= 0x5A {
            c + 0x20
        } else {
            c
        };
        if low != b[i] {
            return false;
        }
        i += 1;
    }
    assert(lower_bytes(a@) =~= b@);
    true
}

/// The format that an extension, in lower case, names.
pub open spec fn extension_format(ext: Seq<u8>) -> Option<FormatView> {
    if ext == lit("pdf") {
        Some(pdf_format())
    } else if ext == lit("docx") {
        Some(docx_format())
    } else if ext == lit("xlsx") {
        Some(xlsx_format())
    } else if ext == lit("pptx") {
        Some(pptx_format())
    } else if ext == lit("png") {
        Some(png_format())
    } else if ext == lit("jpg") {
        Some(jpeg_format())
    } else if ext == lit("jpeg") {
        Some(jpeg_format())
    } else {
        None
    }
}

fn lookup_extension(ext: &[u8]) -> (r: Option<Format>)
    ensures
        r.deep_view() == extension_format(lower_bytes(ext@)),
{
    if eq_lower(ext, "pdf".as_bytes()) {
        Some(Format::pdf())
    } else if eq_lower(ext, "docx".as_bytes()) {
        Some(Format::docx())
    } else if eq_lower(ext, "xlsx".as_bytes()) {
        Some(Format::xlsx())
    } else if eq_lower(ext, "pptx".as_bytes()) {
        Some(Format::pptx())
    } else if eq_lower(ext, "png".as_bytes()) {
        Some(Format::png())
    } else if eq_lower(ext, "jpg".as_bytes()) {
        Some(Format::jpeg())
    } else if eq_lower(ext, "jpeg".as_bytes()) {
        Some(Format::jpeg())
    } else {
        None
    }
}

/// The offset behind the last `.` among the first `upto` bytes, or 0 where there is none.
pub open spec fn after_last_dot(s: Seq<u8>, upto: int) -> int
    decreases upto,
{
    if upto <= 0 || upto > s.len() {
        0
    } else if s[upto - 1] == 0x2E {
        upto
    } else {
        after_last_dot(s, upto - 1)
    }
}

/// The extension of a file name: what stands behind its last `.`, or the whole name where
/// it holds none.
pub open spec fn file_extension(name: Seq<u8>) -> Seq<u8> {
    name.skip(after_last_dot(name, name.len() as int))
}

pub fn extension_of(name: &[u8]) -> (r: &[u8])
    ensures
        r@ == file_extension(name@),
{
    let mut i: usize = name.len();
    while i > 0
        invariant
            i <= name.len(),
            after_last_dot(name@, i as int) == after_last_dot(name@, name.len() as int),
        decreases i,
    {
        if name[i - 1] == 0x2E {
            return slice_subrange(name, i, name.len());
        }
        i -= 1;
    }
    slice_subrange(name, 0, name.len())
}

/// Detection by the extension of the file name, without regard to the case of letters.
pub open spec fn spec_detect_by_extension(filename: Seq<u8>) -> Option<DetectionView> {
    match extension_format(lower_bytes(file_extension(filename))) {
        Some(format) => Some(
            DetectionView {
                format,
                confidence: EXTENSION_CONFIDENCE,
                method: DetectionMethod::Extension,
            },
        ),
        None => None,
    }
}

pub fn detect_by_extension(filename: &str) -> (r: Option<DetectionResult>)
    ensures
        r.deep_view() == spec_detect_by_extension(filename.spec_bytes()),
{
    match lookup_extension(extension_of(filename.as_bytes())) {
        Some(format) => Some(
            DetectionResult {
                format,
                confidence: EXTENSION_CONFIDENCE,
                method: DetectionMethod::Extension,
            },
        ),
        None => None,
    }
}

/// The bytes of an optional file name.
pub open spec fn name_bytes(filename: Option<&str>) -> Option<Seq<u8>> {
    match filename {
        Some(name) => Some(name.spec_bytes()),
        None => None,
    }
}

/// Format detection, in strict order of priority: a signature decides; where the signature
/// is that of a ZIP container that holds the marks of an Office document, the Office format
/// takes its place; only without a signature does the extension of the file name decide.
pub open spec fn spec_detect_format(data: Seq<u8>, filename: Option<Seq<u8>>) -> Option<
    DetectionView,
> {
    match spec_detect_by_magic(data) {
        Some(found) => if found.format.mime_type == "application/zip"@ {
            match spec_detect_office_in_zip(data) {
                Some(office) => Some(
                    DetectionView {
                        format: office,
                        confidence: CONTAINER_CONFIDENCE,
                        method: DetectionMethod::ContainerInspection,
                    },
                ),
                None => Some(found),
            }
        } else {
            Some(found)
        },
        None => match filename {
            Some(name) => spec_detect_by_extension(name),
            None => None,
        },
    }
}

/// Detects the format of a document from its content and, failing that, from its file name.
/// `None` means that the format is not supported; it is no error.
pub fn detect_format(data: &[u8], filename: Option<&str>) -> (r: Option<DetectionResult>)
    ensures
        r.deep_view() == spec_detect_format(data@, name_bytes(filename)),
{
    match detect_by_magic(data) {
        Some(found) => {
            if str_eq(found.format.mime_type.as_str(), "application/zip") {
                match detect_office_in_zip(data) {
                    Some(office) => Some(
                        DetectionResult {
                            format: office,
                            confidence: CONTAINER_CONFIDENCE,
                            method: DetectionMethod::ContainerInspection,
                        },
                    ),
                    None => Some(found),
                }
            } else {
                Some(found)
            }
        },
        None => match filename {
            Some(name) => detect_by_extension(name),
            None => None,
        },
    }
}

/// The format that a MIME type names.
pub open spec fn spec_format_by_mime(mime_type: Seq<char>) -> Option<FormatView> {
    if mime_type == pdf_format().mime_type {
        Some(pdf_format())
    } else if mime_type == docx_format().mime_type {
        Some(docx_format())
    } else if mime_type == xlsx_format().mime_type {
        Some(xlsx_format())
    } else if mime_type == pptx_format().mime_type {
        Some(pptx_format())
    } else if mime_type == png_format().mime_type {
        Some(png_format())
    } else if mime_type == jpeg_format().mime_type {
        Some(jpeg_format())
    } else {
        None
    }
}

pub fn format_by_mime(mime_type: &str) -> (r: Option<Format>)
    ensures
        r.deep_view() == spec_format_by_mime(mime_type@),
{
    if str_eq(mime_type, "application/pdf") {
        Some(Format::pdf())
    } else if str_eq(
        mime_type,
        "application/vnd.openxmlformats-officedocument.wordprocessingml.document",
    ) {
        Some(Format::docx())
    } else if str_eq(
        mime_type,
        "application/vnd.openxmlformats-officedocument.spreadsheetml.sheet",
    ) {
        Some(Format::xlsx())
    } else if str_eq(
        mime_type,
        "application/vnd.openxmlformats-officedocument.presentationml.presentation",
    ) {
        Some(Format::pptx())
    } else if str_eq(mime_type, "image/png") {
        Some(Format::png())
    } else if str_eq(mime_type, "image/jpeg") {
        Some(Format::jpeg())
    } else {
        None
    }
}

/// The number of `.` bytes at the start of `s`, from index `from` on.
pub open spec fn leading_dots(s: Seq<u8>, from: int) -> int
    decreases s.len() - from,
{
    if from < 0 || from >= s.len() || s[from] != 0x2E {
        from
    } else {
        leading_dots(s, from + 1)
    }
}

/// The format that an extension names, without regard to leading dots and to the case of
/// letters.
pub open spec fn spec_format_by_extension(extension: Seq<u8>) -> Option<FormatView> {
    extension_format(lower_bytes(extension.skip(leading_dots(extension, 0))))
}

pub fn format_by_extension(extension: &str) -> (r: Option<Format>)
    ensures
        r.deep_view() == spec_format_by_extension(extension.spec_bytes()),
{
    let bytes = extension.as_bytes();
    let mut i: usize = 0;
    while i < bytes.len() && bytes[i] == 0x2E
        invariant
            i <= bytes.len(),
            leading_dots(bytes@, i as int) == leading_dots(bytes@, 0),
        decreases bytes.len() - i,
    {
        i += 1;
    }
    lookup_extension(slice_subrange(bytes, i, bytes.len()))
}

/// A signature outranks the file name: where the content holds a signature, the file name
/// has no say in what is detected.
pub proof fn law_magic_outranks_extension(
    data: Seq<u8>,
    first: Option<Seq<u8>>,
    second: Option<Seq<u8>>,
)
    requires
        spec_detect_by_magic(data) is Some,
    ensures
        spec_detect_format(data, first) == spec_detect_format(data, second),
        spec_detect_format(data, first) matches Some(found) && found.method
            != DetectionMethod::Extension,
{
}

/// A ZIP container that holds the Office marker and the mark of a word-processing document
/// is detected as DOCX, by container inspection with a confidence of 95 percent, whatever
/// the file is called.
pub proof fn law_zip_with_word_is_docx(data: Seq<u8>, filename: Option<Seq<u8>>)
    requires
        spec_holds_at(data, 0, zip_magic()),
        spec_contains(data, lit("[Content_Types].xml")),
        spec_contains(data, lit("word")),
    ensures
        spec_detect_format(data, filename) == Some(
            DetectionView {
                format: docx_format(),
                confidence: CONTAINER_CONFIDENCE,
                method: DetectionMethod::ContainerInspection,
            },
        ),
{
    let table = signature_table();
    assert(data.len() >= 4);
    assert(data.subrange(0, 4)[0] == zip_magic()[0]);
    assert(data[0] == 0x50);
    assert(!spec_holds_at(data, 0, pdf_magic())) by {
        if spec_holds_at(data, 0, pdf_magic()) {
            assert(data.subrange(0, 4)[0] == pdf_magic()[0]);
        }
    }
    assert(!spec_holds_at(data, 0, png_magic())) by {
        if spec_holds_at(data, 0, png_magic()) {
            assert(data.subrange(0, 8)[0] == png_magic()[0]);
        }
    }
    assert(!spec_holds_at(data, 0, jpeg_magic())) by {
        if spec_holds_at(data, 0, jpeg_magic()) {
            assert(data.subrange(0, 3)[0] == jpeg_magic()[0]);
        }
    }
    assert(table[0] == signature(pdf_magic(), pdf_format()));
    assert(table[1] == signature(png_magic(), png_format()));
    assert(table[2] == signature(jpeg_magic(), jpeg_format()));
    assert(table[3] == signature(zip_magic(), zip_format()));
    assert(magic_from(data, table, 3) == Some(zip_format()));
    assert(magic_from(data, table, 2) == Some(zip_format()));
    assert(magic_from(data, table, 1) == Some(zip_format()));
    assert(magic_from(data, table, 0) == Some(zip_format()));
}

} // verus!
