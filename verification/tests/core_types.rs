use prism::document::emu_to_points;
use prism::document::points_to_emu;
use prism::document::ContentBlock;
use prism::document::Dimensions;
use prism::document::Document;
use prism::document::Page;
use prism::document::Point;
use prism::document::Rect;
use prism::document::TextBlock;
use prism::document::TextRun;
use prism::error::Error;
use prism::error::ResultExt;
use prism::format::detect_format;
use prism::format::format_by_extension;
use prism::format::format_by_mime;
use prism::format::DetectionMethod;
use prism::format::Format;
use prism::format::FormatFamily;
use prism::init;
use prism::license::LicenseManager;
use prism::metadata::Metadata;
use prism::metadata::MetadataValue;
use prism::parser::ParseContext;
use prism::parser::ParseOptions;
use prism::parser::Parser;
use prism::plain::TextParser;
use prism::pptx::PptxParser;
use prism::registry::BuiltinParser;
use prism::registry::ParserRegistry;
use prism::sandbox::SandboxConfig;
use prism::sandbox::SandboxManager;
use prism::server::ApiError;
use prism::server::ErrorResponse;
use prism::server::FormatInfo;
use prism::server::ServerConfig;
use prism::render::PageRange;
use prism::render::RenderOptions;
use prism::VERSION;

#[test]
fn test_error_display() {
    let err = Error::UnsupportedFormat("xyz".to_string());
    assert!(err.to_string().contains("xyz"));
}

#[test]
fn test_error_recoverable() {
    assert!(Error::Timeout(std::time::Duration::from_secs(30)).is_recoverable());
    assert!(!Error::ParseError("test".to_string()).is_recoverable());
}

#[test]
fn test_error_input() {
    assert!(Error::InvalidInput("test".to_string()).is_input_error());
    assert!(Error::Corrupted("test".to_string()).is_input_error());
    assert!(!Error::Io(std::io::Error::new(std::io::ErrorKind::NotFound, "test")).is_input_error());
}

#[test]
fn error_texts_name_each_kind() {
    assert_eq!(
        Error::DetectionFailed("a".to_string()).to_string(),
        "Unable to detect document format: a"
    );
    assert_eq!(Error::ParseError("b".to_string()).to_string(), "Failed to parse document: b");
    assert_eq!(Error::RenderError("c".to_string()).to_string(), "Failed to render document: c");
    assert_eq!(Error::InvalidInput("d".to_string()).to_string(), "Invalid input: d");
    assert_eq!(Error::Encrypted("e".to_string()).to_string(), "Document is encrypted: e");
    assert_eq!(Error::Corrupted("f".to_string()).to_string(), "Document is corrupted: f");
    assert_eq!(Error::ResourceNotFound("g".to_string()).to_string(), "Resource not found: g");
    assert_eq!(Error::SandboxError("h".to_string()).to_string(), "Sandbox error: h");
    assert_eq!(Error::ConfigError("i".to_string()).to_string(), "Configuration error: i");
    assert_eq!(Error::Internal("j".to_string()).to_string(), "Internal error: j");
    assert_eq!(
        Error::MemoryLimitExceeded { used: 2048, limit: 1024 }.to_string(),
        "Memory limit exceeded: 2048 bytes used, 1024 bytes allowed"
    );
    assert_eq!(
        Error::Timeout(std::time::Duration::from_secs(30)).to_string(),
        "Operation timed out after 30s"
    );
    assert_eq!(
        Error::Io(std::io::Error::new(std::io::ErrorKind::NotFound, "gone")).to_string(),
        "IO error: gone"
    );
}

#[test]
fn only_limits_are_recoverable() {
    assert!(Error::MemoryLimitExceeded { used: 2, limit: 1 }.is_recoverable());
    assert!(!Error::Internal("x".to_string()).is_recoverable());
    assert!(Error::UnsupportedFormat("x".to_string()).is_input_error());
    assert!(Error::ParseError("x".to_string()).is_input_error());
    assert!(!Error::Encrypted("x".to_string()).is_input_error());
    assert!(!Error::Timeout(std::time::Duration::from_secs(1)).is_input_error());
}

#[test]
fn error_constructors_and_context() {
    assert!(matches!(Error::parse("bad"), Error::ParseError(m) if m == "bad"));
    assert!(matches!(Error::internal("oops"), Error::Internal(m) if m == "oops"));
    let failed: Result<u8, Error> = Err(Error::parse("bad"));
    match failed.context("while reading") {
        Err(Error::Internal(m)) => {
            assert_eq!(m, "while reading: Failed to parse document: bad")
        }
        other => panic!("unexpected {:?}", other),
    }
    let fine: Result<u8, Error> = Ok(7);
    assert!(matches!(fine.context("while reading"), Ok(7)));
}

#[test]
fn test_detect_pdf() {
    let data = b"%PDF-1.4 test content";
    let result = detect_format(data, None);

    assert!(result.is_some());
    let result = result.unwrap();
    assert_eq!(result.format.mime_type, "application/pdf");
    assert_eq!(result.confidence as f64 / 100.0, 0.99);
    assert_eq!(result.method, DetectionMethod::MagicBytes);
}

#[test]
fn test_detect_png() {
    let data = [0x89, 0x50, 0x4E, 0x47, 0x0D, 0x0A, 0x1A, 0x0A, 0x00, 0x00];
    let result = detect_format(&data, None);

    assert!(result.is_some());
    let result = result.unwrap();
    assert_eq!(result.format.mime_type, "image/png");
}

#[test]
fn test_detect_by_extension() {
    let result = detect_format(b"unknown content", Some("document.pdf"));

    assert!(result.is_some());
    let result = result.unwrap();
    assert_eq!(result.format.mime_type, "application/pdf");
    assert_eq!(result.method, DetectionMethod::Extension);
    assert!((result.confidence as f64 / 100.0) < 0.99);
}

#[test]
fn test_unknown_format() {
    let result = detect_format(b"random bytes", None);
    assert!(result.is_none());
}

#[test]
fn test_format_family() {
    assert_eq!(FormatFamily::Document.name(), "Document");
    assert_eq!(FormatFamily::Office.name(), "Office");
}

#[test]
fn format_family_names() {
    assert_eq!(FormatFamily::Email.name(), "Email");
    assert_eq!(FormatFamily::Image.name(), "Image");
    assert_eq!(FormatFamily::Archive.name(), "Archive");
    assert_eq!(FormatFamily::Cad.name(), "CAD");
    assert_eq!(FormatFamily::Text.name(), "Text");
    assert_eq!(FormatFamily::Audio.name(), "Audio");
    assert_eq!(FormatFamily::Video.name(), "Video");
    assert_eq!(FormatFamily::Legacy.name(), "Legacy");
    assert_eq!(FormatFamily::Unknown.name(), "Unknown");
}

#[test]
fn magic_bytes_outrank_the_extension() {
    let result = detect_format(b"%PDF-1.4", Some("x.docx")).unwrap();
    assert_eq!(result.format.mime_type, "application/pdf");
    assert_eq!(result.format.extension, "pdf");
    assert_eq!(result.method, DetectionMethod::MagicBytes);
    assert_eq!(result.confidence, 99);
}

#[test]
fn zip_with_office_marks_is_office() {
    let mut data = vec![0x50, 0x4B, 0x03, 0x04];
    data.extend_from_slice(b"....[Content_Types].xml....word/document.xml");
    let result = detect_format(&data, None).unwrap();
    assert_eq!(
        result.format.mime_type,
        "application/vnd.openxmlformats-officedocument.wordprocessingml.document"
    );
    assert_eq!(result.format.name, "Microsoft Word (DOCX)");
    assert_eq!(result.method, DetectionMethod::ContainerInspection);
    assert_eq!(result.confidence, 95);
    assert_eq!(result.confidence as f64 / 100.0, 0.95);

    let mut sheet = vec![0x50, 0x4B, 0x03, 0x04];
    sheet.extend_from_slice(b"[Content_Types].xml xl/workbook.xml");
    assert_eq!(detect_format(&sheet, None).unwrap().format.extension, "xlsx");

    let mut slides = vec![0x50, 0x4B, 0x03, 0x04];
    slides.extend_from_slice(b"[Content_Types].xml ppt/presentation.xml");
    assert_eq!(detect_format(&slides, None).unwrap().format.extension, "pptx");
}

#[test]
fn plain_zip_stays_zip() {
    let mut data = vec![0x50, 0x4B, 0x03, 0x04];
    data.extend_from_slice(b"readme.txt word");
    let result = detect_format(&data, Some("a.docx")).unwrap();
    assert_eq!(result.format.mime_type, "application/zip");
    assert_eq!(result.method, DetectionMethod::MagicBytes);
    assert_eq!(result.confidence, 99);
    assert!(result.format.is_container);
}

#[test]
fn every_signature_is_known() {
    let cases: Vec<(Vec<u8>, &str)> = vec![
        (vec![0xFF, 0xD8, 0xFF, 0xE0], "image/jpeg"),
        (b"GIF87a..".to_vec(), "image/gif"),
        (b"GIF89a..".to_vec(), "image/gif"),
        (vec![0x49, 0x49, 0x2A, 0x00], "image/tiff"),
        (vec![0x4D, 0x4D, 0x00, 0x2A], "image/tiff"),
        (vec![0xD0, 0xCF, 0x11, 0xE0, 0xA1, 0xB1, 0x1A, 0xE1], "application/x-cfb"),
        (vec![0x52, 0x61, 0x72, 0x21, 0x1A, 0x07], "application/vnd.rar"),
        (vec![0x37, 0x7A, 0xBC, 0xAF, 0x27, 0x1C], "application/x-7z-compressed"),
    ];
    for (data, mime) in cases {
        let result = detect_format(&data, None).unwrap();
        assert_eq!(result.format.mime_type, mime);
        assert_eq!(result.method, DetectionMethod::MagicBytes);
    }
    assert!(detect_format(&[0xFF, 0xD8], None).is_none());
    assert!(detect_format(&[], None).is_none());
}

#[test]
fn extension_detection_ignores_case() {
    let result = detect_format(b"??", Some("Report.final.DOCX")).unwrap();
    assert_eq!(result.format.extension, "docx");
    assert_eq!(result.confidence, 70);
    assert_eq!(detect_format(b"??", Some("jpeg")).unwrap().format.mime_type, "image/jpeg");
    assert!(detect_format(b"??", Some("notes.txt")).is_none());
    assert!(detect_format(b"??", Some("pdf.")).is_none());
}

#[test]
fn formats_by_mime_and_extension() {
    assert_eq!(format_by_mime("application/pdf").unwrap().extension, "pdf");
    assert_eq!(format_by_mime("image/png").unwrap().name, "PNG Image");
    assert_eq!(format_by_mime("image/jpeg").unwrap().extension, "jpg");
    assert_eq!(
        format_by_mime("application/vnd.openxmlformats-officedocument.spreadsheetml.sheet")
            .unwrap()
            .extension,
        "xlsx"
    );
    assert!(format_by_mime("text/plain").is_none());
    assert_eq!(format_by_extension("..PPTX").unwrap().name, "Microsoft PowerPoint (PPTX)");
    assert_eq!(format_by_extension("jpg").unwrap(), Format::jpeg());
    assert_eq!(format_by_extension("jpeg").unwrap(), Format::jpeg());
    assert!(format_by_extension("exe").is_none());
    assert!(format_by_extension("").is_none());
}

#[test]
fn test_version() {
    assert!(!VERSION.is_empty());
}

#[test]
fn test_init() {
    init();
}

#[test]
fn licence_keys() {
    assert!(LicenseManager::validate("commercial-dev-key-123"));
    assert!(!LicenseManager::validate("commercial-dev-key-124"));
    assert!(!LicenseManager::validate(""));
    assert_eq!(LicenseManager::license_type(), "AGPL-3.0 (Community)");
}

#[test]
fn test_parse_options_default() {
    let opts = ParseOptions::default();
    assert!(!opts.extract_images);
    assert!(!opts.preserve_formatting);
}

#[test]
fn test_parse_context() {
    let context = ParseContext {
        format: Format::pdf(),
        filename: Some("test.pdf".to_string()),
        size: 1024,
        options: ParseOptions::default(),
    };

    assert_eq!(context.size, 1024);
    assert_eq!(context.filename, Some("test.pdf".to_string()));
}

#[test]
fn test_render_options_default() {
    let opts = RenderOptions::default();
    assert!(!opts.include_images);
    assert!(!opts.preserve_formatting);
}

#[test]
fn test_page_range() {
    let range = PageRange::Range { start: 1, end: 10 };
    assert_eq!(range, PageRange::Range { start: 1, end: 10 });
}

#[test]
fn test_metadata_builder() {
    let metadata = Metadata::builder()
        .title("Test Document")
        .author("Test Author")
        .keyword("test")
        .keyword("example")
        .build();

    assert_eq!(metadata.title, Some("Test Document".to_string()));
    assert_eq!(metadata.author, Some("Test Author".to_string()));
    assert_eq!(metadata.keywords.len(), 2);
}

#[test]
fn test_custom_metadata() {
    let mut metadata = Metadata::new();
    metadata.add_custom("custom_field", "custom_value".into());
    metadata.add_custom("number_field", 42_i64.into());

    assert!(metadata.get_custom("custom_field").is_some());
    assert!(metadata.get_custom("number_field").is_some());
}

#[test]
fn test_metadata_value_conversions() {
    let _string_val: MetadataValue = "test".into();
    let _int_val: MetadataValue = 42_i64.into();
    let _bool_val: MetadataValue = true.into();
    let owned: MetadataValue = String::from("owned").into();
    assert!(matches!(owned, MetadataValue::String(s) if s == "owned"));
    assert!(matches!(_int_val, MetadataValue::Integer(42)));
    assert!(matches!(_bool_val, MetadataValue::Boolean(true)));
}

#[test]
fn custom_metadata_keeps_each_key_once() {
    let mut metadata = Metadata::new();
    metadata.add_custom("k", MetadataValue::Integer(1));
    metadata.add_custom("other", MetadataValue::Boolean(false));
    metadata.add_custom("k", MetadataValue::Integer(2));
    assert_eq!(metadata.custom.len(), 2);
    assert!(matches!(metadata.get_custom("k"), Some(MetadataValue::Integer(2))));
    assert!(metadata.get_custom("missing").is_none());
    let built = Metadata::builder()
        .subject("s")
        .creator("c")
        .producer("p")
        .language("en")
        .created(10)
        .modified(20)
        .custom("x", MetadataValue::text("y"))
        .build();
    assert_eq!(built.subject.as_deref(), Some("s"));
    assert_eq!(built.creator.as_deref(), Some("c"));
    assert_eq!(built.producer.as_deref(), Some("p"));
    assert_eq!(built.language.as_deref(), Some("en"));
    assert_eq!(built.created, Some(10));
    assert_eq!(built.modified, Some(20));
    assert!(matches!(built.get_custom("x"), Some(MetadataValue::String(s)) if s == "y"));
}

#[test]
fn test_document_creation() {
    let doc = Document::new();
    assert_eq!(doc.page_count(), 0);
}

#[test]
fn test_document_builder() {
    let doc = Document::builder()
        .metadata(Metadata::builder().title("Test Document").build())
        .page(Page::new(1, Dimensions::letter()))
        .page(Page::new(2, Dimensions::letter()))
        .build();

    assert_eq!(doc.page_count(), 2);
    assert_eq!(doc.metadata.title, Some("Test Document".to_string()));
}

#[test]
fn test_text_extraction() {
    let mut page = Page::new(1, Dimensions::letter());

    let mut text_block = TextBlock::new(Rect::default());
    text_block.add_run(TextRun::new("Hello, "));
    text_block.add_run(TextRun::new("World!"));

    page.add_content(ContentBlock::Text(text_block));

    assert_eq!(page.extract_text(), "Hello, World!");
}

#[test]
fn test_dimensions() {
    let letter = Dimensions::letter();
    assert!((letter.width as f64 / 12700.0 - 612.0).abs() < 0.01);
    assert!((letter.height as f64 / 12700.0 - 792.0).abs() < 0.01);

    let from_inches = Dimensions::from_inches(850, 1100);
    assert!((from_inches.width as f64 / 12700.0 - 612.0).abs() < 0.01);
    assert!((from_inches.height as f64 / 12700.0 - 792.0).abs() < 0.01);
}

#[test]
fn test_rect_contains() {
    let rect = Rect::new(10, 10, 100, 50);

    assert!(rect.contains(Point::new(50, 30)));
    assert!(rect.contains(Point::new(10, 10)));
    assert!(!rect.contains(Point::new(5, 30)));
    assert!(!rect.contains(Point::new(50, 100)));
}

#[test]
fn page_sizes_in_emu() {
    assert_eq!(Dimensions::letter(), Dimensions::new(7772400, 10058400));
    assert_eq!(Dimensions::default(), Dimensions::letter());
    let a4 = Dimensions::a4();
    assert!((a4.width as f64 / 12700.0 - 595.28).abs() < 0.001);
    assert!((a4.height as f64 / 12700.0 - 841.89).abs() < 0.001);
    assert_eq!(Dimensions::from_mm(210, 297), Dimensions::new(7560000, 10692000));
    for emu in [0i64, 12700, 914400] {
        let points = emu as f64 / 12700.0;
        assert!((points * 12700.0 - emu as f64).abs() < 1e-6);
    }
    assert_eq!(914400f64 / 12700.0, 72.0);
}

#[test]
fn points_round_trip_through_emu() {
    assert_eq!(points_to_emu(0), Some(0));
    assert_eq!(points_to_emu(100), Some(12700));
    assert_eq!(points_to_emu(7200), Some(914400));
    assert_eq!(points_to_emu(-100), Some(-12700));
    assert_eq!(points_to_emu(i64::MAX), None);
    assert_eq!(points_to_emu(i64::MIN), None);
    assert_eq!(points_to_emu(i64::MAX / 127), Some(i64::MAX / 127 * 127));
    assert_eq!(points_to_emu(i64::MAX / 127 + 1), None);
    assert_eq!(emu_to_points(0), 0);
    assert_eq!(emu_to_points(12700), 100);
    assert_eq!(emu_to_points(914400), 7200);
    assert_eq!(emu_to_points(126), 0);
    assert_eq!(emu_to_points(127), 1);
    assert_eq!(emu_to_points(-1), 0);
    assert_eq!(emu_to_points(-127), -1);
    assert_eq!(emu_to_points(-128), -1);
    assert_eq!(emu_to_points(i64::MIN), i64::MIN / 127);
    for hundredths in [0i64, 1, 100, 7200, 59528, 84189, -100, i64::MAX / 127, i64::MIN / 127] {
        assert_eq!(emu_to_points(points_to_emu(hundredths).unwrap()), hundredths);
    }
    for emu in [0i64, 12700, 914400] {
        assert_eq!(points_to_emu(emu_to_points(emu)), Some(emu));
        assert_eq!(emu_to_points(emu) as f64 / 100.0, emu as f64 / 12700.0);
    }
    for emu in [1i64, 126, 128, 7560000, -5] {
        let back = points_to_emu(emu_to_points(emu)).unwrap();
        assert!((back - emu).abs() < 127);
        assert!(back.abs() <= emu.abs());
    }
}

#[test]
fn rect_edges_and_extremes() {
    let rect = Rect::new(i64::MAX - 1, 0, i64::MAX, 10);
    assert!(rect.contains(Point::new(i64::MAX, 10)));
    assert!(!rect.contains(Point::new(0, 0)));
    let zero = Rect::default();
    assert!(zero.contains(Point::new(0, 0)));
    assert!(!zero.contains(Point::new(1, 0)));
}

#[test]
fn document_pages_and_text() {
    let mut first = Page::new(1, Dimensions::letter());
    first.add_content(ContentBlock::Text(TextBlock::of_runs(
        Rect::default(),
        vec![TextRun::new("one")],
    )));
    first.add_content(ContentBlock::Text(TextBlock::of_runs(
        Rect::default(),
        vec![TextRun::new("two")],
    )));
    let mut second = Page::new(2, Dimensions::letter());
    second.add_content(ContentBlock::Text(TextBlock::of_runs(
        Rect::default(),
        vec![TextRun::new("three")],
    )));
    let doc = Document::builder().page(first).page(second).build();
    assert_eq!(doc.extract_text(), "one\ntwo\n\nthree");
    assert!(doc.page(0).is_none());
    assert_eq!(doc.page(1).unwrap().number, 1);
    assert_eq!(doc.page(2).unwrap().number, 2);
    assert!(doc.page(3).is_none());
    assert_eq!(Document::new().extract_text(), "");
}

#[test]
fn test_registry_creation() {
    let registry = ParserRegistry::<BuiltinParser>::new();
    assert_eq!(registry.count(), 0);
}

#[test]
fn test_has_parser() {
    let registry = ParserRegistry::<BuiltinParser>::new();
    let format = Format::pdf();
    assert!(!registry.has_parser(&format));
}

#[test]
fn registry_keeps_one_parser_for_each_type() {
    let mut registry = ParserRegistry::with_builtin_parsers();
    assert_eq!(registry.count(), 5);
    assert!(registry.has_parser(&Format::docx()));
    assert!(registry.has_parser(&Format::pptx()));
    assert!(registry.has_parser(&Format::xlsx()));
    assert!(!registry.has_parser(&Format::pdf()));
    assert!(registry.get_parser(&Format::pdf()).is_none());
    let found = registry.get_parser(&Format::xlsx()).unwrap();
    assert!(matches!(found, BuiltinParser::Xlsx(_)));
    assert_eq!(Parser::format(found), Format::xlsx());
    assert_eq!(Parser::metadata(found).name, "XLSX Parser");
    assert!(registry.get_parser_for_data(&Format::xlsx(), b"PK\x03\x04rest").is_some());
    assert!(registry.get_parser_for_data(&Format::xlsx(), b"plain").is_none());
    assert!(registry.get_parser_for_data(&Format::pdf(), b"%PDF-1.4").is_none());
    let order: Vec<String> = registry.all_parsers().iter().map(|p| Parser::metadata(*p).name).collect();
    assert_eq!(order, ["DOCX Parser", "PPTX Parser", "XLSX Parser", "Text Parser", "HTML Parser"]);
    registry.register(BuiltinParser::Pptx(PptxParser::new()));
    assert_eq!(registry.count(), 5);
    let order: Vec<String> = registry.all_parsers().iter().map(|p| Parser::metadata(*p).name).collect();
    assert_eq!(order, ["DOCX Parser", "PPTX Parser", "XLSX Parser", "Text Parser", "HTML Parser"]);
}

#[test]
fn a_parser_from_the_registry_parses() {
    let registry = ParserRegistry::with_builtin_parsers();
    let text = registry.get_parser_for_data(&TextParser::new().format(), b"two words").unwrap();
    let context = ParseContext {
        format: Parser::format(text),
        filename: Some("note.txt".to_string()),
        size: 9,
        options: ParseOptions::default(),
    };
    let document = Parser::parse(text, b"two words", context).unwrap();
    assert_eq!(document.extract_text(), "two words");
    assert_eq!(document.metadata.title.as_deref(), Some("note.txt"));
    let context = ParseContext {
        format: Parser::format(text),
        filename: None,
        size: 2,
        options: ParseOptions::default(),
    };
    match Parser::parse(text, &[b'a', 0xC3], context) {
        Err(Error::ParseError(m)) => assert!(m.starts_with("Invalid UTF-8: "), "{}", m),
        other => panic!("expected a parse error, got {:?}", other),
    }
}

#[test]
fn test_default_config() {
    let config = ServerConfig::default();
    assert_eq!(config.max_file_size, 50 * 1024 * 1024);
    assert_eq!(config.timeout_seconds, 30);
    assert!(config.enable_fallback);
}

#[test]
fn a_service_answers_with_plain_values() {
    let info = FormatInfo::of(&Format::docx());
    assert_eq!(info.mime_type, Format::docx().mime_type);
    assert_eq!(info.extension, "docx");
    assert_eq!(info.family, Format::docx().family.name());
    assert_eq!(info.name, Format::docx().name);
    assert_eq!(info.is_container, Format::docx().is_container);
    let png = FormatInfo::of(&Format::png());
    assert_eq!(png.family, "Image");
    assert!(!png.is_container);
    let errors = [
        (ApiError::BadRequest("a".to_string()), 400, "a"),
        (ApiError::UnsupportedMediaType("b".to_string()), 415, "b"),
        (ApiError::NotImplemented("c".to_string()), 501, "c"),
        (ApiError::InternalServerError("d".to_string()), 500, "d"),
    ];
    for (error, code, message) in errors {
        assert_eq!(error.status_code(), code);
        assert_eq!(error.message(), message);
        let body = ErrorResponse { error: code.to_string(), message: error.message().clone() };
        assert_eq!(body.message, message);
    }
}

#[test]
fn the_default_sandbox_allows_thirty_seconds() {
    let config = SandboxConfig::default();
    assert_eq!(config.max_memory, 64 * 1024 * 1024);
    assert_eq!(config.max_execution_time, std::time::Duration::from_secs(30));
    assert_eq!(config.max_execution_time.as_nanos(), 30_000_000_000);
    assert_eq!(config.max_instructions, Some(1_000_000_000));
    let manager = SandboxManager::default_config();
    assert_eq!(manager.config().max_execution_time, config.max_execution_time);
    assert_eq!(manager.config().max_memory, config.max_memory);
    assert_eq!(manager.config().max_instructions, config.max_instructions);
    assert_eq!(
        Error::Timeout(std::time::Duration::from_millis(1500)).to_string(),
        "Operation timed out after 1.5s"
    );
}
