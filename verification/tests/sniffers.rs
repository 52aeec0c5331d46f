use prism::email::EmlParser;
use prism::email::IcsParser;
use prism::email::MboxParser;
use prism::email::MsgParser;
use prism::email::VcfParser;
use prism::image::JpegParser;
use prism::image::PngParser;
use prism::image::TiffParser;
use prism::legacy::DocParser;
use prism::legacy::PptParser;
use prism::legacy::XlsParser;
use prism::parser::ParserFeature;

fn minimal_png() -> Vec<u8> {
    vec![
        0x89, 0x50, 0x4E, 0x47, 0x0D, 0x0A, 0x1A, 0x0A, 0x00, 0x00, 0x00, 0x0D, 0x49, 0x48, 0x44,
        0x52, 0x00, 0x00, 0x00, 0x01, 0x00, 0x00, 0x00, 0x01, 0x08, 0x06, 0x00, 0x00, 0x00, 0x1F,
        0x15, 0xC4, 0x89, 0x00, 0x00, 0x00, 0x0A, 0x49, 0x44, 0x41, 0x54, 0x78, 0x9C, 0x63, 0x00,
        0x01, 0x00, 0x00, 0x05, 0x00, 0x01, 0x0D, 0x0A, 0x2D, 0xB4, 0x00, 0x00, 0x00, 0x00, 0x49,
        0x45, 0x4E, 0x44, 0xAE, 0x42, 0x60, 0x82,
    ]
}

#[test]
fn test_can_parse_eml() {
    let parser = EmlParser::new();
    let eml_data =
        b"From: sender@example.com\r\nTo: recipient@example.com\r\nSubject: Test\r\n\r\nBody";
    assert!(parser.can_parse(eml_data));
}

#[test]
fn eml_test_parser_metadata() {
    let parser = EmlParser::new();
    let metadata = parser.metadata();
    assert_eq!(metadata.name, "EML Parser");
    assert!(!metadata.requires_sandbox);
}

#[test]
fn eml_needs_its_headers_early() {
    let parser = EmlParser::new();
    assert!(parser.can_parse(b"From: a\r\nSubject: b"));
    assert!(!parser.can_parse(b"From: a\r\n"));
    assert!(!parser.can_parse(b"To: a\r\nSubject: b"));
    let mut late = vec![b' '; 1024];
    late.extend_from_slice(b"From: a\r\nTo: b");
    assert!(!parser.can_parse(&late));
    let mut edge = vec![b' '; 1024 - 5 - 3];
    edge.extend_from_slice(b"From:To:");
    assert!(parser.can_parse(&edge));
    assert_eq!(parser.format().mime_type, "message/rfc822");
}

#[test]
fn test_can_parse_ics() {
    let parser = IcsParser::new();
    let ics_data = b"BEGIN:VCALENDAR\r\nVERSION:2.0\r\nBEGIN:VEVENT\r\nSUMMARY:Test Event\r\nEND:VEVENT\r\nEND:VCALENDAR\r\n";
    assert!(parser.can_parse(ics_data));
}

#[test]
fn ics_test_parser_metadata() {
    let parser = IcsParser::new();
    let metadata = parser.metadata();
    assert_eq!(metadata.name, "ICS Parser");
    assert!(!metadata.requires_sandbox);
}

#[test]
fn test_can_parse_mbox() {
    let parser = MboxParser::new();
    let mbox_data =
        b"From sender@example.com Mon Jan 01 00:00:00 2024\r\nFrom: sender@example.com\r\n";
    assert!(parser.can_parse(mbox_data));
}

#[test]
fn mbox_test_parser_metadata() {
    let parser = MboxParser::new();
    let metadata = parser.metadata();
    assert_eq!(metadata.name, "MBOX Parser");
    assert!(!metadata.requires_sandbox);
}

#[test]
fn test_can_parse_msg() {
    let parser = MsgParser::new();
    let msg_header = b"\xD0\xCF\x11\xE0\xA1\xB1\x1A\xE1";
    assert!(parser.can_parse(msg_header));
}

#[test]
fn msg_test_parser_metadata() {
    let parser = MsgParser::new();
    let metadata = parser.metadata();
    assert_eq!(metadata.name, "MSG Parser");
    assert!(!metadata.requires_sandbox);
}

#[test]
fn test_can_parse_vcf() {
    let parser = VcfParser::new();
    let vcf_data = b"BEGIN:VCARD\r\nVERSION:3.0\r\nFN:John Doe\r\nEND:VCARD\r\n";
    assert!(parser.can_parse(vcf_data));
}

#[test]
fn vcf_test_parser_metadata() {
    let parser = VcfParser::new();
    let metadata = parser.metadata();
    assert_eq!(metadata.name, "VCF Parser");
    assert!(!metadata.requires_sandbox);
}

#[test]
fn mail_sniffers_reject_other_content() {
    assert!(!IcsParser::new().can_parse(b"BEGIN:VCARD"));
    assert!(!VcfParser::new().can_parse(b"BEGIN:VCALENDAR"));
    assert!(!MboxParser::new().can_parse(b"From: x"));
    assert!(!MboxParser::new().can_parse(b"Fro"));
    assert!(!MsgParser::new().can_parse(b"\xD0\xCF\x11\xE0\xA1\xB1\x1A"));
    assert!(!MsgParser::new().can_parse(b""));
    assert_eq!(
        VcfParser::new().metadata().features,
        vec![ParserFeature::TextExtraction, ParserFeature::MetadataExtraction]
    );
    assert_eq!(IcsParser::new().format().extension, "ics");
    assert_eq!(MboxParser::new().format().extension, "mbox");
    assert_eq!(MsgParser::new().format().extension, "msg");
    assert_eq!(VcfParser::new().format().extension, "vcf");
}

#[test]
fn test_can_parse_jpeg_signature() {
    let parser = JpegParser::new();
    let jpeg_jfif = &[0xFF, 0xD8, 0xFF, 0xE0];
    assert!(parser.can_parse(jpeg_jfif));
    let jpeg_exif = &[0xFF, 0xD8, 0xFF, 0xE1];
    assert!(parser.can_parse(jpeg_exif));
}

#[test]
fn jpeg_test_can_parse_invalid_signature() {
    let parser = JpegParser::new();
    let invalid_data = b"Not a JPEG file";
    assert!(!parser.can_parse(invalid_data));
}

#[test]
fn jpeg_test_can_parse_too_short() {
    let parser = JpegParser::new();
    let short_data = &[0xFF, 0xD8];
    assert!(!parser.can_parse(short_data));
}

#[test]
fn jpeg_test_parser_metadata() {
    let parser = JpegParser::new();
    let metadata = parser.metadata();
    assert_eq!(metadata.name, "JPEG Parser");
    assert!(!metadata.requires_sandbox);
    assert!(!metadata.features.is_empty());
}

#[test]
fn test_can_parse_valid_png() {
    let parser = PngParser::new();
    assert!(parser.can_parse(&minimal_png()));
}

#[test]
fn png_test_can_parse_invalid_signature() {
    let parser = PngParser::new();
    let invalid_data = b"Not a PNG file";
    assert!(!parser.can_parse(invalid_data));
}

#[test]
fn png_test_can_parse_too_short() {
    let parser = PngParser::new();
    let short_data = &[0x89, 0x50, 0x4E];
    assert!(!parser.can_parse(short_data));
}

#[test]
fn png_test_parser_metadata() {
    let parser = PngParser::new();
    let metadata = parser.metadata();
    assert_eq!(metadata.name, "PNG Parser");
    assert!(!metadata.requires_sandbox);
    assert!(!metadata.features.is_empty());
}

#[test]
fn test_can_parse_tiff_little_endian() {
    let parser = TiffParser::new();
    let tiff_le = &[0x49, 0x49, 0x2A, 0x00];
    assert!(parser.can_parse(tiff_le));
}

#[test]
fn test_can_parse_tiff_big_endian() {
    let parser = TiffParser::new();
    let tiff_be = &[0x4D, 0x4D, 0x00, 0x2A];
    assert!(parser.can_parse(tiff_be));
}

#[test]
fn tiff_test_can_parse_invalid_signature() {
    let parser = TiffParser::new();
    let invalid_data = b"Not a TIFF file";
    assert!(!parser.can_parse(invalid_data));
}

#[test]
fn tiff_test_can_parse_too_short() {
    let parser = TiffParser::new();
    let short_data = &[0x49, 0x49];
    assert!(!parser.can_parse(short_data));
}

#[test]
fn tiff_test_parser_metadata() {
    let parser = TiffParser::new();
    let metadata = parser.metadata();
    assert_eq!(metadata.name, "TIFF Parser");
    assert!(!metadata.requires_sandbox);
    assert!(!metadata.features.is_empty());
}

#[test]
fn image_parsers_name_their_formats() {
    assert_eq!(JpegParser::new().format().mime_type, "image/jpeg");
    assert_eq!(PngParser::new().format().mime_type, "image/png");
    assert_eq!(TiffParser::new().format().mime_type, "image/tiff");
    assert_eq!(
        PngParser::new().metadata().features,
        vec![ParserFeature::ImageExtraction, ParserFeature::MetadataExtraction]
    );
    assert!(!TiffParser::new().can_parse(&[0x49, 0x49, 0x00, 0x2A]));
    assert!(!PngParser::new().can_parse(&[0x89, 0x50, 0x4E, 0x47, 0x0D, 0x0A, 0x1A, 0x0B]));
}

#[test]
fn test_is_ole2() {
    let ole2_sig = [0xD0, 0xCF, 0x11, 0xE0, 0xA1, 0xB1, 0x1A, 0xE1];
    assert!(DocParser::is_ole2_file(&ole2_sig));
    assert!(!DocParser::is_ole2_file(b"Not OLE2"));
}

#[test]
fn legacy_parsers_share_the_signature() {
    let ole2_sig = [0xD0, 0xCF, 0x11, 0xE0, 0xA1, 0xB1, 0x1A, 0xE1, 0x00];
    assert!(XlsParser::is_ole2_file(&ole2_sig));
    assert!(PptParser::is_ole2_file(&ole2_sig));
    assert!(DocParser::new().can_parse(&ole2_sig));
    assert!(XlsParser::new().can_parse(&ole2_sig));
    assert!(PptParser::new().can_parse(&ole2_sig));
    assert!(!PptParser::new().can_parse(&ole2_sig[..7]));
    assert_eq!(DocParser::new().format().extension, "doc");
    assert_eq!(XlsParser::new().format().mime_type, "application/vnd.ms-excel");
    assert_eq!(PptParser::new().format().name, "Microsoft PowerPoint 97-2003 (PPT)");
}
