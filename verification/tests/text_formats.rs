use prism::document::ContentBlock;
use prism::document::Dimensions;
use prism::document::Rect;
use prism::document::TextRun;
use prism::document::TextStyle;
use prism::error::Error;
use prism::format::Format;
use prism::html::trim;
use prism::html::HtmlParser;
use prism::legacy::extract_printable_text;
use prism::metadata::MetadataValue;
use prism::parser::ParseContext;
use prism::parser::ParseOptions;
use prism::parser::ParserFeature;
use prism::plain::JsonParser;
use prism::plain::LogParser;
use prism::plain::MarkdownParser;
use prism::plain::TextParser;
use prism::plain::XmlParser;
use prism::render_html::html_escape;
use prism::render_html::HtmlConfig;
use prism::render_html::HtmlRenderer;
use prism::sandbox::SandboxConfig;
use prism::sandbox::SandboxManager;
use prism::xlsx::XlsxParser;

fn context(format: Format, filename: Option<&str>) -> ParseContext {
    ParseContext {
        format,
        filename: filename.map(|s| s.to_string()),
        size: 0,
        options: ParseOptions::default(),
    }
}

#[test]
fn test_can_parse_html5() {
    let parser = HtmlParser::new();

    let html =
        b"<!DOCTYPE html>\n<html><head><title>Test</title></head><body>Content</body></html>";
    assert!(parser.can_parse(html));
}

#[test]
fn test_can_parse_html_with_case() {
    let parser = HtmlParser::new();

    let html =
        b"<!doctype html>\n<HTML><HEAD><TITLE>Test</TITLE></HEAD><BODY>Content</BODY></HTML>";
    assert!(parser.can_parse(html));
}

#[test]
fn test_can_parse_html_fragment() {
    let parser = HtmlParser::new();

    let html = b"<html>\n<head><title>Test</title></head>\n<body><h1>Hello</h1></body>\n</html>";
    assert!(parser.can_parse(html));
}

#[test]
fn test_cannot_parse_plain_text() {
    let parser = HtmlParser::new();

    let text = b"This is just plain text without any HTML tags";
    assert!(!parser.can_parse(text));
}

#[test]
fn test_extract_title() {
    let html = "<html><head><title>My Page Title</title></head><body>Content</body></html>";
    let title = HtmlParser::extract_title(html);
    assert_eq!(title, Some("My Page Title".to_string()));
}

#[test]
fn test_extract_title_with_whitespace() {
    let html = "<html><head><title>  My Page  </title></head><body>Content</body></html>";
    let title = HtmlParser::extract_title(html);
    assert_eq!(title, Some("My Page".to_string()));
}

#[test]
fn test_extract_no_title() {
    let html = "<html><head></head><body>Content</body></html>";
    let title = HtmlParser::extract_title(html);
    assert_eq!(title, None);
}

#[test]
fn html_test_parser_metadata() {
    let parser = HtmlParser::new();
    let metadata = parser.metadata();

    assert_eq!(metadata.name, "HTML Parser");
    assert!(!metadata.requires_sandbox);
    assert!(!metadata.features.is_empty());
}

#[test]
fn html_sniffing_follows_std() {
    let parser = HtmlParser::new();
    assert!(HtmlParser::starts_with_html(" \n\t\u{a0}\u{3000}<HtMl lang=en>".as_bytes()));
    assert!(HtmlParser::starts_with_html(b"<!DOCTYPE svg>"));
    assert!(!HtmlParser::starts_with_html(b"x<html>"));
    assert!(!HtmlParser::starts_with_html(&[0xFF, b'<', b'h', b't', b'm', b'l']));
    assert!(!HtmlParser::starts_with_html(b""));
    assert!(parser.can_parse(b"text <HEAD> and <BODY>"));
    assert!(!parser.can_parse(b"text <head> only"));
    assert!(!parser.can_parse(&[0xFF, b'<', b'h', b't', b'm', b'l']));
    let mut late = vec![b' '; 1024];
    late.extend_from_slice(b"x<html>");
    assert!(!parser.can_parse(&late));
    let mut split = vec![b'a'; 1023];
    split.extend_from_slice("\u{e9}<html>".as_bytes());
    assert!(!parser.can_parse(&split));
    for text in ["", "  ", "a", " a b \n", "\u{2003}x\u{85}", "\u{200b}x"] {
        assert_eq!(trim(text), text.trim());
    }
    assert_eq!(HtmlParser::extract_title("<title>a<title>b</title>c</title>").as_deref(), Some("a<title>b"));
    assert_eq!(HtmlParser::extract_title("<title>never closed"), None);
    assert_eq!(HtmlParser::extract_title("</title><title></title>").as_deref(), Some(""));
    assert_eq!(HtmlParser::extract_title("<TITLE>x</TITLE>"), None);
    assert_eq!(HtmlParser::extract_title("<title> gr\u{fc}n </title>").as_deref(), Some("gr\u{fc}n"));
}

#[test]
fn html_files_become_one_run() {
    let parser = HtmlParser::new();
    let html = "<html><head><title> T </title></head><body>\u{e9}</body></html>";
    let doc = parser.parse(html.as_bytes(), context(parser.format(), Some("page.html"))).unwrap();
    assert_eq!(doc.page_count(), 1);
    assert_eq!(doc.pages[0].number, 1);
    assert_eq!(doc.pages[0].dimensions, Dimensions::new(850 * 12700, 1100 * 12700));
    match &doc.pages[0].content[0] {
        ContentBlock::Text(block) => {
            assert_eq!(block.runs.len(), 1);
            assert_eq!(block.runs[0].text, html);
            assert_eq!(block.runs[0].bounds, Some(Rect::default()));
            assert_eq!(block.runs[0].char_positions, Some(vec![]));
        }
        other => panic!("expected text, got {:?}", other),
    }
    assert_eq!(doc.metadata.title.as_deref(), Some("T"));
    assert!(matches!(doc.metadata.get_custom("format"), Some(MetadataValue::String(s)) if s == "HTML"));
    assert!(matches!(doc.metadata.get_custom("content_type"), Some(MetadataValue::String(s)) if s == "text/html"));
    let untitled = parser.parse(b"<p>x</p>", context(parser.format(), Some("page.html"))).unwrap();
    assert_eq!(untitled.metadata.title.as_deref(), Some("page.html"));
    let failed = parser.parse(&[b'<', 0xFF], context(parser.format(), None));
    match failed {
        Err(Error::ParseError(m)) => {
            assert_eq!(m, "Invalid UTF-8 in HTML file: invalid utf-8 sequence of 1 bytes from index 1")
        }
        other => panic!("expected a parse error, got {:?}", other),
    }
    assert_eq!(parser.format().mime_type, "text/html");
}

#[test]
fn test_is_likely_text() {
    assert!(TextParser::is_likely_text(b"Hello, world!"));
    assert!(TextParser::is_likely_text(b"Line 1\nLine 2\nLine 3"));
    assert!(TextParser::is_likely_text(b"{\"key\": \"value\"}"));

    let binary = [0x00, 0x01, 0x02, 0x03, 0xFF];
    assert!(!TextParser::is_likely_text(&binary));

    let invalid_utf8 = [0xFF, 0xFE, 0xFD];
    assert!(!TextParser::is_likely_text(&invalid_utf8));
}

#[test]
fn test_can_parse() {
    let parser = TextParser::new();

    assert!(parser.can_parse(b"Hello, world!"));
    assert!(parser.can_parse(b"# Markdown\n## Header"));
    assert!(!parser.can_parse(&[0x00, 0x01, 0x02]));
}

#[test]
fn text_needs_fewer_than_one_control_in_ten() {
    assert!(!TextParser::is_likely_text(b""));
    assert!(!TextParser::is_likely_text(b"\x01aaaaaaaaa"));
    assert!(TextParser::is_likely_text(b"\x01aaaaaaaaaa"));
    assert!(TextParser::is_likely_text(b"\t\r\n"));
    assert!(JsonParser::new().can_parse(b"{}"));
    assert!(XmlParser::new().can_parse(b"<a/>"));
    assert!(MarkdownParser::new().can_parse(b"# x"));
    assert!(!LogParser::new().can_parse(b"\x00"));
    assert_eq!(JsonParser::new().format().mime_type, "application/json");
    assert_eq!(XmlParser::new().format().extension, "xml");
    assert_eq!(MarkdownParser::new().format().name, "Markdown");
    assert_eq!(LogParser::new().format().name, "Log File");
    assert_eq!(LogParser::new().metadata().name, "Log Parser");
    assert_eq!(JsonParser::new().metadata().name, "JSON Parser");
    assert_eq!(XmlParser::new().metadata().name, "XML Parser");
    assert_eq!(MarkdownParser::new().metadata().name, "Markdown Parser");
    assert_eq!(TextParser::new().metadata().name, "Text Parser");
}

#[test]
fn text_formats_by_extension() {
    assert_eq!(TextParser::format_for_extension("TXT").name, "Plain Text");
    assert_eq!(TextParser::format_for_extension("log").extension, "log");
    assert_eq!(TextParser::format_for_extension("Json").mime_type, "application/json");
    assert_eq!(TextParser::format_for_extension("xml").name, "XML");
    assert_eq!(TextParser::format_for_extension("csv").mime_type, "text/csv");
    assert_eq!(TextParser::format_for_extension("MD").extension, "md");
    assert_eq!(TextParser::format_for_extension("markdown").extension, "md");
    let other = TextParser::format_for_extension("Rs");
    assert_eq!(other.extension, "Rs");
    assert_eq!(other.name, "Text File");
    assert_eq!(other.mime_type, "text/plain");
    assert!(!other.is_container);
    assert_eq!(TextParser::new().format(), TextParser::format_for_extension("txt"));
}

#[test]
fn text_files_become_one_run() {
    let parser = TextParser::new();
    let content = "Line 1\nLine 2\nLine 3\nLine 4\nLine \u{e9}";
    let doc = parser.parse(content.as_bytes(), context(parser.format(), Some("notes.test.log"))).unwrap();
    assert_eq!(doc.page_count(), 1);
    assert_eq!(doc.pages[0].dimensions, Dimensions::letter());
    assert_eq!(doc.pages[0].content.len(), 1);
    match &doc.pages[0].content[0] {
        ContentBlock::Text(block) => {
            assert_eq!(block.runs.len(), 1);
            assert_eq!(block.runs[0].text, content);
            assert_eq!(block.bounds, Rect::default());
            assert_eq!(block.runs[0].bounds, None);
        }
        other => panic!("expected text, got {:?}", other),
    }
    assert_eq!(doc.metadata.title.as_deref(), Some("notes.test.log"));
    assert!(matches!(doc.metadata.get_custom("file_extension"), Some(MetadataValue::String(s)) if s == "log"));
    assert!(matches!(doc.metadata.get_custom("character_count"), Some(MetadataValue::Integer(35))));
    assert!(matches!(doc.metadata.get_custom("line_count"), Some(MetadataValue::Integer(4))));
    let unnamed = parser.parse(b"x", context(parser.format(), None)).unwrap();
    assert!(unnamed.metadata.title.is_none());
    assert!(unnamed.metadata.get_custom("file_extension").is_none());
    let dotless = parser.parse(b"x", context(parser.format(), Some("README"))).unwrap();
    assert!(matches!(dotless.metadata.get_custom("file_extension"), Some(MetadataValue::String(s)) if s == "README"));
    match parser.parse(&[b'a', 0xC3], context(parser.format(), None)) {
        Err(Error::ParseError(m)) => assert_eq!(m, "Invalid UTF-8: incomplete utf-8 byte sequence from index 1"),
        other => panic!("expected a parse error, got {:?}", other),
    }
}

#[test]
fn test_extract_printable_text() {
    let data = b"Hello\x00\x00\x00World\x01\x02Test";
    let text = extract_printable_text(data);
    assert!(text.contains("Hello"));
    assert!(text.contains("World"));
    assert!(text.contains("Test"));
}

#[test]
fn printable_text_keeps_runs_of_four() {
    assert_eq!(extract_printable_text(b"Hello\x00\x00\x00World\x01\x02Test"), "Hello World Test");
    assert_eq!(extract_printable_text(b"abc\x00defg\x00hi"), "defg");
    assert_eq!(extract_printable_text(b"  a \n b  \x00"), "a b");
    assert_eq!(extract_printable_text(b"\t\t\t\t\x00"), "");
    assert_eq!(extract_printable_text(b"abcd\x7fefgh"), "abcd efgh");
    assert_eq!(extract_printable_text("abcd\u{e9}efgh".as_bytes()), "abcd efgh");
    assert_eq!(extract_printable_text(b""), "");
}

#[test]
fn test_sandbox_config_default() {
    let config = SandboxConfig::default();
    assert_eq!(config.max_memory, 64 * 1024 * 1024);
    assert_eq!(config.max_execution_time, std::time::Duration::from_secs(30));
}

#[test]
fn test_sandbox_manager_creation() {
    let manager = SandboxManager::default_config();
    assert_eq!(manager.config().max_memory, 64 * 1024 * 1024);
}

#[test]
fn sandbox_keeps_its_configuration() {
    let config = SandboxConfig {
        max_memory: 1,
        max_execution_time: std::time::Duration::from_millis(5),
        max_instructions: None,
    };
    let manager = SandboxManager::new(config.clone());
    assert_eq!(manager.config().max_memory, 1);
    assert_eq!(manager.config().max_execution_time, config.max_execution_time);
    assert_eq!(manager.config().max_instructions, None);
    assert_eq!(SandboxConfig::default().max_instructions, Some(1_000_000_000));
}

#[test]
fn html_is_escaped() {
    assert_eq!(html_escape("a & b < c > d \" e ' f"), "a &amp; b &lt; c &gt; d &quot; e &#x27; f");
    assert_eq!(html_escape("&amp;"), "&amp;amp;");
    assert_eq!(html_escape("gr\u{fc}n"), "gr\u{fc}n");
    assert_eq!(html_escape(""), "");
}

#[test]
fn runs_render_with_their_style() {
    let renderer = HtmlRenderer::new();
    assert!(renderer.config().embed_resources);
    assert!(renderer.config().include_styles);
    assert!(renderer.config().responsive);
    assert!(renderer.config().custom_css.is_none());
    let custom = HtmlRenderer::with_config(HtmlConfig {
        embed_resources: false,
        custom_css: Some("p {}".to_string()),
        ..HtmlConfig::default()
    });
    assert!(!custom.config().embed_resources);
    assert_eq!(custom.config().custom_css.as_deref(), Some("p {}"));

    assert_eq!(renderer.render_text_run(&TextRun::new("a<b")), "a&lt;b");
    let mut style = TextStyle::default();
    style.bold = true;
    style.italic = true;
    style.underline = true;
    style.strikethrough = true;
    assert_eq!(
        renderer.render_text_run(&TextRun::with_style("x", style.clone())),
        "<s><u><em><strong>x</strong></em></u></s>"
    );
    style.italic = false;
    style.underline = false;
    style.strikethrough = false;
    style.font_family = Some("A\"B".to_string());
    style.font_size = Some(1050);
    style.color = Some("#FF0000".to_string());
    style.background_color = Some("#00FF00".to_string());
    assert_eq!(
        renderer.render_text_run(&TextRun::with_style("x", style.clone())),
        "<span style=\"font-family: A&quot;B; font-size: 10.5pt; color: #FF0000; background-color: #00FF00\"><strong>x</strong></span>"
    );
    for (size, text) in [(1200, "12"), (1025, "10.25"), (7, "0.07"), (-50, "-0.5"), (0, "0"), (100, "1"), (110, "1.1")] {
        let mut only_size = TextStyle::default();
        only_size.font_size = Some(size);
        assert_eq!(
            renderer.render_text_run(&TextRun::with_style("", only_size)),
            format!("<span style=\"font-size: {}pt\"></span>", text)
        );
        assert_eq!(format!("{}", size as f64 / 100.0), text);
    }
}

#[test]
fn a_byte_order_mark_does_not_shift_cell_values() {
    let xml = "\u{feff}<worksheet><sheetData><row><c r=\"A1\"><v>first</v></c><c r=\"B1\"><v> 2 </v></c></row></sheetData></worksheet>";
    let table = XlsxParser::parse_sheet_clean(xml, &vec![], &None).unwrap();
    let texts: Vec<String> = table.rows[0].cells.iter().map(|c| c.extract_text()).collect();
    assert_eq!(texts, vec!["first".to_string(), " 2 ".to_string()]);
}

#[test]
fn words_are_counted_as_std_counts_them() {
    for text in [
        "",
        " ",
        "one",
        " one  two\tthree\nfour ",
        "a\u{a0}b\u{85}c\u{1680}d\u{2000}e\u{200a}f\u{2028}g\u{2029}h\u{202f}i\u{205f}j\u{3000}k",
        "zero\u{200b}width \u{e9}t\u{e9}",
        "\u{2001}\u{2002}x\u{2003}",
        "\u{e2}\u{80}x \u{c2}y",
    ] {
        assert_eq!(prism::document::count_words(text), text.split_whitespace().count(), "{:?}", text);
    }
    let mut page = prism::document::Page::new(1, Dimensions::letter());
    page.add_content(ContentBlock::Text(prism::document::TextBlock::of_runs(
        Rect::default(),
        vec![TextRun::new("Hello, "), TextRun::new("wide world")],
    )));
    let doc = prism::document::Document::builder().page(page).build();
    assert_eq!(doc.word_count(), 3);
    assert_eq!(prism::document::Document::new().word_count(), 0);
}

#[test]
fn other_parsers_describe_themselves() {
    let pdf = prism::pdf::PdfParser::new();
    assert!(pdf.can_parse(b"%PDF-1.7"));
    assert!(!pdf.can_parse(b"%PDF"));
    assert!(!pdf.can_parse(b"%PDF 1.7"));
    assert_eq!(pdf.format(), Format::pdf());
    assert_eq!(pdf.metadata().name, "PDF Parser");
    assert_eq!(pdf.metadata().features, vec![prism::parser::ParserFeature::MetadataExtraction]);
    let csv = prism::plain::CsvParser::new();
    assert!(csv.can_parse(b""));
    assert_eq!(csv.format().mime_type, "text/csv");
    assert_eq!(csv.metadata().name, "CSV Parser");
    let archive = prism::archive::ArchiveParser::new(Format::zip());
    assert!(archive.can_parse(b"anything"));
    assert_eq!(archive.format(), Format::zip());
    assert_eq!(archive.metadata().name, "ZIP Archive Parser");
    assert_eq!(archive.metadata().features.len(), 2);
    let json = JsonParser::new();
    let doc = json.parse(b"{\"a\": 1}", context(json.format(), Some("data.json"))).unwrap();
    assert_eq!(doc.metadata.title, Some("data.json".to_string()));
    assert_eq!(doc.extract_text(), "{\"a\": 1}");
    assert!(XmlParser::new().parse(&[0xFF], context(Format::pdf(), None)).is_err());
    assert!(MarkdownParser::new().parse(b"# t", context(Format::pdf(), None)).is_ok());
    assert!(LogParser::new().parse(b"x", context(Format::pdf(), None)).is_ok());
}

#[test]
fn plain_test_parser_metadata() {
    let parser = TextParser::new();
    let metadata = parser.metadata();

    assert_eq!(metadata.name, "Text Parser");
    assert!(!metadata.requires_sandbox);
    assert!(metadata.features.contains(&ParserFeature::TextExtraction));
}

#[test]
fn test_parse_simple_text() {
    let parser = TextParser::new();
    let content = "Hello, world!\nThis is a test.";
    let data = content.as_bytes();

    let context = ParseContext {
        format: parser.format(),
        filename: Some("test.txt".to_string()),
        size: data.len(),
        options: Default::default(),
    };

    let result = parser.parse(data, context);
    assert!(result.is_ok());

    let document = result.unwrap();
    assert_eq!(document.page_count(), 1);
    assert_eq!(document.pages[0].content.len(), 1);

    match &document.pages[0].content[0] {
        ContentBlock::Text(text_block) => {
            assert_eq!(text_block.runs.len(), 1);
            assert_eq!(text_block.runs[0].text, content);
        }
        _ => panic!("Expected text block"),
    }
}

#[test]
fn test_parse_json() {
    let parser = TextParser::new();
    let content = r#"{"name": "test", "value": 123}"#;
    let data = content.as_bytes();

    let context = ParseContext {
        format: parser.format(),
        filename: Some("data.json".to_string()),
        size: data.len(),
        options: Default::default(),
    };

    let result = parser.parse(data, context);
    assert!(result.is_ok());

    let document = result.unwrap();
    assert_eq!(document.metadata.title, Some("data.json".to_string()));
}

#[test]
fn test_parse_multiline() {
    let parser = TextParser::new();
    let content = "Line 1\nLine 2\nLine 3\nLine 4\nLine 5";
    let data = content.as_bytes();

    let context = ParseContext {
        format: parser.format(),
        filename: Some("test.log".to_string()),
        size: data.len(),
        options: Default::default(),
    };

    let result = parser.parse(data, context);
    assert!(result.is_ok());

    let document = result.unwrap();

    let line_count = document.metadata.get_custom("line_count");
    assert!(line_count.is_some());
}
