use prism::document::ContentBlock;
use prism::document::Dimensions;
use prism::document::Document;
use prism::document::Rect;
use prism::document::TableBlock;
use prism::document::TextBlock;
use prism::docx::parse_document_events;
use prism::docx::DocxParser;
use prism::error::Error;
use prism::excel_styles::map_theme_index;
use prism::excel_styles::CellXf;
use prism::excel_styles::ExcelFill;
use prism::excel_styles::ExcelFont;
use prism::excel_styles::ExcelStyles;
use prism::format::Format;
use prism::metadata::MetadataValue;
use prism::parser::ParseContext;
use prism::parser::ParseOptions;
use prism::pptx::resolve_relative;
use prism::pptx::PptxParser;
use prism::shapes::image_mime_of;
use prism::shapes::parse_shape;
use prism::shapes::parse_transform_2d;
use prism::slides::SlideParser;
use prism::strmap::StrMap;
use prism::styles::Styles;
use prism::tables::parse_drawingml_table;
use prism::tables::parse_table;
use prism::theme::parse_theme;
use prism::xlsx::XlsxParser;
use prism::xml::read_events;

fn minimal_png() -> Vec<u8> {
    vec![
        0x89, 0x50, 0x4E, 0x47, 0x0D, 0x0A, 0x1A, 0x0A, 0x00, 0x00, 0x00, 0x0D, 0x49, 0x48, 0x44,
        0x52, 0x00, 0x00, 0x00, 0x01, 0x00, 0x00, 0x00, 0x01, 0x08, 0x06, 0x00, 0x00, 0x00, 0x1F,
        0x15, 0xC4, 0x89, 0x00, 0x00, 0x00, 0x0A, 0x49, 0x44, 0x41, 0x54, 0x78, 0x9C, 0x63, 0x00,
        0x01, 0x00, 0x00, 0x05, 0x00, 0x01, 0x0D, 0x0A, 0x2D, 0xB4, 0x00, 0x00, 0x00, 0x00, 0x49,
        0x45, 0x4E, 0x44, 0xAE, 0x42, 0x60, 0x82,
    ]
}

fn zip_of(files: &[(&str, &[u8])]) -> Vec<u8> {
    let mut writer = zip::ZipWriter::new(std::io::Cursor::new(Vec::new()));
    let options =
        zip::write::FileOptions::default().compression_method(zip::CompressionMethod::Stored);
    for (name, data) in files {
        writer.start_file(*name, options).unwrap();
        std::io::Write::write_all(&mut writer, data).unwrap();
    }
    writer.finish().unwrap().into_inner()
}

fn context(format: Format, filename: &str) -> ParseContext {
    ParseContext {
        format,
        filename: Some(filename.to_string()),
        size: 0,
        options: ParseOptions::default(),
    }
}

fn text_of(block: &ContentBlock) -> &TextBlock {
    match block {
        ContentBlock::Text(t) => t,
        other => panic!("expected a text block, got {:?}", other),
    }
}

fn table_of(block: &ContentBlock) -> &TableBlock {
    match block {
        ContentBlock::Table(t) => t,
        other => panic!("expected a table, got {:?}", other),
    }
}

fn parse_message(r: Result<Document, Error>) -> String {
    match r {
        Err(Error::ParseError(m)) => m,
        other => panic!("expected a parse error, got {:?}", other),
    }
}

const TWO_RUNS: &str = "<w:document><w:body><w:p><w:r><w:rPr><w:b/></w:rPr><w:t>Bold text</w:t></w:r><w:r><w:t> Normal text</w:t></w:r></w:p></w:body></w:document>";

#[test]
fn docx_with_two_runs_in_one_paragraph() {
    let data = zip_of(&[("word/document.xml", TWO_RUNS.as_bytes())]);
    let parser = DocxParser::new();
    assert!(parser.can_parse(&data));
    let doc = parser.parse(&data, context(Format::docx(), "two.docx")).unwrap();
    assert_eq!(doc.page_count(), 1);
    assert_eq!(doc.pages[0].number, 1);
    assert_eq!(doc.pages[0].dimensions, Dimensions::letter());
    assert_eq!(doc.pages[0].content.len(), 1);
    let block = text_of(&doc.pages[0].content[0]);
    assert_eq!(block.runs.len(), 2);
    assert_eq!(block.runs[0].text, "Bold text");
    assert!(block.runs[0].style.bold);
    assert_eq!(block.runs[1].text, " Normal text");
    assert!(!block.runs[1].style.bold);
    assert_eq!(block.bounds, Rect::default());
    assert_eq!(block.paragraph_style, None);
    assert_eq!(doc.metadata.title.as_deref(), Some("two.docx"));
    assert!(matches!(doc.metadata.get_custom("format"), Some(MetadataValue::String(s)) if s == "DOCX"));
    assert_eq!(doc.extract_text(), "Bold text Normal text");
    assert!(doc.resources.images.is_empty());
}

#[test]
fn docx_runs_take_the_paragraph_style() {
    let styles = r#"<w:styles><w:style w:type="paragraph" w:styleId="Heading1"><w:rPr><w:b/><w:sz w:val="32"/><w:color w:val="2F5496"/></w:rPr></w:style></w:styles>"#;
    let document = r#"<w:document><w:body>
        <w:p><w:pPr><w:pStyle w:val="Heading1"/></w:pPr><w:r><w:rPr><w:i/><w:sz w:val="21"/><w:rFonts w:ascii="Arial" w:hAnsi="Arial"/><w:color w:val="auto"></w:color></w:rPr><w:t xml:space="preserve">Head &amp; shoulders</w:t></w:r></w:p>
        <w:p></w:p>
        <w:p><w:r><w:t></w:t></w:r></w:p>
        <w:p><w:r><w:rPr><w:u/><w:color w:val="FF0000"/></w:rPr><w:t>plain</w:t></w:r></w:p>
    </w:body></w:document>"#;
    let data = zip_of(&[
        ("word/styles.xml", styles.as_bytes()),
        ("word/document.xml", document.as_bytes()),
    ]);
    let doc = DocxParser::new().parse(&data, context(Format::docx(), "s.docx")).unwrap();
    assert_eq!(doc.pages.len(), 1);
    let content = &doc.pages[0].content;
    assert_eq!(content.len(), 2);
    let head = text_of(&content[0]);
    assert_eq!(head.paragraph_style.as_deref(), Some("Heading1"));
    assert_eq!(head.runs.len(), 1);
    assert_eq!(head.runs[0].text, "Head & shoulders");
    assert!(head.runs[0].style.bold);
    assert!(head.runs[0].style.italic);
    assert!(!head.runs[0].style.underline);
    assert_eq!(head.runs[0].style.font_size, Some(1050));
    assert_eq!(head.runs[0].style.font_family.as_deref(), Some("Arial"));
    assert_eq!(head.runs[0].style.color.as_deref(), Some("#2F5496"));
    let plain = text_of(&content[1]);
    assert_eq!(plain.paragraph_style, None);
    assert!(plain.runs[0].style.underline);
    assert!(!plain.runs[0].style.bold);
    assert_eq!(plain.runs[0].style.color.as_deref(), Some("#FF0000"));
    assert_eq!(plain.runs[0].style.font_size, None);
}

#[test]
fn docx_pages_hold_fifty_paragraphs() {
    let mut body = String::from("<w:document><w:body>");
    for i in 0..120 {
        body.push_str(&format!("<w:p><w:r><w:t>p{}</w:t></w:r></w:p>", i));
    }
    body.push_str("</w:body></w:document>");
    let events = read_events(body.as_bytes(), false);
    let pages = parse_document_events(&events, &Styles::new());
    assert_eq!(pages.len(), 3);
    let numbers: Vec<u32> = pages.iter().map(|p| p.number).collect();
    assert_eq!(numbers, vec![1, 2, 3]);
    let sizes: Vec<usize> = pages.iter().map(|p| p.content.len()).collect();
    assert_eq!(sizes, vec![50, 50, 20]);
    assert_eq!(text_of(&pages[1].content[0]).runs[0].text, "p50");
    assert_eq!(text_of(&pages[2].content[19]).runs[0].text, "p119");

    let empty = parse_document_events(&read_events(b"<w:document/>", false), &Styles::new());
    assert_eq!(empty.len(), 1);
    assert_eq!(empty[0].number, 1);
    assert!(empty[0].content.is_empty());
}

#[test]
fn docx_keeps_what_it_read_before_an_error() {
    let broken = "<w:document><w:p><w:r><w:t>kept</w:t></w:r></w:p><w:p><w:r><w:t>lost</w:t></w:x>";
    let pages = parse_document_events(&read_events(broken.as_bytes(), false), &Styles::new());
    assert_eq!(pages.len(), 1);
    assert_eq!(pages[0].content.len(), 1);
    assert_eq!(text_of(&pages[0].content[0]).runs[0].text, "kept");
}

#[test]
fn docx_closes_an_open_run_when_the_next_one_starts() {
    let events = {
        let mut events = read_events(
            b"<w:p><w:r><w:t>first</w:t></w:r><w:r><w:t>second</w:t></w:r></w:p>",
            false,
        );
        // Drop the closing tag of the first run, as a producer that omits it would.
        events.remove(4);
        events
    };
    let pages = parse_document_events(&events, &Styles::new());
    let block = text_of(&pages[0].content[0]);
    let texts: Vec<&str> = block.runs.iter().map(|r| r.text.as_str()).collect();
    assert_eq!(texts, vec!["first", "second"]);
}

#[test]
fn docx_tables_join_the_page() {
    let document = r#"<w:document><w:body>
        <w:p><w:r><w:t>before</w:t></w:r></w:p>
        <w:tbl>
            <w:tr>
                <w:tc><w:tcPr><w:gridSpan w:val="2"/><w:shd w:fill="FFFF00"/></w:tcPr><w:p><w:r><w:t>wide</w:t></w:r></w:p></w:tc>
            </w:tr>
            <w:tr>
                <w:tc><w:p><w:r><w:t>a</w:t></w:r><w:r><w:t>b</w:t></w:r></w:p></w:tc>
                <w:tc><w:tcPr><w:gridSpan w:val="0"/><w:shd w:fill="auto"></w:shd></w:tcPr><w:p></w:p></w:tc>
            </w:tr>
        </w:tbl>
        <w:p><w:r><w:t>after</w:t></w:r></w:p>
    </w:body></w:document>"#;
    let data = zip_of(&[("word/document.xml", document.as_bytes())]);
    let doc = DocxParser::new().parse(&data, context(Format::docx(), "t.docx")).unwrap();
    let content = &doc.pages[0].content;
    assert_eq!(content.len(), 3);
    assert_eq!(text_of(&content[0]).runs[0].text, "before");
    let table = table_of(&content[1]);
    assert_eq!(table.rows.len(), 2);
    assert_eq!(table.column_count, 2);
    assert_eq!(table.rows[0].cells.len(), 1);
    assert_eq!(table.rows[0].cells[0].col_span, 2);
    assert_eq!(table.rows[0].cells[0].row_span, 1);
    assert_eq!(table.rows[0].cells[0].background_color.as_deref(), Some("#FFFF00"));
    assert_eq!(table.rows[0].cells[0].extract_text(), "wide");
    assert_eq!(table.rows[1].cells.len(), 2);
    assert_eq!(table.rows[1].cells[0].content.len(), 2);
    assert_eq!(table.rows[1].cells[0].extract_text(), "a b");
    assert_eq!(table.rows[1].cells[1].background_color, None);
    assert_eq!(table.rows[1].cells[1].col_span, 1);
    assert!(table.rows[1].cells[1].content.is_empty());
    assert_eq!(table.extract_text(), "wide\na b\t");
    assert_eq!(text_of(&content[2]).runs[0].text, "after");
    assert_eq!(doc.pages[0].extract_text(), "before\nwide\na b\t\nafter");
}

#[test]
fn tables_end_with_their_closing_tag() {
    let events = read_events(
        b"<w:tbl><w:tr><w:tc><w:tbl><w:tr><w:tc><w:t>in</w:t></w:tc></w:tr></w:tbl></w:tc></w:tr></w:tbl><w:p/>",
        true,
    );
    let (table, next) = parse_table(&events, 1);
    assert_eq!(next, events.len() - 1);
    let table = table.unwrap();
    // The rows and cells of a nested table take the place of the open ones.
    assert_eq!(table.rows.len(), 1);
    assert_eq!(table.rows[0].cells.len(), 1);
    assert_eq!(table.rows[0].cells[0].extract_text(), "in");

    let (cut, at) = parse_table(&read_events(b"<w:tbl><w:tr>", true), 1);
    assert!(matches!(cut, Err(Error::ParseError(m)) if m == "Unexpected EOF in table"));
    assert_eq!(at, 2);
    let (bad, _) = parse_table(&read_events(b"<w:tbl><w:tr></w:tc>", true), 1);
    assert!(matches!(bad, Err(Error::ParseError(m)) if m.starts_with("XML error in table: ")));
    let (past, at) = parse_table(&events, events.len() + 3);
    assert!(past.is_err());
    assert_eq!(at, events.len() + 3);
}

#[test]
fn drawingml_tables_hold_text_bodies() {
    let events = read_events(
        b"<a:tbl><a:tr><a:tc><a:txBody><a:p><a:r><a:t>x</a:t></a:r></a:p></a:txBody></a:tc><a:tc><a:txBody></a:txBody></a:tc></a:tr></a:tbl>",
        true,
    );
    let (table, next) = parse_drawingml_table(&events, 1);
    assert_eq!(next, events.len());
    let table = table.unwrap();
    assert_eq!(table.rows.len(), 1);
    assert_eq!(table.rows[0].cells.len(), 2);
    let runs = &text_of(&table.rows[0].cells[0].content[0]).runs;
    assert_eq!(runs.len(), 2);
    assert_eq!(runs[0].text, "x");
    assert_eq!(runs[1].text, "\n");
    assert!(table.rows[0].cells[1].content.is_empty());
    let (cut, _) = parse_drawingml_table(&read_events(b"<a:tbl><a:tr>", true), 1);
    assert!(matches!(cut, Err(Error::ParseError(m)) if m == "Unexpected EOF in table"));
}

#[test]
fn docx_needs_its_main_part() {
    let parser = DocxParser::new();
    let not_zip = b"PK but no archive".to_vec();
    assert!(!parser.can_parse(&not_zip));
    let message = parse_message(parser.parse(&not_zip, context(Format::docx(), "x")));
    assert!(message.starts_with("Failed to open DOCX ZIP: "), "{}", message);
    let other = zip_of(&[("readme.txt", b"hi")]);
    assert!(!parser.can_parse(&other));
    assert_eq!(
        parse_message(parser.parse(&other, context(Format::docx(), "x"))),
        "word/document.xml not found"
    );
    let binary = zip_of(&[("word/document.xml", &[0xFF, 0xFE, 0x00])]);
    assert!(parser.can_parse(&binary));
    assert_eq!(
        parse_message(parser.parse(&binary, context(Format::docx(), "x"))),
        "Failed to read document.xml: stream did not contain valid UTF-8"
    );
    assert!(!parser.can_parse(b"PK"));
    assert_eq!(parser.format(), Format::docx());
    assert_eq!(parser.metadata().name, "DOCX Parser");
    assert_eq!(parser.metadata().version, prism::VERSION);
}

#[test]
fn transforms_read_offsets_and_extents() {
    let events = read_events(
        b"<a:xfrm><a:off x=\"914400\" y=\"-12700\"/><a:ext cx=\"25400\" cy=\"abc\"/><a:rest/></a:xfrm>",
        true,
    );
    let (bounds, next) = parse_transform_2d(&events, 1);
    assert_eq!(bounds, Rect::new(914400, -12700, 25400, 0));
    assert_eq!(next, 5);
    assert_eq!(bounds.x as f64 / 12700.0, 72.0);
    let (opened, next) = parse_transform_2d(
        &read_events(
            b"<a:xfrm><a:off x=\"1\" y=\"2\"></a:off><a:ext cx=\"3\" cy=\"4\"></a:ext></a:xfrm><a:off x=\"9\"/>",
            true,
        ),
        1,
    );
    assert_eq!(opened, Rect::new(1, 2, 3, 4));
    assert_eq!(next, 6);
    let (nested, next) = parse_transform_2d(
        &read_events(b"<a:xfrm><a:x><a:ext cx=\"1\" cy=\"2\"/></a:x></a:xfrm>", true),
        1,
    );
    assert_eq!(nested, Rect::default());
    assert_eq!(next, 5);
    let (empty, next) = parse_transform_2d(&read_events(b"<a:xfrm>", true), 1);
    assert_eq!(empty, Rect::default());
    assert_eq!(next, 1);
}

const SLIDE: &str = r#"<p:sld><p:cSld><p:bg><p:bgPr><a:blipFill><a:blip r:embed="rId1"/></a:blipFill></p:bgPr></p:bg><p:spTree>
<p:sp><p:spPr><a:xfrm rot="5400000"><a:off x="914400" y="457200"/><a:ext cx="1828800" cy="914400"/></a:xfrm><a:solidFill><a:srgbClr val="FF0000"/></a:solidFill><a:ln w="12700"><a:solidFill><a:srgbClr val="00FF00"/></a:solidFill></a:ln></p:spPr><p:txBody><a:p><a:r><a:rPr sz="1800" b="1" u="sng"><a:latin typeface="Arial"/><a:solidFill><a:srgbClr val="0000FF"/></a:solidFill></a:rPr><a:t>Title</a:t></a:r><a:r><a:rPr i="1"/><a:t>sub</a:t></a:r></a:p></p:txBody></p:sp>
<p:sp><p:spPr></p:spPr></p:sp>
<p:pic><p:nvPicPr><p:cNvPr id="4" descr="A picture"/></p:nvPicPr><p:blipFill><a:blip r:embed="rId2"/></p:blipFill><p:spPr><a:xfrm><a:off x="12700" y="25400"></a:off></a:xfrm></p:spPr></p:pic>
<p:graphicFrame><p:xfrm><a:off x="5" y="6"/><a:ext cx="7" cy="8"/></p:xfrm><a:graphic><a:graphicData><a:tbl><a:tr><a:tc gridSpan="2"><a:txBody><a:p><a:r><a:t>cell</a:t></a:r></a:p></a:txBody></a:tc></a:tr></a:tbl></a:graphicData></a:graphic></p:graphicFrame>
</p:spTree></p:cSld></p:sld>"#;

fn slide_rels() -> StrMap {
    let mut rels = StrMap::new();
    rels.insert("rId1".to_string(), "../media/bg.jpeg".to_string());
    rels.insert("rId2".to_string(), "../media/image1.png".to_string());
    rels
}

#[test]
fn slides_become_pages() {
    let size = Dimensions::new(9144000, 6858000);
    let page = SlideParser::parse(SLIDE, 3, &slide_rels(), size);
    assert_eq!(page.number, 3);
    assert_eq!(page.dimensions, size);
    assert_eq!(page.metadata.label.as_deref(), Some("Slide 3"));
    assert_eq!(page.metadata.rotation, 0);
    assert!(page.annotations.is_empty());
    assert_eq!(page.content.len(), 4);

    match &page.content[0] {
        ContentBlock::Image(img) => {
            assert_eq!(img.bounds, Rect::new(0, 0, 9144000, 6858000));
            assert_eq!(img.resource_id, "../media/bg.jpeg");
            assert_eq!(img.alt_text.as_deref(), Some("Background Image"));
            assert_eq!(img.format.as_deref(), Some("image/jpeg"));
        }
        other => panic!("expected the background first, got {:?}", other),
    }
    let title = text_of(&page.content[1]);
    assert_eq!(title.bounds, Rect::new(914400, 457200, 1828800, 914400));
    assert_eq!(title.rotation, 5400000);
    assert_eq!(title.rotation as f64 / 60000.0, 90.0);
    assert_eq!(title.style.fill_color.as_deref(), Some("#FF0000"));
    assert_eq!(title.style.stroke_color.as_deref(), Some("#00FF00"));
    assert_eq!(title.style.stroke_width, Some(12700));
    assert_eq!(title.runs.len(), 3);
    assert_eq!(title.runs[0].text, "Title");
    assert_eq!(title.runs[0].style.font_size, Some(1800));
    assert!(title.runs[0].style.bold);
    assert!(!title.runs[0].style.italic);
    assert!(title.runs[0].style.underline);
    assert_eq!(title.runs[0].style.font_family.as_deref(), Some("Arial"));
    assert_eq!(title.runs[0].style.color.as_deref(), Some("#0000FF"));
    assert_eq!(title.runs[1].text, "sub");
    assert!(title.runs[1].style.italic);
    assert!(!title.runs[1].style.bold);
    assert_eq!(title.runs[1].style.color, None);
    assert_eq!(title.runs[2].text, "\n");
    match &page.content[2] {
        ContentBlock::Image(img) => {
            assert_eq!(img.bounds, Rect::new(12700, 25400, 0, 0));
            assert_eq!(img.resource_id, "../media/image1.png");
            assert_eq!(img.alt_text.as_deref(), Some("A picture"));
            assert_eq!(img.format.as_deref(), Some("image/png"));
            assert_eq!(img.rotation, 0);
        }
        other => panic!("expected a picture, got {:?}", other),
    }
    let table = table_of(&page.content[3]);
    assert_eq!(table.bounds, Rect::new(5, 6, 7, 8));
    assert_eq!(table.rows.len(), 1);
    assert_eq!(table.rows[0].cells[0].col_span, 2);
    assert_eq!(table.rows[0].cells[0].row_span, 1);
    assert_eq!(table.rows[0].cells[0].extract_text(), "cell\n");
}

#[test]
fn shapes_without_text_give_no_block() {
    let events = read_events(b"<p:sp><a:ln w=\"x\"/><a:srgbClr val=\"112233\"/></p:sp><p:sp>", true);
    let (block, next) = parse_shape(&events, 1);
    assert!(block.is_none());
    assert_eq!(next, 4);
    let unresolved = SlideParser::parse(
        "<p:sld><p:pic><a:blip r:embed=\"rId9\"></a:blip></p:pic><p:bg></p:bg></p:sld>",
        1,
        &slide_rels(),
        Dimensions::letter(),
    );
    assert_eq!(unresolved.content.len(), 1);
    match &unresolved.content[0] {
        ContentBlock::Image(img) => {
            assert_eq!(img.resource_id, "rId9");
            assert_eq!(img.format, None);
            assert_eq!(img.alt_text, None);
        }
        other => panic!("expected a picture, got {:?}", other),
    }
}

#[test]
fn image_types_follow_the_extension() {
    assert_eq!(image_mime_of("media/a.PNG").as_deref(), Some("image/png"));
    assert_eq!(image_mime_of("a.jpg").as_deref(), Some("image/jpeg"));
    assert_eq!(image_mime_of("a.b.JpEg").as_deref(), Some("image/jpeg"));
    assert_eq!(image_mime_of("a.gif").as_deref(), Some("image/gif"));
    assert_eq!(image_mime_of("a.svg").as_deref(), Some("image/svg+xml"));
    assert_eq!(image_mime_of("a.WebP").as_deref(), Some("image/WebP"));
    assert_eq!(image_mime_of("dir.d/name"), None);
    assert_eq!(image_mime_of("dir/.hidden"), None);
    assert_eq!(image_mime_of(""), None);
    assert_eq!(image_mime_of("a.").as_deref(), Some("image/"));
}

#[test]
fn relative_targets_resolve_per_part() {
    assert_eq!(resolve_relative(b"ppt/slides", b"../media/image1.png"), b"ppt/media/image1.png");
    assert_eq!(resolve_relative(b"ppt/slides", b"media/image2.jpeg"), b"ppt/slides/media/image2.jpeg");
    assert_eq!(resolve_relative(b"ppt/slides", b"./a/../b.png"), b"ppt/slides/b.png");
    assert_eq!(resolve_relative(b"ppt", b"../../../x"), b"x");
    assert_eq!(resolve_relative(b"ppt/notes", b"..\\media\\i.png"), b"ppt/notes/../media/i.png");
    assert_eq!(resolve_relative(b"", b"a"), b"/a");
    assert_eq!(resolve_relative(b"a//b", b""), b"a//b/");
}

fn presentation_package() -> Vec<u8> {
    let presentation = r#"<p:presentation><p:sldIdLst><p:sldId id="256" r:id="rId2"/><p:sldId id="257" r:id="rId3"/><p:sldId id="258" r:id="rId9"/><p:sldId id="259" r:id="rId4"/></p:sldIdLst><p:sldSz cx="9144000" cy="6858000"/></p:presentation>"#;
    let rels = r#"<Relationships>
        <Relationship Id="rId1" Type="http://schemas.openxmlformats.org/officeDocument/2006/relationships/theme" Target="theme/theme1.xml"/>
        <Relationship Id="rId2" Type="http://schemas.openxmlformats.org/officeDocument/2006/relationships/slide" Target="slides/slide1.xml"/>
        <Relationship Id="rId3" Type="http://schemas.openxmlformats.org/officeDocument/2006/relationships/slide" Target="slides/missing.xml"/>
        <Relationship Id="rId4" Type="http://schemas.openxmlformats.org/officeDocument/2006/relationships/slide" Target="slides\slide2.xml"/>
    </Relationships>"#;
    let slide_rels = r#"<Relationships>
        <Relationship Id="rId1" Type="image" Target="../media/bg.jpeg"/>
        <Relationship Id="rId2" Type="image" Target="../media/image1.png"/>
        <Relationship Id="rId3" Type="image" Target="../media/absent.png"/>
    </Relationships>"#;
    let second_rels = r#"<Relationships>
        <Relationship Id="rId7" Type="image" Target="../media/image1.png"/>
        <Relationship Id="rId8" Type="image" Target="../media/drawing.svg"/>
    </Relationships>"#;
    let theme = r#"<a:theme name="Deck"><a:themeElements><a:fontScheme><a:majorFont><a:latin typeface="Georgia"></a:latin></a:majorFont></a:fontScheme></a:themeElements></a:theme>"#;
    let png = minimal_png();
    zip_of(&[
        ("[Content_Types].xml", b"<Types/>"),
        ("ppt/presentation.xml", presentation.as_bytes()),
        ("ppt/_rels/presentation.xml.rels", rels.as_bytes()),
        ("ppt/theme/theme1.xml", theme.as_bytes()),
        ("ppt/slides/slide1.xml", SLIDE.as_bytes()),
        ("ppt/slides/_rels/slide1.xml.rels", slide_rels.as_bytes()),
        ("ppt/slides/slide2.xml", b"<p:sld><p:sp><p:txBody><a:p><a:r><a:t>Second</a:t></a:r></a:p></p:txBody></p:sp></p:sld>"),
        ("ppt/slides/_rels/slide2.xml.rels", second_rels.as_bytes()),
        ("ppt/media/bg.jpeg", b"not really a jpeg"),
        ("ppt/media/image1.png", &png),
        ("ppt/media/drawing.svg", b"<svg/>"),
    ])
}

#[test]
fn pptx_slides_come_in_declared_order() {
    let data = presentation_package();
    let parser = PptxParser::new();
    assert!(parser.can_parse(&data));
    let doc = parser.parse(&data, context(Format::pptx(), "deck.pptx")).unwrap();
    assert_eq!(doc.page_count(), 2);
    assert_eq!(doc.pages[0].number, 1);
    assert_eq!(doc.pages[0].metadata.label.as_deref(), Some("Slide 1"));
    assert_eq!(doc.pages[0].content.len(), 4);
    assert!(matches!(doc.pages[0].content[0], ContentBlock::Image(_)));
    assert_eq!(doc.pages[1].number, 4);
    assert_eq!(doc.pages[1].metadata.label.as_deref(), Some("Slide 4"));
    assert_eq!(doc.pages[1].dimensions, Dimensions::new(9144000, 6858000));
    assert_eq!(text_of(&doc.pages[1].content[0]).runs[0].text, "Second");

    let images = &doc.resources.images;
    let ids: Vec<&str> = images.iter().map(|i| i.id.as_str()).collect();
    assert_eq!(ids, vec!["../media/bg.jpeg", "../media/image1.png", "../media/drawing.svg"]);
    assert_eq!(images[0].mime_type, "image/jpeg");
    assert_eq!((images[0].width, images[0].height), (0, 0));
    assert_eq!(images[0].data.as_deref(), Some(&b"not really a jpeg"[..]));
    assert_eq!(images[1].mime_type, "image/png");
    assert_eq!((images[1].width, images[1].height), (1, 1));
    assert_eq!(images[1].data.as_deref(), Some(&minimal_png()[..]));
    assert_eq!(images[2].mime_type, "image/svg+xml");
    assert_eq!((images[2].width, images[2].height), (0, 0));
    assert!(images.iter().all(|i| i.url.is_none()));
    // Every resource that a block refers to is in the store.
    for page in &doc.pages {
        for block in &page.content {
            if let ContentBlock::Image(img) = block {
                assert!(images.iter().any(|i| i.id == img.resource_id));
            }
        }
    }

    assert_eq!(doc.metadata.title.as_deref(), Some("deck.pptx"));
    assert!(matches!(doc.metadata.get_custom("format"), Some(MetadataValue::String(s)) if s == "PPTX"));
    assert!(matches!(doc.metadata.get_custom("slide_count"), Some(MetadataValue::Integer(2))));
    assert!(matches!(doc.metadata.get_custom("theme_name"), Some(MetadataValue::String(s)) if s == "Deck"));
    assert!(matches!(doc.metadata.get_custom("theme_font_major"), Some(MetadataValue::String(s)) if s == "Georgia"));
    assert!(doc.metadata.get_custom("theme_font_minor").is_none());
}

#[test]
fn pptx_declares_slides_and_size() {
    let (rids, size) = PptxParser::parse_presentation_xml(
        "<p:presentation><p:sldId r:id=\"rId7\"></p:sldId><p:sldId id=\"1\"/><p:sldId r:id=\"rId5\"/><p:sldSz cx=\"1\"/></p:presentation>",
    )
    .unwrap();
    assert_eq!(rids, vec!["rId7".to_string(), "rId5".to_string()]);
    assert_eq!(size, Dimensions::new(1, 6858000));
    let (none, default_size) = PptxParser::parse_presentation_xml("<p:presentation/>").unwrap();
    assert!(none.is_empty());
    assert_eq!(default_size, Dimensions::new(12192000, 6858000));
    assert_eq!(default_size.width as f64 / 12700.0, 960.0);
    assert_eq!(default_size.height as f64 / 12700.0, 540.0);
    let failed = PptxParser::parse_presentation_xml("<p:presentation></p:x>");
    assert!(matches!(failed, Err(Error::ParseError(m)) if m.starts_with("XML error in presentation.xml: ")));
}

#[test]
fn pptx_needs_its_presentation_part() {
    let parser = PptxParser::new();
    let message = parse_message(parser.parse(b"PK\x03\x04 nothing", context(Format::pptx(), "x")));
    assert!(message.starts_with("Failed to open PPTX as ZIP: "), "{}", message);
    let other = zip_of(&[("readme.txt", b"hi")]);
    assert!(!parser.can_parse(&other));
    assert_eq!(
        parse_message(parser.parse(&other, context(Format::pptx(), "x"))),
        "Missing ppt/presentation.xml"
    );
    let bad_rels = zip_of(&[
        ("ppt/presentation.xml", b"<p:presentation/>"),
        ("ppt/_rels/presentation.xml.rels", b"<Relationships></x>"),
    ]);
    let message = parse_message(parser.parse(&bad_rels, context(Format::pptx(), "x")));
    assert!(message.starts_with("XML error in relationships: "), "{}", message);
    let binary_rels = zip_of(&[
        ("ppt/presentation.xml", b"<p:presentation/>"),
        ("ppt/_rels/presentation.xml.rels", &[0xC3, 0x28]),
    ]);
    assert_eq!(
        parse_message(parser.parse(&binary_rels, context(Format::pptx(), "x"))),
        "Failed to read relationship XML: stream did not contain valid UTF-8"
    );
    let binary_slide = zip_of(&[
        ("ppt/presentation.xml", b"<p:presentation><p:sldId r:id=\"a\"/></p:presentation>"),
        ("ppt/_rels/presentation.xml.rels", b"<Relationships><Relationship Id=\"a\" Type=\"t\" Target=\"s.xml\"/></Relationships>"),
        ("ppt/s.xml", &[0xC3, 0x28]),
    ]);
    assert_eq!(
        parse_message(parser.parse(&binary_slide, context(Format::pptx(), "x"))),
        "Failed to read slide XML ppt/s.xml: stream did not contain valid UTF-8"
    );
    let bare = zip_of(&[("ppt/presentation.xml", b"<p:presentation/>")]);
    let doc = parser.parse(&bare, context(Format::pptx(), "bare.pptx")).unwrap();
    assert_eq!(doc.page_count(), 0);
    assert!(matches!(doc.metadata.get_custom("slide_count"), Some(MetadataValue::Integer(0))));
    assert!(doc.metadata.get_custom("theme_name").is_none());
    assert_eq!(parser.format(), Format::pptx());
    assert_eq!(parser.metadata().name, "PPTX Parser");
}

#[test]
fn test_is_xlsx_zip() {
    let valid_zip = [0x50, 0x4B, 0x03, 0x04, 0x00, 0x00];
    assert!(XlsxParser::is_xlsx_zip(&valid_zip));
    let invalid = b"Not a ZIP file";
    assert!(!XlsxParser::is_xlsx_zip(invalid));
}

#[test]
fn test_parse_sheet_logic() {
    let xml = r#"
            <worksheet xmlns="http://schemas.openxmlformats.org/spreadsheetml/2006/main">
                <sheetData>
                    <row r="1">
                        <c r="A1" t="str"><v>Header</v></c>
                        <c r="B1" t="s"><v>0</v></c>
                    </row>
                    <row r="2">
                        <c r="A2" s="1"><v>123</v></c>
                        <c r="B2" s="2"><v>456</v></c>
                    </row>
                </sheetData>
            </worksheet>
        "#;

    let shared_strings = vec!["SharedString".to_string()];

    let mut styles = ExcelStyles::default();
    styles.cell_xfs.push(CellXf::default());

    let mut style1 = CellXf::default();
    style1.font_id = 0;
    styles.cell_xfs.push(style1);
    styles.fonts.push(ExcelFont {
        name: "Arial".to_string(),
        size: 1200,
        color: Some("#FF0000".to_string()),
        ..Default::default()
    });

    let mut style2 = CellXf::default();
    style2.fill_id = 0;
    styles.cell_xfs.push(style2);
    styles.fills.push(ExcelFill {
        pattern_type: "solid".to_string(),
        fg_color: Some("#00FF00".to_string()),
        ..Default::default()
    });

    let result = XlsxParser::parse_sheet_clean(xml, &shared_strings, &Some(styles));
    assert!(result.is_ok());

    let table = result.unwrap();
    assert_eq!(table.rows.len(), 2);

    assert_eq!(table.rows[0].cells[0].content.len(), 1);
    if let ContentBlock::Text(ref tb) = table.rows[0].cells[0].content[0] {
        assert_eq!(tb.runs[0].text, "Header");
    } else {
        panic!("Expected TextBlock in A1");
    }

    if let ContentBlock::Text(ref tb) = table.rows[0].cells[1].content[0] {
        assert_eq!(tb.runs[0].text, "SharedString");
    }

    if let ContentBlock::Text(ref tb) = table.rows[1].cells[0].content[0] {
        assert_eq!(tb.runs[0].text, "123");
        assert_eq!(tb.runs[0].style.font_family.as_deref(), Some("Arial"));
        assert_eq!(tb.runs[0].style.color.as_deref(), Some("#FF0000"));
    }

    if let ContentBlock::Text(ref tb) = table.rows[1].cells[1].content[0] {
        assert_eq!(tb.runs[0].text, "456");
    }
    assert_eq!(table.rows[1].cells[1].background_color.as_deref(), Some("#00FF00"));
}

#[test]
fn test_parse_sheet_merged() {
    let xml = r#"
            <worksheet xmlns="http://schemas.openxmlformats.org/spreadsheetml/2006/main">
                <sheetData>
                    <row r="1">
                        <c r="A1" t="str"><v>Merged Title</v></c>
                        <c r="C1" t="str"><v>After Merge</v></c>
                    </row>
                    <row r="2">
                        <c r="A2"><v>1</v></c>
                        <c r="B2"><v>2</v></c>
                        <c r="C2"><v>3</v></c>
                    </row>
                </sheetData>
                <mergeCells>
                    <mergeCell ref="A1:B1"/>
                </mergeCells>
            </worksheet>
        "#;
    let shared_strings = vec![];
    let styles = None;

    let result = XlsxParser::parse_sheet_clean(xml, &shared_strings, &styles);
    assert!(result.is_ok());
    let table = result.unwrap();

    assert_eq!(table.rows.len(), 2);

    assert_eq!(table.rows[0].cells.len(), 2);

    assert_eq!(table.rows[0].cells[0].col_span, 2);
    if let ContentBlock::Text(ref tb) = table.rows[0].cells[0].content[0] {
        assert_eq!(tb.runs[0].text, "Merged Title");
    }

    if let ContentBlock::Text(ref tb) = table.rows[0].cells[1].content[0] {
        assert_eq!(tb.runs[0].text, "After Merge");
    }

    assert_eq!(table.rows[1].cells.len(), 3);
    assert_eq!(table.rows[1].cells[0].col_span, 1);
    assert_eq!(table.rows[1].cells[1].col_span, 1);
}

#[test]
fn merged_cells_leave_their_rows() {
    let xml = r#"<worksheet><sheetData>
        <row><c r="A1"><v>a1</v></c><c r="B1"><v>b1</v></c><c r="C1"><v>c1</v></c><c r="D1"><v>d1</v></c></row>
        <row><c r="A2"><v>a2</v></c><c r="B2"><v>b2</v></c><c r="C2"><v>c2</v></c><c r="D2"><v>d2</v></c></row>
        <row><c r="A3"><v>a3</v></c></row>
    </sheetData><mergeCells>
        <mergeCell ref="B1:C2"/>
        <mergeCell ref="C2:B1"/>
        <mergeCell ref="A9:B9"/>
        <mergeCell ref="A3:D3"/>
        <mergeCell ref="nonsense"/>
        <mergeCell ref="C1:D1"/>
    </mergeCells></worksheet>"#;
    let table = XlsxParser::parse_sheet(xml, &vec![], &None).unwrap();
    assert_eq!(table.column_count, 4);
    let texts: Vec<Vec<String>> = table
        .rows
        .iter()
        .map(|r| r.cells.iter().map(|c| c.extract_text()).collect())
        .collect();
    assert_eq!(
        texts,
        vec![
            vec!["a1".to_string(), "b1".to_string()],
            vec!["a2".to_string(), "d2".to_string()],
            vec!["a3".to_string()],
        ]
    );
    assert_eq!(table.rows[0].cells[1].col_span, 2);
    assert_eq!(table.rows[0].cells[1].row_span, 2);
    assert_eq!(table.rows[2].cells[0].col_span, 4);
    assert_eq!(table.rows[2].cells[0].row_span, 1);
    assert_eq!(table.rows[1].cells[1].col_span, 1);
}

#[test]
fn sheet_cells_fill_gaps_and_read_shared_strings() {
    let xml = r#"<worksheet><sheetData>
        <row r="1"><c r="C1" t="s"><v>1</v></c><c r="E1" t="s"><v>7</v></c><c r="F1" t="s"><v>x</v></c><c r="g1"/></row>
        <c r="A9"><v>outside a row</v></c>
        <row r="2"><c t="inlineStr"><is><t>in &amp; line</t></is></c><c><v></v></c></row>
    </sheetData></worksheet>"#;
    let shared = vec!["zero".to_string(), "one".to_string()];
    let table = XlsxParser::parse_sheet_clean(xml, &shared, &None).unwrap();
    assert_eq!(table.rows.len(), 2);
    assert_eq!(table.column_count, 7);
    let first: Vec<String> = table.rows[0].cells.iter().map(|c| c.extract_text()).collect();
    assert_eq!(first, vec!["", "", "one", "", "", "x", ""]);
    assert!(table.rows[0].cells.iter().all(|c| c.col_span == 1 && c.row_span == 1));
    let second: Vec<String> = table.rows[1].cells.iter().map(|c| c.extract_text()).collect();
    assert_eq!(second, vec!["<t>in &amp; line</t>", ""]);
    assert_eq!(XlsxParser::col_index_from_ref("A1"), 0);
    assert_eq!(XlsxParser::col_index_from_ref("z9"), 25);
    assert_eq!(XlsxParser::col_index_from_ref("aB12"), 27);
    assert_eq!(XlsxParser::col_index_from_ref("12"), 0);
    assert_eq!(XlsxParser::col_index_from_ref(""), 0);
}

#[test]
fn a_sheet_that_ends_inside_a_cell_fails() {
    let failed = XlsxParser::parse_sheet_clean("<worksheet><row><c r=\"A1\"><v>1</v>", &vec![], &None);
    assert!(matches!(failed, Err(Error::ParseError(m)) if m == "Unexpected EOF in sheet"));
    let failed = XlsxParser::parse_sheet_clean("<worksheet><row><c r=\"A1\"><v>1", &vec![], &None);
    assert!(matches!(failed, Err(Error::ParseError(m)) if m == "Unexpected EOF in sheet"));
    let failed = XlsxParser::parse_sheet_clean("<worksheet><row><c r=\"A1\"><v>1</v></c>", &vec![], &None);
    assert!(matches!(failed, Err(Error::ParseError(m)) if m == "Unexpected EOF in sheet"));
    let crossed = XlsxParser::parse_sheet_clean("<worksheet><row><c r=\"A1\"><v>1</v></c></worksheet>", &vec![], &None);
    assert!(matches!(crossed, Err(Error::ParseError(_))));
    let fine = XlsxParser::parse_sheet_clean("<worksheet><row><c r=\"A1\"><v>1</v></c></row></worksheet>", &vec![], &None).unwrap();
    assert_eq!(fine.rows.len(), 1);
    assert_eq!(fine.column_count, 1);
}

#[test]
fn test_excel_theme_color_resolution() {
    let theme_xml = r#"
            <a:theme xmlns:a="http://schemas.openxmlformats.org/drawingml/2006/main" name="Office Theme">
                <a:themeElements>
                    <a:clrScheme name="Office">
                        <a:dk1>
                            <a:sysClr val="windowText" lastClr="000000"/>
                        </a:dk1>
                        <a:lt1>
                            <a:sysClr val="window" lastClr="FFFFFF"/>
                        </a:lt1>
                        <a:dk2>
                            <a:srgbClr val="44546A"/>
                        </a:dk2>
                        <a:lt2>
                            <a:srgbClr val="E7E6E6"/>
                        </a:lt2>
                        <a:accent1>
                            <a:srgbClr val="4472C4"/>
                        </a:accent1>
                        <a:accent2>
                            <a:srgbClr val="ED7D31"/>
                        </a:accent2>
                    </a:clrScheme>
                </a:themeElements>
            </a:theme>
        "#;
    let theme = parse_theme(theme_xml.as_bytes()).unwrap();

    let styles_xml = r#"
            <styleSheet xmlns="http://schemas.openxmlformats.org/spreadsheetml/2006/main">
                <fonts>
                    <font>
                        <name val="Calibri"/>
                        <color theme="4"/> <!-- accent1 -> 4472C4 -->
                    </font>
                    <font>
                        <name val="Arial"/>
                        <color theme="5" tint="-0.25"/> <!-- accent2 -> ED7D31 darkened -->
                    </font>
                </fonts>
                <fills>
                    <fill>
                        <patternFill patternType="solid">
                            <fgColor theme="0"/> <!-- lt1 -> FFFFFF (using lastClr) -->
                        </patternFill>
                    </fill>
                </fills>
                <cellXfs>
                    <xf fontId="0" fillId="0" borderId="0" numFmtId="0"/>
                    <xf fontId="1" fillId="0" borderId="0" numFmtId="0"/>
                </cellXfs>
            </styleSheet>
        "#;

    let styles = ExcelStyles::from_xml(styles_xml, Some(&theme)).unwrap();

    let font0 = &styles.fonts[0];
    assert_eq!(font0.color.as_deref(), Some("#4472C4"));

    let font1 = &styles.fonts[1];
    assert!(font1.color.is_some());
    let c = font1.color.as_ref().unwrap();
    assert_ne!(c, "#ED7D31");
    assert_eq!(c, "#B25E25");

    let fill0 = &styles.fills[0];
    assert_eq!(fill0.fg_color.as_deref(), Some("#FFFFFF"));
}

#[test]
fn excel_styles_resolve_by_index() {
    let xml = r#"<styleSheet>
        <fonts count="2">
            <font><sz val="11"/><name val="Calibri"/><b/><color rgb="FF112233"/></font>
            <font><sz val="10.5"/><name val="Arial"/><i/><u/><color theme="4"/></font>
        </fonts>
        <fills>
            <fill><patternFill patternType="none"/></fill>
            <fill><patternFill patternType="solid"><fgColor rgb="FFFFFF00"/><bgColor indexed="64"/></patternFill></fill>
            <fill><patternFill><bgColor rgb="FF00FF00"/></patternFill></fill>
        </fills>
        <cellStyleXfs><xf fontId="1"/></cellStyleXfs>
        <cellXfs>
            <xf numFmtId="14" fontId="0" fillId="1" borderId="2"><alignment horizontal="center" vertical="top"/></xf>
            <xf fontId="1" fillId="2"/>
            <xf fontId="9" fillId="9"/>
            <xf fontId="x"/>
        </cellXfs>
    </styleSheet>"#;
    let styles = ExcelStyles::from_xml(xml, None).unwrap();
    assert_eq!(styles.fonts.len(), 2);
    assert_eq!(styles.fills.len(), 3);
    assert_eq!(styles.cell_xfs.len(), 4);
    assert_eq!(styles.fonts[0].size, 1100);
    assert_eq!(styles.fonts[1].size, 1050);
    assert_eq!(styles.fonts[1].color, None);
    assert_eq!(styles.fills[0].pattern_type, "none");
    assert_eq!(styles.fills[1].bg_color, None);
    assert_eq!(styles.cell_xfs[0].num_fmt_id, 14);
    assert_eq!(styles.cell_xfs[0].border_id, 2);
    assert_eq!(styles.cell_xfs[0].align_h.as_deref(), Some("center"));
    assert_eq!(styles.cell_xfs[0].align_v.as_deref(), Some("top"));
    assert_eq!(styles.cell_xfs[3].font_id, 0);

    let (text, background) = styles.get_style(0);
    assert_eq!(text.font_family.as_deref(), Some("Calibri"));
    assert_eq!(text.font_size, Some(1100));
    assert!(text.bold && !text.italic && !text.underline);
    assert_eq!(text.color.as_deref(), Some("#FF112233"));
    assert_eq!(background.as_deref(), Some("#FFFFFF00"));
    let (text, background) = styles.get_style(1);
    assert_eq!(text.font_family.as_deref(), Some("Arial"));
    assert!(!text.bold && text.italic && text.underline);
    assert_eq!(background.as_deref(), Some("#FF00FF00"));
    let (text, background) = styles.get_style(2);
    assert_eq!(text.font_family, None);
    assert_eq!(text.font_size, None);
    assert_eq!(background, None);
    let (text, background) = styles.get_style(4);
    assert_eq!(text.font_family, None);
    assert_eq!(background, None);

    let failed = ExcelStyles::from_xml("<styleSheet><fonts><font><b/></x>", None);
    assert!(matches!(failed, Err(Error::ParseError(m)) if m.starts_with("XML error in font: ")));
    let failed = ExcelStyles::from_xml("<styleSheet><fills><fill><b/></x>", None);
    assert!(matches!(failed, Err(Error::ParseError(m)) if m.starts_with("XML error in fill: ")));
    let failed = ExcelStyles::from_xml("<styleSheet><fonts></x>", None);
    assert!(matches!(failed, Err(Error::ParseError(m)) if m.starts_with("XML error in styles: ")));
    assert_eq!(map_theme_index(0), Some("lt1"));
    assert_eq!(map_theme_index(1), Some("dk1"));
    assert_eq!(map_theme_index(9), Some("accent6"));
    assert_eq!(map_theme_index(11), Some("folHlink"));
    assert_eq!(map_theme_index(12), None);
    assert_eq!(map_theme_index(-1), None);
}

#[test]
fn xlsx_sheets_come_in_declared_order() {
    let workbook = r#"<workbook><sheets><sheet name="Second" sheetId="2" r:id="rId2"/><sheet name="First" sheetId="1" r:id="rId1"/><sheet name="Gone" sheetId="3" r:id="rId3"/><sheet name="" r:id="rId1"/></sheets></workbook>"#;
    let rels = r#"<Relationships><Relationship Id="rId1" Target="worksheets/sheet1.xml" Type="t"/><Relationship Id="rId2" Target="/xl/worksheets/sheet2.xml" Type="t"/><Relationship Id="rId3" Target="worksheets/gone.xml" Type="t"/></Relationships>"#;
    let shared = r#"<sst><si><t>alpha</t></si><si><r><t>be</t></r><r><t>ta</t></r></si></sst>"#;
    let styles = r#"<styleSheet><fonts><font><name val="Calibri"/><color theme="4"/></font></fonts><cellXfs><xf fontId="0"/></cellXfs></styleSheet>"#;
    let theme = r#"<a:theme name="T"><a:clrScheme><a:accent1><a:srgbClr val="4472C4"/></a:accent1></a:clrScheme></a:theme>"#;
    let data = zip_of(&[
        ("xl/workbook.xml", workbook.as_bytes()),
        ("xl/_rels/workbook.xml.rels", rels.as_bytes()),
        ("xl/sharedStrings.xml", shared.as_bytes()),
        ("xl/styles.xml", styles.as_bytes()),
        ("xl/theme/theme1.xml", theme.as_bytes()),
        ("xl/worksheets/sheet1.xml", b"<worksheet><sheetData><row><c t=\"s\"><v>1</v></c></row></sheetData></worksheet>"),
        ("xl/worksheets/sheet2.xml", b"<worksheet><sheetData><row><c t=\"s\"><v>0</v></c><c><v>2</v></c></row></sheetData></worksheet>"),
    ]);
    let parser = XlsxParser::new();
    assert!(parser.can_parse(&data));
    let doc = parser.parse(&data, context(Format::xlsx(), "book.xlsx")).unwrap();
    assert_eq!(doc.page_count(), 2);
    assert_eq!(doc.pages[0].number, 1);
    assert_eq!(doc.pages[0].metadata.label.as_deref(), Some("Second"));
    assert_eq!(doc.pages[0].dimensions, Dimensions::letter());
    assert_eq!(doc.pages[0].extract_text(), "alpha\t2");
    assert_eq!(doc.pages[1].number, 2);
    assert_eq!(doc.pages[1].metadata.label.as_deref(), Some("First"));
    assert_eq!(doc.pages[1].extract_text(), "beta");
    let table = table_of(&doc.pages[0].content[0]);
    assert_eq!(table.column_count, 2);
    let run = &text_of(&table.rows[0].cells[0].content[0]).runs[0];
    assert_eq!(run.style.font_family.as_deref(), Some("Calibri"));
    assert_eq!(run.style.color.as_deref(), Some("#4472C4"));
    assert_eq!(doc.metadata.title.as_deref(), Some("book.xlsx"));
    assert!(matches!(doc.metadata.get_custom("excel_sheet_count"), Some(MetadataValue::Integer(3))));
    assert!(doc.metadata.get_custom("format").is_none());

    assert_eq!(
        XlsxParser::parse_shared_strings(shared.as_bytes()),
        vec!["alpha".to_string(), "beta".to_string()]
    );
    let sheets = XlsxParser::parse_workbook_sheets(workbook.as_bytes());
    let names: Vec<&str> = sheets.iter().map(|s| s.name.as_str()).collect();
    assert_eq!(names, vec!["Second", "First", "Gone"]);
    let map = XlsxParser::parse_workbook_rels(rels.as_bytes());
    assert_eq!(map.get("rId2").map(|s| s.as_str()), Some("/xl/worksheets/sheet2.xml"));
}

#[test]
fn xlsx_needs_a_zip_signature() {
    let parser = XlsxParser::new();
    assert!(!parser.can_parse(b"PK\x03"));
    assert!(parser.can_parse(b"PK\x05\x04"));
    assert!(!parser.can_parse(b"PK\x05\x06"));
    assert_eq!(
        parse_message(parser.parse(b"Not a ZIP file", context(Format::xlsx(), "x"))),
        "Invalid XLSX signature"
    );
    let message = parse_message(parser.parse(b"PK\x03\x04 nothing", context(Format::xlsx(), "x")));
    assert!(message.starts_with("ZIP error: "), "{}", message);
    let empty = zip_of(&[("readme.txt", b"hi")]);
    assert_eq!(
        parse_message(parser.parse(&empty, context(Format::xlsx(), "e.xlsx"))),
        "xl/workbook.xml not found"
    );
    let bare = zip_of(&[("xl/workbook.xml", b"<workbook><sheets/></workbook>")]);
    let doc = parser.parse(&bare, context(Format::xlsx(), "e.xlsx")).unwrap();
    assert_eq!(doc.page_count(), 0);
    assert!(matches!(doc.metadata.get_custom("excel_sheet_count"), Some(MetadataValue::Integer(0))));
    assert_eq!(parser.format(), Format::xlsx());
    assert_eq!(parser.metadata().name, "XLSX Parser");
    assert_eq!(parser.metadata().features.len(), 3);
}

#[test]
fn docx_with_broken_markup_is_refused() {
    let data = zip_of(&[(
        "word/document.xml",
        b"<w:document><w:body><w:p><w:r><w:t>kept</w:t></w:r></w:p></w:wrong>",
    )]);
    let message = parse_message(DocxParser::new().parse(&data, context(Format::docx(), "b.docx")));
    assert!(message.starts_with("word/document.xml: XML error: "), "{}", message);
    assert!(message.len() > "word/document.xml: XML error: ".len());
    let cut = zip_of(&[("word/document.xml", b"<w:document><w:body><w:p><w:r><w:t>kept</w:t></w:r></w:p>")]);
    assert_eq!(
        parse_message(DocxParser::new().parse(&cut, context(Format::docx(), "c.docx"))),
        "word/document.xml: unexpected end of input"
    );
    let whole = zip_of(&[("word/document.xml", b"<w:document><w:body><w:p><w:r><w:t>kept</w:t></w:r></w:p></w:body></w:document>")]);
    let doc = DocxParser::new().parse(&whole, context(Format::docx(), "w.docx")).unwrap();
    assert_eq!(doc.extract_text(), "kept");
}

#[test]
fn a_sheet_that_is_cut_short_gives_no_table() {
    let none: Option<ExcelStyles> = None;
    match XlsxParser::parse_sheet("<worksheet><sheetData><row r=\"1\"><c r=\"A1\"><v>1</v></c></row>", &Vec::new(), &none) {
        Err(Error::ParseError(m)) => assert_eq!(m, "Unexpected EOF in sheet"),
        other => panic!("expected a parse error, got {:?}", other),
    }
    let table = XlsxParser::parse_sheet(
        "<worksheet><sheetData><row r=\"1\"><c r=\"A1\"><v>1</v></c></row></sheetData></worksheet>",
        &Vec::new(),
        &none,
    ).unwrap();
    assert_eq!(table.rows.len(), 1);
    assert_eq!(table.rows[0].cells[0].extract_text(), "1");
}

#[test]
fn a_broken_slide_fails_the_presentation() {
    let presentation = b"<p:presentation><p:sldIdLst><p:sldId id=\"256\" r:id=\"rId1\"/></p:sldIdLst><p:sldSz cx=\"9144000\" cy=\"6858000\"/></p:presentation>";
    let rels = b"<Relationships><Relationship Id=\"rId1\" Type=\"http://schemas.openxmlformats.org/officeDocument/2006/relationships/slide\" Target=\"slides/slide1.xml\"/></Relationships>";
    let cut = zip_of(&[
        ("ppt/presentation.xml", presentation),
        ("ppt/_rels/presentation.xml.rels", rels),
        ("ppt/slides/slide1.xml", b"<p:sld><p:cSld><p:spTree>"),
    ]);
    assert_eq!(
        parse_message(PptxParser::new().parse(&cut, context(Format::pptx(), "c.pptx"))),
        "Failed to parse slide XML ppt/slides/slide1.xml: unexpected end of input"
    );
    let broken = zip_of(&[
        ("ppt/presentation.xml", presentation),
        ("ppt/_rels/presentation.xml.rels", rels),
        ("ppt/slides/slide1.xml", b"<p:sld><p:cSld></p:sld>"),
    ]);
    let message = parse_message(PptxParser::new().parse(&broken, context(Format::pptx(), "b.pptx")));
    assert!(message.starts_with("Failed to parse slide XML ppt/slides/slide1.xml: XML error: "), "{}", message);
    let whole = zip_of(&[
        ("ppt/presentation.xml", presentation),
        ("ppt/_rels/presentation.xml.rels", rels),
        ("ppt/slides/slide1.xml", b"<p:sld><p:cSld><p:spTree></p:spTree></p:cSld></p:sld>"),
    ]);
    let doc = PptxParser::new().parse(&whole, context(Format::pptx(), "w.pptx")).unwrap();
    assert_eq!(doc.page_count(), 1);
}

#[test]
fn a_run_left_open_is_closed_by_the_next_one() {
    let events = read_events(
        b"<p:txBody><a:p><a:r><a:t>one</a:t><a:r><a:t>two</a:t></a:r></a:r></a:p></p:txBody>",
        true,
    );
    let (runs, next) = prism::shapes::parse_text_body(&events, 1, "p:txBody");
    assert_eq!(next, events.len());
    assert_eq!(runs.len(), 3);
    assert_eq!(runs[0].text, "one");
    assert_eq!(runs[1].text, "two");
    assert_eq!(runs[2].text, "\n");
}

#[test]
fn broken_markup_fails_a_sheet_and_a_table() {
    let none: Option<ExcelStyles> = None;
    match XlsxParser::parse_sheet("<worksheet><sheetData></worksheet>", &Vec::new(), &none) {
        Err(Error::ParseError(m)) => assert!(m.starts_with("XML error in sheet: "), "{}", m),
        other => panic!("expected a parse error, got {:?}", other),
    }
    let (table, _) = parse_drawingml_table(&read_events(b"<a:tbl><a:tr></a:tc>", true), 1);
    match table {
        Err(Error::ParseError(m)) => assert!(m.starts_with("XML error in table: "), "{}", m),
        other => panic!("expected a parse error, got {:?}", other),
    }
    let (table, next) = parse_drawingml_table(
        &read_events(b"<a:tbl><a:tr><a:tc gridSpan=\"0\"></a:tc><a:tc gridSpan=\"3\"></a:tc><a:tc/></a:tr></a:tbl>", true),
        1,
    );
    let table = table.unwrap();
    assert_eq!(next, 9);
    assert_eq!(table.rows.len(), 1);
    assert_eq!(table.rows[0].cells.len(), 2);
    assert_eq!(table.rows[0].cells[0].col_span, 1);
    assert_eq!(table.rows[0].cells[1].col_span, 3);
    assert_eq!(table.column_count, 4);
}

#[test]
fn a_broken_sheet_fails_the_workbook() {
    let workbook = br#"<workbook><sheets><sheet name="Gone" r:id="rId9"/><sheet name="Lost" r:id="rId2"/><sheet name="One" sheetId="1" r:id="rId1"/></sheets></workbook>"#;
    let rels = br#"<Relationships><Relationship Id="rId1" Target="worksheets/sheet1.xml" Type="t"/><Relationship Id="rId2" Target="worksheets/lost.xml" Type="t"/></Relationships>"#;
    let broken = zip_of(&[
        ("xl/workbook.xml", workbook),
        ("xl/_rels/workbook.xml.rels", rels),
        ("xl/worksheets/sheet1.xml", b"<worksheet><sheetData></worksheet>"),
    ]);
    let message = parse_message(XlsxParser::new().parse(&broken, context(Format::xlsx(), "b.xlsx")));
    assert!(
        message.starts_with("Failed to parse sheet xl/worksheets/sheet1.xml: XML error in sheet: "),
        "{}",
        message
    );
    let cut = zip_of(&[
        ("xl/workbook.xml", workbook),
        ("xl/_rels/workbook.xml.rels", rels),
        ("xl/worksheets/sheet1.xml", b"<worksheet><sheetData><row>"),
    ]);
    assert_eq!(
        parse_message(XlsxParser::new().parse(&cut, context(Format::xlsx(), "c.xlsx"))),
        "Failed to parse sheet xl/worksheets/sheet1.xml: Unexpected EOF in sheet"
    );
    let not_text = zip_of(&[
        ("xl/workbook.xml", workbook),
        ("xl/_rels/workbook.xml.rels", rels),
        ("xl/worksheets/sheet1.xml", &[0xFF, 0xFE, 0x00]),
    ]);
    assert_eq!(
        parse_message(XlsxParser::new().parse(&not_text, context(Format::xlsx(), "n.xlsx"))),
        "Failed to parse sheet xl/worksheets/sheet1.xml: stream did not contain valid UTF-8"
    );
    let whole = zip_of(&[
        ("xl/workbook.xml", workbook),
        ("xl/_rels/workbook.xml.rels", rels),
        ("xl/worksheets/sheet1.xml", b"<worksheet><sheetData><row><c><v>7</v></c></row></sheetData></worksheet>"),
    ]);
    let doc = XlsxParser::new().parse(&whole, context(Format::xlsx(), "w.xlsx")).unwrap();
    assert_eq!(doc.page_count(), 1);
    assert_eq!(doc.pages[0].number, 3);
    assert_eq!(doc.pages[0].metadata.label.as_deref(), Some("One"));
    assert_eq!(doc.extract_text(), "7");
}

fn find(haystack: &[u8], needle: &[u8]) -> Vec<usize> {
    (0..haystack.len().saturating_sub(needle.len() - 1))
        .filter(|&i| &haystack[i..i + needle.len()] == needle)
        .collect()
}

#[test]
fn an_entry_that_wants_a_password_is_unreadable() {
    let document = b"<w:document><w:body><w:p><w:r><w:t>secret</w:t></w:r></w:p></w:body></w:document>";
    let mut writer = zip::ZipWriter::new(std::io::Cursor::new(Vec::new()));
    let options =
        zip::write::FileOptions::default().compression_method(zip::CompressionMethod::Stored);
    writer.start_file_with_extra_data("word/document.xml", options).unwrap();
    std::io::Write::write_all(&mut writer, &[0xFE, 0xCA, 7, 0, 1, 0, b'A', b'E', 1, 0, 0]).unwrap();
    writer.end_extra_data().unwrap();
    std::io::Write::write_all(&mut writer, document).unwrap();
    let plain = writer.finish().unwrap().into_inner();
    let parser = DocxParser::new();
    assert_eq!(parser.parse(&plain, context(Format::docx(), "p.docx")).unwrap().extract_text(), "secret");

    // The same archive, its extra field relabelled as that of an AES entry.
    let mut marked = plain.clone();
    let places = find(&marked, &[0xFE, 0xCA, 7, 0]);
    assert_eq!(places.len(), 2);
    for at in places {
        marked[at] = 0x01;
        marked[at + 1] = 0x99;
    }
    assert!(parser.can_parse(&marked));
    assert_eq!(
        parse_message(parser.parse(&marked, context(Format::docx(), "m.docx"))),
        "Failed to read document.xml: invalid password for file in archive"
    );

    // The same archive, its entry flagged as encrypted.
    let mut flagged = plain.clone();
    let local = find(&flagged, b"PK\x03\x04")[0];
    flagged[local + 6] |= 1;
    let central = find(&flagged, b"PK\x01\x02")[0];
    flagged[central + 8] |= 1;
    let message = parse_message(parser.parse(&flagged, context(Format::docx(), "f.docx")));
    assert!(message.starts_with("Failed to read document.xml: "), "{}", message);
    assert!(PptxParser::new().parse(&flagged, context(Format::pptx(), "f.pptx")).is_err());
}

#[test]
fn a_table_is_as_wide_as_its_widest_row() {
    let events = read_events(
        b"<w:tbl><w:tr><w:tc/></w:tr><w:tr><w:tc><w:tcPr><w:gridSpan w:val=\"3\"/></w:tcPr></w:tc><w:tc></w:tc></w:tr><w:tr><w:tc></w:tc></w:tr><w:tr></w:tr></w:tbl>",
        true,
    );
    let (table, _) = parse_table(&events, 1);
    let table = table.unwrap();
    assert_eq!(table.rows.len(), 4);
    let widths: Vec<usize> =
        table.rows.iter().map(|r| r.cells.iter().map(|c| c.col_span).sum()).collect();
    assert_eq!(widths, [0, 4, 1, 0]);
    assert_eq!(table.column_count, 4);
    let (none, _) = parse_table(&read_events(b"<w:tbl></w:tbl>", true), 1);
    assert_eq!(none.unwrap().column_count, 0);
    let huge = format!(
        "<w:tbl><w:tr><w:tc><w:tcPr><w:gridSpan w:val=\"{}\"/></w:tcPr></w:tc><w:tc></w:tc></w:tr></w:tbl>",
        usize::MAX
    );
    let (wide, _) = parse_table(&read_events(huge.as_bytes(), true), 1);
    assert_eq!(wide.unwrap().column_count, usize::MAX);
}
