use prism::document::TextStyle;
use prism::error::Error;
use prism::relationships::Relationships;
use prism::strmap::StrMap;
use prism::styles::Styles;
use prism::text::attr_value;
use prism::text::decimal_string;
use prism::text::parse_i64;
use prism::text::parse_scaled;
use prism::text::parse_usize;
use prism::text::strip_all;
use prism::theme::parse_theme;
use prism::theme::Theme;
use prism::utils::apply_tint;
use prism::utils::attr_value_opt;
use prism::utils::excel_column_to_index;
use prism::utils::index_to_excel_column;
use prism::utils::parse_cell_ref;
use prism::utils::resolve_word_color;
use prism::xml::event_text;
use prism::xml::read_events;
use prism::xml::XmlEventKind;

fn parse_message(r: Result<impl std::fmt::Debug, Error>) -> String {
    match r {
        Err(Error::ParseError(m)) => m,
        other => panic!("expected a parse error, got {:?}", other),
    }
}

#[test]
fn test_parse_cell_ref() {
    assert_eq!(parse_cell_ref("A1").unwrap(), (0, 0));
    assert_eq!(parse_cell_ref("B5").unwrap(), (4, 1));
    assert_eq!(parse_cell_ref("Z99").unwrap(), (98, 25));
    assert_eq!(parse_cell_ref("AA10").unwrap(), (9, 26));
}

#[test]
fn test_parse_cell_ref_invalid() {
    assert!(parse_cell_ref("").is_err());
    assert!(parse_cell_ref("123").is_err());
    assert!(parse_cell_ref("ABC").is_err());
}

#[test]
fn test_excel_column_to_index() {
    assert_eq!(excel_column_to_index("A").unwrap(), 0);
    assert_eq!(excel_column_to_index("B").unwrap(), 1);
    assert_eq!(excel_column_to_index("Z").unwrap(), 25);
    assert_eq!(excel_column_to_index("AA").unwrap(), 26);
    assert_eq!(excel_column_to_index("AB").unwrap(), 27);
    assert_eq!(excel_column_to_index("AZ").unwrap(), 51);
    assert_eq!(excel_column_to_index("BA").unwrap(), 52);
}

#[test]
fn test_excel_column_to_index_invalid() {
    assert!(excel_column_to_index("").is_err());
    assert!(excel_column_to_index("1").is_err());
    assert!(excel_column_to_index("a").is_err());
}

#[test]
fn test_index_to_excel_column() {
    assert_eq!(index_to_excel_column(0), "A");
    assert_eq!(index_to_excel_column(1), "B");
    assert_eq!(index_to_excel_column(25), "Z");
    assert_eq!(index_to_excel_column(26), "AA");
    assert_eq!(index_to_excel_column(27), "AB");
    assert_eq!(index_to_excel_column(51), "AZ");
    assert_eq!(index_to_excel_column(52), "BA");
}

#[test]
fn test_round_trip() {
    for i in 0..1000 {
        let col = index_to_excel_column(i);
        let index = excel_column_to_index(&col).unwrap();
        assert_eq!(index, i);
    }
}

#[test]
fn column_letters_and_indices_are_inverse() {
    for i in 0..10000usize {
        let col = index_to_excel_column(i);
        assert_eq!(excel_column_to_index(&col).unwrap(), i);
    }
    for s in ["A", "Z", "AA", "ZZ", "AAA", "XFD", "ZZZZ"] {
        let index = excel_column_to_index(s).unwrap();
        assert_eq!(index_to_excel_column(index), s);
    }
    assert_eq!(excel_column_to_index("ZZ").unwrap(), 701);
    assert_eq!(excel_column_to_index("AAA").unwrap(), 702);
    assert_eq!(excel_column_to_index("XFD").unwrap(), 16383);
    assert_eq!(index_to_excel_column(usize::MAX), index_to_excel_column(usize::MAX));
    let top = index_to_excel_column(usize::MAX);
    assert_eq!(excel_column_to_index(&top).unwrap(), usize::MAX);
}

#[test]
fn column_and_cell_errors_say_why() {
    assert_eq!(parse_message(excel_column_to_index("")), "Empty column reference");
    assert_eq!(parse_message(excel_column_to_index("Ab")), "Invalid column character: b");
    assert_eq!(parse_message(excel_column_to_index("A\u{e9}")), "Invalid column character: \u{e9}");
    assert_eq!(
        parse_message(excel_column_to_index("AAAAAAAAAAAAAAAAAAAAAAAAAAAAAAAA")),
        "Column reference out of range"
    );
    assert_eq!(parse_message(parse_cell_ref("")), "Empty cell reference");
    assert_eq!(parse_message(parse_cell_ref("ABC")), "Invalid cell reference: ABC");
    assert_eq!(parse_message(parse_cell_ref("123")), "Empty column reference");
    assert_eq!(parse_message(parse_cell_ref("a1")), "Invalid column character: a");
    assert_eq!(parse_message(parse_cell_ref("A1B")), "Invalid row number: 1B");
    assert_eq!(parse_cell_ref("A0").unwrap(), (0, 0));
    assert_eq!(parse_cell_ref("C007").unwrap(), (6, 2));
}

#[test]
fn tint_of_zero_changes_nothing() {
    assert_eq!(apply_tint("4472C4", 0), "#4472C4");
    assert_eq!(apply_tint("4472c4", 0), "#4472c4");
    assert_eq!(apply_tint("", 0), "#");
    assert_eq!(apply_tint("windowText", 0), "#windowText");
}

#[test]
fn tint_lightens_and_darkens() {
    // 0x80 = 128: 128 * 0.5 + 255 * 0.5 = 191.5, which rounds to 192 = 0xC0.
    assert_eq!(apply_tint("800000", 500000), "#C08080");
    // 0xED * 0.75 = 177.75 -> 178 = B2; 0x7D * 0.75 = 93.75 -> 94 = 5E; 0x31 * 0.75 = 36.75 -> 37.
    assert_eq!(apply_tint("ED7D31", -250000), "#B25E25");
    assert_eq!(apply_tint("FFFFFF", -1000000), "#000000");
    assert_eq!(apply_tint("000000", 1000000), "#FFFFFF");
    assert_eq!(apply_tint("102030", 2000000), "#FFFFFF");
    assert_eq!(apply_tint("102030", -2000000), "#000000");
    assert_eq!(apply_tint("ff0001", -1), "#FF0001");
    assert_eq!(apply_tint("zz80", 500000), "#80C080");
    assert_eq!(apply_tint("+F0000", 1), "#0F0000");
}

#[test]
fn word_colors_resolve_against_the_theme() {
    let mut theme = Theme::new();
    theme.color_scheme.insert("accent1".to_string(), "4472C4".to_string());
    assert_eq!(
        resolve_word_color(Some("FF0000"), Some("accent1"), None, None, &theme).as_deref(),
        Some("#FF0000")
    );
    assert_eq!(
        resolve_word_color(Some("auto"), Some("accent1"), None, None, &theme).as_deref(),
        Some("#4472C4")
    );
    assert_eq!(
        resolve_word_color(Some(""), Some("accent1"), Some(0), Some(5), &theme).as_deref(),
        Some("#4472C4")
    );
    assert_eq!(
        resolve_word_color(None, Some("accent1"), Some(-500000), None, &theme).as_deref(),
        Some("#223962")
    );
    assert_eq!(resolve_word_color(None, Some("accent2"), None, None, &theme), None);
    assert_eq!(resolve_word_color(Some("auto"), None, None, None, &theme), None);
    assert_eq!(resolve_word_color(None, None, Some(1), None, &theme), None);
}

#[test]
fn numbers_read_as_std_reads_them() {
    assert_eq!(parse_usize(b"42"), Some(42));
    assert_eq!(parse_usize(b"+42"), Some(42));
    assert_eq!(parse_usize(b"007"), Some(7));
    assert_eq!(parse_usize(b""), None);
    assert_eq!(parse_usize(b"+"), None);
    assert_eq!(parse_usize(b"-1"), None);
    assert_eq!(parse_usize(b"4 2"), None);
    assert_eq!(parse_usize(b"18446744073709551615"), Some(usize::MAX));
    assert_eq!(parse_usize(b"18446744073709551616"), None);
    for text in ["0", "+0", "12", "+", "", "-3", "1e3", " 1", "99999999999999999999999"] {
        assert_eq!(parse_usize(text.as_bytes()), text.parse::<usize>().ok());
        assert_eq!(parse_i64(text.as_bytes()), text.parse::<i64>().ok());
    }
    assert_eq!(parse_i64(b"-9223372036854775808"), Some(i64::MIN));
    assert_eq!(parse_i64(b"9223372036854775807"), Some(i64::MAX));
    assert_eq!(parse_i64(b"9223372036854775808"), None);
    assert_eq!(parse_i64(b"-9223372036854775809"), None);
    assert_eq!(parse_i64(b"-0"), Some(0));
}

#[test]
fn decimals_read_as_fixed_point() {
    assert_eq!(parse_scaled(b"24", 2), Some(2400));
    assert_eq!(parse_scaled(b"10.5", 2), Some(1050));
    assert_eq!(parse_scaled(b"10.567", 2), Some(1056));
    assert_eq!(parse_scaled(b"-0.25", 6), Some(-250000));
    assert_eq!(parse_scaled(b"-0.249977111117893", 6), Some(-249977));
    assert_eq!(parse_scaled(b"+.5", 1), Some(5));
    assert_eq!(parse_scaled(b"5.", 0), Some(5));
    assert_eq!(parse_scaled(b".5", 0), Some(0));
    assert_eq!(parse_scaled(b"914400", 0), Some(914400));
    assert_eq!(parse_scaled(b"914400.9", 0), Some(914400));
    assert_eq!(parse_scaled(b".", 2), None);
    assert_eq!(parse_scaled(b"", 2), None);
    assert_eq!(parse_scaled(b"-", 2), None);
    assert_eq!(parse_scaled(b"1e3", 2), None);
    assert_eq!(parse_scaled(b"1.2.3", 2), None);
    assert_eq!(parse_scaled(b"12a", 0), None);
    assert_eq!(parse_scaled(b"9223372036854775807", 0), Some(i64::MAX));
    assert_eq!(parse_scaled(b"-9223372036854775807", 0), Some(-i64::MAX));
    assert_eq!(parse_scaled(b"9223372036854775808", 0), None);
    assert_eq!(parse_scaled(b"92233720368547758", 2), Some(9223372036854775800));
    assert_eq!(parse_scaled(b"92233720368547759", 2), None);
}

#[test]
fn text_helpers() {
    assert_eq!(attr_value(b"plain"), "plain");
    assert_eq!(attr_value("gr\u{fc}n".as_bytes()), "gr\u{fc}n");
    assert_eq!(attr_value(&[0x61, 0xFF, 0x62]), "a\u{fffd}b");
    assert_eq!(strip_all(b"a:dk1", b"a:"), b"dk1");
    assert_eq!(strip_all(b"a:a:x a:", b"a:"), b"x ");
    assert_eq!(strip_all(b"aa:", b"a:"), b"a");
    assert_eq!(strip_all(b"abc", b""), b"abc");
    assert_eq!(decimal_string(0), "0");
    assert_eq!(decimal_string(7), "7");
    assert_eq!(decimal_string(1234567890), "1234567890");
    assert_eq!(decimal_string(u64::MAX), "18446744073709551615");
}

#[test]
fn events_are_read_in_order() {
    let xml = b"<?xml version=\"1.0\"?><a x=\"1\" y='two'><!-- c --><b/>t &amp; u</a>";
    let events = read_events(xml, true);
    let kinds: Vec<XmlEventKind> = events.iter().map(|e| e.kind).collect();
    assert_eq!(
        kinds,
        vec![
            XmlEventKind::Other,
            XmlEventKind::Start,
            XmlEventKind::Other,
            XmlEventKind::Empty,
            XmlEventKind::Text,
            XmlEventKind::End,
        ]
    );
    assert_eq!(events[1].name, b"a");
    assert_eq!(events[1].attrs.len(), 2);
    assert_eq!(events[1].attrs[0].key, b"x");
    assert_eq!(events[1].attrs[0].value, b"1");
    assert_eq!(events[1].attrs[1].key, b"y");
    assert_eq!(events[1].attrs[1].value, b"two");
    assert_eq!(events[3].name, b"b");
    assert_eq!(events[4].content, b"t &amp; u");
    assert_eq!(event_text(&events[4].content).as_deref(), Some("t & u"));
    assert_eq!(events[5].name, b"a");
    assert_eq!(events[5].end, xml.len());
    assert_eq!(events[0].end, 21);
    assert_eq!(events[1].end, 38);
    assert_eq!(attr_value_opt(&events[1], "y").as_deref(), Some("two"));
    assert_eq!(attr_value_opt(&events[1], "z"), None);
    assert!(events.iter().all(|e| e.kind != XmlEventKind::Eof));
}

#[test]
fn text_is_trimmed_only_on_request() {
    let xml = b"<a>  x  </a>\n<b> </b>";
    let trimmed = read_events(xml, true);
    assert_eq!(trimmed.len(), 5);
    assert_eq!(trimmed[1].content, b"x");
    let kept = read_events(xml, false);
    assert_eq!(kept.len(), 7);
    assert_eq!(kept[1].content, b"  x  ");
    assert_eq!(kept[3].content, b"\n");
    assert_eq!(kept[5].content, b" ");
    assert!(read_events(b"", true).is_empty());
}

#[test]
fn a_syntax_error_is_the_last_event() {
    let events = read_events(b"<a><b></a>", true);
    let last = events.last().unwrap();
    assert_eq!(last.kind, XmlEventKind::Error);
    assert!(!last.message.is_empty());
    assert!(!last.detail.is_empty());
    assert_eq!(events.iter().filter(|e| e.kind == XmlEventKind::Error).count(), 1);
    assert_eq!(event_text(b"a &bogus; b"), None);
    assert_eq!(event_text(&[0xFF, 0x41]), None);
    assert_eq!(event_text(b"&#65;&lt;").as_deref(), Some("A<"));
}

#[test]
fn relationships_resolve_by_id() {
    let xml = r#"<?xml version="1.0"?>
        <Relationships xmlns="http://schemas.openxmlformats.org/package/2006/relationships">
            <Relationship Id="rId1" Target="theme/theme1.xml" Type="http://schemas.openxmlformats.org/officeDocument/2006/relationships/theme"/>
            <Relationship Id="rId2" Target="slides/slide1.xml" Type="http://schemas.openxmlformats.org/officeDocument/2006/relationships/slide"/>
            <Relationship Id="rId3" Target="slides/slide2.xml" Type="http://schemas.openxmlformats.org/officeDocument/2006/relationships/slide"></Relationship>
            <Relationship Id="rId4" Target="no-type.xml"/>
            <Relationship Target="no-id.xml" Type="t"/>
        </Relationships>"#;
    let rels = Relationships::from_xml(xml).unwrap();
    assert_eq!(rels.len(), 3);
    assert_eq!(rels.get("rId2").unwrap().target, "slides/slide1.xml");
    assert_eq!(rels.get("rId1").unwrap().id, "rId1");
    assert!(rels.get("rId4").is_none());
    assert!(rels.get("rid2").is_none());
    let slides = rels.find_by_type(
        "http://schemas.openxmlformats.org/officeDocument/2006/relationships/slide",
    );
    let targets: Vec<&str> = slides.iter().map(|r| r.target.as_str()).collect();
    assert_eq!(targets, vec!["slides/slide1.xml", "slides/slide2.xml"]);
    assert!(rels.find_by_type("nothing").is_empty());
    assert_eq!(rels.entry(0).target, "theme/theme1.xml");
    assert_eq!(Relationships::new().len(), 0);
}

#[test]
fn a_repeated_id_keeps_the_later_relationship() {
    let xml = r#"<Relationships>
        <Relationship Id="a" Target="one" Type="t"/>
        <Relationship Id="b" Target="two" Type="t"/>
        <Relationship Id="a" Target="three" Type="u"/>
    </Relationships>"#;
    let rels = Relationships::from_xml(xml).unwrap();
    assert_eq!(rels.len(), 2);
    assert_eq!(rels.get("a").unwrap().target, "three");
    assert_eq!(rels.get("a").unwrap().rel_type, "u");
    assert_eq!(rels.entry(0).id, "a");
    assert_eq!(rels.entry(1).id, "b");
}

#[test]
fn malformed_relationships_fail() {
    let message = parse_message(Relationships::from_xml("<Relationships><a></b>"));
    assert!(message.starts_with("XML error in relationships: "), "{}", message);
    assert!(message.len() > "XML error in relationships: ".len());
}

#[test]
fn theme_colors_and_fonts() {
    let xml = r#"
        <a:theme xmlns:a="http://schemas.openxmlformats.org/drawingml/2006/main" name="Office Theme">
            <a:themeElements>
                <a:clrScheme name="Office">
                    <a:dk1><a:sysClr val="windowText" lastClr="000000"/></a:dk1>
                    <a:lt1><a:sysClr val="window"/></a:lt1>
                    <a:dk2><a:srgbClr val="44546A" lastClr="FFFFFF"/></a:dk2>
                    <a:accent1><a:srgbClr val="4472C4"/></a:accent1>
                    <a:accent2><a:schemeClr val="ignored"/></a:accent2>
                </a:clrScheme>
                <a:fontScheme name="Office">
                    <a:majorFont><a:latin typeface="Calibri Light" panose="x"></a:latin></a:majorFont>
                    <a:minorFont><a:latin typeface="Calibri"/><a:ea typeface=""/></a:minorFont>
                </a:fontScheme>
            </a:themeElements>
        </a:theme>"#;
    let theme = parse_theme(xml.as_bytes()).unwrap();
    assert_eq!(theme.name, "Office Theme");
    assert_eq!(theme.resolve_color("dk1").as_deref(), Some("000000"));
    assert_eq!(theme.resolve_color("lt1").as_deref(), Some("window"));
    assert_eq!(theme.resolve_color("dk2").as_deref(), Some("44546A"));
    assert_eq!(theme.resolve_color("accent1").as_deref(), Some("4472C4"));
    assert_eq!(theme.resolve_color("accent2"), None);
    assert_eq!(theme.resolve_color("a:dk1"), None);
    assert_eq!(theme.color_scheme.len(), 4);
    assert_eq!(theme.major_font.as_deref(), Some("Calibri Light"));
    assert_eq!(theme.minor_font.as_deref(), Some("Calibri"));
}

#[test]
fn malformed_theme_fails() {
    let message = parse_message(parse_theme(b"<a:theme><a:x></a:y>"));
    assert!(message.starts_with("XML error: "), "{}", message);
    let empty = parse_theme(b"").unwrap();
    assert_eq!(empty.name, "");
    assert_eq!(empty.color_scheme.len(), 0);
    assert!(empty.major_font.is_none());
}

#[test]
fn string_maps_keep_first_places() {
    let mut map = StrMap::new();
    map.insert("a".to_string(), "1".to_string());
    map.insert("b".to_string(), "2".to_string());
    map.insert("a".to_string(), "3".to_string());
    assert_eq!(map.len(), 2);
    assert_eq!(map.get("a").map(|s| s.as_str()), Some("3"));
    assert_eq!(map.get("b").map(|s| s.as_str()), Some("2"));
    assert!(map.get("c").is_none());
    assert!(map.contains_key("b"));
    assert!(!map.contains_key(""));
    assert_eq!(map.entry(0).key, "a");
    assert_eq!(map.entry(1).key, "b");
}

#[test]
fn styles_cascade_direct_over_named_over_default() {
    let xml = r#"<w:styles xmlns:w="x">
        <w:style w:type="paragraph" w:styleId="Heading1">
            <w:name w:val="heading 1"/>
            <w:basedOn w:val="Normal"></w:basedOn>
            <w:rPr><w:b/><w:u/><w:color w:val="2F5496"></w:color><w:sz w:val="32"></w:sz></w:rPr>
            <w:pPr><w:jc w:val="center"/></w:pPr>
        </w:style>
        <w:style w:type="character" w:styleId="Quiet">
            <w:rPr><w:i/><w:color w:val="auto"></w:color><w:sz w:val="21"></w:sz></w:rPr>
        </w:style>
    </w:styles>"#;
    let styles = Styles::from_xml(xml).unwrap();
    let heading = styles.get("Heading1").unwrap();
    assert_eq!(heading.name.as_deref(), Some("heading 1"));
    assert_eq!(heading.style_type, "paragraph");
    assert_eq!(heading.based_on.as_deref(), Some("Normal"));
    assert!(heading.text_style.bold);
    assert!(heading.text_style.underline);
    assert_eq!(heading.text_style.color.as_deref(), Some("#2F5496"));
    assert_eq!(heading.text_style.font_size, Some(1600));
    assert_eq!(heading.para_style.alignment, prism::document::TextAlignment::Center);
    let quiet = styles.get("Quiet").unwrap();
    assert_eq!(quiet.text_style.color, None);
    assert_eq!(quiet.text_style.font_size, Some(1050));
    assert!(styles.get("Normal").is_none());

    let plain = TextStyle::default();
    let resolved = styles.resolve_text_style(Some("Heading1"), &plain);
    assert!(resolved.bold);
    assert!(!resolved.italic);
    assert!(resolved.underline);
    assert_eq!(resolved.color.as_deref(), Some("#2F5496"));
    assert_eq!(resolved.font_size, Some(1600));

    let mut direct = TextStyle::default();
    direct.italic = true;
    direct.underline = true;
    direct.color = Some("#FF0000".to_string());
    direct.font_family = Some("Arial".to_string());
    let resolved = styles.resolve_text_style(Some("Heading1"), &direct);
    assert!(resolved.bold);
    assert!(resolved.italic);
    assert!(resolved.underline);
    assert_eq!(resolved.color.as_deref(), Some("#FF0000"));
    assert_eq!(resolved.font_size, Some(1600));
    assert_eq!(resolved.font_family.as_deref(), Some("Arial"));

    let unknown = styles.resolve_text_style(Some("Missing"), &direct);
    assert!(!unknown.bold);
    assert_eq!(unknown.font_size, None);
    let none = Styles::new().resolve_text_style(None, &plain);
    assert!(!none.bold && !none.italic && !none.underline && !none.strikethrough);
    assert!(none.color.is_none() && none.font_family.is_none() && none.background_color.is_none());
}

#[test]
fn malformed_styles_fail() {
    let message = parse_message(Styles::from_xml("<w:styles><w:style></w:styles>"));
    assert!(message.starts_with("XML error in styles: "), "{}", message);
}
