use pdftext::cmap::{parse_cmap, tokenize, CMap, CMapToken};
use pdftext::content::{
    add_primitive, extract_text, operator_kind, read_page, Font, FontEncoding, FontInfo,
    GraphicsState, NamedFont, OpKind, Operand, Operation, Page, PageError,
};
use pdftext::utf16::utf16be_to_chars;

fn chars(s: &str) -> Vec<char> {
    s.chars().collect()
}

fn text_of(m: &CMap, code: u16) -> Option<String> {
    m.get(code).map(|v| v.iter().collect())
}

fn cmap_stream(body: &str) -> Vec<u8> {
    format!(
        "/CIDInit /ProcSet findresource begin\n12 dict begin\nbegincmap\n\
         /CIDSystemInfo << /Registry (Adobe) /Ordering (UCS) /Supplement 0 >> def\n\
         /CMapName /Adobe-Identity-UCS def\n1 begincodespacerange\n<0000> <FFFF>\n\
         endcodespacerange\n{}\nendcmap\nCMapName currentdict /CMap defineresource pop\nend\nend\n",
        body
    )
    .into_bytes()
}

fn font(name: &str, encoding: Option<FontEncoding>, cmap_body: Option<&str>) -> Font {
    Font {
        name: name.to_string(),
        encoding,
        to_unicode: cmap_body.map(cmap_stream),
    }
}

fn op(operator: &str, operands: Vec<Operand>) -> Operation {
    Operation { operator: operator.to_string(), operands }
}

fn name(n: &str) -> Operand {
    Operand::Name(n.to_string())
}

fn string(b: &[u8]) -> Operand {
    Operand::Str(b.to_vec())
}

fn page(fonts: Vec<(&str, Font)>, operations: Vec<Operation>) -> Page {
    Page {
        fonts: fonts
            .into_iter()
            .map(|(n, f)| NamedFont { name: n.to_string(), font: f })
            .collect(),
        graphics_states: Vec::new(),
        operations,
    }
}

fn info(encoding: Option<FontEncoding>, body: &str) -> FontInfo {
    FontInfo { encoding, cmap: parse_cmap(&cmap_stream(body)) }
}

fn page_string(p: &Page) -> String {
    read_page(p).unwrap().iter().collect()
}

#[test]
fn bfchar_maps_code_to_text() {
    let m = parse_cmap(&cmap_stream("1 beginbfchar\n<0041> <0041>\nendbfchar"));
    assert_eq!(text_of(&m, 0x0041), Some("A".to_string()));
    assert_eq!(text_of(&m, 0x0042), None);
}

#[test]
fn bfrange_single_string_increments_last_byte() {
    let m = parse_cmap(&cmap_stream("1 beginbfrange\n<0041> <0043> <0041>\nendbfrange"));
    assert_eq!(text_of(&m, 0x0041), Some("A".to_string()));
    assert_eq!(text_of(&m, 0x0042), Some("B".to_string()));
    assert_eq!(text_of(&m, 0x0043), Some("C".to_string()));
    assert_eq!(text_of(&m, 0x0044), None);
    assert_eq!(text_of(&m, 0x0040), None);
}

#[test]
fn bfrange_array_form_decodes_each_entry() {
    let m = parse_cmap(&cmap_stream(
        "1 beginbfrange\n<0041> <0043> [<0041> <0042> <0043>]\nendbfrange",
    ));
    assert_eq!(text_of(&m, 0x0041), Some("A".to_string()));
    assert_eq!(text_of(&m, 0x0042), Some("B".to_string()));
    assert_eq!(text_of(&m, 0x0043), Some("C".to_string()));
    assert_eq!(text_of(&m, 0x0044), None);
}

#[test]
fn bfrange_array_form_entries_are_independent() {
    let m = parse_cmap(&cmap_stream(
        "1 beginbfrange\n<0010> <0012> [<0058> <00660066> <0041>]\nendbfrange",
    ));
    assert_eq!(text_of(&m, 0x0010), Some("X".to_string()));
    assert_eq!(text_of(&m, 0x0011), Some("ff".to_string()));
    assert_eq!(text_of(&m, 0x0012), Some("A".to_string()));
}

#[test]
fn bfrange_increment_does_not_carry() {
    let m = parse_cmap(&cmap_stream("1 beginbfrange\n<0001> <0002> <00FF>\nendbfrange"));
    assert_eq!(text_of(&m, 0x0001), Some("\u{FF}".to_string()));
    assert_eq!(text_of(&m, 0x0002), Some("\u{0}".to_string()));
}

#[test]
fn bfrange_with_end_before_start_maps_nothing() {
    let m = parse_cmap(&cmap_stream("1 beginbfrange\n<0043> <0041> <0041>\nendbfrange"));
    assert!(m.mappings.is_empty());
}

#[test]
fn later_mapping_of_a_code_wins() {
    let m = parse_cmap(&cmap_stream(
        "2 beginbfchar\n<0041> <0041>\n<0041> <0042>\nendbfchar",
    ));
    assert_eq!(text_of(&m, 0x0041), Some("B".to_string()));
}

#[test]
fn mappings_after_endcmap_are_ignored() {
    let m = parse_cmap(b"endcmap 1 beginbfchar <0041> <0041> endbfchar");
    assert!(m.mappings.is_empty());
}

#[test]
fn malformed_pair_ends_block_without_error() {
    let m = parse_cmap(&cmap_stream(
        "2 beginbfchar\n<0041> <0041>\n/Oops 3\n<0042> <0042>\nendbfchar\n\
         1 beginbfchar\n<0043> <0043>\nendbfchar",
    ));
    assert_eq!(text_of(&m, 0x0041), Some("A".to_string()));
    assert_eq!(text_of(&m, 0x0042), None);
    assert_eq!(text_of(&m, 0x0043), Some("C".to_string()));
}

#[test]
fn block_after_bfrange_block_is_parsed() {
    let m = parse_cmap(b"1 beginbfrange <0041> <0041> <0041> endbfrange \
        1 beginbfchar <0042> <0042> endbfchar endcmap");
    assert_eq!(text_of(&m, 0x0041), Some("A".to_string()));
    assert_eq!(text_of(&m, 0x0042), Some("B".to_string()));
}

#[test]
fn consecutive_bfrange_blocks_are_parsed() {
    let m = parse_cmap(&cmap_stream(
        "1 beginbfrange\n<0041> <0042> <0041>\nendbfrange\n\
         1 beginbfrange\n<0061> <0061> [<0078>]\nendbfrange",
    ));
    assert_eq!(text_of(&m, 0x0042), Some("B".to_string()));
    assert_eq!(text_of(&m, 0x0061), Some("x".to_string()));
}

#[test]
fn nothing_after_endcmap_is_read() {
    let m = parse_cmap(b"1 beginbfchar <0041> <0041> endbfchar endcmap \
        1 beginbfchar <0042> <0042> endbfchar");
    assert_eq!(m.mappings.len(), 1);
    assert_eq!(text_of(&m, 0x0041), Some("A".to_string()));
    assert_eq!(text_of(&m, 0x0042), None);
}

#[test]
fn tokenizer_reads_hex_words_arrays_and_skips_comments() {
    let t = tokenize(b"% comment <0041>\n/Name [<4 1> <A>] <<");
    assert_eq!(t.len(), 6);
    assert!(matches!(&t[0], CMapToken::Word(w) if w.as_slice() == b"/Name"));
    assert!(matches!(&t[1], CMapToken::Open));
    assert!(matches!(&t[2], CMapToken::Hex(h) if h.as_slice() == [0x41]));
    assert!(matches!(&t[3], CMapToken::Hex(h) if h.as_slice() == [0xA0]));
    assert!(matches!(&t[4], CMapToken::Close));
    assert!(matches!(&t[5], CMapToken::Delim));
}

#[test]
fn utf16be_decodes_pairs_and_replaces_bad_units() {
    assert_eq!(utf16be_to_chars(&[0x00, 0x41, 0x00, 0xE9]), chars("Aé"));
    assert_eq!(utf16be_to_chars(&[0xD8, 0x3D, 0xDE, 0x00]), chars("\u{1F600}"));
    assert_eq!(utf16be_to_chars(&[0xDC, 0x00, 0x00, 0x41]), chars("\u{FFFD}A"));
    assert_eq!(utf16be_to_chars(&[0x00, 0x41, 0x42]), chars("A\u{FFFD}"));
    assert_eq!(utf16be_to_chars(&[]), chars(""));
}

#[test]
fn identity_h_decodes_codes_and_ends_line() {
    let f = info(Some(FontEncoding::IdentityH), "1 beginbfchar\n<0041> <0041>\nendbfchar");
    assert_eq!(add_primitive(&string(&[0x00, 0x41]), &f), chars("A\n"));
}

#[test]
fn identity_h_skips_unmapped_codes() {
    let f = info(Some(FontEncoding::IdentityH), "1 beginbfchar\n<0041> <0041>\nendbfchar");
    assert_eq!(add_primitive(&string(&[0x00, 0x42, 0x00, 0x41, 0x07]), &f), chars("A\n"));
    assert_eq!(add_primitive(&string(&[]), &f), chars("\n"));
}

#[test]
fn single_byte_falls_back_to_byte_value() {
    let f = info(Some(FontEncoding::Other), "1 beginbfchar\n<0041> <0058>\nendbfchar");
    assert_eq!(add_primitive(&string(&[0x42]), &f), chars("B"));
    assert_eq!(add_primitive(&string(&[0x41, 0x42, 0xE9]), &f), chars("XBé"));
}

#[test]
fn font_without_encoding_drops_text() {
    let f = info(None, "1 beginbfchar\n<0041> <0041>\nendbfchar");
    assert_eq!(add_primitive(&string(&[0x41]), &f), chars(""));
}

#[test]
fn arrays_are_walked_in_order() {
    let f = info(Some(FontEncoding::Other), "");
    let nested = Operand::Array(vec![
        string(b"ab"),
        Operand::Other,
        Operand::Array(vec![string(b"c"), name("x")]),
        string(b"d"),
    ]);
    assert_eq!(add_primitive(&nested, &f), chars("abcd"));
}

#[test]
fn operators_are_classified() {
    assert_eq!(operator_kind(&"gs".to_string()), OpKind::SetGraphicsState);
    assert_eq!(operator_kind(&"Tf".to_string()), OpKind::SetFont);
    assert_eq!(operator_kind(&"TJ".to_string()), OpKind::ShowText);
    assert_eq!(operator_kind(&"BT".to_string()), OpKind::ShowText);
    assert_eq!(operator_kind(&"T*".to_string()), OpKind::NextLine);
    assert_eq!(operator_kind(&"Tm".to_string()), OpKind::Ignored);
}

#[test]
fn font_switch_decodes_each_run_with_its_font() {
    let p = page(
        vec![
            ("F1", font("FontOne", Some(FontEncoding::Other), Some("1 beginbfchar\n<0041> <0058>\nendbfchar"))),
            ("F2", font("FontTwo", Some(FontEncoding::Other), Some("1 beginbfchar\n<0041> <0059>\nendbfchar"))),
        ],
        vec![
            op("Tf", vec![name("F1"), Operand::Other]),
            op("Tj", vec![string(b"A")]),
            op("Tf", vec![name("F2"), Operand::Other]),
            op("Tj", vec![string(b"A")]),
        ],
    );
    assert_eq!(page_string(&p), "XY");
}

#[test]
fn text_before_any_font_is_dropped() {
    let p = page(
        vec![("F1", font("FontOne", Some(FontEncoding::Other), Some("")))],
        vec![
            op("BT", vec![]),
            op("Tj", vec![string(b"lost")]),
            op("TJ", vec![Operand::Array(vec![string(b"lost")])]),
            op("Tf", vec![name("F1")]),
            op("Tj", vec![string(b"kept")]),
        ],
    );
    assert_eq!(page_string(&p), "kept");
}

#[test]
fn line_operators_add_newlines_without_font() {
    let p = page(vec![], vec![op("Td", vec![]), op("TD", vec![]), op("T*", vec![])]);
    assert_eq!(page_string(&p), "\n\n\n");
}

#[test]
fn unknown_font_name_clears_current_font() {
    let p = page(
        vec![("F1", font("FontOne", Some(FontEncoding::Other), Some("")))],
        vec![
            op("Tf", vec![name("F1")]),
            op("Tj", vec![string(b"a")]),
            op("Tf", vec![name("F9")]),
            op("Tj", vec![string(b"b")]),
        ],
    );
    assert_eq!(page_string(&p), "a");
}

#[test]
fn font_without_to_unicode_is_not_cached() {
    let p = page(
        vec![("F1", font("FontOne", Some(FontEncoding::Other), None))],
        vec![op("Tf", vec![name("F1")]), op("Tj", vec![string(b"a")])],
    );
    assert_eq!(page_string(&p), "");
}

#[test]
fn graphics_state_selects_font_by_its_own_name() {
    let mut p = page(
        vec![],
        vec![op("gs", vec![name("GS1")]), op("Tj", vec![string(b"A")])],
    );
    p.graphics_states.push(GraphicsState {
        name: "GS1".to_string(),
        font: Some(font("Helv", Some(FontEncoding::Other), Some("1 beginbfchar\n<0041> <005A>\nendbfchar"))),
    });
    assert_eq!(page_string(&p), "Z");
}

#[test]
fn graphics_state_without_font_keeps_current_font() {
    let mut p = page(
        vec![("F1", font("FontOne", Some(FontEncoding::Other), Some("")))],
        vec![
            op("Tf", vec![name("F1")]),
            op("gs", vec![name("GS1")]),
            op("Tj", vec![string(b"a")]),
        ],
    );
    p.graphics_states.push(GraphicsState { name: "GS1".to_string(), font: None });
    assert_eq!(page_string(&p), "a");
}

#[test]
fn unknown_graphics_state_fails_the_page() {
    let p = page(vec![], vec![op("gs", vec![name("GS9")])]);
    assert_eq!(read_page(&p), Err(PageError::UnknownGraphicsState));
}

#[test]
fn font_operator_without_name_fails_the_page() {
    let p = page(vec![], vec![op("Tf", vec![Operand::Other])]);
    assert_eq!(read_page(&p), Err(PageError::MissingOperand));
    let q = page(vec![], vec![op("gs", vec![])]);
    assert_eq!(read_page(&q), Err(PageError::MissingOperand));
}

fn hello_page(word: &str) -> Page {
    page(
        vec![("F1", font("FontOne", Some(FontEncoding::Other), Some("")))],
        vec![
            op("Tf", vec![name("F1")]),
            op("Tj", vec![string(word.as_bytes())]),
            op("Td", vec![]),
        ],
    )
}

#[test]
fn pages_are_concatenated_in_order() {
    let r = extract_text(&vec![hello_page("Hello"), hello_page("World")]);
    assert_eq!(r.text, "Hello\nWorld\n");
    assert!(r.failed_pages.is_empty());
}

#[test]
fn failing_page_is_skipped_and_reported() {
    let bad = page(vec![], vec![op("gs", vec![name("Missing")])]);
    let r = extract_text(&vec![hello_page("Hello"), bad, hello_page("World")]);
    assert_eq!(r.text, "Hello\nWorld\n");
    assert_eq!(r.failed_pages, vec![(1, PageError::UnknownGraphicsState)]);
}

#[test]
fn empty_document_has_no_text() {
    let r = extract_text(&vec![]);
    assert_eq!(r.text, "");
    assert!(r.failed_pages.is_empty());
}
