use rusty_gadgets::signlist::{
    hex_u32, parse_jsesh, parse_names_line, words, JseshState,
};

fn cs(s: &str) -> Vec<char> {
    s.chars().collect()
}

#[test]
fn hex_reads_like_from_str_radix() {
    for s in ["13000", "+1f", "FFFFFFFF", "100000000", "", "+", "-1", "xyz", "0000000001"] {
        assert_eq!(hex_u32(&cs(s)), u32::from_str_radix(s, 16).ok(), "input {:?}", s);
    }
}

#[test]
fn words_split_on_white_space() {
    let w: Vec<String> = words(&cs("  13000\tEGYPTIAN  HIEROGLYPH A001 ")).iter().map(|w| w.iter().collect()).collect();
    assert_eq!(w, vec!["13000", "EGYPTIAN", "HIEROGLYPH", "A001"]);
    assert!(words(&cs(" \u{3000} ")).is_empty());
}

#[test]
fn names_line_record() {
    let r = parse_names_line("13000\tEGYPTIAN HIEROGLYPH A001").unwrap().unwrap();
    assert_eq!(r.unicode_point, "U+13000");
    assert_eq!(r.codepoint_hex, "13000");
    assert_eq!(r.codepoint_dec, 77824);
    assert_eq!(r.glyph, "\u{13000}");
    assert_eq!(r.unicode_name, "EGYPTIAN HIEROGLYPH A001");
    assert_eq!(r.unicode_id, "A001");
    assert_eq!(r.family, "A");
    assert!(!r.is_format_control);
}

#[test]
fn names_line_format_control() {
    let r = parse_names_line("13430\tEGYPTIAN HIEROGLYPH VERTICAL JOINER H").unwrap().unwrap();
    assert_eq!(r.unicode_id, "H");
    assert_eq!(r.family, "H");
    assert!(r.is_format_control);
}

#[test]
fn names_line_skipped_or_rejected() {
    assert!(parse_names_line("0041\tLATIN CAPITAL LETTER A").unwrap().is_none());
    assert!(parse_names_line("").unwrap().is_none());
    let e = parse_names_line("ZZZZ\tEGYPTIAN HIEROGLYPH A001").unwrap_err();
    assert_eq!(e.text, "ZZZZ");
    let s = parse_names_line("D800\tEGYPTIAN HIEROGLYPH X1").unwrap().unwrap();
    assert_eq!(s.glyph, "\u{FFFD}");
}

#[test]
fn jsesh_list_is_read() {
    let text = "A family\nMan and his occupations\n1 A1\n2 A2\n\n  B family  \nWoman\n3 B1\n4 _x\nno-space\n";
    let signs = parse_jsesh(text);
    let got: Vec<(&str, &str, &str)> = signs
        .iter()
        .map(|s| (s.family.as_str(), s.family_name.as_str(), s.jsesh_code.as_str()))
        .collect();
    assert_eq!(
        got,
        vec![
            ("A", "Man and his occupations", "A1"),
            ("A", "Man and his occupations", "A2"),
            ("B", "Woman", "B1"),
        ]
    );
}

#[test]
fn jsesh_signs_need_a_named_family() {
    assert!(parse_jsesh("1 A1\nA family\n").is_empty());
    assert!(parse_jsesh("").is_empty());
}

#[test]
fn jsesh_state_steps() {
    let mut st = JseshState::new();
    assert!(st.accept("Aa family", false).is_none());
    assert_eq!(st.family.as_deref(), Some("Aa"));
    assert!(st.awaiting_name);
    assert!(st.accept("Unclassified", true).is_none());
    assert_eq!(st.family_name.as_deref(), Some("Unclassified"));
    assert!(st.accept("7 Aa1", false).is_none());
    let s = st.accept("7 Aa1", true).unwrap();
    assert_eq!(s.family, "Aa");
    assert_eq!(s.family_name, "Unclassified");
    assert_eq!(s.jsesh_code, "Aa1");
}
