use rusty_gadgets::convert::convert;
use rusty_gadgets::normalize::normalize_ipa;
use rusty_gadgets::runes::{fmt_rune, map_token, Rune, RuneChar, Tradition};
use rusty_gadgets::tokenize::{ipa_token_rules, tokenize_ipa, tokenize_with, TokenRule};

fn texts(v: &[String]) -> Vec<&str> {
    v.iter().map(|s| s.as_str()).collect()
}

#[test]
fn delimited_word_is_fully_mapped() {
    let r = convert("/nat/");
    assert_eq!(r.normalized, "nat");
    let toks: Vec<&str> = r.steps.iter().map(|s| s.token.as_str()).collect();
    assert_eq!(toks, vec!["n", "a", "t"]);
    assert_eq!(r.runes, vec![Rune::Nyd, Rune::Ac, Rune::Tir]);
    assert_eq!(r.rendered, "ᚾ ᚪ ᛏ");
    assert!(r.unmapped.is_empty());
    assert!(r.is_complete());
}

#[test]
fn diphthong_then_consonant_gives_two_tokens() {
    assert_eq!(tokenize_ipa("aɪt"), vec!["aɪ".to_string(), "t".to_string()]);
    let r = convert("/naɪt/");
    assert_eq!(r.steps.len(), 3);
    assert_eq!(r.rendered, "ᚾ ᚪ ᛁ ᛏ");
}

#[test]
fn unknown_symbol_is_listed_and_omitted() {
    let r = convert("nqt");
    assert_eq!(texts(&r.unmapped), vec!["q"]);
    assert_eq!(r.rendered, "ᚾ ᛏ");
    assert_eq!(r.runes, vec![Rune::Nyd, Rune::Tir]);
    assert!(r.steps[1].mapping.is_none());
    assert!(!r.is_complete());
}

#[test]
fn empty_input_gives_empty_result() {
    let r = convert("");
    assert_eq!(r.normalized, "");
    assert!(r.steps.is_empty());
    assert!(r.runes.is_empty());
    assert!(r.unmapped.is_empty());
    assert_eq!(r.rendered, "");
}

#[test]
fn stress_marks_and_spaces_are_removed() {
    let a = convert("ˈn a\tˌt");
    let b = convert("nat");
    assert_eq!(a.normalized, "nat");
    assert_eq!(a.rendered, b.rendered);
    let toks: Vec<&str> = a.steps.iter().map(|s| s.token.as_str()).collect();
    assert_eq!(toks, vec!["n", "a", "t"]);
}

#[test]
fn tokens_concatenate_to_normalized_input() {
    for input in ["tʃɜːtʃ", "/ˈdʒʌdʒ/", "boʊt xyz", "ʤɔɪ", ""] {
        let n = normalize_ipa(input);
        let toks = tokenize_ipa(&n);
        assert_eq!(toks.concat(), n);
        assert!(toks.iter().all(|t| !t.is_empty()));
    }
}

#[test]
fn conversion_is_deterministic() {
    let a = convert("/tʃɜːtʃ/");
    let b = convert("/tʃɜːtʃ/");
    assert_eq!(a.normalized, b.normalized);
    assert_eq!(a.runes, b.runes);
    assert_eq!(a.unmapped, b.unmapped);
    assert_eq!(a.rendered, b.rendered);
    assert_eq!(a.steps.len(), b.steps.len());
    for (x, y) in a.steps.iter().zip(b.steps.iter()) {
        assert_eq!(x.token, y.token);
        assert_eq!(x.rule, y.rule);
        assert_eq!(x.mapping.as_ref().map(|m| m.rationale), y.mapping.as_ref().map(|m| m.rationale));
    }
}

#[test]
fn earlier_rule_wins_over_later_one() {
    let short_first = vec![
        TokenRule { ipa: "a", desc: "single" },
        TokenRule { ipa: "ab", desc: "pair" },
    ];
    let toks = tokenize_with(&short_first, "ab");
    let t: Vec<&str> = toks.iter().map(|t| t.text.as_str()).collect();
    assert_eq!(t, vec!["a", "b"]);
    assert_eq!(toks[0].rule, Some(0));
    assert_eq!(toks[1].rule, None);

    let long_first = vec![
        TokenRule { ipa: "ab", desc: "pair" },
        TokenRule { ipa: "a", desc: "single" },
    ];
    let toks = tokenize_with(&long_first, "ab");
    assert_eq!(toks.len(), 1);
    assert_eq!(toks[0].text, "ab");
    assert_eq!(toks[0].rule, Some(0));
}

#[test]
fn ipa_table_puts_affricate_before_fricative() {
    let rules = ipa_token_rules();
    assert_eq!(rules.len(), 14);
    assert_eq!(rules[0].ipa, "tʃ");
    assert_eq!(rules[13].ipa, "ː");
    let toks = tokenize_with(&rules, "tʃʃ");
    assert_eq!(toks[0].text, "tʃ");
    assert_eq!(toks[0].rule, Some(0));
    assert_eq!(toks[1].text, "ʃ");
    assert_eq!(toks[1].rule, Some(11));
}

#[test]
fn normalizing_twice_changes_nothing() {
    for input in ["/ˈnaɪt/", "  tʃ ɜː tʃ! ", "[a.b]", "x\u{3000}y", "/"] {
        let once = normalize_ipa(input);
        assert_eq!(normalize_ipa(&once), once);
    }
}

#[test]
fn normalization_keeps_unknown_characters() {
    assert_eq!(normalize_ipa("/ˈnaɪt/"), "naɪt");
    assert_eq!(normalize_ipa("a,b;c"), "abc");
    assert_eq!(normalize_ipa("/nat"), "nat");
    assert_eq!(normalize_ipa("ɜ\u{a0}x"), "ɜx");
}

#[test]
fn one_unmapped_among_known_tokens() {
    let r = convert("/bɜt/");
    assert_eq!(texts(&r.unmapped), vec!["ɜ"]);
    assert_eq!(r.runes, vec![Rune::Beorc, Rune::Tir]);
    assert!(r.steps[0].mapping.is_some());
    assert!(r.steps[1].mapping.is_none());
    assert!(r.steps[2].mapping.is_some());
}

#[test]
fn token_lookup() {
    let m = map_token("tʃ").unwrap();
    assert_eq!(m.runes, vec![Rune::Cen, Rune::Sh]);
    let m = map_token("ʤ").unwrap();
    assert_eq!(m.runes, vec![Rune::Daeg, Rune::Sh]);
    let m = map_token("ː").unwrap();
    assert!(m.runes.is_empty());
    let m = map_token("p").unwrap();
    assert_eq!(m.rationale, "/p/ -> PEORTH (p).");
    assert!(map_token("x").is_none());
    assert!(map_token("").is_none());
    assert!(map_token("abc").is_none());
}

#[test]
fn length_marker_yields_no_runes() {
    let r = convert("aː");
    assert_eq!(r.runes, vec![Rune::Ac]);
    assert!(r.unmapped.is_empty());
    assert_eq!(r.steps.len(), 2);
}

#[test]
fn rune_metadata() {
    assert_eq!(Rune::Feoh.glyph(), 'ᚠ');
    assert_eq!(Rune::Feoh.codepoint(), 0x16A0);
    assert_eq!(Rune::Sh.codepoint(), 0x16F2);
    assert_eq!(Rune::Sh.tradition(), Tradition::Approximation);
    let info = Rune::Ethel.info();
    assert_eq!(info.ch, 'ᛟ');
    assert_eq!(info.codepoint, 0x16DF);
    assert_eq!(info.name, "ethel (othalan)");
    assert_eq!(info.tradition, Tradition::AngloSaxonExtension);
}

#[test]
fn rune_trace_line() {
    let r = RuneChar::new('ᚠ', 0x16A0, "feoh (fehu)", Tradition::FuthorcCore);
    assert_eq!(fmt_rune(&r), "ᚠ\t(U+16A0  feoh (fehu)          / FuthorcCore)");
    let small = RuneChar::new('a', 0x61, "a-long-name-over-twenty-chars", Tradition::Approximation);
    assert_eq!(fmt_rune(&small), "a\t(U+0061  a-long-name-over-twenty-chars / Approximation)");
    let big = RuneChar::new('\u{13000}', 0x13000, "x", Tradition::ScandinavianVariant);
    assert_eq!(
        fmt_rune(&big),
        format!("\u{13000}\t(U+13000  {:20} / ScandinavianVariant)", "x")
    );
}
