use rusty_gadgets::layout::{
    compute_center_box, message_lines, normalize_message, place_message, rain_shade, DropColumn,
    Rect, Shade,
};
use rusty_gadgets::termfx::gradient_color;
use rusty_gadgets::numeric::{euler_phi_u64, mul_mod_u64, multiplicative_order_mod_u64};
use rusty_gadgets::signlist::is_format_control;
use rusty_gadgets::unicode_blocks::UnicodeBlock;

#[test]
fn mul_mod_does_not_overflow() {
    assert_eq!(mul_mod_u64(7, 8, 5), 1);
    let m = 1_000_000_007u64;
    let expected = ((u64::MAX as u128 * u64::MAX as u128) % m as u128) as u64;
    assert_eq!(mul_mod_u64(u64::MAX, u64::MAX, m), expected);
    assert_eq!(mul_mod_u64(3, 4, 1), 0);
}

#[test]
fn totient_values() {
    assert_eq!(euler_phi_u64(0), 0);
    assert_eq!(euler_phi_u64(1), 1);
    assert_eq!(euler_phi_u64(2), 1);
    assert_eq!(euler_phi_u64(13), 12);
    assert_eq!(euler_phi_u64(36), 12);
    assert_eq!(euler_phi_u64(97 * 89), 96 * 88);
    assert_eq!(euler_phi_u64(1024), 512);
}

#[test]
fn multiplicative_order_values() {
    assert_eq!(multiplicative_order_mod_u64(2, 7, 10), 3);
    assert_eq!(multiplicative_order_mod_u64(9, 7, 10), 3);
    assert_eq!(multiplicative_order_mod_u64(14, 7, 10), 0);
    assert_eq!(multiplicative_order_mod_u64(3, 7, 4), 5);
    assert_eq!(multiplicative_order_mod_u64(3, 7, 6), 6);
    assert_eq!(multiplicative_order_mod_u64(5, 1, 3), 0);
}

#[test]
fn rect_contains_cells() {
    let r = Rect { x: 2, y: 3, w: 4, h: 2 };
    assert!(r.contains(2, 3));
    assert!(r.contains(5, 4));
    assert!(!r.contains(6, 4));
    assert!(!r.contains(2, 5));
    assert!(!r.contains(1, 3));
    let edge = Rect { x: 65534, y: 0, w: 10, h: 1 };
    assert!(edge.contains(65534, 0));
    assert!(!edge.contains(65535, 0));
}

#[test]
fn center_box_in_terminal() {
    assert_eq!(compute_center_box(80, 24, "hello"), Rect { x: 32, y: 7, w: 16, h: 9 });
    let long = "x".repeat(30);
    assert_eq!(compute_center_box(80, 24, &long), Rect { x: 23, y: 7, w: 34, h: 9 });
    assert_eq!(compute_center_box(20, 3, "hello"), Rect { x: 2, y: 0, w: 16, h: 4 });
    assert_eq!(compute_center_box(4, 4, ""), Rect { x: 0, y: 0, w: 4, h: 4 });
}

#[test]
fn message_lines_follow_str_lines() {
    for s in ["a\r\nb\n", "", "\n", "a\rb", "x\n\ny", "a\r", "tail\r\n\r\n"] {
        let got = message_lines(s);
        let want: Vec<String> = s.lines().map(|l| l.to_string()).collect();
        assert_eq!(got, want, "input {:?}", s);
    }
}

#[test]
fn message_escapes_and_trailing_space() {
    assert_eq!(normalize_message("UMRS\\n\\nHello  \n"), "UMRS\n\nHello");
    assert_eq!(normalize_message("a\\\\nb"), "a\\\nb");
    assert_eq!(normalize_message("   "), "");
    assert_eq!(normalize_message("\\"), "\\");
}

#[test]
fn format_controls() {
    assert!(is_format_control("EGYPTIAN HIEROGLYPH VERTICAL JOINER", "H"));
    assert!(is_format_control("EGYPTIAN HIEROGLYPH BEGIN SEGMENT", "H"));
    assert!(!is_format_control("EGYPTIAN HIEROGLYPH VERTICAL JOINER", "A"));
    assert!(!is_format_control("EGYPTIAN HIEROGLYPH H001", "H"));
    assert!(!is_format_control("", "H"));
    assert!(!is_format_control("BLANK", "HH"));
}

#[test]
fn block_rows_and_cells() {
    let b = UnicodeBlock { name: "Runic", start: 0x16A0, end: 0x16FF };
    assert_eq!(b.row_count(), 6);
    assert_eq!(b.row_starts(), vec![0x16A0, 0x16B0, 0x16C0, 0x16D0, 0x16E0, 0x16F0]);
    let cells = b.glyph_cells();
    assert_eq!(cells.len(), 96);
    assert_eq!(cells[0], Some('ᚠ'));
    let one = UnicodeBlock { name: "one", start: 5, end: 5 };
    assert_eq!(one.row_count(), 1);
    assert_eq!(one.glyph_cells(), vec![Some('\u{5}')]);
}

#[test]
fn surrogates_have_no_glyph() {
    let b = UnicodeBlock { name: "edge", start: 0xD7FF, end: 0xE000 };
    let cells = b.glyph_cells();
    assert_eq!(cells.len(), 0xE000 - 0xD7FF + 1);
    assert_eq!(cells[0], Some('\u{D7FF}'));
    assert!(cells[1..cells.len() - 1].iter().all(|c| c.is_none()));
    assert_eq!(cells[cells.len() - 1], Some('\u{E000}'));
    assert_eq!(b.row_count(), 129);
}

#[test]
fn message_is_centred_in_box() {
    let r = compute_center_box(80, 3, "hello");
    assert_eq!(r, Rect { x: 32, y: 0, w: 16, h: 4 });
    let p = place_message(r, 24, "hello");
    assert_eq!(p.len(), 1);
    assert_eq!((p[0].x, p[0].y, p[0].text.as_str()), (37, 2, "hello"));
    let p = place_message(r, 24, "abcdefghijklmnop");
    assert_eq!((p[0].x, p[0].y, p[0].text.as_str()), (34, 2, "abcdefghijkl"));
    assert!(place_message(r, 2, "a\nb").is_empty());
    let p = place_message(r, 4, "a\nb\nc");
    let got: Vec<(u16, u16, &str)> = p.iter().map(|q| (q.x, q.y, q.text.as_str())).collect();
    assert_eq!(got, vec![(39, 2, "a"), (39, 3, "b")]);
    let tall = Rect { x: 0, y: 0, w: 20, h: 12 };
    let p = place_message(tall, 100, "x\ny");
    let got: Vec<(u16, u16)> = p.iter().map(|q| (q.x, q.y)).collect();
    assert_eq!(got, vec![(9, 5), (9, 6)]);
}

#[test]
fn rain_columns_fall() {
    let mut rng = rand::thread_rng();
    let mut c = DropColumn { head_y: -5, speed: 2, length: 10 };
    c.step(&mut rng, 20);
    assert_eq!(c, DropColumn { head_y: -3, speed: 2, length: 10 });
    let mut c = DropColumn { head_y: 27, speed: 3, length: 10 };
    c.step(&mut rng, 20);
    assert_eq!(c.head_y, 30);
    c.step(&mut rng, 20);
    assert!((-20..=-1).contains(&c.head_y));
    assert!((1..=3).contains(&c.speed));
    assert!((10..=12).contains(&c.length));
}

#[test]
fn fresh_columns_in_range() {
    let mut rng = rand::thread_rng();
    for _ in 0..200 {
        let c = DropColumn::new(&mut rng, 40);
        assert!((-40..=-1).contains(&c.head_y));
        assert!((1..=3).contains(&c.speed));
        assert!((10..=20).contains(&c.length));
        let d = DropColumn::new(&mut rng, 1);
        assert_eq!(d.head_y, -1);
        assert!((10..=12).contains(&d.length));
    }
}

#[test]
fn banner_gradient_colours() {
    assert_eq!(gradient_color(0, 10), (150, 255, 150));
    assert_eq!(gradient_color(6, 10), (150, 255, 150));
    assert_eq!(gradient_color(8, 10), (75, 148, 75));
    assert_eq!(gradient_color(9, 10), (38, 94, 38));
    assert_eq!(gradient_color(59, 60), (7, 49, 7));
}

#[test]
fn rain_trail_shades() {
    assert_eq!(rain_shade(-1), Shade::Bright);
    assert_eq!(rain_shade(0), Shade::Bright);
    assert_eq!(rain_shade(1), Shade::Green);
    assert_eq!(rain_shade(2), Shade::Green);
    assert_eq!(rain_shade(3), Shade::DarkGreen);
    assert_eq!(rain_shade(6), Shade::DarkGreen);
    assert_eq!(rain_shade(7), Shade::Dim);
}
