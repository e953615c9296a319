use rusty_gadgets::ansi;
use rusty_gadgets::spinner::Spinner;
use rusty_gadgets::termfx::{
    box_message, heading, kv_block, paint, progress_bar_fill, rule, scramble_line, settled_line,
    stage, status_err, status_info, status_ok, status_warn,
};

#[test]
fn paint_wraps_in_style_and_reset() {
    assert_eq!(paint("hi", ansi::FG_RED), "\x1b[31mhi\x1b[0m");
    assert_eq!(paint("", ""), "\x1b[0m");
}

#[test]
fn heading_underline_is_at_least_three() {
    assert_eq!(heading("Hi"), "\x1b[1mHi\x1b[0m\n───\n");
    assert_eq!(heading("Title"), "\x1b[1mTitle\x1b[0m\n─────\n");
    assert_eq!(heading("ᚠᚢᚦᚩ"), "\x1b[1mᚠᚢᚦᚩ\x1b[0m\n────\n");
}

#[test]
fn box_around_title_and_body() {
    let b = box_message("Plan", &["one", "two lines"]);
    let expected = "┌────────────┐\n\
                    │ \x1b[1mPlan\x1b[0m       │\n\
                    │ one        │\n\
                    │ two lines  │\n\
                    └────────────┘\n";
    assert_eq!(b, expected);
}

#[test]
fn box_grows_with_longest_line() {
    let b = box_message("T", &["a line of fifteen"]);
    let lines: Vec<&str> = b.lines().collect();
    assert_eq!(lines.len(), 4);
    assert_eq!(lines[0], format!("┌{}┐", "─".repeat(19)));
    assert_eq!(lines[2], "│ a line of fifteen │");
    assert_eq!(lines[1], format!("│ \x1b[1mT\x1b[0m{} │", " ".repeat(16)));
}

#[test]
fn status_lines() {
    assert_eq!(status_ok("done"), "[\x1b[32m\x1b[1m  OK  \x1b[0m\x1b[0m]  done");
    assert_eq!(status_info("x"), "[\x1b[36m\x1b[1m INFO \x1b[0m\x1b[0m]  x");
    assert_eq!(status_warn("x"), "[\x1b[33m\x1b[1m WARN \x1b[0m\x1b[0m]  x");
    assert_eq!(status_err("x"), "[\x1b[31m\x1b[1m ERR  \x1b[0m\x1b[0m]  x");
}

#[test]
fn rule_has_requested_width() {
    assert_eq!(rule(3), "\x1b[90m───\x1b[0m");
    assert_eq!(rule(0), "\x1b[90m\x1b[0m");
}

#[test]
fn kv_block_aligns_keys() {
    let s = kv_block(&[("a", "1"), ("long", "2")]);
    assert_eq!(s, "\x1b[36ma\x1b[0m   : 1\n\x1b[36mlong\x1b[0m: 2\n");
    assert_eq!(kv_block(&[]), "");
}

#[test]
fn stage_banner() {
    assert_eq!(stage("Build"), "\x1b[1m\x1b[35m==> Build\x1b[0m\n");
}

#[test]
fn progress_bar_cells() {
    assert_eq!(progress_bar_fill(4, 1, " 25.00"), "\x1b[34m[█░░░]\x1b[0m  25.00%");
    assert_eq!(progress_bar_fill(2, 2, "100.00"), "\x1b[34m[██]\x1b[0m 100.00%");
}

#[test]
fn spinner_waits_for_interval() {
    let mut sp = Spinner::new("Loading");
    assert_eq!(sp.current_frame(), "|");
    assert_eq!(sp.label(), "Loading");
    assert!(sp.tick(79).is_none());
    assert_eq!(sp.current_frame(), "|");
    let line = sp.tick(80).unwrap();
    assert_eq!(line, "\r\x1b[2K\x1b[2m/ \x1b[0m Loading\x1b[0m");
    assert_eq!(sp.current_frame(), "/");
}

#[test]
fn spinner_cycles_through_frames() {
    let mut sp = Spinner::new("x");
    let mut seen = Vec::new();
    for _ in 0..5 {
        sp.tick(100);
        seen.push(sp.current_frame());
    }
    assert_eq!(seen, vec!["/", "-", "\\", "|", "/"]);
}

#[test]
fn spinner_themes() {
    let mut sp = Spinner::new("x");
    sp.tick(100);
    sp.use_block_theme();
    assert_eq!(sp.current_frame(), "▖");
    sp.tick(100);
    assert_eq!(sp.current_frame(), "▘");
    sp.set_frames(&["a", "b"]);
    assert_eq!(sp.current_frame(), "a");
    sp.tick(100);
    sp.tick(100);
    assert_eq!(sp.current_frame(), "a");
    assert_eq!(sp.finish("done"), "\r\x1b[2Kdone\n");
}

#[test]
fn reveal_frames() {
    let text: Vec<char> = "SOLAR".chars().collect();
    let noise: Vec<char> = "#?!".chars().collect();
    assert_eq!(scramble_line(&text, 2, &noise), "SO#?!");
    assert_eq!(scramble_line(&text, 0, &vec!['x'; 5]), "xxxxx");
    assert_eq!(settled_line(&text, 2), "SOL  ");
    assert_eq!(settled_line(&text, 4), "SOLAR");
}
