use vstd::prelude::*;

use crate::ansi::{BOLD, FG_BLUE, FG_CYAN, FG_GRAY, FG_GREEN, FG_MAGENTA, FG_RED, FG_YELLOW, RESET};
use crate::text::{push_char, push_repeat_char, repeat_char};

verus! {

/// `s` in `style`, followed by a reset.
pub open spec fn painted(s: Seq<char>, style: Seq<char>) -> Seq<char> {
    style + s + RESET@
}

pub fn paint(s: &str, style: &str) -> (r: String)
    ensures
        r@ == painted(s@, style@),
{
    let mut out = String::new();
    out.append(style);
    out.append(s);
    out.append(RESET);
    assert(out@ =~= painted(s@, style@));
    out
}

/// A bold title over an underline as wide as the title, and at least three.
pub open spec fn heading_text(title: Seq<char>) -> Seq<char> {
    BOLD@ + title + RESET@ + seq!['\n'] + repeat_char(
        '─',
        if title.len() < 3 {
            3
        } else {
            title.len()
        },
    ) + seq!['\n']
}

pub fn heading(title: &str) -> (r: String)
    ensures
        r@ == heading_text(title@),
{
    let n = title.unicode_len();
    let mut out = String::new();
    out.append(BOLD);
    out.append(title);
    out.append(RESET);
    push_char(&mut out, '\n');
    push_repeat_char(
        &mut out,
        '─',
        if n < 3 {
            3
        } else {
            n
        },
    );
    push_char(&mut out, '\n');
    assert(out@ =~= heading_text(title@));
    out
}

/// The length of the longest of `ls`; 0 for none.
pub open spec fn max_len(ls: Seq<Seq<char>>) -> nat
    decreases ls.len(),
{
    if ls.len() == 0 {
        0
    } else if max_len(ls.drop_last()) < ls.last().len() {
        ls.last().len()
    } else {
        max_len(ls.drop_last())
    }
}

proof fn lemma_max_len_bounds(ls: Seq<Seq<char>>, i: int)
    requires
        0 <= i < ls.len(),
    ensures
        ls[i].len() <= max_len(ls),
    decreases ls.len(),
{
    if i < ls.len() - 1 {
        lemma_max_len_bounds(ls.drop_last(), i);
    }
}

/// The inner width of a box: its longest line, and at least ten.
pub open spec fn box_inner_width(ls: Seq<Seq<char>>) -> nat {
    if max_len(ls) < 10 {
        10
    } else {
        max_len(ls)
    }
}

/// One row of a box of inner width `w`; the title row is bold.
pub open spec fn box_row(line: Seq<char>, title: bool, w: nat) -> Seq<char> {
    seq!['│', ' '] + (if title {
        BOLD@ + line + RESET@
    } else {
        line
    }) + repeat_char(' ', (w - line.len()) as nat) + seq![' ', '│', '\n']
}

/// The rows of a box of inner width `w`, the first one being the title.
pub open spec fn box_rows(ls: Seq<Seq<char>>, w: nat) -> Seq<char>
    decreases ls.len(),
{
    if ls.len() == 0 {
        Seq::empty()
    } else {
        box_rows(ls.drop_last(), w) + box_row(ls.last(), ls.len() == 1, w)
    }
}

/// A box drawn round `ls`, whose first line is the title.
pub open spec fn box_text(ls: Seq<Seq<char>>) -> Seq<char> {
    let w = box_inner_width(ls);
    seq!['┌'] + repeat_char('─', (w + 2) as nat) + seq!['┐', '\n'] + box_rows(ls, w) + seq!['└']
        + repeat_char('─', (w + 2) as nat) + seq!['┘', '\n']
}

/// The title followed by the body lines, as character sequences.
pub open spec fn box_lines(title: Seq<char>, body: Seq<&str>) -> Seq<Seq<char>> {
    seq![title] + body.map_values(|s: &str| s@)
}

fn push_border(out: &mut String, left: char, right: char, w: usize)
    ensures
        final(out)@ == old(out)@ + seq![left] + repeat_char('─', (w + 2) as nat) + seq![right, '\n'],
{
    push_char(out, left);
    push_repeat_char(out, '─', w);
    push_char(out, '─');
    push_char(out, '─');
    push_char(out, right);
    push_char(out, '\n');
    assert(repeat_char('─', w as nat) + seq!['─', '─'] =~= repeat_char('─', (w + 2) as nat));
    assert(final(out)@ =~= old(out)@ + seq![left] + repeat_char('─', (w + 2) as nat) + seq![right, '\n']);
}

/// Draws a box round a bold title and the body lines, at least ten characters
/// wide inside.
pub fn box_message(title: &str, body_lines: &[&str]) -> (r: String)
    ensures
        r@ == box_text(box_lines(title@, body_lines@)),
{
    let ghost ls = box_lines(title@, body_lines@);
    let mut lines: Vec<&str> = Vec::new();
    lines.push(title);
    let mut i: usize = 0;
    while i < body_lines.len()
        invariant
            i <= body_lines@.len(),
            lines@.len() == i + 1,
            forall|j: int| 0 <= j <= i ==> (#[trigger] lines@[j])@ == ls[j],
            ls == box_lines(title@, body_lines@),
        decreases body_lines.len() - i,
    {
        lines.push(body_lines[i]);
        i += 1;
    }
    let mut longest: usize = 0;
    let mut i: usize = 0;
    while i < lines.len()
        invariant
            i <= lines@.len() == ls.len(),
            forall|j: int| 0 <= j < lines@.len() ==> (#[trigger] lines@[j])@ == ls[j],
            longest == max_len(ls.take(i as int)),
        decreases lines.len() - i,
    {
        let n = lines[i].unicode_len();
        assert(ls.take(i + 1).drop_last() =~= ls.take(i as int));
        if longest < n {
            longest = n;
        }
        i += 1;
    }
    assert(ls.take(ls.len() as int) =~= ls);
    let w: usize = if longest < 10 {
        10
    } else {
        longest
    };
    let mut out = String::new();
    push_border(&mut out, '┌', '┐', w);
    let ghost top = out@;
    let mut i: usize = 0;
    while i < lines.len()
        invariant
            i <= lines@.len() == ls.len(),
            forall|j: int| 0 <= j < lines@.len() ==> (#[trigger] lines@[j])@ == ls[j],
            w == box_inner_width(ls),
            out@ == top + box_rows(ls.take(i as int), w as nat),
        decreases lines.len() - i,
    {
        let line = lines[i];
        let n = line.unicode_len();
        proof {
            lemma_max_len_bounds(ls, i as int);
            assert(ls.take(i + 1).drop_last() =~= ls.take(i as int));
        }
        let ghost before = out@;
        push_char(&mut out, '│');
        push_char(&mut out, ' ');
        if i == 0 {
            out.append(BOLD);
            out.append(line);
            out.append(RESET);
        } else {
            out.append(line);
        }
        push_repeat_char(&mut out, ' ', w - n);
        push_char(&mut out, ' ');
        push_char(&mut out, '│');
        push_char(&mut out, '\n');
        assert(out@ =~= before + box_row(ls[i as int], i == 0, w as nat));
        i += 1;
    }
    push_border(&mut out, '└', '┘', w);
    assert(out@ =~= box_text(ls));
    out
}

/// A status line: a coloured bold tag in brackets, then the message.
pub open spec fn status_line(color: Seq<char>, tag: Seq<char>, msg: Seq<char>) -> Seq<char> {
    seq!['['] + color + BOLD@ + tag + RESET@ + RESET@ + seq![']', ' ', ' '] + msg
}

fn status(color: &str, tag: &str, msg: &str) -> (r: String)
    ensures
        r@ == status_line(color@, tag@, msg@),
{
    let mut out = String::new();
    push_char(&mut out, '[');
    out.append(color);
    out.append(BOLD);
    out.append(tag);
    out.append(RESET);
    out.append(RESET);
    push_char(&mut out, ']');
    push_char(&mut out, ' ');
    push_char(&mut out, ' ');
    out.append(msg);
    assert(out@ =~= status_line(color@, tag@, msg@));
    out
}

pub fn status_ok(msg: &str) -> (r: String)
    ensures
        r@ == status_line(FG_GREEN@, "  OK  "@, msg@),
{
    status(FG_GREEN, "  OK  ", msg)
}

pub fn status_info(msg: &str) -> (r: String)
    ensures
        r@ == status_line(FG_CYAN@, " INFO "@, msg@),
{
    status(FG_CYAN, " INFO ", msg)
}

pub fn status_warn(msg: &str) -> (r: String)
    ensures
        r@ == status_line(FG_YELLOW@, " WARN "@, msg@),
{
    status(FG_YELLOW, " WARN ", msg)
}

pub fn status_err(msg: &str) -> (r: String)
    ensures
        r@ == status_line(FG_RED@, " ERR  "@, msg@),
{
    status(FG_RED, " ERR  ", msg)
}

/// A grey horizontal line `width` characters long.
pub fn rule(width: usize) -> (r: String)
    ensures
        r@ == FG_GRAY@ + repeat_char('─', width as nat) + RESET@,
{
    let mut out = String::new();
    out.append(FG_GRAY);
    push_repeat_char(&mut out, '─', width);
    out.append(RESET);
    assert(out@ =~= FG_GRAY@ + repeat_char('─', width as nat) + RESET@);
    out
}

/// The keys of a key/value list.
pub open spec fn keys_of(pairs: Seq<(&str, &str)>) -> Seq<Seq<char>> {
    pairs.map_values(|p: (&str, &str)| p.0@)
}

/// One line of a key/value list whose keys are padded to width `w`.
pub open spec fn kv_line(k: Seq<char>, v: Seq<char>, w: nat) -> Seq<char> {
    FG_CYAN@ + k + RESET@ + repeat_char(' ', (w - k.len()) as nat) + seq![':', ' '] + v + seq![
        '\n',
    ]
}

/// The lines of a key/value list with keys padded to width `w`.
pub open spec fn kv_lines(pairs: Seq<(&str, &str)>, w: nat) -> Seq<char>
    decreases pairs.len(),
{
    if pairs.len() == 0 {
        Seq::empty()
    } else {
        kv_lines(pairs.drop_last(), w) + kv_line(pairs.last().0@, pairs.last().1@, w)
    }
}

/// A key/value list, one pair per line, the keys in cyan and padded to the
/// longest key.
pub fn kv_block(pairs: &[(&str, &str)]) -> (r: String)
    ensures
        r@ == kv_lines(pairs@, max_len(keys_of(pairs@))),
{
    let ghost ks = keys_of(pairs@);
    let mut key_w: usize = 0;
    let mut i: usize = 0;
    while i < pairs.len()
        invariant
            i <= pairs@.len() == ks.len(),
            ks == keys_of(pairs@),
            key_w == max_len(ks.take(i as int)),
        decreases pairs.len() - i,
    {
        let n = pairs[i].0.unicode_len();
        assert(ks.take(i + 1).drop_last() =~= ks.take(i as int));
        if key_w < n {
            key_w = n;
        }
        i += 1;
    }
    assert(ks.take(ks.len() as int) =~= ks);
    let mut out = String::new();
    let mut i: usize = 0;
    while i < pairs.len()
        invariant
            i <= pairs@.len() == ks.len(),
            ks == keys_of(pairs@),
            key_w == max_len(ks),
            out@ == kv_lines(pairs@.take(i as int), key_w as nat),
        decreases pairs.len() - i,
    {
        let (k, v) = pairs[i];
        let n = k.unicode_len();
        proof {
            lemma_max_len_bounds(ks, i as int);
            assert(pairs@.take(i + 1).drop_last() =~= pairs@.take(i as int));
        }
        let ghost before = out@;
        out.append(FG_CYAN);
        out.append(k);
        out.append(RESET);
        push_repeat_char(&mut out, ' ', key_w - n);
        push_char(&mut out, ':');
        push_char(&mut out, ' ');
        out.append(v);
        push_char(&mut out, '\n');
        assert(out@ =~= before + kv_line(k@, v@, key_w as nat));
        i += 1;
    }
    assert(pairs@.take(pairs.len() as int) =~= pairs@);
    out
}

/// A bold magenta stage banner, ending the line.
pub open spec fn stage_text(label: Seq<char>) -> Seq<char> {
    BOLD@ + FG_MAGENTA@ + "==> "@ + label + RESET@ + seq!['\n']
}

pub fn stage(label: &str) -> (r: String)
    ensures
        r@ == stage_text(label@),
{
    let mut out = String::new();
    out.append(BOLD);
    out.append(FG_MAGENTA);
    out.append("==> ");
    out.append(label);
    out.append(RESET);
    push_char(&mut out, '\n');
    assert(out@ =~= stage_text(label@));
    out
}

/// A blue bar of `width` cells, `filled` of them solid, then the percentage.
pub open spec fn progress_text(width: nat, filled: nat, percent: Seq<char>) -> Seq<char> {
    FG_BLUE@ + seq!['['] + repeat_char('█', filled) + repeat_char('░', (width - filled) as nat)
        + seq![']'] + RESET@ + seq![' '] + percent + seq!['%']
}

/// A progress bar of `width` cells of which `filled` are solid, followed by
/// the percentage already formatted as `percent`.
pub fn progress_bar_fill(width: usize, filled: usize, percent: &str) -> (r: String)
    requires
        filled <= width,
    ensures
        r@ == progress_text(width as nat, filled as nat, percent@),
{
    let mut out = String::new();
    out.append(FG_BLUE);
    push_char(&mut out, '[');
    push_repeat_char(&mut out, '█', filled);
    push_repeat_char(&mut out, '░', width - filled);
    push_char(&mut out, ']');
    out.append(RESET);
    push_char(&mut out, ' ');
    out.append(percent);
    push_char(&mut out, '%');
    assert(out@ =~= progress_text(width as nat, filled as nat, percent@));
    out
}

/// One colour channel faded from `start` towards `end`, `n` steps into a fade
/// of `fade` steps.
pub open spec fn faded(start: int, end: int, n: int, fade: int) -> int {
    start - (start - end) * n / fade
}

/// The background colour of cell `i` of a banner `width` cells wide: bright
/// green (150, 255, 150) over the first six tenths, then fading linearly
/// towards dark green (0, 40, 0).
pub open spec fn gradient(i: int, width: int) -> (int, int, int) {
    let fade_at = width * 6 / 10;
    if i >= fade_at {
        let n = i - fade_at;
        let fade = width - fade_at;
        (faded(150, 0, n, fade), faded(255, 40, n, fade), faded(150, 0, n, fade))
    } else {
        (150, 255, 150)
    }
}

pub fn gradient_color(i: usize, width: usize) -> (r: (i32, i32, i32))
    requires
        i < width <= 8_000_000,
    ensures
        (r.0 as int, r.1 as int, r.2 as int) == gradient(i as int, width as int),
{
    let fade_at = width * 6 / 10;
    if i >= fade_at {
        let n = (i - fade_at) as i32;
        let fw = (width - fade_at) as i32;
        assert(fw > 0);
        proof {
            assert(0 <= 255 * n <= 255 * 8_000_000) by (nonlinear_arith)
                requires
                    0 <= n <= 8_000_000,
            ;
            assert(150 * (n as int) / (fw as int) <= 150) by (nonlinear_arith)
                requires
                    0 <= n < fw,
            ;
            assert(215 * (n as int) / (fw as int) <= 215) by (nonlinear_arith)
                requires
                    0 <= n < fw,
            ;
        }
        let r = 150 - (150 - 0) * n / fw;
        let g = 255 - (255 - 40) * n / fw;
        let b = 150 - (150 - 0) * n / fw;
        (r, g, b)
    } else {
        (150, 255, 150)
    }
}

/// A frame of a scrambled reveal: the first `i` characters of `text`, then
/// `noise` standing for the rest.
pub open spec fn scramble_frame(text: Seq<char>, i: int, noise: Seq<char>) -> Seq<char> {
    text.take(i) + noise
}

/// A settled frame of a reveal: the first `i + 1` characters of `text`, then
/// spaces up to its length.
pub open spec fn settled_frame(text: Seq<char>, i: int) -> Seq<char> {
    text.take(i + 1) + repeat_char(' ', (text.len() - i - 1) as nat)
}

/// The frame shown while position `i` is scrambling; `noise` holds the random
/// characters for position `i` and after.
pub fn scramble_line(text: &Vec<char>, i: usize, noise: &Vec<char>) -> (r: String)
    requires
        i <= text@.len(),
    ensures
        r@ == scramble_frame(text@, i as int, noise@),
{
    let mut out = String::new();
    let mut j: usize = 0;
    while j < i
        invariant
            j <= i <= text@.len(),
            out@ == text@.take(j as int),
        decreases i - j,
    {
        push_char(&mut out, text[j]);
        assert(out@ =~= text@.take(j + 1));
        j += 1;
    }
    let ghost head = out@;
    let mut k: usize = 0;
    while k < noise.len()
        invariant
            k <= noise@.len(),
            out@ == head + noise@.take(k as int),
        decreases noise.len() - k,
    {
        push_char(&mut out, noise[k]);
        assert(out@ =~= head + noise@.take(k + 1));
        k += 1;
    }
    assert(noise@.take(noise@.len() as int) =~= noise@);
    out
}

/// The frame shown once position `i` has settled.
pub fn settled_line(text: &Vec<char>, i: usize) -> (r: String)
    requires
        i < text@.len(),
    ensures
        r@ == settled_frame(text@, i as int),
{
    let mut out = String::new();
    let n = text.len();
    let mut j: usize = 0;
    while j <= i
        invariant
            n == text@.len(),
            j <= i + 1 <= text@.len(),
            out@ == text@.take(j as int),
        decreases i + 1 - j,
    {
        push_char(&mut out, text[j]);
        assert(out@ =~= text@.take(j + 1));
        j += 1;
    }
    push_repeat_char(&mut out, ' ', text.len() - i - 1);
    out
}

} // verus!
