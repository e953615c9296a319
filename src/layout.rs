use vstd::prelude::*;

use rand::rngs::ThreadRng;
use rand::Rng;

use crate::text::{chars_of, is_white_space, string_of, white_space};

verus! {

/// A rectangle of terminal cells: left column, top row, width, height.
#[derive(Clone, Copy, Debug, PartialEq, Eq, Structural)]
pub struct Rect {
    pub x: u16,
    pub y: u16,
    pub w: u16,
    pub h: u16,
}

/// `a + b`, held at `u16::MAX`.
pub open spec fn sat_add(a: u16, b: u16) -> int {
    if a + b > u16::MAX {
        u16::MAX as int
    } else {
        a + b
    }
}

/// `a - b`, held at 0.
pub open spec fn sat_sub(a: u16, b: u16) -> int {
    if a < b {
        0
    } else {
        a - b
    }
}

impl Rect {
    /// Whether the cell at column `px`, row `py` lies inside the rectangle; its
    /// far edges are clamped to the terminal's coordinate range.
    pub fn contains(&self, px: u16, py: u16) -> (b: bool)
        ensures
            b == (self.x <= px < sat_add(self.x, self.w) && self.y <= py < sat_add(
                self.y,
                self.h,
            )),
    {
        px >= self.x && px < self.x.saturating_add(self.w) && py >= self.y && py
            < self.y.saturating_add(self.h)
    }
}

/// The index of the first newline in `s`, or its length where there is none.
pub open spec fn first_newline(s: Seq<char>, from: int) -> int
    decreases s.len() - from,
{
    if from < 0 || from >= s.len() {
        s.len() as int
    } else if s[from] == '\n' {
        from
    } else {
        first_newline(s, from + 1)
    }
}

/// `line` without a final carriage return, where it ended in `\r\n`.
pub open spec fn strip_cr(line: Seq<char>, ended: bool) -> Seq<char> {
    if ended && line.len() > 0 && line.last() == '\r' {
        line.drop_last()
    } else {
        line
    }
}

/// The lines of `s`: split at `\n` and at `\r\n`, without the terminators; a
/// final terminator ends the last line and starts no new one.
pub open spec fn lines_of(s: Seq<char>) -> Seq<Seq<char>>
    decreases s.len(),
{
    if s.len() == 0 {
        Seq::empty()
    } else {
        let i = first_newline(s, 0);
        if 0 <= i < s.len() {
            seq![strip_cr(s.take(i), true)] + lines_of(s.skip(i + 1))
        } else {
            seq![s]
        }
    }
}

proof fn lemma_first_newline(s: Seq<char>, from: int)
    requires
        0 <= from <= s.len(),
    ensures
        from <= first_newline(s, from) <= s.len(),
        first_newline(s, from) < s.len() ==> s[first_newline(s, from)] == '\n',
        forall|j: int| from <= j < first_newline(s, from) ==> s[j] != '\n',
    decreases s.len() - from,
{
    if from < s.len() && s[from] != '\n' {
        lemma_first_newline(s, from + 1);
    }
}

/// The lines of `message`, as `str::lines` splits them.
pub fn message_lines(message: &str) -> (r: Vec<String>)
    ensures
        r@.len() == lines_of(message@).len(),
        forall|i: int| 0 <= i < r@.len() ==> (#[trigger] r@[i])@ == lines_of(message@)[i],
{
    let cs = chars_of(message);
    let ghost s = message@;
    let mut out: Vec<String> = Vec::new();
    let mut start: usize = 0;
    assert(s.skip(0) =~= s);
    while start < cs.len()
        invariant
            start <= cs.len(),
            cs@ == s,
            out@.map_values(|l: String| l@) + lines_of(s.skip(start as int)) == lines_of(s),
        decreases cs.len() - start,
    {
        let ghost rest = s.skip(start as int);
        let mut end: usize = start;
        while end < cs.len() && cs[end] != '\n'
            invariant
                start <= end <= cs.len(),
                cs@ == s,
                forall|j: int| start <= j < end ==> s[j] != '\n',
            decreases cs.len() - end,
        {
            end += 1;
        }
        proof {
            lemma_first_newline(rest, 0);
            assert forall|j: int| 0 <= j < end - start implies rest[j] != '\n' by {
                assert(rest[j] == s[start + j]);
            }
            if end < cs.len() {
                assert(rest[end - start] == '\n');
            }
            assert(first_newline(rest, 0) == end - start) by {
                if first_newline(rest, 0) < end - start {
                    assert(rest[first_newline(rest, 0)] != '\n');
                }
                if first_newline(rest, 0) > end - start {
                    assert(rest[end - start] != '\n');
                }
            }
        }
        let ended = end < cs.len();
        let mut stop = end;
        if ended && stop > start && cs[stop - 1] == '\r' {
            stop -= 1;
        }
        let mut line: Vec<char> = Vec::new();
        let mut k: usize = start;
        while k < stop
            invariant
                start <= k <= stop <= cs.len(),
                cs@ == s,
                line@ == s.subrange(start as int, k as int),
            decreases stop - k,
        {
            line.push(cs[k]);
            assert(line@ =~= s.subrange(start as int, k + 1));
            k += 1;
        }
        let text = string_of(&line);
        proof {
            assert(rest.take(end - start) =~= s.subrange(start as int, end as int));
            if ended {
                assert(text@ =~= strip_cr(rest.take(end - start), true));
                assert(rest.skip(end - start + 1) =~= s.skip(end + 1));
                assert(lines_of(rest) =~= seq![text@] + lines_of(s.skip(end + 1)));
            } else {
                assert(rest =~= text@);
                assert(s.skip(end as int) =~= Seq::<char>::empty());
                assert(lines_of(rest) =~= seq![text@] + lines_of(s.skip(end as int)));
            }
            assert(out@.push(text).map_values(|l: String| l@) =~= out@.map_values(
                |l: String| l@,
            ).push(text@));
        }
        out.push(text);
        start = if ended {
            end + 1
        } else {
            end
        };
        proof {
            assert(out@.map_values(|l: String| l@) + lines_of(s.skip(start as int)) =~= lines_of(
                s,
            ));
        }
    }
    proof {
        assert(s.skip(start as int) =~= Seq::<char>::empty());
        assert(out@.map_values(|l: String| l@) =~= lines_of(s));
        assert forall|i: int| 0 <= i < out@.len() implies (#[trigger] out@[i])@ == lines_of(s)[i] by {
            assert(out@.map_values(|l: String| l@)[i] == out@[i]@);
        }
    }
    out
}

/// The widest of `ls`, each width taken modulo 2^16 as a terminal column count.
pub open spec fn widest_u16(ls: Seq<Seq<char>>) -> u16
    decreases ls.len(),
{
    if ls.len() == 0 {
        0
    } else if widest_u16(ls.drop_last()) < (ls.last().len() as u16) {
        ls.last().len() as u16
    } else {
        widest_u16(ls.drop_last())
    }
}

pub open spec fn min_int(a: int, b: int) -> int {
    if a < b {
        a
    } else {
        b
    }
}

pub open spec fn max_int(a: int, b: int) -> int {
    if a < b {
        b
    } else {
        a
    }
}

/// The box centred in a `term_w` by `term_h` terminal round the lines `ls`:
/// inside at least 12 by 5 cells and at most the terminal less 6 each way,
/// plus padding and border on each side.
pub open spec fn center_box(term_w: u16, term_h: u16, ls: Seq<Seq<char>>) -> Rect {
    let msg_w = widest_u16(ls) as int;
    let msg_h = max_int((ls.len() as u16) as int, 1);
    let inner_w = min_int(max_int(msg_w, 12), sat_sub(term_w, 6));
    let inner_h = min_int(max_int(msg_h, 5), sat_sub(term_h, 6));
    let box_w = inner_w + 4;
    let box_h = inner_h + 4;
    Rect {
        x: (sat_sub(term_w, box_w as u16) / 2) as u16,
        y: (sat_sub(term_h, box_h as u16) / 2) as u16,
        w: box_w as u16,
        h: box_h as u16,
    }
}

/// Centres a box for `message` in a `term_w` by `term_h` terminal.
pub fn compute_center_box(term_w: u16, term_h: u16, message: &str) -> (r: Rect)
    ensures
        r == center_box(term_w, term_h, lines_of(message@)),
{
    let lines = message_lines(message);
    let ghost ls = lines_of(message@);
    let mut msg_w: u16 = 0;
    let mut i: usize = 0;
    while i < lines.len()
        invariant
            i <= lines@.len() == ls.len(),
            forall|j: int| 0 <= j < lines@.len() ==> (#[trigger] lines@[j])@ == ls[j],
            msg_w == widest_u16(ls.take(i as int)),
        decreases lines.len() - i,
    {
        let n = lines[i].as_str().unicode_len();
        let w = #[verifier::truncate] (n as u16);
        assert(ls.take(i + 1).drop_last() =~= ls.take(i as int));
        if msg_w < w {
            msg_w = w;
        }
        i += 1;
    }
    assert(ls.take(ls.len() as int) =~= ls);
    let count = #[verifier::truncate] (lines.len() as u16);
    let msg_h: u16 = if count < 1 {
        1
    } else {
        count
    };
    let cap_w = term_w.saturating_sub(6);
    let cap_h = term_h.saturating_sub(6);
    let want_w: u16 = if msg_w < 12 {
        12
    } else {
        msg_w
    };
    let want_h: u16 = if msg_h < 5 {
        5
    } else {
        msg_h
    };
    let inner_w: u16 = if want_w < cap_w {
        want_w
    } else {
        cap_w
    };
    let inner_h: u16 = if want_h < cap_h {
        want_h
    } else {
        cap_h
    };
    let box_w = inner_w + 4;
    let box_h = inner_h + 4;
    let x = term_w.saturating_sub(box_w) / 2;
    let y = term_h.saturating_sub(box_h) / 2;
    Rect { x, y, w: box_w, h: box_h }
}

/// `s` with each `\n` escape (a backslash then `n`) replaced by a newline,
/// scanning left to right.
pub open spec fn unescape_newlines(s: Seq<char>) -> Seq<char>
    decreases s.len(),
{
    if s.len() == 0 {
        Seq::empty()
    } else if s.len() >= 2 && s[0] == '\\' && s[1] == 'n' {
        seq!['\n'] + unescape_newlines(s.skip(2))
    } else {
        seq![s[0]] + unescape_newlines(s.skip(1))
    }
}

/// `s` without its trailing white space.
pub open spec fn trim_end(s: Seq<char>) -> Seq<char>
    decreases s.len(),
{
    if s.len() > 0 && is_white_space(s.last()) {
        trim_end(s.drop_last())
    } else {
        s
    }
}

/// A message as the user typed it: `\n` escapes become line breaks, and
/// trailing white space goes.
pub fn normalize_message(s: &str) -> (r: String)
    ensures
        r@ == trim_end(unescape_newlines(s@)),
{
    let cs = chars_of(s);
    let ghost t = s@;
    let mut out: Vec<char> = Vec::new();
    let mut i: usize = 0;
    assert(t.skip(0) =~= t);
    while i < cs.len()
        invariant
            i <= cs.len(),
            cs@ == t,
            out@ + unescape_newlines(t.skip(i as int)) == unescape_newlines(t),
        decreases cs.len() - i,
    {
        let ghost rest = t.skip(i as int);
        if i + 1 < cs.len() && cs[i] == '\\' && cs[i + 1] == 'n' {
            out.push('\n');
            proof {
                assert(rest.skip(2) =~= t.skip(i + 2));
                assert(out@ + unescape_newlines(t.skip(i + 2)) =~= unescape_newlines(t));
            }
            i += 2;
        } else {
            out.push(cs[i]);
            proof {
                assert(rest.skip(1) =~= t.skip(i + 1));
                assert(out@ + unescape_newlines(t.skip(i + 1)) =~= unescape_newlines(t));
            }
            i += 1;
        }
    }
    assert(t.skip(cs.len() as int) =~= Seq::<char>::empty());
    assert(out@ =~= unescape_newlines(t));
    let ghost u = out@;
    let mut n: usize = out.len();
    assert(u.take(n as int) =~= u);
    while n > 0 && white_space(out[n - 1])
        invariant
            n <= out@.len(),
            out@ == u,
            trim_end(u.take(n as int)) == trim_end(u),
        decreases n,
    {
        assert(u.take(n as int).drop_last() =~= u.take(n - 1));
        n -= 1;
    }
    let mut kept: Vec<char> = Vec::new();
    let mut k: usize = 0;
    while k < n
        invariant
            k <= n <= u.len(),
            out@ == u,
            kept@ == u.take(k as int),
        decreases n - k,
    {
        kept.push(out[k]);
        assert(kept@ =~= u.take(k + 1));
        k += 1;
    }
    assert(kept@ =~= u.take(n as int));
    assert(trim_end(u.take(n as int)) == u.take(n as int));
    string_of(&kept)
}

#[verifier::external_type_specification]
#[verifier::external_body]
pub struct ExThreadRng(ThreadRng);

/// Relies on rand's `Rng::gen_range` over `lo..=hi`: a value in that range; it
/// panics only on an empty range.
#[verifier::external_body]
fn random_between(rng: &mut ThreadRng, lo: i32, hi: i32) -> (r: i32)
    requires
        lo <= hi,
    ensures
        lo <= r <= hi,
{
    rng.gen_range(lo..=hi)
}

/// One falling column of the rain: the row of its head (negative while still
/// above the screen), how many rows it falls per frame, and its trail length.
#[derive(Clone, Copy, Debug, PartialEq, Eq, Structural)]
pub struct DropColumn {
    pub head_y: i32,
    pub speed: i32,
    pub length: i32,
}

/// The longest trail of a fresh column in a terminal of `height` rows.
pub open spec fn max_trail(height: u16) -> int {
    max_int(12, height as int / 2)
}

impl DropColumn {
    /// In range, and not yet fallen past the bottom of a terminal of `height`
    /// rows.
    pub open spec fn wf(&self, height: u16) -> bool {
        &&& 1 <= self.speed <= 3
        &&& 0 <= self.length <= 65536
        &&& -65536 <= self.head_y
        &&& self.head_y - self.length <= height
    }

    /// A column as drawn for a terminal of `height` rows: the head above the
    /// top by at most the height, one to three rows per frame, a trail of ten
    /// rows up to half the height (at least twelve).
    pub open spec fn is_fresh(&self, height: u16) -> bool {
        &&& -(height as int) <= self.head_y <= -1
        &&& 1 <= self.speed <= 3
        &&& 10 <= self.length <= max_trail(height)
    }

    /// A new column with random head, speed and trail length.
    pub fn new(rng: &mut ThreadRng, height: u16) -> (r: Self)
        requires
            height >= 1,
        ensures
            r.is_fresh(height),
            r.wf(height),
    {
        let h = height as i32;
        let head_y = random_between(rng, -h, -1);
        let speed = random_between(rng, 1, 3);
        let longest = if 12 < h / 2 {
            h / 2
        } else {
            12
        };
        let length = random_between(rng, 10, longest);
        DropColumn { head_y, speed, length }
    }

    /// Moves the head down by the speed; once the whole trail has left a
    /// terminal of `height` rows, the column starts again as a new one.
    pub fn step(&mut self, rng: &mut ThreadRng, height: u16)
        requires
            old(self).wf(height),
            height >= 1,
        ensures
            final(self).wf(height),
            old(self).head_y + old(self).speed - old(self).length <= height ==> *final(self) == (
            DropColumn { head_y: (old(self).head_y + old(self).speed) as i32, ..*old(self) }),
            old(self).head_y + old(self).speed - old(self).length > height ==> final(self).is_fresh(
                height,
            ),
    {
        self.head_y = self.head_y + self.speed;
        if self.head_y - self.length > height as i32 {
            *self = DropColumn::new(rng, height);
        }
    }
}

/// Where one line of a message is drawn: its column, its row and its text.
#[derive(Debug)]
pub struct Placement {
    pub x: u16,
    pub y: u16,
    pub text: String,
}

/// The row of line `i` of a message of `count` lines in box `r`: the lines
/// are centred vertically inside the border and padding.
pub open spec fn line_row(r: Rect, count: nat, i: int) -> int {
    let inner_h = sat_sub(r.h, 4);
    let msg_h = max_int((count as u16) as int, 1);
    let start_y = r.y + 2 + (inner_h - msg_h) / 2;
    let start = if inner_h < msg_h {
        r.y + 2
    } else {
        start_y
    };
    sat_add(start as u16, i as u16)
}

/// The number of leading lines whose rows lie above row `term_h`.
pub open spec fn visible_from(r: Rect, count: nat, term_h: u16, i: int) -> int
    decreases count - i,
{
    if i < 0 || i >= count {
        count as int
    } else if line_row(r, count, i) >= term_h {
        i
    } else {
        visible_from(r, count, term_h, i + 1)
    }
}

/// Line `line` cut to the inner width of box `r`, and centred in it.
pub open spec fn placed(r: Rect, line: Seq<char>, row: int) -> (int, int, Seq<char>) {
    let inner_w = sat_sub(r.w, 4);
    let text = if line.len() <= inner_w {
        line
    } else {
        line.take(inner_w)
    };
    (r.x + 2 + (inner_w - text.len()) / 2, row, text)
}

/// The placements of the lines of a message in box `r`, up to the first line
/// that would fall at or below row `term_h`.
pub open spec fn placements(r: Rect, term_h: u16, ls: Seq<Seq<char>>) -> Seq<(int, int, Seq<char>)> {
    Seq::new(
        visible_from(r, ls.len(), term_h, 0) as nat,
        |i: int| placed(r, ls[i], line_row(r, ls.len(), i)),
    )
}

proof fn lemma_visible_from(r: Rect, count: nat, term_h: u16, i: int)
    requires
        0 <= i <= count,
    ensures
        i <= visible_from(r, count, term_h, i) <= count,
        forall|j: int| i <= j < visible_from(r, count, term_h, i) ==> line_row(r, count, j) < term_h,
        visible_from(r, count, term_h, i) < count ==> line_row(
            r,
            count,
            visible_from(r, count, term_h, i),
        ) >= term_h,
    decreases count - i,
{
    if i < count && line_row(r, count, i) < term_h {
        lemma_visible_from(r, count, term_h, i + 1);
    }
}

/// Lays out `message` inside box `r`: each line cut to the inner width and
/// centred, the block of lines centred vertically, stopping at the first line
/// that would fall at or below row `term_h`.
pub fn place_message(r: Rect, term_h: u16, message: &str) -> (p: Vec<Placement>)
    requires
        r.x + 2 + r.w / 2 <= u16::MAX,
        r.y + 2 + r.h / 2 <= u16::MAX,
    ensures
        p@.map_values(|q: Placement| (q.x as int, q.y as int, q.text@)) == placements(
            r,
            term_h,
            lines_of(message@),
        ),
{
    let lines = message_lines(message);
    let ghost ls = lines_of(message@);
    let ghost count = ls.len();
    let inner_x = r.x + 2;
    let inner_y = r.y + 2;
    let inner_w = r.w.saturating_sub(4);
    let inner_h = r.h.saturating_sub(4);
    let count16 = #[verifier::truncate] (lines.len() as u16);
    let msg_h: u16 = if count16 < 1 {
        1
    } else {
        count16
    };
    let start_y = inner_y + inner_h.saturating_sub(msg_h) / 2;
    proof {
        lemma_visible_from(r, count, term_h, 0);
    }
    let ghost want = placements(r, term_h, ls);
    let mut out: Vec<Placement> = Vec::new();
    let mut i: usize = 0;
    let mut going = true;
    while going && i < lines.len()
        invariant
            r.x + 2 + r.w / 2 <= u16::MAX,
            !going ==> visible_from(r, count, term_h, 0) == i,
            i <= lines@.len() == ls.len() == count,
            forall|j: int| 0 <= j < lines@.len() ==> (#[trigger] lines@[j])@ == ls[j],
            i <= visible_from(r, count, term_h, 0),
            want == placements(r, term_h, ls),
            start_y as int == (if sat_sub(r.h, 4) < max_int((count as u16) as int, 1) {
                r.y + 2
            } else {
                r.y + 2 + (sat_sub(r.h, 4) - max_int((count as u16) as int, 1)) / 2
            }),
            inner_x == r.x + 2,
            inner_w == sat_sub(r.w, 4),
            out@.map_values(|q: Placement| (q.x as int, q.y as int, q.text@)) == want.take(
                i as int,
            ),
        decreases lines.len() - i + (if going {
            1int
        } else {
            0
        }),
    {
        let iu = #[verifier::truncate] (i as u16);
        let y = start_y.saturating_add(iu);
        assert(y as int == line_row(r, count, i as int));
        if y >= term_h {
            proof {
                assert(visible_from(r, count, term_h, 0) == i) by {
                    lemma_visible_from(r, count, term_h, 0);
                }
            }
            going = false;
        } else {
            proof {
                lemma_visible_from(r, count, term_h, 0);
                if visible_from(r, count, term_h, 0) == i {
                    assert(line_row(r, count, i as int) >= term_h);
                }
            }
            let lc = chars_of(lines[i].as_str());
            let take = if lc.len() <= inner_w as usize {
                lc.len()
            } else {
                inner_w as usize
            };
            let mut clipped: Vec<char> = Vec::new();
            let mut k: usize = 0;
            while k < take
                invariant
                    k <= take <= lc@.len(),
                    clipped@ == lc@.take(k as int),
                decreases take - k,
            {
                clipped.push(lc[k]);
                assert(clipped@ =~= lc@.take(k + 1));
                k += 1;
            }
            let len16 = take as u16;
            assert((inner_w - len16) / 2 <= r.w / 2);
            let x = inner_x + (inner_w - len16) / 2;
            let text = string_of(&clipped);
            proof {
                assert(lc@ == ls[i as int]);
                if lc@.len() <= inner_w {
                    assert(clipped@ =~= lc@);
                }
                assert((x as int, y as int, text@) == want[i as int]);
            }
            let q = Placement { x, y, text };
            assert(want.take(i + 1) =~= want.take(i as int).push(want[i as int]));
            assert(out@.push(q).map_values(|q: Placement| (q.x as int, q.y as int, q.text@))
                =~= out@.map_values(|q: Placement| (q.x as int, q.y as int, q.text@)).push(
                (x as int, y as int, text@),
            ));
            out.push(q);
            i += 1;
        }
    }
    proof {
        lemma_visible_from(r, count, term_h, 0);
        assert(want.len() == i);
        assert(want.take(i as int) =~= want);
    }
    out
}

/// The shade of a rain cell, by its distance from the head of its column.
#[derive(Clone, Copy, Debug, PartialEq, Eq, Structural)]
pub enum Shade {
    /// The head itself.
    Bright,
    /// One or two cells behind the head.
    Green,
    /// Three to six cells behind.
    DarkGreen,
    /// Further back.
    Dim,
}

pub open spec fn shade_of(d: int) -> Shade {
    if d <= 0 {
        Shade::Bright
    } else if d <= 2 {
        Shade::Green
    } else if d <= 6 {
        Shade::DarkGreen
    } else {
        Shade::Dim
    }
}

/// The shade of the cell `d` rows behind the head; rows ahead count as the
/// head.
pub fn rain_shade(d: i32) -> (r: Shade)
    ensures
        r == shade_of(d as int),
{
    if d <= 0 {
        Shade::Bright
    } else if d <= 2 {
        Shade::Green
    } else if d <= 6 {
        Shade::DarkGreen
    } else {
        Shade::Dim
    }
}

} // verus!
