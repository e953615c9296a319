use vstd::prelude::*;

use crate::layout::{lines_of, message_lines, trim_end};
use crate::text::{
    char_from_u32, chars_of, is_scalar, is_white_space, push_char, string_of, white_space,
};

verus! {

/// Whether `needle` occurs in `hay` starting at `i`.
pub open spec fn occurs_at(hay: Seq<char>, needle: Seq<char>, i: int) -> bool {
    0 <= i && i + needle.len() <= hay.len() && hay.subrange(i, i + needle.len()) == needle
}

/// Whether `needle` occurs anywhere in `hay`.
pub open spec fn contains_seq(hay: Seq<char>, needle: Seq<char>) -> bool {
    exists|i: int| occurs_at(hay, needle, i)
}

fn occurs_at_exec(hay: &Vec<char>, needle: &Vec<char>, i: usize) -> (b: bool)
    requires
        i + needle@.len() <= hay@.len(),
    ensures
        b == occurs_at(hay@, needle@, i as int),
{
    let hn = hay.len();
    let mut j: usize = 0;
    while j < needle.len()
        invariant
            hn == hay@.len(),
            i + needle@.len() <= hay@.len(),
            j <= needle@.len(),
            forall|m: int| 0 <= m < j ==> needle@[m] == hay@[i + m],
        decreases needle.len() - j,
    {
        if needle[j] != hay[i + j] {
            assert(hay@.subrange(i as int, i + needle@.len())[j as int] != needle@[j as int]);
            return false;
        }
        j += 1;
    }
    assert(hay@.subrange(i as int, i + needle@.len()) =~= needle@);
    true
}

/// Whether `needle` occurs in `hay`.
pub fn contains_chars(hay: &Vec<char>, needle: &Vec<char>) -> (b: bool)
    ensures
        b == contains_seq(hay@, needle@),
{
    if needle.len() > hay.len() {
        return false;
    }
    let last = hay.len() - needle.len();
    let mut i: usize = 0;
    loop
        invariant
            last == hay@.len() - needle@.len(),
            i <= last,
            forall|k: int| 0 <= k < i ==> !occurs_at(hay@, needle@, k),
        decreases last - i,
    {
        if occurs_at_exec(hay, needle, i) {
            return true;
        }
        if i == last {
            return false;
        }
        i += 1;
    }
}

/// The words whose presence in a sign's name marks a format control.
pub open spec fn control_words() -> Seq<Seq<char>> {
    seq![
        "JOINER"@,
        "INSERT"@,
        "BEGIN"@,
        "END"@,
        "MIRROR"@,
        "OVERLAY"@,
        "ENCLOSURE"@,
        "SEGMENT"@,
        "BLANK"@
    ]
}

/// Whether a sign is a hieroglyphic format control: a sign of family `H`
/// whose name contains one of the control words.
pub open spec fn format_control(name: Seq<char>, family: Seq<char>) -> bool {
    family == seq!['H'] && exists|k: int|
        0 <= k < control_words().len() && contains_seq(name, #[trigger] control_words()[k])
}

pub fn is_format_control(name: &str, family: &str) -> (b: bool)
    ensures
        b == format_control(name@, family@),
{
    let fam = chars_of(family);
    if !(fam.len() == 1 && fam[0] == 'H') {
        assert(family@ != seq!['H']);
        return false;
    }
    let hay = chars_of(name);
    let mut words: Vec<&str> = Vec::new();
    words.push("JOINER");
    words.push("INSERT");
    words.push("BEGIN");
    words.push("END");
    words.push("MIRROR");
    words.push("OVERLAY");
    words.push("ENCLOSURE");
    words.push("SEGMENT");
    words.push("BLANK");
    assert(words@.map_values(|w: &str| w@) =~= control_words());
    assert(fam@ =~= seq!['H']);
    let mut k: usize = 0;
    while k < words.len()
        invariant
            k <= words@.len(),
            words@.map_values(|w: &str| w@) == control_words(),
            hay@ == name@,
            fam@ == seq!['H'],
            fam@ == family@,
            forall|j: int| 0 <= j < k ==> !contains_seq(name@, #[trigger] control_words()[j]),
        decreases words.len() - k,
    {
        let w = chars_of(words[k]);
        assert(w@ == control_words()[k as int]);
        if contains_chars(&hay, &w) {
            return true;
        }
        k += 1;
    }
    false
}

/// The index of the first white-space character of `s` at `from` or later, or
/// the length of `s`.
pub open spec fn first_space(s: Seq<char>, from: int) -> int
    decreases s.len() - from,
{
    if from < 0 || from >= s.len() {
        s.len() as int
    } else if is_white_space(s[from]) {
        from
    } else {
        first_space(s, from + 1)
    }
}

/// The words of `s`: its maximal runs of characters other than white space.
pub open spec fn words_of(s: Seq<char>) -> Seq<Seq<char>>
    decreases s.len(),
{
    if s.len() == 0 {
        Seq::empty()
    } else if is_white_space(s[0]) {
        words_of(s.skip(1))
    } else {
        let k = first_space(s, 0);
        if 0 < k <= s.len() {
            seq![s.take(k)] + words_of(s.skip(k))
        } else {
            Seq::empty()
        }
    }
}

proof fn lemma_first_space(s: Seq<char>, from: int)
    requires
        0 <= from <= s.len(),
    ensures
        from <= first_space(s, from) <= s.len(),
        first_space(s, from) < s.len() ==> is_white_space(s[first_space(s, from)]),
        forall|j: int| from <= j < first_space(s, from) ==> !is_white_space(s[j]),
    decreases s.len() - from,
{
    if from < s.len() && !is_white_space(s[from]) {
        lemma_first_space(s, from + 1);
    }
}

/// The words of `s`, as `str::split_whitespace` gives them.
pub fn words(s: &Vec<char>) -> (r: Vec<Vec<char>>)
    ensures
        r@.map_values(|w: Vec<char>| w@) == words_of(s@),
{
    let ghost t = s@;
    let mut out: Vec<Vec<char>> = Vec::new();
    let mut i: usize = 0;
    assert(t.skip(0) =~= t);
    while i < s.len()
        invariant
            i <= s.len(),
            s@ == t,
            out@.map_values(|w: Vec<char>| w@) + words_of(t.skip(i as int)) == words_of(t),
        decreases s.len() - i,
    {
        let ghost rest = t.skip(i as int);
        if white_space(s[i]) {
            assert(rest.skip(1) =~= t.skip(i + 1));
            i += 1;
        } else {
            let mut end: usize = i;
            let mut w: Vec<char> = Vec::new();
            while end < s.len() && !white_space(s[end])
                invariant
                    i <= end <= s.len(),
                    s@ == t,
                    w@ == t.subrange(i as int, end as int),
                    forall|j: int| i <= j < end ==> !is_white_space(t[j]),
                decreases s.len() - end,
            {
                w.push(s[end]);
                assert(w@ =~= t.subrange(i as int, end + 1));
                end += 1;
            }
            proof {
                lemma_first_space(rest, 0);
                let k = first_space(rest, 0);
                assert forall|j: int| 0 <= j < end - i implies !is_white_space(rest[j]) by {
                    assert(rest[j] == t[i + j]);
                }
                if end < s.len() {
                    assert(rest[end - i] == t[end as int]);
                }
                assert(k == end - i) by {
                    if k < end - i {
                        assert(rest[k] == t[i + k]);
                    }
                    if k > end - i {
                        assert(rest[end - i] == t[end as int]);
                    }
                }
                assert(w@ =~= rest.take(k));
                assert(rest.skip(k) =~= t.skip(end as int));
                assert(out@.push(w).map_values(|w: Vec<char>| w@) =~= out@.map_values(
                    |w: Vec<char>| w@,
                ).push(w@));
                assert(words_of(rest) =~= seq![w@] + words_of(t.skip(end as int)));
                assert(out@.map_values(|w: Vec<char>| w@).push(w@) + words_of(t.skip(end as int))
                    =~= out@.map_values(|w: Vec<char>| w@) + words_of(rest));
            }
            out.push(w);
            i = end;
        }
    }
    assert(t.skip(s.len() as int) =~= Seq::<char>::empty());
    assert(out@.map_values(|w: Vec<char>| w@) =~= words_of(t));
    out
}

/// The value of a hexadecimal digit of either case.
pub open spec fn hex_digit_value(c: char) -> Option<nat> {
    if '0' <= c && c <= '9' {
        Some((c as nat - '0' as nat) as nat)
    } else if 'a' <= c && c <= 'f' {
        Some((c as nat - 'a' as nat + 10) as nat)
    } else if 'A' <= c && c <= 'F' {
        Some((c as nat - 'A' as nat + 10) as nat)
    } else {
        None
    }
}

/// The value of the hexadecimal digits `ds`, or `None` where one is no digit.
pub open spec fn hex_digits_value(ds: Seq<char>) -> Option<nat>
    decreases ds.len(),
{
    if ds.len() == 0 {
        Some(0)
    } else {
        match (hex_digits_value(ds.drop_last()), hex_digit_value(ds.last())) {
            (Some(v), Some(d)) => Some(v * 16 + d),
            _ => None,
        }
    }
}

/// `s` read as a hexadecimal `u32` the way `u32::from_str_radix(s, 16)` reads
/// it: an optional `+`, then at least one digit, and a value that fits.
pub open spec fn parse_hex_u32(s: Seq<char>) -> Option<u32> {
    let ds = if s.len() > 0 && s[0] == '+' {
        s.skip(1)
    } else {
        s
    };
    if ds.len() == 0 {
        None
    } else {
        match hex_digits_value(ds) {
            Some(v) => if v <= u32::MAX {
                Some(v as u32)
            } else {
                None
            },
            None => None,
        }
    }
}

proof fn lemma_hex_value_grows(ds: Seq<char>, k: int)
    requires
        0 <= k <= ds.len(),
        hex_digits_value(ds) is Some,
    ensures
        hex_digits_value(ds.take(k)) is Some,
        hex_digits_value(ds.take(k))->0 <= hex_digits_value(ds)->0,
    decreases ds.len(),
{
    if k < ds.len() {
        assert(ds.drop_last().take(k) =~= ds.take(k));
        lemma_hex_value_grows(ds.drop_last(), k);
    } else {
        assert(ds.take(k) =~= ds);
    }
}

fn hex_digit_exec(c: char) -> (r: Option<u32>)
    ensures
        r matches Some(d) ==> hex_digit_value(c) == Some(d as nat),
        r is None ==> hex_digit_value(c) is None,
{
    if '0' <= c && c <= '9' {
        Some(c as u32 - '0' as u32)
    } else if 'a' <= c && c <= 'f' {
        Some(c as u32 - 'a' as u32 + 10)
    } else if 'A' <= c && c <= 'F' {
        Some(c as u32 - 'A' as u32 + 10)
    } else {
        None
    }
}

/// Reads `s` as a hexadecimal `u32`, as `u32::from_str_radix(s, 16)` does.
pub fn hex_u32(s: &Vec<char>) -> (r: Option<u32>)
    ensures
        r == parse_hex_u32(s@),
{
    let start: usize = if s.len() > 0 && s[0] == '+' {
        1
    } else {
        0
    };
    let ghost ds = if s@.len() > 0 && s@[0] == '+' {
        s@.skip(1)
    } else {
        s@
    };
    assert(ds =~= s@.skip(start as int));
    if start == s.len() {
        return None;
    }
    let mut v: u64 = 0;
    let mut i: usize = start;
    while i < s.len()
        invariant
            start <= i <= s.len(),
            ds == s@.skip(start as int),
            ds == (if s@.len() > 0 && s@[0] == '+' {
                s@.skip(1)
            } else {
                s@
            }),
            ds.len() > 0,
            hex_digits_value(ds.take(i - start)) == Some(v as nat),
            v <= u32::MAX,
        decreases s.len() - i,
    {
        assert(ds.take(i - start + 1).drop_last() =~= ds.take(i - start));
        assert(ds.take(i - start + 1).last() == s@[i as int]);
        match hex_digit_exec(s[i]) {
            None => {
                proof {
                    assert(hex_digits_value(ds.take(i - start + 1)) is None);
                    if hex_digits_value(ds) is Some {
                        lemma_hex_value_grows(ds, i - start + 1);
                    }
                    assert(hex_digits_value(ds) is None);
                }
                return None;
            },
            Some(d) => {
                v = v * 16 + d as u64;
                assert(hex_digits_value(ds.take(i - start + 1)) == Some(v as nat));
                if v > u32::MAX as u64 {
                    proof {
                        if hex_digits_value(ds) is Some {
                            lemma_hex_value_grows(ds, i - start + 1);
                        }
                        assert(!(hex_digits_value(ds) matches Some(x) && x <= u32::MAX));
                    }
                    return None;
                }
            },
        }
        i += 1;
    }
    assert(ds.take(s.len() - start) =~= ds);
    Some(v as u32)
}

/// The Unicode record of one Egyptian hieroglyph.
#[derive(Debug)]
pub struct HieroglyphUnicode {
    /// `U+` and the code point as written, e.g. `U+13000`.
    pub unicode_point: String,
    /// The code point as written, e.g. `13000`.
    pub codepoint_hex: String,
    pub codepoint_dec: u32,
    /// The character itself, or U+FFFD where the code point is no scalar value.
    pub glyph: String,
    /// The full name, e.g. `EGYPTIAN HIEROGLYPH A001`.
    pub unicode_name: String,
    /// The last word of the name, e.g. `A001`.
    pub unicode_id: String,
    /// The first character of the identifier, e.g. `A`.
    pub family: String,
    pub is_format_control: bool,
}

/// A names-list line whose code point is not hexadecimal; `text` is the field
/// as written.
#[derive(Debug)]
pub struct NamesLineError {
    pub text: String,
}

/// `ws` joined by single spaces.
pub open spec fn join_words(ws: Seq<Seq<char>>) -> Seq<char>
    decreases ws.len(),
{
    if ws.len() == 0 {
        Seq::empty()
    } else if ws.len() == 1 {
        ws[0]
    } else {
        join_words(ws.drop_last()) + seq![' '] + ws.last()
    }
}

/// Whether `g` is the character with code point `cp`, or the replacement
/// character U+FFFD where `cp` is no scalar value.
pub open spec fn is_glyph_of(g: Seq<char>, cp: u32) -> bool {
    g.len() == 1 && if is_scalar(cp) {
        g[0] as u32 == cp
    } else {
        g[0] == '\u{FFFD}'
    }
}

/// Whether `h` is the record of a names-list line with words `ws` whose code
/// point reads as `cp`.
pub open spec fn is_record_of(h: HieroglyphUnicode, ws: Seq<Seq<char>>, cp: u32) -> bool {
    let name = join_words(ws.skip(1));
    let id = ws.last();
    &&& h.unicode_point@ == seq!['U', '+'] + ws[0]
    &&& h.codepoint_hex@ == ws[0]
    &&& h.codepoint_dec == cp
    &&& is_glyph_of(h.glyph@, cp)
    &&& h.unicode_name@ == name
    &&& h.unicode_id@ == id
    &&& h.family@ == seq![id[0]]
    &&& h.is_format_control == format_control(name, seq![id[0]])
}

fn join_words_exec(ws: &Vec<Vec<char>>, from: usize) -> (r: String)
    requires
        from <= ws@.len(),
    ensures
        r@ == join_words(ws@.map_values(|w: Vec<char>| w@).skip(from as int)),
{
    let ghost all = ws@.map_values(|w: Vec<char>| w@).skip(from as int);
    let mut out: Vec<char> = Vec::new();
    let mut i: usize = from;
    while i < ws.len()
        invariant
            from <= i <= ws@.len(),
            all == ws@.map_values(|w: Vec<char>| w@).skip(from as int),
            out@ == join_words(all.take(i - from)),
        decreases ws.len() - i,
    {
        assert(all.take(i - from + 1).drop_last() =~= all.take(i - from));
        assert(all[i - from] == ws@[i as int]@);
        if i > from {
            out.push(' ');
        }
        let w = &ws[i];
        let mut k: usize = 0;
        let ghost before = out@;
        while k < w.len()
            invariant
                k <= w@.len(),
                out@ == before + w@.take(k as int),
            decreases w.len() - k,
        {
            out.push(w[k]);
            assert(out@ =~= before + w@.take(k + 1));
            k += 1;
        }
        assert(w@.take(w@.len() as int) =~= w@);
        proof {
            if i == from {
                assert(out@ =~= join_words(all.take(1)));
            } else {
                assert(out@ =~= join_words(all.take(i - from + 1)));
            }
        }
        i += 1;
    }
    assert(all.take(ws@.len() - from) =~= all);
    string_of(&out)
}

/// Reads one line of the Unicode names list. A line that does not name an
/// Egyptian hieroglyph gives `Ok(None)`; otherwise its first word is the code
/// point in hexadecimal and the rest is the name, whose last word is the
/// sign's identifier.
pub fn parse_names_line(line: &str) -> (r: Result<Option<HieroglyphUnicode>, NamesLineError>)
    ensures
        !contains_seq(line@, "EGYPTIAN HIEROGLYPH"@) || words_of(line@).len() < 2 ==> r matches Ok(
            None,
        ),
        contains_seq(line@, "EGYPTIAN HIEROGLYPH"@) && words_of(line@).len() >= 2 ==> match parse_hex_u32(words_of(line@)[0]) {
            None => r matches Err(e) && e.text@ == words_of(line@)[0],
            Some(cp) => r matches Ok(Some(h)) && is_record_of(h, words_of(line@), cp),
        },
{
    let cs = chars_of(line);
    let marker = chars_of("EGYPTIAN HIEROGLYPH");
    if !contains_chars(&cs, &marker) {
        return Ok(None);
    }
    let ws = words(&cs);
    let ghost wv = ws@.map_values(|w: Vec<char>| w@);
    if ws.len() < 2 {
        return Ok(None);
    }
    assert(wv[0] == ws@[0]@);
    let hex_text = string_of(&ws[0]);
    let cp = match hex_u32(&ws[0]) {
        None => {
            return Err(NamesLineError { text: hex_text });
        },
        Some(v) => v,
    };
    let mut point = String::new();
    push_char(&mut point, 'U');
    push_char(&mut point, '+');
    point.append(hex_text.as_str());
    let mut glyph = String::new();
    match char_from_u32(cp) {
        Some(c) => push_char(&mut glyph, c),
        None => push_char(&mut glyph, '\u{FFFD}'),
    }
    let name = join_words_exec(&ws, 1);
    let last = ws.len() - 1;
    assert(wv.last() == ws@[last as int]@);
    let id = string_of(&ws[last]);
    proof {
        lemma_words_non_empty(cs@, last as int);
    }
    let mut family = String::new();
    push_char(&mut family, ws[last][0]);
    let control = is_format_control(name.as_str(), family.as_str());
    let h = HieroglyphUnicode {
        unicode_point: point,
        codepoint_hex: hex_text,
        codepoint_dec: cp,
        glyph,
        unicode_name: name,
        unicode_id: id,
        family,
        is_format_control: control,
    };
    assert(h.unicode_point@ =~= seq!['U', '+'] + wv[0]);
    assert(h.family@ =~= seq![wv.last()[0]]);
    assert(h.codepoint_hex@ == wv[0]);
    assert(h.unicode_name@ == join_words(wv.skip(1)));
    assert(h.unicode_id@ == wv.last());
    assert(is_record_of(h, wv, cp));
    Ok(Some(h))
}

/// Every word is non-empty.
proof fn lemma_words_non_empty(s: Seq<char>, i: int)
    requires
        0 <= i < words_of(s).len(),
    ensures
        words_of(s)[i].len() > 0,
    decreases s.len(),
{
    if s.len() > 0 {
        if is_white_space(s[0]) {
            lemma_words_non_empty(s.skip(1), i);
        } else {
            let k = first_space(s, 0);
            lemma_first_space(s, 0);
            if i > 0 && 0 < k <= s.len() {
                lemma_words_non_empty(s.skip(k), i - 1);
            }
        }
    }
}

/// A sign of the JSesh list: family code, family name and sign code.
#[derive(Debug)]
pub struct JseshSign {
    pub family: String,
    pub family_name: String,
    pub jsesh_code: String,
}

/// Where the reading of a JSesh list stands: the current family and its name,
/// and whether the next line is that name.
#[derive(Debug)]
pub struct JseshState {
    pub family: Option<String>,
    pub family_name: Option<String>,
    pub awaiting_name: bool,
}

/// The mathematical content of a `JseshState`.
pub struct JseshStateView {
    pub family: Option<Seq<char>>,
    pub family_name: Option<Seq<char>>,
    pub awaiting_name: bool,
}

pub open spec fn opt_view(o: Option<String>) -> Option<Seq<char>> {
    match o {
        Some(s) => Some(s@),
        None => None,
    }
}

impl JseshState {
    pub open spec fn view(&self) -> JseshStateView {
        JseshStateView {
            family: opt_view(self.family),
            family_name: opt_view(self.family_name),
            awaiting_name: self.awaiting_name,
        }
    }

    /// No family seen yet.
    pub fn new() -> (r: Self)
        ensures
            r.view() == (JseshStateView { family: None, family_name: None, awaiting_name: false }),
    {
        JseshState { family: None, family_name: None, awaiting_name: false }
    }
}

/// The mathematical content of a `JseshSign`.
pub open spec fn sign_view(s: JseshSign) -> (Seq<char>, Seq<char>, Seq<char>) {
    (s.family@, s.family_name@, s.jsesh_code@)
}

/// `s` without leading white space.
pub open spec fn trim_start(s: Seq<char>) -> Seq<char>
    decreases s.len(),
{
    if s.len() > 0 && is_white_space(s[0]) {
        trim_start(s.skip(1))
    } else {
        s
    }
}

/// `s` without leading or trailing white space.
pub open spec fn trim(s: Seq<char>) -> Seq<char> {
    trim_end(trim_start(s))
}

/// The suffix that marks a family heading.
pub open spec fn family_suffix() -> Seq<char> {
    seq![' ', 'f', 'a', 'm', 'i', 'l', 'y']
}

pub open spec fn is_family_heading(l: Seq<char>) -> bool {
    l.len() >= 7 && l.skip(l.len() - 7) == family_suffix()
}

/// What follows the first space of `l`, if it has one.
pub open spec fn code_of(l: Seq<char>) -> Option<Seq<char>> {
    if exists|i: int| 0 <= i < l.len() && l[i] == ' ' {
        let i = choose|i: int| 0 <= i < l.len() && l[i] == ' ' && forall|j: int| 0 <= j < i ==> l[j] != ' ';
        Some(l.skip(i + 1))
    } else {
        None
    }
}

/// What one non-empty, trimmed line does to the reading. A family heading
/// starts a family; the line after it names the family; any other line with a
/// space is a sign, recorded when a family and its name are known and the
/// code after the first space starts with a letter or digit, as
/// `code_alnum` reports.
pub open spec fn jsesh_step(st: JseshStateView, l: Seq<char>, code_alnum: bool) -> (
    JseshStateView,
    Option<(Seq<char>, Seq<char>, Seq<char>)>,
) {
    if is_family_heading(l) {
        (
            JseshStateView {
                family: Some(l.take(l.len() - 7)),
                family_name: None,
                awaiting_name: true,
            },
            None,
        )
    } else if st.awaiting_name {
        (JseshStateView { family_name: Some(l), awaiting_name: false, ..st }, None)
    } else {
        match (code_of(l), st.family, st.family_name) {
            (Some(code), Some(f), Some(n)) => if code_alnum {
                (st, Some((f, n, code)))
            } else {
                (st, None)
            },
            _ => (st, None),
        }
    }
}

/// The named result that `char::is_alphanumeric` gives.
pub uninterp spec fn alphanumeric(c: char) -> bool;

/// Relies on `char::is_alphanumeric`: whether `c` is Unicode `Alphabetic` or
/// `Numeric`, a property of `c` alone.
#[verifier::external_body]
fn is_alphanumeric(c: char) -> (r: bool)
    ensures
        r == alphanumeric(c),
{
    c.is_alphanumeric()
}

/// Whether the sign code of line `l` starts with a letter or a digit.
pub open spec fn code_starts_alnum(l: Seq<char>) -> bool {
    match code_of(l) {
        Some(code) => code.len() > 0 && alphanumeric(code[0]),
        None => false,
    }
}

/// Reading a whole list: the state and the signs after the lines `ls`.
pub open spec fn jsesh_run(ls: Seq<Seq<char>>) -> (JseshStateView, Seq<(Seq<char>, Seq<char>, Seq<char>)>)
    decreases ls.len(),
{
    if ls.len() == 0 {
        (JseshStateView { family: None, family_name: None, awaiting_name: false }, Seq::empty())
    } else {
        let (st, out) = jsesh_run(ls.drop_last());
        let l = trim(ls.last());
        if l.len() == 0 {
            (st, out)
        } else {
            let (st2, o) = jsesh_step(st, l, code_starts_alnum(l));
            match o {
                Some(sign) => (st2, out.push(sign)),
                None => (st2, out),
            }
        }
    }
}

fn string_opt(o: &Option<String>) -> (r: Option<String>)
    ensures
        opt_view(r) == opt_view(*o),
{
    match o {
        Some(s) => Some(s.clone()),
        None => None,
    }
}

/// The index of the first space of `l`, if any.
fn first_space_char(l: &Vec<char>) -> (r: Option<usize>)
    ensures
        r matches Some(i) ==> i < l@.len() && l@[i as int] == ' ' && forall|j: int|
            0 <= j < i ==> l@[j] != ' ',
        r is None ==> forall|j: int| 0 <= j < l@.len() ==> l@[j] != ' ',
{
    let mut i: usize = 0;
    while i < l.len()
        invariant
            i <= l@.len(),
            forall|j: int| 0 <= j < i ==> l@[j] != ' ',
        decreases l.len() - i,
    {
        if l[i] == ' ' {
            return Some(i);
        }
        i += 1;
    }
    None
}

proof fn lemma_code_of(l: Seq<char>, i: int)
    requires
        0 <= i < l.len(),
        l[i] == ' ',
        forall|j: int| 0 <= j < i ==> l[j] != ' ',
    ensures
        code_of(l) == Some(l.skip(i + 1)),
{
    let k = choose|k: int| 0 <= k < l.len() && l[k] == ' ' && forall|j: int| 0 <= j < k ==> l[j] != ' ';
    assert(k == i) by {
        if k < i {
            assert(l[k] != ' ');
        }
        if k > i {
            assert(l[i] != ' ');
        }
    }
}

impl JseshState {
    /// Reads one non-empty, trimmed line; `code_alnum` says whether the code
    /// after its first space starts with a letter or digit. Returns the sign
    /// that the line records, if any.
    pub fn accept(&mut self, line: &str, code_alnum: bool) -> (r: Option<JseshSign>)
        ensures
            (final(self).view(), match r {
                Some(s) => Some(sign_view(s)),
                None => None,
            }) == jsesh_step(old(self).view(), line@, code_alnum),
    {
        let l = chars_of(line);
        let n = l.len();
        let mut heading = n >= 7;
        if heading {
            let mut j: usize = 0;
            let suffix: [char; 7] = [' ', 'f', 'a', 'm', 'i', 'l', 'y'];
            while j < 7
                invariant
                    n == l@.len() >= 7,
                    j <= 7,
                    suffix@ == family_suffix(),
                    heading == forall|m: int| 0 <= m < j ==> l@[n - 7 + m] == #[trigger] family_suffix()[m],
                decreases 7 - j,
            {
                if l[n - 7 + j] != suffix[j] {
                    heading = false;
                }
                j += 1;
            }
            proof {
                if heading {
                    assert(l@.skip(n - 7) =~= family_suffix());
                } else {
                    assert(!is_family_heading(line@)) by {
                        if is_family_heading(line@) {
                            assert(forall|m: int| 0 <= m < 7 ==> l@[n - 7 + m] == #[trigger] l@.skip(n - 7)[m]);
                        }
                    }
                }
            }
        }
        if heading {
            let mut fam: Vec<char> = Vec::new();
            let mut k: usize = 0;
            while k < n - 7
                invariant
                    n == l@.len() >= 7,
                    k <= n - 7,
                    fam@ == l@.take(k as int),
                decreases n - 7 - k,
            {
                fam.push(l[k]);
                assert(fam@ =~= l@.take(k + 1));
                k += 1;
            }
            self.family = Some(string_of(&fam));
            self.family_name = None;
            self.awaiting_name = true;
            return None;
        }
        if self.awaiting_name {
            let mut name = String::new();
            name.append(line);
            self.family_name = Some(name);
            self.awaiting_name = false;
            return None;
        }
        match first_space_char(&l) {
            None => {
                assert(code_of(line@) is None);
                None
            },
            Some(i) => {
                proof {
                    lemma_code_of(line@, i as int);
                }
                match (&self.family, &self.family_name) {
                    (Some(f), Some(nm)) => {
                        if code_alnum {
                            let mut code: Vec<char> = Vec::new();
                            let mut k: usize = i + 1;
                            while k < n
                                invariant
                                    i < n == l@.len(),
                                    i + 1 <= k <= n,
                                    code@ == l@.subrange(i + 1, k as int),
                                decreases n - k,
                            {
                                code.push(l[k]);
                                assert(code@ =~= l@.subrange(i + 1, k + 1));
                                k += 1;
                            }
                            assert(code@ =~= line@.skip(i + 1));
                            Some(
                                JseshSign {
                                    family: f.clone(),
                                    family_name: nm.clone(),
                                    jsesh_code: string_of(&code),
                                },
                            )
                        } else {
                            None
                        }
                    },
                    _ => None,
                }
            },
        }
    }
}

fn trim_chars(s: &Vec<char>) -> (r: Vec<char>)
    ensures
        r@ == trim(s@),
{
    let mut a: usize = 0;
    assert(s@.skip(0) =~= s@);
    while a < s.len() && white_space(s[a])
        invariant
            a <= s@.len(),
            trim_start(s@.skip(a as int)) == trim_start(s@),
        decreases s.len() - a,
    {
        assert(s@.skip(a as int).skip(1) =~= s@.skip(a + 1));
        a += 1;
    }
    let ghost t = s@.skip(a as int);
    assert(trim_start(t) == t);
    let mut b: usize = s.len();
    assert(t.take(b - a) =~= t);
    while b > a && white_space(s[b - 1])
        invariant
            a <= b <= s@.len(),
            t == s@.skip(a as int),
            trim_end(t.take(b - a)) == trim_end(t),
        decreases b,
    {
        assert(t.take(b - a).drop_last() =~= t.take(b - 1 - a));
        b -= 1;
    }
    let mut out: Vec<char> = Vec::new();
    let mut k: usize = a;
    while k < b
        invariant
            a <= k <= b <= s@.len(),
            out@ == s@.subrange(a as int, k as int),
        decreases b - k,
    {
        out.push(s[k]);
        assert(out@ =~= s@.subrange(a as int, k + 1));
        k += 1;
    }
    assert(out@ =~= t.take(b - a));
    assert(trim_end(t.take(b - a)) == t.take(b - a));
    out
}

/// Reads a JSesh sign list: its lines, trimmed, through `JseshState::accept`,
/// skipping empty ones; the signs in the order of their lines.
pub fn parse_jsesh(text: &str) -> (r: Vec<JseshSign>)
    ensures
        r@.map_values(|s: JseshSign| sign_view(s)) == jsesh_run(lines_of(text@)).1,
{
    let lines = message_lines(text);
    let ghost ls = lines_of(text@);
    let mut st = JseshState::new();
    let mut out: Vec<JseshSign> = Vec::new();
    let mut i: usize = 0;
    while i < lines.len()
        invariant
            i <= lines@.len() == ls.len(),
            forall|j: int| 0 <= j < lines@.len() ==> (#[trigger] lines@[j])@ == ls[j],
            (st.view(), out@.map_values(|s: JseshSign| sign_view(s))) == jsesh_run(
                ls.take(i as int),
            ),
        decreases lines.len() - i,
    {
        let lc = chars_of(lines[i].as_str());
        let t = trim_chars(&lc);
        assert(ls.take(i + 1).drop_last() =~= ls.take(i as int));
        assert(ls.take(i + 1).last() == ls[i as int]);
        if t.len() > 0 {
            let alnum = match first_space_char(&t) {
                Some(p) => {
                    proof {
                        lemma_code_of(t@, p as int);
                    }
                    if p + 1 < t.len() {
                        is_alphanumeric(t[p + 1])
                    } else {
                        false
                    }
                },
                None => false,
            };
            let ts = string_of(&t);
            match st.accept(ts.as_str(), alnum) {
                Some(sign) => {
                    assert(out@.push(sign).map_values(|s: JseshSign| sign_view(s)) =~= out@.map_values(
                        |s: JseshSign| sign_view(s),
                    ).push(sign_view(sign)));
                    out.push(sign);
                },
                None => {},
            }
        }
        i += 1;
    }
    assert(ls.take(lines@.len() as int) =~= ls);
    out
}

} // verus!
