use vstd::prelude::*;

use crate::text::{chars_of, push_char, push_repeat_char, repeat_char};

verus! {

/// How historically grounded the choice of a rune is; kept for the audit trail.
#[derive(Clone, Copy, Debug, PartialEq, Eq, Structural)]
pub enum Tradition {
    /// Common to the older runic tradition and present in Anglo-Saxon Futhorc use.
    FuthorcCore,
    /// A letter of the expanded Anglo-Saxon Futhorc inventory.
    AngloSaxonExtension,
    /// A Scandinavian form; no mapping uses one.
    ScandinavianVariant,
    /// No historically clean rune exists; a readable one stands in.
    Approximation,
}

impl Tradition {
    pub open spec fn spec_label(self) -> &'static str {
        match self {
            Tradition::FuthorcCore => "FuthorcCore",
            Tradition::AngloSaxonExtension => "AngloSaxonExtension",
            Tradition::ScandinavianVariant => "ScandinavianVariant",
            Tradition::Approximation => "Approximation",
        }
    }

    /// The variant's name, as a label for traces.
    #[verifier::when_used_as_spec(spec_label)]
    pub fn label(self) -> (r: &'static str)
        ensures
            r == self.spec_label(),
    {
        match self {
            Tradition::FuthorcCore => "FuthorcCore",
            Tradition::AngloSaxonExtension => "AngloSaxonExtension",
            Tradition::ScandinavianVariant => "ScandinavianVariant",
            Tradition::Approximation => "Approximation",
        }
    }
}

/// The runes that mappings produce.
#[derive(Clone, Copy, Debug, PartialEq, Eq, Structural)]
pub enum Rune {
    Feoh,
    Ur,
    Thorn,
    Os,
    Rad,
    Cen,
    Gyfu,
    Wynn,
    Haegl,
    Nyd,
    Is,
    Ger,
    Eoh,
    Peorth,
    Eolhx,
    Sigel,
    Tir,
    Beorc,
    Eh,
    Mann,
    Lagu,
    Ing,
    Daeg,
    Ethel,
    Ac,
    Aesc,
    Yr,
    Ear,
    Ior,
    Sh,
    V,
}

/// A rune with its metadata: glyph, code point, traditional name and tradition.
#[derive(Clone, Copy, Debug)]
pub struct RuneChar {
    pub ch: char,
    pub codepoint: u32,
    pub name: &'static str,
    pub tradition: Tradition,
}

impl RuneChar {
    pub fn new(ch: char, codepoint: u32, name: &'static str, tradition: Tradition) -> (r: Self)
        ensures
            r.ch == ch,
            r.codepoint == codepoint,
            r.name == name,
            r.tradition == tradition,
    {
        RuneChar { ch, codepoint, name, tradition }
    }
}

impl Rune {
    pub open spec fn spec_glyph(self) -> char {
        match self {
            Rune::Feoh => 'ᚠ',
            Rune::Ur => 'ᚢ',
            Rune::Thorn => 'ᚦ',
            Rune::Os => 'ᚩ',
            Rune::Rad => 'ᚱ',
            Rune::Cen => 'ᚳ',
            Rune::Gyfu => 'ᚷ',
            Rune::Wynn => 'ᚹ',
            Rune::Haegl => 'ᚻ',
            Rune::Nyd => 'ᚾ',
            Rune::Is => 'ᛁ',
            Rune::Ger => 'ᛄ',
            Rune::Eoh => 'ᛇ',
            Rune::Peorth => 'ᛈ',
            Rune::Eolhx => 'ᛉ',
            Rune::Sigel => 'ᛋ',
            Rune::Tir => 'ᛏ',
            Rune::Beorc => 'ᛒ',
            Rune::Eh => 'ᛖ',
            Rune::Mann => 'ᛗ',
            Rune::Lagu => 'ᛚ',
            Rune::Ing => 'ᛝ',
            Rune::Daeg => 'ᛞ',
            Rune::Ethel => 'ᛟ',
            Rune::Ac => 'ᚪ',
            Rune::Aesc => 'ᚫ',
            Rune::Yr => 'ᚣ',
            Rune::Ear => 'ᛠ',
            Rune::Ior => 'ᛡ',
            Rune::Sh => 'ᛲ',
            Rune::V => 'ᚡ',
        }
    }

    /// The rune's glyph in the Unicode Runic block.
    #[verifier::when_used_as_spec(spec_glyph)]
    pub fn glyph(self) -> (c: char)
        ensures
            c == self.spec_glyph(),
    {
        match self {
            Rune::Feoh => 'ᚠ',
            Rune::Ur => 'ᚢ',
            Rune::Thorn => 'ᚦ',
            Rune::Os => 'ᚩ',
            Rune::Rad => 'ᚱ',
            Rune::Cen => 'ᚳ',
            Rune::Gyfu => 'ᚷ',
            Rune::Wynn => 'ᚹ',
            Rune::Haegl => 'ᚻ',
            Rune::Nyd => 'ᚾ',
            Rune::Is => 'ᛁ',
            Rune::Ger => 'ᛄ',
            Rune::Eoh => 'ᛇ',
            Rune::Peorth => 'ᛈ',
            Rune::Eolhx => 'ᛉ',
            Rune::Sigel => 'ᛋ',
            Rune::Tir => 'ᛏ',
            Rune::Beorc => 'ᛒ',
            Rune::Eh => 'ᛖ',
            Rune::Mann => 'ᛗ',
            Rune::Lagu => 'ᛚ',
            Rune::Ing => 'ᛝ',
            Rune::Daeg => 'ᛞ',
            Rune::Ethel => 'ᛟ',
            Rune::Ac => 'ᚪ',
            Rune::Aesc => 'ᚫ',
            Rune::Yr => 'ᚣ',
            Rune::Ear => 'ᛠ',
            Rune::Ior => 'ᛡ',
            Rune::Sh => 'ᛲ',
            Rune::V => 'ᚡ',
        }
    }

    /// The rune's Unicode code point.
    pub fn codepoint(self) -> (r: u32)
        ensures
            r == self.spec_glyph() as u32,
    {
        self.glyph() as u32
    }

    pub open spec fn spec_name(self) -> &'static str {
        match self {
            Rune::Feoh => "feoh (fehu)",
            Rune::Ur => "ur",
            Rune::Thorn => "thorn",
            Rune::Os => "os",
            Rune::Rad => "rad",
            Rune::Cen => "cen",
            Rune::Gyfu => "gyfu",
            Rune::Wynn => "wynn",
            Rune::Haegl => "haegl",
            Rune::Nyd => "nyd",
            Rune::Is => "is",
            Rune::Ger => "ger",
            Rune::Eoh => "eoh (iwaz)",
            Rune::Peorth => "peorth",
            Rune::Eolhx => "eolhx (algiz)",
            Rune::Sigel => "sigel",
            Rune::Tir => "tir",
            Rune::Beorc => "beorc",
            Rune::Eh => "eh",
            Rune::Mann => "mann",
            Rune::Lagu => "lagu",
            Rune::Ing => "ing",
            Rune::Daeg => "daeg",
            Rune::Ethel => "ethel (othalan)",
            Rune::Ac => "ac",
            Rune::Aesc => "aesc",
            Rune::Yr => "yr",
            Rune::Ear => "ear",
            Rune::Ior => "ior",
            Rune::Sh => "sh (modern addition)",
            Rune::V => "v (unicode)",
        }
    }

    /// The rune's traditional name.
    #[verifier::when_used_as_spec(spec_name)]
    pub fn name(self) -> (r: &'static str)
        ensures
            r == self.spec_name(),
    {
        match self {
            Rune::Feoh => "feoh (fehu)",
            Rune::Ur => "ur",
            Rune::Thorn => "thorn",
            Rune::Os => "os",
            Rune::Rad => "rad",
            Rune::Cen => "cen",
            Rune::Gyfu => "gyfu",
            Rune::Wynn => "wynn",
            Rune::Haegl => "haegl",
            Rune::Nyd => "nyd",
            Rune::Is => "is",
            Rune::Ger => "ger",
            Rune::Eoh => "eoh (iwaz)",
            Rune::Peorth => "peorth",
            Rune::Eolhx => "eolhx (algiz)",
            Rune::Sigel => "sigel",
            Rune::Tir => "tir",
            Rune::Beorc => "beorc",
            Rune::Eh => "eh",
            Rune::Mann => "mann",
            Rune::Lagu => "lagu",
            Rune::Ing => "ing",
            Rune::Daeg => "daeg",
            Rune::Ethel => "ethel (othalan)",
            Rune::Ac => "ac",
            Rune::Aesc => "aesc",
            Rune::Yr => "yr",
            Rune::Ear => "ear",
            Rune::Ior => "ior",
            Rune::Sh => "sh (modern addition)",
            Rune::V => "v (unicode)",
        }
    }

    pub open spec fn spec_tradition(self) -> Tradition {
        match self {
            Rune::Feoh => Tradition::FuthorcCore,
            Rune::Ur => Tradition::FuthorcCore,
            Rune::Thorn => Tradition::FuthorcCore,
            Rune::Os => Tradition::AngloSaxonExtension,
            Rune::Rad => Tradition::FuthorcCore,
            Rune::Cen => Tradition::AngloSaxonExtension,
            Rune::Gyfu => Tradition::FuthorcCore,
            Rune::Wynn => Tradition::AngloSaxonExtension,
            Rune::Haegl => Tradition::AngloSaxonExtension,
            Rune::Nyd => Tradition::FuthorcCore,
            Rune::Is => Tradition::FuthorcCore,
            Rune::Ger => Tradition::AngloSaxonExtension,
            Rune::Eoh => Tradition::FuthorcCore,
            Rune::Peorth => Tradition::FuthorcCore,
            Rune::Eolhx => Tradition::FuthorcCore,
            Rune::Sigel => Tradition::AngloSaxonExtension,
            Rune::Tir => Tradition::FuthorcCore,
            Rune::Beorc => Tradition::AngloSaxonExtension,
            Rune::Eh => Tradition::FuthorcCore,
            Rune::Mann => Tradition::FuthorcCore,
            Rune::Lagu => Tradition::FuthorcCore,
            Rune::Ing => Tradition::FuthorcCore,
            Rune::Daeg => Tradition::FuthorcCore,
            Rune::Ethel => Tradition::AngloSaxonExtension,
            Rune::Ac => Tradition::AngloSaxonExtension,
            Rune::Aesc => Tradition::AngloSaxonExtension,
            Rune::Yr => Tradition::AngloSaxonExtension,
            Rune::Ear => Tradition::AngloSaxonExtension,
            Rune::Ior => Tradition::AngloSaxonExtension,
            Rune::Sh => Tradition::Approximation,
            Rune::V => Tradition::Approximation,
        }
    }

    /// The tradition that the rune is tagged with.
    #[verifier::when_used_as_spec(spec_tradition)]
    pub fn tradition(self) -> (r: Tradition)
        ensures
            r == self.spec_tradition(),
    {
        match self {
            Rune::Feoh => Tradition::FuthorcCore,
            Rune::Ur => Tradition::FuthorcCore,
            Rune::Thorn => Tradition::FuthorcCore,
            Rune::Os => Tradition::AngloSaxonExtension,
            Rune::Rad => Tradition::FuthorcCore,
            Rune::Cen => Tradition::AngloSaxonExtension,
            Rune::Gyfu => Tradition::FuthorcCore,
            Rune::Wynn => Tradition::AngloSaxonExtension,
            Rune::Haegl => Tradition::AngloSaxonExtension,
            Rune::Nyd => Tradition::FuthorcCore,
            Rune::Is => Tradition::FuthorcCore,
            Rune::Ger => Tradition::AngloSaxonExtension,
            Rune::Eoh => Tradition::FuthorcCore,
            Rune::Peorth => Tradition::FuthorcCore,
            Rune::Eolhx => Tradition::FuthorcCore,
            Rune::Sigel => Tradition::AngloSaxonExtension,
            Rune::Tir => Tradition::FuthorcCore,
            Rune::Beorc => Tradition::AngloSaxonExtension,
            Rune::Eh => Tradition::FuthorcCore,
            Rune::Mann => Tradition::FuthorcCore,
            Rune::Lagu => Tradition::FuthorcCore,
            Rune::Ing => Tradition::FuthorcCore,
            Rune::Daeg => Tradition::FuthorcCore,
            Rune::Ethel => Tradition::AngloSaxonExtension,
            Rune::Ac => Tradition::AngloSaxonExtension,
            Rune::Aesc => Tradition::AngloSaxonExtension,
            Rune::Yr => Tradition::AngloSaxonExtension,
            Rune::Ear => Tradition::AngloSaxonExtension,
            Rune::Ior => Tradition::AngloSaxonExtension,
            Rune::Sh => Tradition::Approximation,
            Rune::V => Tradition::Approximation,
        }
    }

    /// The rune with all of its metadata.
    pub fn info(self) -> (r: RuneChar)
        ensures
            r.ch == self.spec_glyph(),
            r.codepoint == self.spec_glyph() as u32,
            r.name == self.spec_name(),
            r.tradition == self.spec_tradition(),
    {
        RuneChar::new(self.glyph(), self.codepoint(), self.name(), self.tradition())
    }
}

/// The resolution of one token: zero or more runes, and why they were chosen.
/// The rationale is descriptive text for traces.
#[derive(Clone, Debug)]
pub struct Mapping {
    pub runes: Vec<Rune>,
    pub rationale: &'static str,
}

/// The runes of a mapping, if there is one.
pub open spec fn mapping_runes(m: Option<Mapping>) -> Option<Seq<Rune>> {
    match m {
        Some(m) => Some(m.runes@),
        None => None,
    }
}

/// The runes registered for a one-character token.
pub open spec fn single_runes(c: char) -> Option<Seq<Rune>> {
    match c {
        'ː' => Some(seq![]),
        'ʤ' => Some(seq![Rune::Daeg, Rune::Sh]),
        'p' => Some(seq![Rune::Peorth]),
        'b' => Some(seq![Rune::Beorc]),
        't' => Some(seq![Rune::Tir]),
        'd' => Some(seq![Rune::Daeg]),
        'k' => Some(seq![Rune::Cen]),
        'g' => Some(seq![Rune::Gyfu]),
        'f' => Some(seq![Rune::Feoh]),
        'v' => Some(seq![Rune::V]),
        'θ' => Some(seq![Rune::Thorn]),
        'ð' => Some(seq![Rune::Thorn]),
        's' => Some(seq![Rune::Sigel]),
        'z' => Some(seq![Rune::Sigel]),
        'h' => Some(seq![Rune::Haegl]),
        'm' => Some(seq![Rune::Mann]),
        'n' => Some(seq![Rune::Nyd]),
        'ŋ' => Some(seq![Rune::Ing]),
        'r' => Some(seq![Rune::Rad]),
        'l' => Some(seq![Rune::Lagu]),
        'j' => Some(seq![Rune::Ger]),
        'w' => Some(seq![Rune::Wynn]),
        'ʃ' => Some(seq![Rune::Sh]),
        'ʒ' => Some(seq![Rune::Sh]),
        'a' => Some(seq![Rune::Ac]),
        'æ' => Some(seq![Rune::Aesc]),
        'e' => Some(seq![Rune::Eh]),
        'ɛ' => Some(seq![Rune::Eh]),
        'i' => Some(seq![Rune::Is]),
        'ɪ' => Some(seq![Rune::Is]),
        'o' => Some(seq![Rune::Os]),
        'ɔ' => Some(seq![Rune::Os]),
        'u' => Some(seq![Rune::Ur]),
        'ʊ' => Some(seq![Rune::Ur]),
        'ə' => Some(seq![Rune::Eh]),
        'ʌ' => Some(seq![Rune::Ac]),
        'y' => Some(seq![Rune::Yr]),
        _ => None,
    }
}

/// The runes registered for a two-character token.
pub open spec fn pair_runes(a: char, b: char) -> Option<Seq<Rune>> {
    if a == 't' && b == 'ʃ' {
        Some(seq![Rune::Cen, Rune::Sh])
    }     else if a == 'd' && b == 'ʒ' {
        Some(seq![Rune::Daeg, Rune::Sh])
    }     else if a == 'a' && b == 'ɪ' {
        Some(seq![Rune::Ac, Rune::Is])
    }     else if a == 'e' && b == 'ɪ' {
        Some(seq![Rune::Eh, Rune::Is])
    }     else if a == 'o' && b == 'ʊ' {
        Some(seq![Rune::Os, Rune::Ur])
    }     else if a == 'a' && b == 'ʊ' {
        Some(seq![Rune::Ac, Rune::Ur])
    }     else if a == 'ɔ' && b == 'ɪ' {
        Some(seq![Rune::Os, Rune::Is])
    } else {
        None
    }
}

/// The runes registered for a token, or `None` where the table has no entry.
pub open spec fn token_runes(t: Seq<char>) -> Option<Seq<Rune>> {
    if t.len() == 1 {
        single_runes(t[0])
    } else if t.len() == 2 {
        pair_runes(t[0], t[1])
    } else {
        None
    }
}

/// The rationale registered for a one-character token.
pub open spec fn single_rationale(c: char) -> Option<&'static str> {
    match c {
        'ː' => Some("IPA length marker ignored for rune output (no direct rune length diacritic here)."),
        'ʤ' => Some("Affricate /dʒ/ approximated as /d/ + /ʒ/~/ʃ/: DAEG + (approx) SH."),
        'p' => Some("/p/ -> PEORTH (p)."),
        'b' => Some("/b/ -> BEORC (b)."),
        't' => Some("/t/ -> TIR (t)."),
        'd' => Some("/d/ -> DAEG (d) (using daeg form for simplicity)."),
        'k' => Some("/k/ -> CEN (c/k) chosen as Futhorc-friendly form."),
        'g' => Some("/g/ -> GYFU (g)."),
        'f' => Some("/f/ -> FEOH (f)."),
        'v' => Some("/v/ -> Unicode V rune (approximation; not cleanly historical)."),
        'θ' => Some("/θ/ -> THORN."),
        'ð' => Some("/ð/ -> THORN (same rune used for th-sounds here)."),
        's' => Some("/s/ -> SIGEL."),
        'z' => Some("/z/ -> SIGEL (approx; no dedicated z rune in this scheme)."),
        'h' => Some("/h/ -> HAEGL."),
        'm' => Some("/m/ -> MANN."),
        'n' => Some("/n/ -> NYD."),
        'ŋ' => Some("/ŋ/ -> ING."),
        'r' => Some("/r/ -> RAD."),
        'l' => Some("/l/ -> LAGU."),
        'j' => Some("/j/ -> GER (approx for y-sound; pragmatic mapping)."),
        'w' => Some("/w/ -> WYNN."),
        'ʃ' => Some("/ʃ/ -> SH rune (approximation; later addition)."),
        'ʒ' => Some("/ʒ/ -> SH rune (approximation; closest readable option)."),
        'a' => Some("/a/ -> AC (a)."),
        'æ' => Some("/æ/ -> AESC (ash)."),
        'e' => Some("/e/ -> EH (e)."),
        'ɛ' => Some("/ɛ/ -> EH (approx; open-mid front vowel mapped to e-rune)."),
        'i' => Some("/i/ -> IS (i)."),
        'ɪ' => Some("/ɪ/ -> IS (approx; i-like vowel)."),
        'o' => Some("/o/ -> OS (o)."),
        'ɔ' => Some("/ɔ/ -> OS (approx; o-like vowel)."),
        'u' => Some("/u/ -> UR (u)."),
        'ʊ' => Some("/ʊ/ -> UR (approx; u-like vowel)."),
        'ə' => Some("/ə/ -> EH (approx schwa -> e as neutral vowel)."),
        'ʌ' => Some("/ʌ/ -> AC (approx; a-like central vowel)."),
        'y' => Some("/y/ -> YR (approx front rounded vowel; if present in your IPA)."),
        _ => None,
    }
}

/// The rationale registered for a two-character token.
pub open spec fn pair_rationale(a: char, b: char) -> Option<&'static str> {
    if a == 't' && b == 'ʃ' {
        Some("Affricate /tʃ/ approximated as /t/~/k/ + /ʃ/: CEN + (approx) SH.")
    }     else if a == 'd' && b == 'ʒ' {
        Some("Affricate /dʒ/ approximated as /d/ + /ʒ/~/ʃ/: DAEG + (approx) SH.")
    }     else if a == 'a' && b == 'ɪ' {
        Some("Diphthong /aɪ/ approximated as AC + IS (a + i).")
    }     else if a == 'e' && b == 'ɪ' {
        Some("Diphthong /eɪ/ approximated as EH + IS (e + i).")
    }     else if a == 'o' && b == 'ʊ' {
        Some("Diphthong /oʊ/ approximated as OS + UR (o + u).")
    }     else if a == 'a' && b == 'ʊ' {
        Some("Diphthong /aʊ/ approximated as AC + UR (a + u).")
    }     else if a == 'ɔ' && b == 'ɪ' {
        Some("Diphthong /ɔɪ/ approximated as OS + IS (o + i).")
    } else {
        None
    }
}

/// The rationale registered for a token, or `None` where the table has no
/// entry.
pub open spec fn token_rationale(t: Seq<char>) -> Option<&'static str> {
    if t.len() == 1 {
        single_rationale(t[0])
    } else if t.len() == 2 {
        pair_rationale(t[0], t[1])
    } else {
        None
    }
}

/// The rationale of a mapping, if there is one.
pub open spec fn mapping_rationale(m: Option<Mapping>) -> Option<&'static str> {
    match m {
        Some(m) => Some(m.rationale),
        None => None,
    }
}

fn map_single(c: char) -> (r: Option<Mapping>)
    ensures
        mapping_runes(r) == single_runes(c),
        mapping_rationale(r) == single_rationale(c),
{
    let (runes, rationale): (Vec<Rune>, &'static str) = match c {
        'ː' => (vec![], "IPA length marker ignored for rune output (no direct rune length diacritic here)."),
        'ʤ' => (vec![Rune::Daeg, Rune::Sh], "Affricate /dʒ/ approximated as /d/ + /ʒ/~/ʃ/: DAEG + (approx) SH."),
        'p' => (vec![Rune::Peorth], "/p/ -> PEORTH (p)."),
        'b' => (vec![Rune::Beorc], "/b/ -> BEORC (b)."),
        't' => (vec![Rune::Tir], "/t/ -> TIR (t)."),
        'd' => (vec![Rune::Daeg], "/d/ -> DAEG (d) (using daeg form for simplicity)."),
        'k' => (vec![Rune::Cen], "/k/ -> CEN (c/k) chosen as Futhorc-friendly form."),
        'g' => (vec![Rune::Gyfu], "/g/ -> GYFU (g)."),
        'f' => (vec![Rune::Feoh], "/f/ -> FEOH (f)."),
        'v' => (vec![Rune::V], "/v/ -> Unicode V rune (approximation; not cleanly historical)."),
        'θ' => (vec![Rune::Thorn], "/θ/ -> THORN."),
        'ð' => (vec![Rune::Thorn], "/ð/ -> THORN (same rune used for th-sounds here)."),
        's' => (vec![Rune::Sigel], "/s/ -> SIGEL."),
        'z' => (vec![Rune::Sigel], "/z/ -> SIGEL (approx; no dedicated z rune in this scheme)."),
        'h' => (vec![Rune::Haegl], "/h/ -> HAEGL."),
        'm' => (vec![Rune::Mann], "/m/ -> MANN."),
        'n' => (vec![Rune::Nyd], "/n/ -> NYD."),
        'ŋ' => (vec![Rune::Ing], "/ŋ/ -> ING."),
        'r' => (vec![Rune::Rad], "/r/ -> RAD."),
        'l' => (vec![Rune::Lagu], "/l/ -> LAGU."),
        'j' => (vec![Rune::Ger], "/j/ -> GER (approx for y-sound; pragmatic mapping)."),
        'w' => (vec![Rune::Wynn], "/w/ -> WYNN."),
        'ʃ' => (vec![Rune::Sh], "/ʃ/ -> SH rune (approximation; later addition)."),
        'ʒ' => (vec![Rune::Sh], "/ʒ/ -> SH rune (approximation; closest readable option)."),
        'a' => (vec![Rune::Ac], "/a/ -> AC (a)."),
        'æ' => (vec![Rune::Aesc], "/æ/ -> AESC (ash)."),
        'e' => (vec![Rune::Eh], "/e/ -> EH (e)."),
        'ɛ' => (vec![Rune::Eh], "/ɛ/ -> EH (approx; open-mid front vowel mapped to e-rune)."),
        'i' => (vec![Rune::Is], "/i/ -> IS (i)."),
        'ɪ' => (vec![Rune::Is], "/ɪ/ -> IS (approx; i-like vowel)."),
        'o' => (vec![Rune::Os], "/o/ -> OS (o)."),
        'ɔ' => (vec![Rune::Os], "/ɔ/ -> OS (approx; o-like vowel)."),
        'u' => (vec![Rune::Ur], "/u/ -> UR (u)."),
        'ʊ' => (vec![Rune::Ur], "/ʊ/ -> UR (approx; u-like vowel)."),
        'ə' => (vec![Rune::Eh], "/ə/ -> EH (approx schwa -> e as neutral vowel)."),
        'ʌ' => (vec![Rune::Ac], "/ʌ/ -> AC (approx; a-like central vowel)."),
        'y' => (vec![Rune::Yr], "/y/ -> YR (approx front rounded vowel; if present in your IPA)."),
        _ => {
            return None;
        },
    };
    assert(runes@ == single_runes(c).unwrap());
    Some(Mapping { runes, rationale })
}

fn map_pair(a: char, b: char) -> (r: Option<Mapping>)
    ensures
        mapping_runes(r) == pair_runes(a, b),
        mapping_rationale(r) == pair_rationale(a, b),
{
    if a == 't' && b == 'ʃ' {
        Some(Mapping { runes: vec![Rune::Cen, Rune::Sh], rationale: "Affricate /tʃ/ approximated as /t/~/k/ + /ʃ/: CEN + (approx) SH." })
    }     else if a == 'd' && b == 'ʒ' {
        Some(Mapping { runes: vec![Rune::Daeg, Rune::Sh], rationale: "Affricate /dʒ/ approximated as /d/ + /ʒ/~/ʃ/: DAEG + (approx) SH." })
    }     else if a == 'a' && b == 'ɪ' {
        Some(Mapping { runes: vec![Rune::Ac, Rune::Is], rationale: "Diphthong /aɪ/ approximated as AC + IS (a + i)." })
    }     else if a == 'e' && b == 'ɪ' {
        Some(Mapping { runes: vec![Rune::Eh, Rune::Is], rationale: "Diphthong /eɪ/ approximated as EH + IS (e + i)." })
    }     else if a == 'o' && b == 'ʊ' {
        Some(Mapping { runes: vec![Rune::Os, Rune::Ur], rationale: "Diphthong /oʊ/ approximated as OS + UR (o + u)." })
    }     else if a == 'a' && b == 'ʊ' {
        Some(Mapping { runes: vec![Rune::Ac, Rune::Ur], rationale: "Diphthong /aʊ/ approximated as AC + UR (a + u)." })
    }     else if a == 'ɔ' && b == 'ɪ' {
        Some(Mapping { runes: vec![Rune::Os, Rune::Is], rationale: "Diphthong /ɔɪ/ approximated as OS + IS (o + i)." })
    } else {
        None
    }
}

/// Looks a token up in the mapping table: its runes and rationale, or `None`
/// where no entry is registered. Never fails.
pub fn map_token(token: &str) -> (r: Option<Mapping>)
    ensures
        mapping_runes(r) == token_runes(token@),
        mapping_rationale(r) == token_rationale(token@),
{
    let cs = chars_of(token);
    if cs.len() == 1 {
        map_single(cs[0])
    } else if cs.len() == 2 {
        map_pair(cs[0], cs[1])
    } else {
        None
    }
}

/// The upper-case hexadecimal digit for `d`.
pub open spec fn hex_digit(d: nat) -> char {
    if d < 10 {
        (48 + d) as char
    } else {
        (55 + d) as char
    }
}

/// `n` in upper-case hexadecimal, without leading zeros.
pub open spec fn hex_of(n: nat) -> Seq<char>
    decreases n,
{
    if n < 16 {
        seq![hex_digit(n)]
    } else {
        hex_of(n / 16) + seq![hex_digit(n % 16)]
    }
}

/// `s` padded with `c` to at least `w` characters, on the left or the right.
pub open spec fn padded(s: Seq<char>, c: char, w: nat, left: bool) -> Seq<char> {
    let fill = repeat_char(c, if s.len() < w {
        (w - s.len()) as nat
    } else {
        0
    });
    if left {
        fill + s
    } else {
        s + fill
    }
}

fn hex_digit_exec(d: u32) -> (c: char)
    requires
        d < 16,
    ensures
        c == hex_digit(d as nat),
{
    match d {
        0 => '0',
        1 => '1',
        2 => '2',
        3 => '3',
        4 => '4',
        5 => '5',
        6 => '6',
        7 => '7',
        8 => '8',
        9 => '9',
        10 => 'A',
        11 => 'B',
        12 => 'C',
        13 => 'D',
        14 => 'E',
        _ => 'F',
    }
}

fn hex_len(n: u32) -> (r: usize)
    ensures
        r == hex_of(n as nat).len(),
        r <= n / 16 + 1,
    decreases n,
{
    if n < 16 {
        1
    } else {
        let k = hex_len(n / 16);
        assert(n / 16 / 16 + 2 <= n / 16 + 1) by (nonlinear_arith)
            requires
                n >= 16,
        ;
        k + 1
    }
}

fn push_hex(out: &mut String, n: u32)
    ensures
        final(out)@ == old(out)@ + hex_of(n as nat),
    decreases n,
{
    if n >= 16 {
        push_hex(out, n / 16);
    }
    push_char(out, hex_digit_exec(n % 16));
    assert(final(out)@ =~= old(out)@ + hex_of(n as nat));
}

/// The trace line of a rune: glyph, tab, then in parentheses `U+` with the
/// code point in at least four upper-case hex digits, two spaces, the name
/// padded to twenty characters, ` / ` and the tradition.
pub open spec fn rune_line(r: RuneChar) -> Seq<char> {
    seq![r.ch, '\t', '(', 'U', '+'] + padded(hex_of(r.codepoint as nat), '0', 4, true) + seq![
        ' ',
        ' ',
    ] + padded(r.name@, ' ', 20, false) + seq![' ', '/', ' '] + r.tradition.spec_label()@ + seq![
        ')',
    ]
}

fn push_hex4(out: &mut String, n: u32)
    ensures
        final(out)@ == old(out)@ + padded(hex_of(n as nat), '0', 4, true),
{
    let hl = hex_len(n);
    push_repeat_char(
        out,
        '0',
        if hl < 4 {
            4 - hl
        } else {
            0
        },
    );
    push_hex(out, n);
    assert(final(out)@ =~= old(out)@ + padded(hex_of(n as nat), '0', 4, true));
}

fn push_padded(out: &mut String, s: &str, w: usize)
    ensures
        final(out)@ == old(out)@ + padded(s@, ' ', w as nat, false),
{
    out.append(s);
    let n = s.unicode_len();
    push_repeat_char(
        out,
        ' ',
        if n < w {
            w - n
        } else {
            0
        },
    );
    assert(final(out)@ =~= old(out)@ + padded(s@, ' ', w as nat, false));
}

pub fn fmt_rune(r: &RuneChar) -> (s: String)
    ensures
        s@ == rune_line(*r),
{
    let mut out = String::new();
    push_char(&mut out, r.ch);
    push_char(&mut out, '\t');
    push_char(&mut out, '(');
    push_char(&mut out, 'U');
    push_char(&mut out, '+');
    let ghost head = out@;
    push_hex4(&mut out, r.codepoint);
    push_char(&mut out, ' ');
    push_char(&mut out, ' ');
    let ghost mid = out@;
    push_padded(&mut out, r.name, 20);
    push_char(&mut out, ' ');
    push_char(&mut out, '/');
    push_char(&mut out, ' ');
    out.append(r.tradition.label());
    push_char(&mut out, ')');
    assert(head =~= seq![r.ch, '\t', '(', 'U', '+']);
    assert(out@ =~= rune_line(*r));
    out
}

} // verus!
