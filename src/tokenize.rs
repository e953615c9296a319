use vstd::prelude::*;

use crate::text::{chars_of, string_of, strings_view};

verus! {

/// A tokenization rule: an IPA pattern and what it stands for.
#[derive(Clone, Copy, Debug)]
pub struct TokenRule {
    pub ipa: &'static str,
    pub desc: &'static str,
}

/// One token of a transcription, with the index of the rule that produced it,
/// or `None` where no rule matched and the token is a single character.
#[derive(Clone, Debug)]
pub struct Token {
    pub text: String,
    pub rule: Option<usize>,
}

/// The patterns of a rule table, in table order.
pub open spec fn patterns(rules: Seq<TokenRule>) -> Seq<Seq<char>> {
    rules.map_values(|r: TokenRule| r.ipa@)
}

/// A pattern matches `s` when it is non-empty and a prefix of `s`.
pub open spec fn pattern_matches(p: Seq<char>, s: Seq<char>) -> bool {
    0 < p.len() <= s.len() && s.take(p.len() as int) == p
}

/// The index of the first pattern, at `from` or later, that matches `s`.
pub open spec fn first_match(pats: Seq<Seq<char>>, s: Seq<char>, from: int) -> Option<int>
    decreases pats.len() - from,
{
    if from < 0 || from >= pats.len() {
        None
    } else if pattern_matches(pats[from], s) {
        Some(from)
    } else {
        first_match(pats, s, from + 1)
    }
}

/// The length of the token that starts `s`: the first matching pattern's
/// length, or one character where no pattern matches.
pub open spec fn token_len(pats: Seq<Seq<char>>, s: Seq<char>) -> nat {
    match first_match(pats, s, 0) {
        Some(k) => pats[k].len(),
        None => 1,
    }
}

/// Greedy tokenization of `s`: at each position the first matching pattern in
/// table order is taken, whatever its length; with none, one character.
pub open spec fn tokens_of(pats: Seq<Seq<char>>, s: Seq<char>) -> Seq<Seq<char>>
    decreases s.len(),
{
    if s.len() == 0 {
        Seq::empty()
    } else {
        let n = token_len(pats, s);
        if 0 < n <= s.len() {
            seq![s.take(n as int)] + tokens_of(pats, s.skip(n as int))
        } else {
            Seq::empty()
        }
    }
}

/// For each token of `tokens_of(pats, s)`, the rule that produced it.
pub open spec fn rules_of(pats: Seq<Seq<char>>, s: Seq<char>) -> Seq<Option<int>>
    decreases s.len(),
{
    if s.len() == 0 {
        Seq::empty()
    } else {
        let n = token_len(pats, s);
        if 0 < n <= s.len() {
            seq![first_match(pats, s, 0)] + rules_of(pats, s.skip(n as int))
        } else {
            Seq::empty()
        }
    }
}

proof fn lemma_first_match_bounds(pats: Seq<Seq<char>>, s: Seq<char>, from: int)
    requires
        0 <= from,
    ensures
        first_match(pats, s, from) matches Some(k) ==> from <= k < pats.len() && pattern_matches(
            pats[k],
            s,
        ),
        first_match(pats, s, from) is None ==> forall|j: int|
            from <= j < pats.len() ==> !pattern_matches(#[trigger] pats[j], s),
    decreases pats.len() - from,
{
    if 0 <= from < pats.len() && !pattern_matches(pats[from], s) {
        lemma_first_match_bounds(pats, s, from + 1);
    }
}

proof fn lemma_token_len_fits(pats: Seq<Seq<char>>, s: Seq<char>)
    requires
        s.len() > 0,
    ensures
        0 < token_len(pats, s) <= s.len(),
{
    lemma_first_match_bounds(pats, s, 0);
}

/// Concatenating the tokens of `s` in order gives back `s`.
pub proof fn lemma_tokens_reconstruct(pats: Seq<Seq<char>>, s: Seq<char>)
    ensures
        tokens_of(pats, s).flatten() == s,
    decreases s.len(),
{
    if s.len() > 0 {
        lemma_token_len_fits(pats, s);
        let n = token_len(pats, s) as int;
        lemma_tokens_reconstruct(pats, s.skip(n));
        let t = tokens_of(pats, s);
        assert(t.drop_first() =~= tokens_of(pats, s.skip(n)));
        assert(s.take(n) + s.skip(n) =~= s);
    }
}

proof fn lemma_rules_len(pats: Seq<Seq<char>>, s: Seq<char>)
    ensures
        rules_of(pats, s).len() == tokens_of(pats, s).len(),
    decreases s.len(),
{
    if s.len() > 0 {
        lemma_token_len_fits(pats, s);
        lemma_rules_len(pats, s.skip(token_len(pats, s) as int));
    }
}

/// Every token is non-empty.
pub proof fn lemma_tokens_non_empty(pats: Seq<Seq<char>>, s: Seq<char>, i: int)
    requires
        0 <= i < tokens_of(pats, s).len(),
    ensures
        tokens_of(pats, s)[i].len() > 0,
    decreases s.len(),
{
    lemma_token_len_fits(pats, s);
    let n = token_len(pats, s) as int;
    if i > 0 {
        lemma_tokens_non_empty(pats, s.skip(n), i - 1);
    }
}

/// Rule order decides: where the rule at `k` matches the start of `s` and no
/// earlier rule does, the first token is that rule's pattern, even where a
/// later rule matches too.
pub proof fn lemma_rule_order_decides(pats: Seq<Seq<char>>, s: Seq<char>, k: int)
    requires
        0 <= k < pats.len(),
        pattern_matches(pats[k], s),
        forall|j: int| 0 <= j < k ==> !pattern_matches(#[trigger] pats[j], s),
    ensures
        tokens_of(pats, s).len() > 0,
        tokens_of(pats, s)[0] == pats[k],
        rules_of(pats, s)[0] == Some(k),
{
    lemma_first_match_from(pats, s, 0, k);
}

proof fn lemma_first_match_from(pats: Seq<Seq<char>>, s: Seq<char>, from: int, k: int)
    requires
        0 <= from <= k < pats.len(),
        pattern_matches(pats[k], s),
        forall|j: int| from <= j < k ==> !pattern_matches(#[trigger] pats[j], s),
    ensures
        first_match(pats, s, from) == Some(k),
    decreases k - from,
{
    if from < k {
        lemma_first_match_from(pats, s, from + 1, k);
    }
}

/// Whether `p` is a non-empty prefix of `s[i..]`.
fn matches_at(p: &Vec<char>, s: &Vec<char>, i: usize) -> (b: bool)
    requires
        i <= s.len(),
    ensures
        b == pattern_matches(p@, s@.skip(i as int)),
{
    if p.len() == 0 || p.len() > s.len() - i {
        return false;
    }
    let mut j: usize = 0;
    while j < p.len()
        invariant
            0 < p.len() <= s.len() - i,
            j <= p.len(),
            forall|m: int| 0 <= m < j ==> p@[m] == s@[i + m],
        decreases p.len() - j,
    {
        if p[j] != s[i + j] {
            assert(s@.skip(i as int).take(p.len() as int)[j as int] != p@[j as int]);
            return false;
        }
        j += 1;
    }
    assert(s@.skip(i as int).take(p.len() as int) =~= p@);
    true
}

/// A rule index as an integer.
pub open spec fn index_view(o: Option<usize>) -> Option<int> {
    match o {
        Some(k) => Some(k as int),
        None => None,
    }
}

/// The index of the first pattern that matches `s[i..]`.
fn find_rule(pats: &Vec<Vec<char>>, s: &Vec<char>, i: usize) -> (r: Option<usize>)
    requires
        i <= s.len(),
    ensures
        index_view(r) == first_match(pats@.map_values(|p: Vec<char>| p@), s@.skip(i as int), 0),
{
    let ghost ps = pats@.map_values(|p: Vec<char>| p@);
    let ghost rest = s@.skip(i as int);
    let mut k: usize = 0;
    while k < pats.len()
        invariant
            k <= pats.len(),
            ps == pats@.map_values(|p: Vec<char>| p@),
            rest == s@.skip(i as int),
            i <= s.len(),
            first_match(ps, rest, 0) == first_match(ps, rest, k as int),
        decreases pats.len() - k,
    {
        if matches_at(&pats[k], s, i) {
            return Some(k);
        }
        k += 1;
    }
    None
}

/// Tokenizes `ipa` against `rules` by greedy first match in table order; a
/// character that no rule matches becomes a token of its own.
pub fn tokenize_with(rules: &Vec<TokenRule>, ipa: &str) -> (r: Vec<Token>)
    ensures
        r@.len() == tokens_of(patterns(rules@), ipa@).len(),
        r@.len() == rules_of(patterns(rules@), ipa@).len(),
        forall|i: int|
            0 <= i < r@.len() ==> r@[i].text@ == tokens_of(patterns(rules@), ipa@)[i]
                && index_view((#[trigger] r@[i]).rule) == rules_of(patterns(rules@), ipa@)[i],
{
    let ghost ps = patterns(rules@);
    let mut pats: Vec<Vec<char>> = Vec::new();
    let mut k: usize = 0;
    while k < rules.len()
        invariant
            k <= rules.len(),
            pats@.len() == k,
            forall|j: int| 0 <= j < k ==> #[trigger] pats@[j]@ == rules@[j].ipa@,
        decreases rules.len() - k,
    {
        pats.push(chars_of(rules[k].ipa));
        k += 1;
    }
    assert(pats@.map_values(|p: Vec<char>| p@) =~= ps);
    let cs = chars_of(ipa);
    let ghost s = ipa@;
    let mut out: Vec<Token> = Vec::new();
    let mut i: usize = 0;
    assert(s.skip(0) =~= s);
    assert(out@.map_values(|t: Token| t.text@) =~= Seq::<Seq<char>>::empty());
    assert(out@.map_values(|t: Token| index_view(t.rule)) =~= Seq::<Option<int>>::empty());
    while i < cs.len()
        invariant
            i <= cs.len(),
            cs@ == s,
            pats@.map_values(|p: Vec<char>| p@) == ps,
            out@.map_values(|t: Token| t.text@) + tokens_of(ps, s.skip(i as int)) == tokens_of(
                ps,
                s,
            ),
            out@.map_values(|t: Token| index_view(t.rule)) + rules_of(ps, s.skip(i as int))
                == rules_of(ps, s),
        decreases cs.len() - i,
    {
        let ghost rest = s.skip(i as int);
        proof {
            lemma_token_len_fits(ps, rest);
            lemma_first_match_bounds(ps, rest, 0);
        }
        let found = find_rule(&pats, &cs, i);
        let (text, len) = match found {
            Some(k) => (string_of(&pats[k]), pats[k].len()),
            None => {
                let mut one: Vec<char> = Vec::new();
                one.push(cs[i]);
                proof {
                    assert(one@ =~= rest.take(1));
                }
                (string_of(&one), 1)
            },
        };
        let tok = Token { text, rule: found };
        proof {
            assert(len == token_len(ps, rest));
            assert(rest.skip(len as int) =~= s.skip(i + len));
            assert(out@.push(tok).map_values(|t: Token| t.text@) =~= out@.map_values(
                |t: Token| t.text@,
            ).push(tok.text@));
            assert(out@.push(tok).map_values(|t: Token| index_view(t.rule)) =~= out@.map_values(
                |t: Token| index_view(t.rule),
            ).push(index_view(tok.rule)));
            assert(tokens_of(ps, rest) =~= seq![tok.text@] + tokens_of(ps, s.skip(i + len)));
            assert(rules_of(ps, rest) =~= seq![index_view(tok.rule)] + rules_of(
                ps,
                s.skip(i + len),
            ));
            assert(out@.map_values(|t: Token| t.text@).push(tok.text@) + tokens_of(
                ps,
                s.skip(i + len),
            ) =~= out@.map_values(|t: Token| t.text@) + tokens_of(ps, rest));
            assert(out@.map_values(|t: Token| index_view(t.rule)).push(index_view(tok.rule))
                + rules_of(ps, s.skip(i + len)) =~= out@.map_values(
                |t: Token| index_view(t.rule),
            ) + rules_of(ps, rest));
        }
        out.push(tok);
        i += len;
    }
    proof {
        lemma_rules_len(ps, s);
        assert(s.skip(cs.len() as int) =~= Seq::<char>::empty());
        assert(out@.map_values(|t: Token| t.text@) =~= tokens_of(ps, s));
        assert(out@.map_values(|t: Token| index_view(t.rule)) =~= rules_of(ps, s));
        assert forall|i: int| 0 <= i < out@.len() implies out@[i].text@ == tokens_of(ps, s)[i]
            && index_view((#[trigger] out@[i]).rule) == rules_of(ps, s)[i] by {
            assert(out@.map_values(|t: Token| t.text@)[i] == out@[i].text@);
            assert(out@.map_values(|t: Token| index_view(t.rule))[i] == index_view(out@[i].rule));
        }
    }
    out
}

/// The patterns of the IPA rule table, in order. Affricates and diphthongs
/// come before every single-character rule that shares their first character.
pub open spec fn ipa_patterns() -> Seq<Seq<char>> {
    seq![
        seq!['t', 'ʃ'],
        seq!['d', 'ʒ'],
        seq!['ʤ'],
        seq!['a', 'ɪ'],
        seq!['e', 'ɪ'],
        seq!['o', 'ʊ'],
        seq!['a', 'ʊ'],
        seq!['ɔ', 'ɪ'],
        seq!['θ'],
        seq!['ð'],
        seq!['ŋ'],
        seq!['ʃ'],
        seq!['ʒ'],
        seq!['ː']
    ]
}

/// The IPA rule table: affricates, then diphthongs, then single-character
/// consonants, then the length marker.
pub fn ipa_token_rules() -> (r: Vec<TokenRule>)
    ensures
        patterns(r@) == ipa_patterns(),
{
    let mut r: Vec<TokenRule> = Vec::new();
    r.push(TokenRule { ipa: "tʃ", desc: "voiceless postalveolar affricate (ch)" });
    r.push(TokenRule { ipa: "dʒ", desc: "voiced postalveolar affricate (j)" });
    r.push(TokenRule { ipa: "ʤ", desc: "voiced postalveolar affricate ligature (j)" });
    r.push(TokenRule { ipa: "aɪ", desc: "diphthong (as in 'time')" });
    r.push(TokenRule { ipa: "eɪ", desc: "diphthong (as in 'day')" });
    r.push(TokenRule { ipa: "oʊ", desc: "diphthong (as in 'go')" });
    r.push(TokenRule { ipa: "aʊ", desc: "diphthong (as in 'now')" });
    r.push(TokenRule { ipa: "ɔɪ", desc: "diphthong (as in 'boy')" });
    r.push(TokenRule { ipa: "θ", desc: "voiceless dental fricative (th in 'thin')" });
    r.push(TokenRule { ipa: "ð", desc: "voiced dental fricative (th in 'this')" });
    r.push(TokenRule { ipa: "ŋ", desc: "velar nasal (ng in 'sing')" });
    r.push(TokenRule { ipa: "ʃ", desc: "voiceless postalveolar fricative (sh)" });
    r.push(TokenRule { ipa: "ʒ", desc: "voiced postalveolar fricative (zh)" });
    r.push(TokenRule { ipa: "ː", desc: "length marker" });
    proof {
        reveal_strlit("tʃ");
        reveal_strlit("dʒ");
        reveal_strlit("ʤ");
        reveal_strlit("aɪ");
        reveal_strlit("eɪ");
        reveal_strlit("oʊ");
        reveal_strlit("aʊ");
        reveal_strlit("ɔɪ");
        reveal_strlit("θ");
        reveal_strlit("ð");
        reveal_strlit("ŋ");
        reveal_strlit("ʃ");
        reveal_strlit("ʒ");
        reveal_strlit("ː");
    }
    assert(patterns(r@)[0] == ipa_patterns()[0]);
    assert(patterns(r@)[1] == ipa_patterns()[1]);
    assert(patterns(r@)[2] == ipa_patterns()[2]);
    assert(patterns(r@)[3] == ipa_patterns()[3]);
    assert(patterns(r@)[4] == ipa_patterns()[4]);
    assert(patterns(r@)[5] == ipa_patterns()[5]);
    assert(patterns(r@)[6] == ipa_patterns()[6]);
    assert(patterns(r@)[7] == ipa_patterns()[7]);
    assert(patterns(r@)[8] == ipa_patterns()[8]);
    assert(patterns(r@)[9] == ipa_patterns()[9]);
    assert(patterns(r@)[10] == ipa_patterns()[10]);
    assert(patterns(r@)[11] == ipa_patterns()[11]);
    assert(patterns(r@)[12] == ipa_patterns()[12]);
    assert(patterns(r@)[13] == ipa_patterns()[13]);
    assert(patterns(r@) =~= ipa_patterns());
    r
}

/// Tokenizes a normalized IPA string against the IPA rule table.
pub fn tokenize_ipa(ipa: &str) -> (r: Vec<String>)
    ensures
        strings_view(r@) == tokens_of(ipa_patterns(), ipa@),
{
    let rules = ipa_token_rules();
    let toks = tokenize_with(&rules, ipa);
    let mut out: Vec<String> = Vec::new();
    let mut i: usize = 0;
    while i < toks.len()
        invariant
            i <= toks.len(),
            toks@.len() == tokens_of(ipa_patterns(), ipa@).len(),
            forall|j: int|
                0 <= j < toks@.len() ==> #[trigger] toks@[j].text@ == tokens_of(
                    ipa_patterns(),
                    ipa@,
                )[j],
            strings_view(out@) == tokens_of(ipa_patterns(), ipa@).take(i as int),
        decreases toks.len() - i,
    {
        let t = toks[i].text.clone();
        assert(strings_view(out@.push(t)) =~= strings_view(out@).push(t@));
        out.push(t);
        assert(strings_view(out@) =~= tokens_of(ipa_patterns(), ipa@).take(i + 1));
        i += 1;
    }
    assert(strings_view(out@) =~= tokens_of(ipa_patterns(), ipa@));
    out
}

} // verus!
