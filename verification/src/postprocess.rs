//! Post-processing of recognised text: spoken punctuation and key commands, ASR
//! punctuation repair, user corrections, dictionary terms and tone presets.
//!
//! Pattern matching goes through the `regex` crate (see `regex_engine`); the contracts
//! here state, over its named results, exactly which rewrites run and in which order.
use crate::regex_engine::{
    apply_rewrites, compile_regex, regex_accepts, regex_escape, regex_escaped, regex_replace_all,
    replace_all_compiled, rewrite, rewrite_exec,
};
use crate::sort::{sort_desc, stable_sort_desc};
use crate::text::{replace_all, replace_str, str_eq};
use vstd::prelude::*;

verus! {

/// Private-use characters that the paste step turns into key presses.
pub const KEY_SENTINEL_ENTER: &'static str = "\u{E090}";

pub const KEY_SENTINEL_CAPS_LOCK: &'static str = "\u{E091}";

pub const KEY_SENTINEL_TAB: &'static str = "\u{E092}";

pub const KEY_SENTINEL_ESCAPE: &'static str = "\u{E093}";

pub const KEY_SENTINEL_BACKSPACE: &'static str = "\u{E094}";

/// Dictation-style spoken punctuation (phrase, replacement), before ordering by length.
pub const SPOKEN_PUNCTUATION: [(&'static str, &'static str); 58] = [
    ("exclamation point", "!"),
    ("exclamation mark", "!"),
    ("question mark", "?"),
    ("inverted question mark", "\u{bf}"),
    ("inverted exclamation mark", "\u{a1}"),
    ("open quotes", "\""),
    ("close quotes", "\""),
    ("open quote", "\""),
    ("close quote", "\""),
    ("begin quote", "\""),
    ("end quote", "\""),
    ("new paragraph", "\n\n"),
    ("new line", "\n\n"),
    ("line break", "\n\n"),
    ("new-line", "\n\n"),
    ("newline", "\n\n"),
    ("full stop", "."),
    ("semicolon", ";"),
    ("ellipsis", "\u{2026}"),
    ("dot dot dot", "\u{2026}"),
    ("em dash", "\u{2014}"),
    ("en dash", "\u{2013}"),
    ("open parenthesis", "("),
    ("close parenthesis", ")"),
    ("open paren", "("),
    ("close paren", ")"),
    ("left parenthesis", "("),
    ("right parenthesis", ")"),
    ("open bracket", "["),
    ("close bracket", "]"),
    ("left bracket", "["),
    ("right bracket", "]"),
    ("open brace", "{"),
    ("close brace", "}"),
    ("left brace", "{"),
    ("right brace", "}"),
    ("ampersand", "&"),
    ("at sign", "@"),
    ("hash tag", "#"),
    ("hashtag", "#"),
    ("hash sign", "#"),
    ("percent sign", "%"),
    ("dollar sign", "$"),
    ("plus sign", "+"),
    ("equal sign", "="),
    ("equals sign", "="),
    ("slash", "/"),
    ("forward slash", "/"),
    ("backslash", "\\"),
    ("asterisk", "*"),
    ("underscore", "_"),
    ("pipe", "|"),
    ("tilde", "~"),
    ("caret", "^"),
    ("period", "."),
    ("comma", ","),
    ("colon", ":"),
    ("hyphen", "-"),
];

/// Spoken key commands (pattern, sentinel), before ordering by pattern length.
pub const SPOKEN_KEYS: [(&'static str, &'static str); 16] = [
    (r"(?i)\bpress\s+caps\s+lock\b", "\u{E091}"),
    (r"(?i)\bhit\s+caps\s+lock\b", "\u{E091}"),
    (r"(?i)\bpress\s+capslock\b", "\u{E091}"),
    (r"(?i)\bhit\s+capslock\b", "\u{E091}"),
    (r"(?i)\bpress\s+backspace\b", "\u{E094}"),
    (r"(?i)\bhit\s+backspace\b", "\u{E094}"),
    (r"(?i)\bpress\s+escape\b", "\u{E093}"),
    (r"(?i)\bhit\s+escape\b", "\u{E093}"),
    (r"(?i)\bpress\s+esc\b", "\u{E093}"),
    (r"(?i)\bhit\s+esc\b", "\u{E093}"),
    (r"(?i)\bpress\s+return\b", "\u{E090}"),
    (r"(?i)\bhit\s+return\b", "\u{E090}"),
    (r"(?i)\bpress\s+enter\b", "\u{E090}"),
    (r"(?i)\bhit\s+enter\b", "\u{E090}"),
    (r"(?i)\bpress\s+tab\b", "\u{E092}"),
    (r"(?i)\bhit\s+tab\b", "\u{E092}"),
];

/// `,,`, `, ,` and longer comma runs.
pub const COMMA_RUN: &'static str = r",\s*(?:,\s*)+";

/// Spacing fixes after spoken punctuation, in order. Processing stops, keeping the text
/// so far, at the first pattern the engine rejects.
pub const SPACING_RULES: [(&'static str, &'static str); 7] = [
    (r#"([^\s"])\s+([.!?])\s*"#, "$1$2 "),
    (r"([^\s,])\s+,\s*", "$1, "),
    (r"(\S)\s+;\s*", "$1; "),
    (r"(\S)\s+:\s*", "$1: "),
    (r#""\s+([^.!?]|$)"#, "\"$1"),
    (r#"\s+""#, "\""),
    (r"[ \t\f\v]{2,}", " "),
];

/// Repairs for collisions between recognised and spoken punctuation, in order.
/// A pattern the engine rejects is skipped.
pub const REPAIR_RULES: [(&'static str, &'static str); 13] = [
    (r#"(?m)^\s*[.?!;:]+\s+" ?"#, "\""),
    (r#"(?m)^\s*[.?!;:]+\s+(,|\(|\[|\{|\u{bf}|\u{a1}|\.|!|\?|;|:)"#, "${1}"),
    (r#"([A-Za-z']+),\s*"\s*,\s+([A-Z][a-z]*)"#, r#"${1}," ${2}"#),
    (r#"([?!]),\s*"\s*,\s+([A-Z][a-z]*)"#, r#"${1}," ${2}"#),
    (r"\.(?:\s*\.)+", "."),
    (r"\.\s+\.", "."),
    (r"\?(?:\s*\?)+", "?"),
    (r"\!(?:\s*\!)+", "!"),
    (r"\.,\s*", ". "),
    (r",\s+\.", "."),
    (r#"(?i)(,|\.)\s*"\s+\.\s+([A-Za-z])"#, r#"${1}" ${2}"#),
    (r#"(\D)"\s+,\s+"#, r#"${1}," "#),
    (r#"(\D)"\s+\.\s+([A-Za-z])"#, r#"${1}" ${2}"#),
];

/// Views of a table of string pairs.
pub open spec fn pairs_view(s: Seq<(&'static str, &'static str)>) -> Seq<(Seq<char>, Seq<char>)> {
    s.map_values(|p: (&'static str, &'static str)| (p.0@, p.1@))
}

/// Each entry keyed by the length of its first component.
pub open spec fn keyed_by_len(s: Seq<(&'static str, &'static str)>) -> Seq<
    (i128, (&'static str, &'static str)),
> {
    s.map_values(|p: (&'static str, &'static str)| (p.0@.len() as i128, p))
}

/// The pattern `(?i)\b<escaped phrase>\b`: the phrase as a whole word, any case.
pub open spec fn word_pattern(phrase: Seq<char>) -> Seq<char> {
    r"(?i)\b"@ + regex_escaped(phrase) + r"\b"@
}

/// Spoken punctuation rules as applied: longest phrase first (ties keep table order),
/// each phrase matched as a whole word in any case.
pub open spec fn punctuation_rules() -> Seq<(Seq<char>, Seq<char>)> {
    sort_desc(keyed_by_len(SPOKEN_PUNCTUATION@)).map_values(
        |e: (i128, (&'static str, &'static str))| (word_pattern(e.1.0@), e.1.1@),
    )
}

/// Spoken key rules as applied: longest pattern first (ties keep table order).
pub open spec fn key_rules() -> Seq<(Seq<char>, Seq<char>)> {
    sort_desc(keyed_by_len(SPOKEN_KEYS@)).map_values(
        |e: (i128, (&'static str, &'static str))| (e.1.0@, e.1.1@),
    )
}

/// Up to `n` rounds of comma-run collapsing, stopping once a round changes nothing.
pub open spec fn collapse_rounds(s: Seq<char>, n: nat) -> Seq<char>
    decreases n,
{
    if n == 0 {
        s
    } else {
        let t = regex_replace_all(COMMA_RUN@, s, ", "@);
        if t == s {
            s
        } else {
            collapse_rounds(t, (n - 1) as nat)
        }
    }
}

/// Comma runs collapsed to `", "` (at most sixteen rounds); unchanged if the pattern is rejected.
pub open spec fn collapse_commas(s: Seq<char>) -> Seq<char> {
    if regex_accepts(COMMA_RUN@) {
        collapse_rounds(s, 16)
    } else {
        s
    }
}

/// Spacing rules from index `i` on, then a final comma collapse; stops at a rejected pattern.
pub open spec fn spacing_from(i: int, s: Seq<char>) -> Seq<char>
    decreases 7 - i,
{
    if i >= 7 || i < 0 {
        collapse_commas(s)
    } else if !regex_accepts(SPACING_RULES@[i].0@) {
        s
    } else {
        spacing_from(i + 1, regex_replace_all(SPACING_RULES@[i].0@, s, SPACING_RULES@[i].1@))
    }
}

/// Spacing normalisation after spoken punctuation.
pub open spec fn normalize_spacing(s: Seq<char>) -> Seq<char> {
    spacing_from(0, collapse_commas(s))
}

/// Punctuation repair: collapse commas, the repair rules in order, collapse again.
pub open spec fn repair_punctuation(s: Seq<char>) -> Seq<char> {
    collapse_commas(apply_rewrites(pairs_view(REPAIR_RULES@), collapse_commas(s)))
}

/// Spoken punctuation, spacing, spoken keys, then punctuation repair.
pub open spec fn spoken_punctuation(text: Seq<char>) -> Seq<char> {
    repair_punctuation(
        apply_rewrites(key_rules(), normalize_spacing(apply_rewrites(punctuation_rules(), text))),
    )
}

/// `(?i)\b<escaped phrase>\b` for a phrase.
pub fn word_pattern_exec(phrase: &str) -> (r: String)
    ensures
        r@ == word_pattern(phrase@),
{
    let mut p = r"(?i)\b".to_owned();
    let esc = regex_escape(phrase);
    p.append(esc.as_str());
    p.append(r"\b");
    p
}

/// A table keyed by the length of its first component, sorted longest first (stable).
fn sorted_by_len(table: &[(&'static str, &'static str)]) -> (r: Vec<(i128, (&'static str, &'static str))>)
    ensures
        r@ == sort_desc(keyed_by_len(table@)),
{
    let mut keyed: Vec<(i128, (&'static str, &'static str))> = Vec::new();
    for i in 0..table.len()
        invariant
            keyed@ == keyed_by_len(table@.take(i as int)),
    {
        let p = table[i];
        let n = p.0.unicode_len();
        keyed.push((n as i128, p));
        assert(keyed_by_len(table@.take(i + 1)) =~= keyed_by_len(table@.take(i as int)).push(
            (table@[i as int].0@.len() as i128, table@[i as int]),
        ));
    }
    assert(table@.take(table@.len() as int) =~= table@);
    stable_sort_desc(keyed)
}

proof fn lemma_apply_rewrites_step(rules: Seq<(Seq<char>, Seq<char>)>, i: int, text: Seq<char>)
    requires
        0 <= i < rules.len(),
    ensures
        apply_rewrites(rules.take(i + 1), text) == rewrite(
            rules[i].0,
            apply_rewrites(rules.take(i), text),
            rules[i].1,
        ),
{
    assert(rules.take(i + 1).drop_last() =~= rules.take(i));
}

/// Applies the spoken punctuation rules.
fn apply_punctuation_rules(text: &str) -> (r: String)
    ensures
        r@ == apply_rewrites(punctuation_rules(), text@),
{
    let sorted = sorted_by_len(&SPOKEN_PUNCTUATION);
    let ghost rules = punctuation_rules();
    let mut s = text.to_owned();
    assert(rules.take(0) =~= Seq::<(Seq<char>, Seq<char>)>::empty());
    for i in 0..sorted.len()
        invariant
            sorted@ == sort_desc(keyed_by_len(SPOKEN_PUNCTUATION@)),
            rules == punctuation_rules(),
            rules.len() == sorted@.len(),
            s@ == apply_rewrites(rules.take(i as int), text@),
    {
        let e = sorted[i];
        let pat = word_pattern_exec(e.1.0);
        proof {
            lemma_apply_rewrites_step(rules, i as int, text@);
        }
        s = rewrite_exec(pat.as_str(), s.as_str(), e.1.1);
    }
    assert(rules.take(rules.len() as int) =~= rules);
    s
}

/// Applies the spoken key rules.
fn apply_key_rules(text: &str) -> (r: String)
    ensures
        r@ == apply_rewrites(key_rules(), text@),
{
    let sorted = sorted_by_len(&SPOKEN_KEYS);
    let ghost rules = key_rules();
    let mut s = text.to_owned();
    assert(rules.take(0) =~= Seq::<(Seq<char>, Seq<char>)>::empty());
    for i in 0..sorted.len()
        invariant
            sorted@ == sort_desc(keyed_by_len(SPOKEN_KEYS@)),
            rules == key_rules(),
            rules.len() == sorted@.len(),
            s@ == apply_rewrites(rules.take(i as int), text@),
    {
        let e = sorted[i];
        proof {
            lemma_apply_rewrites_step(rules, i as int, text@);
        }
        s = rewrite_exec(e.1.0, s.as_str(), e.1.1);
    }
    assert(rules.take(rules.len() as int) =~= rules);
    s
}

/// Applies a table of rewrites in order.
fn apply_table(table: &[(&'static str, &'static str)], text: &str) -> (r: String)
    ensures
        r@ == apply_rewrites(pairs_view(table@), text@),
{
    let ghost rules = pairs_view(table@);
    let mut s = text.to_owned();
    assert(rules.take(0) =~= Seq::<(Seq<char>, Seq<char>)>::empty());
    for i in 0..table.len()
        invariant
            rules == pairs_view(table@),
            s@ == apply_rewrites(rules.take(i as int), text@),
    {
        let e = table[i];
        proof {
            lemma_apply_rewrites_step(rules, i as int, text@);
        }
        s = rewrite_exec(e.0, s.as_str(), e.1);
    }
    assert(rules.take(rules.len() as int) =~= rules);
    s
}

/// Collapse `,,`, `, ,`, etc. (a recognised comma plus a spoken "comma", or a stutter).
pub fn collapse_comma_runs(s: &str) -> (r: String)
    ensures
        r@ == collapse_commas(s@),
{
    match compile_regex(COMMA_RUN) {
        None => s.to_owned(),
        Some(re) => {
            let mut out = s.to_owned();
            let mut k: usize = 0;
            while k < 16
                invariant
                    k <= 16,
                    re@ == COMMA_RUN@,
                    regex_accepts(COMMA_RUN@),
                    collapse_rounds(s@, 16) == collapse_rounds(out@, (16 - k) as nat),
                decreases 16 - k,
            {
                let n = replace_all_compiled(&re, out.as_str(), ", ");
                if n == out {
                    assert(collapse_rounds(out@, (16 - k) as nat) == out@);
                    return out;
                }
                out = n;
                k = k + 1;
            }
            out
        },
    }
}

/// Tighten typical recognition spacing around punctuation after phrase replacement.
pub fn normalize_after_spoken_punct(s: &str) -> (r: String)
    ensures
        r@ == normalize_spacing(s@),
{
    let mut out = collapse_comma_runs(s);
    let ghost start = out@;
    let mut i: usize = 0;
    while i < 7
        invariant
            i <= 7,
            start == collapse_commas(s@),
            spacing_from(0, start) == spacing_from(i as int, out@),
        decreases 7 - i,
    {
        let rule = SPACING_RULES[i];
        assert(rule == SPACING_RULES@[i as int]);
        match compile_regex(rule.0) {
            None => {
                assert(spacing_from(i as int, out@) == out@);
                return out;
            },
            Some(re) => {
                out = replace_all_compiled(&re, out.as_str(), rule.1);
            },
        }
        i = i + 1;
    }
    collapse_comma_runs(out.as_str())
}

/// Fix collisions when spoken punctuation and the recogniser both insert marks
/// (e.g. `leave,", Kane`, `.. .`).
pub fn repair_asr_punctuation(s: &str) -> (r: String)
    ensures
        r@ == repair_punctuation(s@),
{
    let first = collapse_comma_runs(s);
    let repaired = apply_table(&REPAIR_RULES, first.as_str());
    collapse_comma_runs(repaired.as_str())
}

/// Spoken punctuation and key commands to characters and key sentinels, then spacing
/// and punctuation repair.
pub fn apply_spoken_punctuation(text: &str) -> (r: String)
    ensures
        r@ == spoken_punctuation(text@),
{
    let s = apply_punctuation_rules(text);
    let s = normalize_after_spoken_punct(s.as_str());
    let s = apply_key_rules(s.as_str());
    repair_asr_punctuation(s.as_str())
}

/// Corrections applied in order: each non-empty `mishear` replaced by its `intended` text.
pub open spec fn corrections_applied(pairs: Seq<(String, String, i64)>, text: Seq<char>) -> Seq<
    char,
>
    decreases pairs.len(),
{
    if pairs.len() == 0 {
        text
    } else {
        let prev = corrections_applied(pairs.drop_last(), text);
        let from = pairs.last().0@;
        if from.len() == 0 {
            prev
        } else {
            replace_all(prev, from, pairs.last().1@)
        }
    }
}

/// Literal replacement of each `(mishear, intended, priority)` in list order; empty
/// `mishear` entries are skipped.
pub fn apply_corrections(text: &str, pairs: &[(String, String, i64)]) -> (r: String)
    ensures
        r@ == corrections_applied(pairs@, text@),
{
    let mut out = text.to_owned();
    assert(pairs@.take(0) =~= Seq::<(String, String, i64)>::empty());
    for i in 0..pairs.len()
        invariant
            out@ == corrections_applied(pairs@.take(i as int), text@),
    {
        let entry = &pairs[i];
        assert(pairs@.take(i + 1).drop_last() =~= pairs@.take(i as int));
        if !entry.0.as_str().is_empty() {
            out = replace_str(out.as_str(), entry.0.as_str(), entry.1.as_str());
        }
    }
    assert(pairs@.take(pairs@.len() as int) =~= pairs@);
    out
}

/// Dictionary entries applied in order: an empty `term` is skipped, scope `phrase` is a
/// literal replacement, any other scope replaces the term as a whole word in any case.
pub open spec fn dictionary_applied(
    entries: Seq<(String, String, String, i64)>,
    text: Seq<char>,
) -> Seq<char>
    decreases entries.len(),
{
    if entries.len() == 0 {
        text
    } else {
        let prev = dictionary_applied(entries.drop_last(), text);
        let e = entries.last();
        if e.0@.len() == 0 {
            prev
        } else if e.2@ == "phrase"@ {
            replace_all(prev, e.0@, e.1@)
        } else {
            rewrite(word_pattern(e.0@), prev, e.1@)
        }
    }
}

/// Dictionary `(term, replacement, scope, priority)` entries, in list order.
pub fn apply_dictionary(text: &str, entries: &[(String, String, String, i64)]) -> (r: String)
    ensures
        r@ == dictionary_applied(entries@, text@),
{
    let mut out = text.to_owned();
    assert(entries@.take(0) =~= Seq::<(String, String, String, i64)>::empty());
    for i in 0..entries.len()
        invariant
            out@ == dictionary_applied(entries@.take(i as int), text@),
    {
        let e = &entries[i];
        assert(entries@.take(i + 1).drop_last() =~= entries@.take(i as int));
        if !e.0.as_str().is_empty() {
            if str_eq(e.2.as_str(), "phrase") {
                out = replace_str(out.as_str(), e.0.as_str(), e.1.as_str());
            } else {
                let pat = word_pattern_exec(e.0.as_str());
                out = rewrite_exec(pat.as_str(), out.as_str(), e.1.as_str());
            }
        }
    }
    assert(entries@.take(entries@.len() as int) =~= entries@);
    out
}

/// One rule of a tone preset: a regex and its replacement template.
pub struct ToneRule {
    pub pattern: String,
    pub replace: String,
}

/// A tone preset as read from its YAML file.
pub struct ToneFile {
    pub name: String,
    pub rules: Vec<ToneRule>,
}

/// The rules of a tone preset as (pattern, replacement) views.
pub open spec fn tone_rules_view(rules: Seq<ToneRule>) -> Seq<(Seq<char>, Seq<char>)> {
    rules.map_values(|r: ToneRule| (r.pattern@, r.replace@))
}

/// Text after a tone preset: unchanged without a preset, else its rules in order
/// (a rule whose pattern the engine rejects is skipped).
pub open spec fn tone_applied(tone: Option<&ToneFile>, text: Seq<char>) -> Seq<char> {
    match tone {
        None => text,
        Some(t) => apply_rewrites(tone_rules_view(t.rules@), text),
    }
}

/// Applies a loaded tone preset; `None` (missing or unreadable preset) keeps the text.
pub fn apply_tone(text: &str, tone: Option<&ToneFile>) -> (r: String)
    ensures
        r@ == tone_applied(tone, text@),
{
    match tone {
        None => text.to_owned(),
        Some(t) => {
            let ghost rules = tone_rules_view(t.rules@);
            let mut s = text.to_owned();
            assert(rules.take(0) =~= Seq::<(Seq<char>, Seq<char>)>::empty());
            for i in 0..t.rules.len()
                invariant
                    rules == tone_rules_view(t.rules@),
                    s@ == apply_rewrites(rules.take(i as int), text@),
            {
                let rule = &t.rules[i];
                proof {
                    lemma_apply_rewrites_step(rules, i as int, text@);
                }
                s = rewrite_exec(rule.pattern.as_str(), s.as_str(), rule.replace.as_str());
            }
            assert(rules.take(rules.len() as int) =~= rules);
            s
        },
    }
}

/// The whole post-processing pipeline: spoken punctuation, corrections, dictionary, tone.
pub open spec fn pipeline_result(
    text: Seq<char>,
    corrections: Seq<(String, String, i64)>,
    dictionary: Seq<(String, String, String, i64)>,
    tone: Option<&ToneFile>,
) -> Seq<char> {
    tone_applied(
        tone,
        dictionary_applied(dictionary, corrections_applied(corrections, spoken_punctuation(text))),
    )
}

pub fn pipeline(
    text: &str,
    corrections: &[(String, String, i64)],
    dictionary: &[(String, String, String, i64)],
    tone: Option<&ToneFile>,
) -> (r: String)
    ensures
        r@ == pipeline_result(text@, corrections@, dictionary@, tone),
{
    let s = apply_spoken_punctuation(text);
    let s = apply_corrections(s.as_str(), corrections);
    let s = apply_dictionary(s.as_str(), dictionary);
    apply_tone(s.as_str(), tone)
}


proof fn lemma_punctuation_phrases_are_short()
    ensures
        forall|k: int| 0 <= k < SPOKEN_PUNCTUATION@.len() ==> #[trigger] SPOKEN_PUNCTUATION@[k].0@.len() < 64,
{
    reveal_strlit("exclamation point");
    reveal_strlit("exclamation mark");
    reveal_strlit("question mark");
    reveal_strlit("inverted question mark");
    reveal_strlit("inverted exclamation mark");
    reveal_strlit("open quotes");
    reveal_strlit("close quotes");
    reveal_strlit("open quote");
    reveal_strlit("close quote");
    reveal_strlit("begin quote");
    reveal_strlit("end quote");
    reveal_strlit("new paragraph");
    reveal_strlit("new line");
    reveal_strlit("line break");
    reveal_strlit("new-line");
    reveal_strlit("newline");
    reveal_strlit("full stop");
    reveal_strlit("semicolon");
    reveal_strlit("ellipsis");
    reveal_strlit("dot dot dot");
    reveal_strlit("em dash");
    reveal_strlit("en dash");
    reveal_strlit("open parenthesis");
    reveal_strlit("close parenthesis");
    reveal_strlit("open paren");
    reveal_strlit("close paren");
    reveal_strlit("left parenthesis");
    reveal_strlit("right parenthesis");
    reveal_strlit("open bracket");
    reveal_strlit("close bracket");
    reveal_strlit("left bracket");
    reveal_strlit("right bracket");
    reveal_strlit("open brace");
    reveal_strlit("close brace");
    reveal_strlit("left brace");
    reveal_strlit("right brace");
    reveal_strlit("ampersand");
    reveal_strlit("at sign");
    reveal_strlit("hash tag");
    reveal_strlit("hashtag");
    reveal_strlit("hash sign");
    reveal_strlit("percent sign");
    reveal_strlit("dollar sign");
    reveal_strlit("plus sign");
    reveal_strlit("equal sign");
    reveal_strlit("equals sign");
    reveal_strlit("slash");
    reveal_strlit("forward slash");
    reveal_strlit("backslash");
    reveal_strlit("asterisk");
    reveal_strlit("underscore");
    reveal_strlit("pipe");
    reveal_strlit("tilde");
    reveal_strlit("caret");
    reveal_strlit("period");
    reveal_strlit("comma");
    reveal_strlit("colon");
    reveal_strlit("hyphen");
}

/// Spoken punctuation is replaced longest phrase first: every table entry has its
/// whole-word rule among the punctuation rules, and when one entry's phrase is longer than
/// another's, its rule runs earlier. So "forward slash" becomes `/` before the rule for
/// "slash" could leave "forward" behind.
pub proof fn punctuation_longest_phrase_first()
    ensures
        punctuation_rules().len() == SPOKEN_PUNCTUATION@.len(),
        forall|a: int, b: int|
            0 <= a < SPOKEN_PUNCTUATION@.len() && 0 <= b < SPOKEN_PUNCTUATION@.len()
                && #[trigger] SPOKEN_PUNCTUATION@[a].0@.len() > #[trigger] SPOKEN_PUNCTUATION@[b].0@.len()
                ==> exists|i: int, j: int|
                0 <= i < j < punctuation_rules().len() && #[trigger] punctuation_rules()[i] == (
                    word_pattern(SPOKEN_PUNCTUATION@[a].0@),
                    SPOKEN_PUNCTUATION@[a].1@,
                ) && #[trigger] punctuation_rules()[j] == (
                    word_pattern(SPOKEN_PUNCTUATION@[b].0@),
                    SPOKEN_PUNCTUATION@[b].1@,
                ),
        exists|i: int, j: int|
            0 <= i < j < punctuation_rules().len() && #[trigger] punctuation_rules()[i] == (
                word_pattern("forward slash"@),
                "/"@,
            ) && #[trigger] punctuation_rules()[j] == (word_pattern("slash"@), "/"@),
{
    let table = SPOKEN_PUNCTUATION@;
    let keyed = keyed_by_len(table);
    lemma_punctuation_phrases_are_short();
    crate::sort::lemma_sort_desc_sorted(keyed);
    assert forall|a: int, b: int|
        0 <= a < table.len() && 0 <= b < table.len() && #[trigger] table[a].0@.len()
            > #[trigger] table[b].0@.len() implies exists|i: int, j: int|
        0 <= i < j < punctuation_rules().len() && #[trigger] punctuation_rules()[i] == (
            word_pattern(table[a].0@),
            table[a].1@,
        ) && #[trigger] punctuation_rules()[j] == (word_pattern(table[b].0@), table[b].1@) by {
        assert(keyed[a] == (table[a].0@.len() as i128, table[a]));
        assert(keyed[b] == (table[b].0@.len() as i128, table[b]));
        crate::sort::lemma_sort_desc_larger_key_first(keyed, a, b);
        let sorted = sort_desc(keyed);
        let (p, q) = choose|p: int, q: int|
            0 <= p < q < sorted.len() && #[trigger] sorted[p] == keyed[a] && #[trigger] sorted[q] == keyed[b];
        assert(punctuation_rules()[p] == (word_pattern(table[a].0@), table[a].1@));
        assert(punctuation_rules()[q] == (word_pattern(table[b].0@), table[b].1@));
    }
    reveal_strlit("forward slash");
    reveal_strlit("slash");
    reveal_strlit("/");
    assert(table[47].0@ == "forward slash"@ && table[47].1@ == "/"@);
    assert(table[46].0@ == "slash"@ && table[46].1@ == "/"@);
    assert(table[47].0@.len() > table[46].0@.len());
}


/// A dictionary entry with scope `phrase` and a non-empty term replaces every occurrence
/// of its term literally, left to right, in the text the earlier entries produced. Alone,
/// such an entry changes the text whenever its term occurs in it and its replacement is a
/// different string.
pub proof fn phrase_entry_replaces_literally(
    entries: Seq<(String, String, String, i64)>,
    text: Seq<char>,
    e: (String, String, String, i64),
)
    requires
        e.0@.len() > 0,
        e.2@ == "phrase"@,
    ensures
        dictionary_applied(entries.push(e), text) == crate::text::replace_all(
            dictionary_applied(entries, text),
            e.0@,
            e.1@,
        ),
        dictionary_applied(seq![e], text) == crate::text::replace_all(text, e.0@, e.1@),
        forall|i: int|
            #![trigger crate::text::occurs_at(text, e.0@, i)]
            crate::text::occurs_at(text, e.0@, i) && e.0@ != e.1@ ==> dictionary_applied(seq![e], text)
                != text,
{
    assert(entries.push(e).drop_last() =~= entries);
    assert(seq![e].drop_last() =~= Seq::<(String, String, String, i64)>::empty());
    assert(dictionary_applied(Seq::<(String, String, String, i64)>::empty(), text) == text);
    assert(seq![e].last() == e);
    assert(dictionary_applied(seq![e], text) == crate::text::replace_all(text, e.0@, e.1@));
    assert forall|i: int|
        #![trigger crate::text::occurs_at(text, e.0@, i)]
        crate::text::occurs_at(text, e.0@, i) && e.0@ != e.1@ implies dictionary_applied(seq![e], text)
            != text by {
        crate::text::lemma_replace_all_changes(text, e.0@, e.1@, i);
    }
}

} // verus!
