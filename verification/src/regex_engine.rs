//! The regular-expression engine of the `regex` crate, seen through trusted items.
//!
//! What a pattern matches, and what `replace_all` produces, is not restated here:
//! both are named (`regex_accepts`, `regex_replace_all`) and every contract of the
//! text pipeline is stated over those names. Escaping a literal for a pattern, a few lines
//! of behaviour, is written out and proved here.

use vstd::prelude::*;

verus! {

#[verifier::external_type_specification]
#[verifier::external_body]
pub struct ExRegex(regex::Regex);

/// Whether `regex::Regex::new` accepts `pattern` (returns `Ok`).
pub uninterp spec fn regex_accepts(pattern: Seq<char>) -> bool;

/// The string `regex::Regex::replace_all` returns for a regex compiled from `pattern`,
/// applied to `text` with replacement template `replacement` (`$1`, `${1}` expand groups).
pub uninterp spec fn regex_replace_all(
    pattern: Seq<char>,
    text: Seq<char>,
    replacement: Seq<char>,
) -> Seq<char>;

/// A compiled regex together with the pattern it was compiled from.
pub struct CompiledRegex {
    re: regex::Regex,
    source: String,
}

impl View for CompiledRegex {
    type V = Seq<char>;

    closed spec fn view(&self) -> Seq<char> {
        self.source@
    }
}

/// `regex::Regex::new(pattern).ok()`, keeping the pattern beside the compiled regex.
/// Trusted: the result is `Some` exactly when the crate accepts the pattern, and the
/// value then carries that pattern.
#[verifier::external_body]
pub fn compile_regex(pattern: &str) -> (r: Option<CompiledRegex>)
    ensures
        r is Some <==> regex_accepts(pattern@),
        r matches Some(c) ==> c@ == pattern@,
{
    regex::Regex::new(pattern).ok().map(|re| CompiledRegex { re, source: pattern.to_string() })
}

/// `re.replace_all(text, replacement).into_owned()`.
/// Trusted: the result is the named `regex_replace_all` of the regex's pattern, the text
/// and the replacement; nothing more about it is claimed.
#[verifier::external_body]
pub fn replace_all_compiled(re: &CompiledRegex, text: &str, replacement: &str) -> (r: String)
    ensures
        r@ == regex_replace_all(re@, text@, replacement@),
{
    re.re.replace_all(text, replacement).into_owned()
}

/// Characters that `regex::escape` prefixes with a backslash.
pub open spec fn is_regex_meta(c: char) -> bool {
    c == '\\' || c == '.' || c == '+' || c == '*' || c == '?' || c == '(' || c == ')' || c == '|'
        || c == '[' || c == ']' || c == '{' || c == '}' || c == '^' || c == '$' || c == '#' || c
        == '&' || c == '-' || c == '~'
}

/// `s` with every regex meta character preceded by a backslash.
pub open spec fn regex_escaped(s: Seq<char>) -> Seq<char>
    decreases s.len(),
{
    if s.len() == 0 {
        Seq::empty()
    } else {
        (if is_regex_meta(s[0]) {
            seq!['\\', s[0]]
        } else {
            seq![s[0]]
        }) + regex_escaped(s.skip(1))
    }
}

/// The escaped form of one character: a backslash before a meta character.
pub open spec fn escaped_char(c: char) -> Seq<char> {
    if is_regex_meta(c) {
        seq!['\\', c]
    } else {
        seq![c]
    }
}

proof fn regex_escaped_push(s: Seq<char>, c: char)
    ensures
        regex_escaped(s.push(c)) == regex_escaped(s) + escaped_char(c),
    decreases s.len(),
{
    if s.len() == 0 {
        assert(s.push(c).skip(1) =~= Seq::<char>::empty());
        assert(regex_escaped(s.push(c)) =~= escaped_char(c) + regex_escaped(Seq::<char>::empty()));
    } else {
        assert(s.push(c).skip(1) =~= s.skip(1).push(c));
        regex_escaped_push(s.skip(1), c);
        assert(s.push(c)[0] == s[0]);
    }
}

fn is_regex_meta_exec(c: char) -> (r: bool)
    ensures
        r == is_regex_meta(c),
{
    c == '\\' || c == '.' || c == '+' || c == '*' || c == '?' || c == '(' || c == ')' || c == '|'
        || c == '[' || c == ']' || c == '{' || c == '}' || c == '^' || c == '$' || c == '#' || c
        == '&' || c == '-' || c == '~'
}

/// The pattern that matches `s` literally, as `regex::escape` writes it: each meta
/// character preceded by a backslash, every other character kept, in order.
pub fn regex_escape(s: &str) -> (r: String)
    ensures
        r@ == regex_escaped(s@),
{
    let v = crate::text::chars_of(s);
    let mut out: Vec<char> = Vec::new();
    let mut i: usize = 0;
    while i < v.len()
        invariant
            v@ == s@,
            i <= v@.len(),
            out@ == regex_escaped(v@.take(i as int)),
        decreases v@.len() - i,
    {
        let c = v[i];
        proof {
            assert(v@.take(i as int + 1) =~= v@.take(i as int).push(c));
            regex_escaped_push(v@.take(i as int), c);
        }
        if is_regex_meta_exec(c) {
            out.push('\\');
        }
        out.push(c);
        i = i + 1;
    }
    assert(v@.take(v@.len() as int) =~= v@);
    crate::text::string_from_chars(out.as_slice())
}

/// One rewrite step: replace all matches of `pattern` when it compiles, else keep `text`.
pub open spec fn rewrite(pattern: Seq<char>, text: Seq<char>, replacement: Seq<char>) -> Seq<
    char,
> {
    if regex_accepts(pattern) {
        regex_replace_all(pattern, text, replacement)
    } else {
        text
    }
}

pub fn rewrite_exec(pattern: &str, text: &str, replacement: &str) -> (r: String)
    ensures
        r@ == rewrite(pattern@, text@, replacement@),
{
    match compile_regex(pattern) {
        Some(re) => replace_all_compiled(&re, text, replacement),
        None => text.to_owned(),
    }
}

/// Rewrites applied in order: first `rules[0]`, then `rules[1]`, ….
pub open spec fn apply_rewrites(rules: Seq<(Seq<char>, Seq<char>)>, text: Seq<char>) -> Seq<char>
    decreases rules.len(),
{
    if rules.len() == 0 {
        text
    } else {
        rewrite(rules.last().0, apply_rewrites(rules.drop_last(), text), rules.last().1)
    }
}

} // verus!
