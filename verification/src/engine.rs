//! Engine configuration decisions taken from stored settings: the recognition vocabulary
//! prompt, the model and device to load, decoder options and status lines.
use crate::db::DictionaryEntry;
use crate::numbers::{parse_i32, signed_value};
use crate::sort::{sort_desc, stable_sort_desc};
use crate::text::{
    ascii_lowercase, ascii_lowercase_string, chars_of, push_str, slice_range, str_eq,
    string_from_chars, trim, trim_bounds, trim_string,
};
use vstd::prelude::*;

verus! {

/// Most vocabulary terms sent to the recogniser.
pub const MAX_VOCABULARY_TERMS: usize = 32;

/// Character budget for vocabulary terms.
pub const VOCABULARY_BUDGET: usize = 400;

/// The vocabulary candidate of an entry: its trimmed replacement, or its trimmed term when
/// the replacement is blank, with line breaks turned into spaces.
pub open spec fn candidate(e: DictionaryEntry) -> Seq<char> {
    let t = if trim(e.replacement@).len() == 0 {
        trim(e.term@)
    } else {
        trim(e.replacement@)
    };
    t.map_values(|c: char| if c == '\n' || c == '\r' { ' ' } else { c })
}

/// Vocabulary selection state: accepted terms and remaining budget.
pub open spec fn vocab_step(st: (Seq<Seq<char>>, nat), t: Seq<char>) -> (Seq<Seq<char>>, nat) {
    if st.0.len() >= MAX_VOCABULARY_TERMS || t.len() == 0 || t.len() > st.1 || st.0.contains(t) {
        st
    } else {
        (st.0.push(t), if st.1 >= t.len() + 2 {
            (st.1 - (t.len() + 2)) as nat
        } else {
            0
        })
    }
}

/// Terms accepted from candidates in order: each new, non-empty and within the remaining
/// budget (a term costs its length plus two), at most thirty-two.
pub open spec fn vocab_from(cands: Seq<Seq<char>>) -> (Seq<Seq<char>>, nat)
    decreases cands.len(),
{
    if cands.len() == 0 {
        (Seq::empty(), VOCABULARY_BUDGET as nat)
    } else {
        vocab_step(vocab_from(cands.drop_last()), cands.last())
    }
}

/// Entries in recognition-hint order: highest priority first, ties in list order.
pub open spec fn by_priority(entries: Seq<DictionaryEntry>) -> Seq<DictionaryEntry> {
    sort_desc(
        Seq::new(entries.len(), |i: int| (entries[i].priority as i128, i as usize)),
    ).map_values(|p: (i128, usize)| entries[p.1 as int])
}

/// The vocabulary terms for a dictionary.
pub open spec fn vocabulary(entries: Seq<DictionaryEntry>) -> Seq<Seq<char>> {
    vocab_from(by_priority(entries).map_values(|e: DictionaryEntry| candidate(e))).0
}

/// `terms` joined with `sep`.
pub open spec fn joined(terms: Seq<Seq<char>>, sep: Seq<char>) -> Seq<char>
    decreases terms.len(),
{
    if terms.len() == 0 {
        Seq::empty()
    } else if terms.len() == 1 {
        terms[0]
    } else {
        joined(terms.drop_last(), sep) + sep + terms.last()
    }
}

/// The initial prompt: the user's prompt, followed by the vocabulary line when hints are
/// on (the setting is not `false`) and some term qualifies.
pub open spec fn prompt_spec(
    hints_setting: Option<Seq<char>>,
    entries: Seq<DictionaryEntry>,
    user_prompt: Seq<char>,
) -> Seq<char> {
    if hints_setting == Some("false"@) || vocabulary(entries).len() == 0 {
        user_prompt
    } else {
        trim(trim(user_prompt) + "\nVocabulary: "@ + joined(vocabulary(entries), ", "@) + "."@)
    }
}

fn candidate_exec(e: &DictionaryEntry) -> (r: Vec<char>)
    ensures
        r@ == candidate(*e),
{
    let rv = chars_of(e.replacement.as_str());
    let (rlo, rhi) = trim_bounds(rv.as_slice());
    let src: Vec<char> = if rlo == rhi {
        let tv = chars_of(e.term.as_str());
        let (tlo, thi) = trim_bounds(tv.as_slice());
        vstd::slice::slice_to_vec(slice_range(tv.as_slice(), tlo, thi))
    } else {
        vstd::slice::slice_to_vec(slice_range(rv.as_slice(), rlo, rhi))
    };
    let ghost t = if trim(e.replacement@).len() == 0 {
        trim(e.term@)
    } else {
        trim(e.replacement@)
    };
    assert(src@ == t);
    let mut out: Vec<char> = Vec::new();
    for i in 0..src.len()
        invariant
            src@ == t,
            out@ == t.take(i as int).map_values(
                |c: char|
                    if c == '\n' || c == '\r' {
                        ' '
                    } else {
                        c
                    },
            ),
    {
        let c = src[i];
        out.push(
            if c == '\n' || c == '\r' {
                ' '
            } else {
                c
            },
        );
        assert(t.take(i + 1) =~= t.take(i as int).push(c));
        assert(out@ =~= t.take(i + 1).map_values(
            |c: char|
                if c == '\n' || c == '\r' {
                    ' '
                } else {
                    c
                },
        ));
    }
    assert(t.take(src@.len() as int) =~= t);
    out
}

fn contains_term(terms: &Vec<Vec<char>>, t: &Vec<char>) -> (r: bool)
    ensures
        r == terms@.map_values(|v: Vec<char>| v@).contains(t@),
{
    let ghost tv = terms@.map_values(|v: Vec<char>| v@);
    for i in 0..terms.len()
        invariant
            tv == terms@.map_values(|v: Vec<char>| v@),
            forall|k: int| 0 <= k < i ==> tv[k] != t@,
    {
        if crate::text::seq_eq(terms[i].as_slice(), t.as_slice()) {
            assert(tv[i as int] == t@);
            return true;
        }
    }
    false
}

/// View of an optional string setting.
pub open spec fn opt_view(o: Option<&str>) -> Option<Seq<char>> {
    match o {
        Some(s) => Some(s@),
        None => None,
    }
}

proof fn lemma_take_step<T>(s: Seq<T>, k: int)
    requires
        0 <= k < s.len(),
    ensures
        s.take(k + 1).drop_last() == s.take(k),
        s.take(k + 1).last() == s[k],
{
    assert(s.take(k + 1).drop_last() =~= s.take(k));
}

/// Terms joined by `", "`.
fn join_terms(terms: &Vec<Vec<char>>) -> (r: String)
    ensures
        r@ == joined(terms@.map_values(|v: Vec<char>| v@), ", "@),
{
    let ghost tv = terms@.map_values(|v: Vec<char>| v@);
    let mut out: Vec<char> = Vec::new();
    proof {
        reveal_strlit(", ");
    }
    for i in 0..terms.len()
        invariant
            tv == terms@.map_values(|v: Vec<char>| v@),
            ", "@ == seq![',', ' '],
            out@ == joined(tv.take(i as int), ", "@),
    {
        let ghost before = out@;
        if i > 0 {
            out.push(',');
            out.push(' ');
        }
        let t = &terms[i];
        for k in 0..t.len()
            invariant
                out@ == (if i > 0 {
                    before + ", "@
                } else {
                    before
                }) + t@.take(k as int),
        {
            out.push(t[k]);
            assert(t@.take(k + 1) =~= t@.take(k as int).push(t@[k as int]));
        }
        assert(t@.take(t@.len() as int) =~= t@);
        proof {
            lemma_take_step(tv, i as int);
            if i == 0 {
                assert(tv.take(1) =~= seq![tv[0]]);
                assert(before =~= Seq::<char>::empty());
            }
        }
        assert(out@ =~= joined(tv.take(i + 1), ", "@));
    }
    assert(tv.take(tv.len() as int) =~= tv);
    string_from_chars(out.as_slice())
}

/// The recogniser's initial prompt: the user's prompt plus up to thirty-two dictionary
/// terms (highest priority first, about four hundred characters) unless hints are off.
pub fn dictionary_prompt(
    hints_setting: Option<&str>,
    entries: &[DictionaryEntry],
    user_prompt: &str,
) -> (r: String)
    ensures
        r@ == prompt_spec(opt_view(hints_setting), entries@, user_prompt@),
{
    if let Some(h) = hints_setting {
        if str_eq(h, "false") {
            return user_prompt.to_owned();
        }
    }
    let ghost keyed_spec = Seq::new(
        entries@.len(),
        |i: int| (entries@[i].priority as i128, i as usize),
    );
    let mut keyed: Vec<(i128, usize)> = Vec::new();
    for i in 0..entries.len()
        invariant
            keyed@ == keyed_spec.take(i as int),
            keyed_spec == Seq::new(
                entries@.len(),
                |i: int| (entries@[i].priority as i128, i as usize),
            ),
    {
        keyed.push((entries[i].priority as i128, i));
        assert(keyed@ =~= keyed_spec.take(i + 1));
    }
    assert(keyed_spec.take(entries@.len() as int) =~= keyed_spec);
    let sorted = stable_sort_desc(keyed);
    proof {
        crate::sort::lemma_sort_desc_members(keyed_spec);
    }
    let ghost cands = by_priority(entries@).map_values(|e: DictionaryEntry| candidate(e));
    let mut terms: Vec<Vec<char>> = Vec::new();
    let mut remaining: usize = VOCABULARY_BUDGET;
    assert(cands.take(0) =~= Seq::<Seq<char>>::empty());
    for k in 0..sorted.len()
        invariant
            sorted@ == sort_desc(keyed_spec),
            sorted@.len() == entries@.len(),
            keyed_spec == Seq::new(
                entries@.len(),
                |i: int| (entries@[i].priority as i128, i as usize),
            ),
            forall|i: int| 0 <= i < sorted@.len() ==> keyed_spec.contains(#[trigger] sorted@[i]),
            cands == by_priority(entries@).map_values(|e: DictionaryEntry| candidate(e)),
            cands.len() == sorted@.len(),
            remaining <= VOCABULARY_BUDGET,
            (terms@.map_values(|v: Vec<char>| v@), remaining as nat) == vocab_from(
                cands.take(k as int),
            ),
    {
        let idx = sorted[k].1;
        proof {
            let m = choose|m: int| 0 <= m < keyed_spec.len() && keyed_spec[m] == sorted@[k as int];
            assert(idx == m);
        }
        let t = candidate_exec(&entries[idx]);
        proof {
            lemma_take_step(cands, k as int);
            assert(cands[k as int] == candidate(entries@[idx as int]));
        }
        let ghost tv0 = terms@.map_values(|v: Vec<char>| v@);
        if terms.len() < MAX_VOCABULARY_TERMS && t.len() > 0 && t.len() <= remaining
            && !contains_term(&terms, &t) {
            let n = t.len();
            remaining = if remaining >= n + 2 {
                remaining - (n + 2)
            } else {
                0
            };
            terms.push(t);
            assert(terms@.map_values(|v: Vec<char>| v@) =~= tv0.push(cands[k as int]));
        }
    }
    assert(cands.take(cands.len() as int) =~= cands);
    if terms.len() == 0 {
        return user_prompt.to_owned();
    }
    let mut out = trim_string(user_prompt);
    push_str(&mut out, "\nVocabulary: ");
    let joined_terms = join_terms(&terms);
    push_str(&mut out, joined_terms.as_str());
    push_str(&mut out, ".");
    trim_string(out.as_str())
}

/// Total characters of a list of terms.
pub open spec fn total_len(terms: Seq<Seq<char>>) -> nat
    decreases terms.len(),
{
    if terms.len() == 0 {
        0
    } else {
        total_len(terms.drop_last()) + terms.last().len()
    }
}

/// The vocabulary holds at most thirty-two distinct non-empty terms whose lengths add up
/// to at most four hundred characters.
pub proof fn lemma_vocabulary_bounds(cands: Seq<Seq<char>>)
    ensures
        vocab_from(cands).0.len() <= MAX_VOCABULARY_TERMS,
        forall|i: int| 0 <= i < vocab_from(cands).0.len() ==> #[trigger] vocab_from(cands).0[i].len() > 0,
        forall|i: int, j: int|
            0 <= i < j < vocab_from(cands).0.len() ==> vocab_from(cands).0[i] != vocab_from(cands).0[j],
        total_len(vocab_from(cands).0) + vocab_from(cands).1 <= VOCABULARY_BUDGET,
    decreases cands.len(),
{
    if cands.len() > 0 {
        lemma_vocabulary_bounds(cands.drop_last());
        let st = vocab_from(cands.drop_last());
        let t = cands.last();
        if !(st.0.len() >= MAX_VOCABULARY_TERMS || t.len() == 0 || t.len() > st.1 || st.0.contains(t)) {
            let ns = st.0.push(t);
            assert(ns.drop_last() =~= st.0);
            assert forall|i: int, j: int| 0 <= i < j < ns.len() implies ns[i] != ns[j] by {
                if j == ns.len() - 1 {
                    assert(ns[i] == st.0[i]);
                    if ns[i] == t {
                        assert(st.0.contains(t));
                    }
                }
            }
        }
    }
}

/// Recognition hints are taken from the highest priority down: the entries in hint order
/// have non-increasing priorities, and each of them is an entry of the dictionary.
pub proof fn lemma_hints_by_priority(entries: Seq<DictionaryEntry>)
    requires
        entries.len() <= usize::MAX,
    ensures
        by_priority(entries).len() == entries.len(),
        forall|i: int, j: int|
            0 <= i < j < entries.len() ==> by_priority(entries)[i].priority >= by_priority(
                entries,
            )[j].priority,
        forall|i: int| 0 <= i < entries.len() ==> entries.contains(#[trigger] by_priority(entries)[i]),
{
    let keys = Seq::new(entries.len(), |i: int| (entries[i].priority as i128, i as usize));
    let sorted = sort_desc(keys);
    crate::sort::lemma_sort_desc_sorted(keys);
    crate::sort::lemma_sort_desc_members(keys);
    assert forall|k: int| 0 <= k < sorted.len() implies {
        &&& 0 <= sorted[k].1 < entries.len()
        &&& sorted[k].0 == entries[sorted[k].1 as int].priority as i128
    } by {
        assert(keys.contains(sorted[k]));
        let m = choose|m: int| 0 <= m < keys.len() && keys[m] == sorted[k];
        assert(keys[m] == (entries[m].priority as i128, m as usize));
        assert((m as usize) as int == m);
    }
    assert forall|i: int, j: int|
        0 <= i < j < entries.len() implies by_priority(entries)[i].priority >= by_priority(
            entries,
        )[j].priority by {
        assert(sorted[i].0 >= sorted[j].0);
    }
    assert forall|i: int| 0 <= i < entries.len() implies entries.contains(#[trigger] by_priority(entries)[i]) by {
        assert(by_priority(entries)[i] == entries[sorted[i].1 as int]);
    }
}

/// Every vocabulary term is the candidate of some dictionary entry.
pub proof fn lemma_vocabulary_from_candidates(cands: Seq<Seq<char>>)
    ensures
        forall|i: int| 0 <= i < vocab_from(cands).0.len() ==> cands.contains(#[trigger] vocab_from(cands).0[i]),
    decreases cands.len(),
{
    if cands.len() > 0 {
        lemma_vocabulary_from_candidates(cands.drop_last());
        let st = vocab_from(cands.drop_last());
        assert forall|i: int| 0 <= i < vocab_from(cands).0.len() implies cands.contains(#[trigger] vocab_from(cands).0[i]) by {
            if i < st.0.len() {
                assert(vocab_from(cands).0[i] == st.0[i]);
                let k = choose|k: int| 0 <= k < cands.drop_last().len() && cands.drop_last()[k] == st.0[i];
                assert(cands[k] == st.0[i]);
            } else {
                assert(vocab_from(cands).0[i] == cands.last());
                assert(cands[cands.len() - 1] == cands.last());
            }
        }
    }
}

/// The status line for the inference device and compute type reported at start-up.
pub open spec fn inference_line_spec(dev: Option<Seq<char>>, compute: Option<Seq<char>>) -> Option<Seq<char>> {
    let d = match dev {
        Some(d) if d.len() > 0 => if d == "pending_first_use"@ {
            "Model: loads on first dictation or file job (lazy mode)"@
        } else {
            "Whisper device: "@ + d
        },
        _ => Seq::<char>::empty(),
    };
    let line = match compute {
        Some(c) if c.len() > 0 => if d.len() > 0 {
            d + " \u{b7} "@ + "compute "@ + c
        } else {
            "compute "@ + c
        },
        _ => d,
    };
    if line.len() == 0 {
        None
    } else {
        Some(line)
    }
}

/// View of an optional owned string.
pub open spec fn opt_string_view(o: Option<String>) -> Option<Seq<char>> {
    match o {
        Some(s) => Some(s@),
        None => None,
    }
}

pub fn format_inference_line(dev: Option<String>, compute: Option<String>) -> (r: Option<String>)
    ensures
        opt_string_view(r) == inference_line_spec(opt_string_view(dev), opt_string_view(compute)),
{
    proof {
        reveal_strlit("Model: loads on first dictation or file job (lazy mode)");
        reveal_strlit("Whisper device: ");
        reveal_strlit("compute ");
    }
    let mut line = String::new();
    if let Some(d) = dev {
        if !d.as_str().is_empty() {
            if str_eq(d.as_str(), "pending_first_use") {
                push_str(&mut line, "Model: loads on first dictation or file job (lazy mode)");
            } else {
                push_str(&mut line, "Whisper device: ");
                push_str(&mut line, d.as_str());
            }
        }
    }
    if let Some(c) = compute {
        if !c.as_str().is_empty() {
            if !line.as_str().is_empty() {
                push_str(&mut line, " \u{b7} ");
            }
            push_str(&mut line, "compute ");
            push_str(&mut line, c.as_str());
        }
    }
    if line.as_str().is_empty() {
        None
    } else {
        Some(line)
    }
}

/// The model named at engine start: the Parakeet model for engine `parakeet`, else the
/// Whisper model; each falls back to its default when unset.
pub fn inference_model_for_init(
    engine: Option<&str>,
    parakeet_model: Option<&str>,
    whisper_model: Option<&str>,
) -> (r: String)
    ensures
        r@ == if opt_view(engine) == Some("parakeet"@) {
            match parakeet_model {
                Some(m) => m@,
                None => "sherpa-onnx-nemo-parakeet-tdt-0.6b-v3-int8"@,
            }
        } else {
            match whisper_model {
                Some(m) => m@,
                None => "base"@,
            }
        },
{
    let is_parakeet = match engine {
        Some(e) => str_eq(e, "parakeet"),
        None => false,
    };
    if is_parakeet {
        match parakeet_model {
            Some(m) => m.to_owned(),
            None => "sherpa-onnx-nemo-parakeet-tdt-0.6b-v3-int8".to_owned(),
        }
    } else {
        match whisper_model {
            Some(m) => m.to_owned(),
            None => "base".to_owned(),
        }
    }
}

/// Device for the local engine: `cpu` when asked for, else `cuda` when an NVIDIA GPU
/// answers, else `cpu`.
pub fn whisper_device(preference: &str, cuda_available: bool) -> (r: &'static str)
    ensures
        r@ == if preference@ != "cpu"@ && cuda_available {
            "cuda"@
        } else {
            "cpu"@
        },
{
    if str_eq(preference, "cpu") {
        "cpu"
    } else if cuda_available {
        "cuda"
    } else {
        "cpu"
    }
}

/// Live preview runs when the experimental setting is `true` and demo transcription is not.
pub fn live_preview_wanted(live_setting: Option<&str>, mock_setting: Option<&str>) -> (r: bool)
    ensures
        r == (opt_view(live_setting) == Some("true"@) && opt_view(mock_setting) != Some("true"@)),
{
    let live = match live_setting {
        Some(v) => str_eq(v, "true"),
        None => false,
    };
    let mock = match mock_setting {
        Some(v) => str_eq(v, "true"),
        None => false,
    };
    live && !mock
}

/// A boolean decoder setting: `1`, `true`, `yes` or `on` in any ASCII case; an unset
/// setting takes the default.
pub open spec fn truthy_spec(raw: Option<Seq<char>>, default_true: bool) -> bool {
    let v = match raw {
        Some(s) => ascii_lowercase(s),
        None => if default_true {
            "true"@
        } else {
            "false"@
        },
    };
    v == "1"@ || v == "true"@ || v == "yes"@ || v == "on"@
}

pub fn setting_truthy(raw: Option<&str>, default_true: bool) -> (r: bool)
    ensures
        r == truthy_spec(opt_view(raw), default_true),
{
    let v = match raw {
        Some(s) => ascii_lowercase_string(s),
        None => if default_true {
            "true".to_owned()
        } else {
            "false".to_owned()
        },
    };
    proof {
        reveal_strlit("true");
        reveal_strlit("false");
        assert(ascii_lowercase("true"@) =~= "true"@);
        assert(ascii_lowercase("false"@) =~= "false"@);
    }
    str_eq(v.as_str(), "1") || str_eq(v.as_str(), "true") || str_eq(v.as_str(), "yes") || str_eq(
        v.as_str(),
        "on",
    )
}

/// An integer decoder setting: parsed as `i32` (the default when unset or unparsable),
/// then clamped to `[lo, hi]`.
pub fn setting_i32(raw: Option<&str>, default: i32, lo: i32, hi: i32) -> (r: i32)
    requires
        lo <= hi,
    ensures
        ({
            let v: int = match raw {
                Some(s) => match signed_value(s@) {
                    Some(x) if i32::MIN <= x <= i32::MAX => x,
                    _ => default as int,
                },
                None => default as int,
            };
            r == if v < lo {
                lo as int
            } else if v > hi {
                hi as int
            } else {
                v
            }
        }),
{
    let v = match raw {
        Some(s) => match parse_i32(s) {
            Some(x) => x,
            None => default,
        },
        None => default,
    };
    if v < lo {
        lo
    } else if v > hi {
        hi
    } else {
        v
    }
}

/// How long a dictation outcome message stays visible (milliseconds).
pub const OUTCOME_TTL_MS: u64 = 3000;

/// Reads the latest outcome message at `now_ms`: a fresh message is returned and kept; a
/// stale one is cleared (the second component reports the clearing).
pub fn take_outcome_if_fresh(slot: &mut Option<(String, u64)>, now_ms: u64) -> (r: (String, bool))
    ensures
        match *old(slot) {
            None => *final(slot) == *old(slot) && r.0@.len() == 0 && !r.1,
            Some((msg, at)) => if now_ms >= at && now_ms - at < OUTCOME_TTL_MS || now_ms < at {
                *final(slot) == *old(slot) && r.0 == msg && !r.1
            } else {
                *final(slot) is None && r.0@.len() == 0 && r.1
            },
        },
{
    let fresh = match slot {
        None => {
            return (String::new(), false);
        },
        Some((msg, at)) => {
            let age = if now_ms >= *at {
                now_ms - *at
            } else {
                0
            };
            if age < OUTCOME_TTL_MS {
                Some(msg.clone())
            } else {
                None
            }
        },
    };
    match fresh {
        Some(m) => (m, false),
        None => {
            *slot = None;
            (String::new(), true)
        },
    }
}

} // verus!
