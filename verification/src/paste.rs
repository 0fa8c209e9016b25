//! Insertion into the focused text field: destination identity checks, the order of
//! clipboard pastes and key presses, and the clipboard form of a transcript.
use crate::text::{chars_of, replace_all, replace_str, str_eq, string_from_chars};
use vstd::prelude::*;

verus! {

/// Accessibility identity of a focused text field.
#[derive(Clone)]
pub struct FocusedField {
    pub runtime_id: Vec<i32>,
    pub automation_id: String,
    pub class_name: String,
    pub control_type: i32,
    pub bounds: [i32; 4],
}

/// The destination captured when dictation starts.
pub struct PasteTarget {
    pub window: isize,
    pub control: isize,
    pub app_key: String,
    pub element: Option<FocusedField>,
}

/// Whether two field identities denote the same field: equal non-empty runtime ids, or
/// (for recreated accessibility objects) equal type, automation id, class and non-empty
/// bounds, where at least one of automation id and class is non-empty.
pub open spec fn same_field_spec(a: FocusedField, b: FocusedField) -> bool {
    ||| (a.runtime_id@.len() > 0 && a.runtime_id@ == b.runtime_id@)
    ||| {
        &&& a.control_type == b.control_type
        &&& a.automation_id@ == b.automation_id@
        &&& a.class_name@ == b.class_name@
        &&& (a.class_name@.len() > 0 || a.automation_id@.len() > 0)
        &&& a.bounds@[2] > a.bounds@[0]
        &&& a.bounds@[3] > a.bounds@[1]
        &&& a.bounds@ == b.bounds@
    }
}

fn i32_slices_eq(x: &[i32], y: &[i32]) -> (r: bool)
    ensures
        r == (x@ == y@),
{
    if x.len() != y.len() {
        return false;
    }
    for i in 0..x.len()
        invariant
            x@.len() == y@.len(),
            forall|k: int| 0 <= k < i ==> #[trigger] x@[k] == y@[k],
    {
        if x[i] != y[i] {
            return false;
        }
    }
    assert(x@ =~= y@);
    true
}

impl FocusedField {
    pub fn same_field(&self, other: &Self) -> (r: bool)
        ensures
            r == same_field_spec(*self, *other),
    {
        if self.runtime_id.len() > 0 && i32_slices_eq(
            self.runtime_id.as_slice(),
            other.runtime_id.as_slice(),
        ) {
            return true;
        }
        let bounds_equal = self.bounds[0] == other.bounds[0] && self.bounds[1] == other.bounds[1]
            && self.bounds[2] == other.bounds[2] && self.bounds[3] == other.bounds[3];
        assert(bounds_equal == (self.bounds@ == other.bounds@)) by {
            if bounds_equal {
                assert(self.bounds@ =~= other.bounds@);
            }
        }
        self.control_type == other.control_type && str_eq(
            self.automation_id.as_str(),
            other.automation_id.as_str(),
        ) && str_eq(self.class_name.as_str(), other.class_name.as_str()) && (
        !self.class_name.as_str().is_empty() || !self.automation_id.as_str().is_empty())
            && self.bounds[2] > self.bounds[0] && self.bounds[3] > self.bounds[1] && bounds_equal
    }
}

/// Field identity is symmetric: `a` matches `b` exactly when `b` matches `a`.
pub proof fn lemma_same_field_symmetric(a: FocusedField, b: FocusedField)
    ensures
        same_field_spec(a, b) == same_field_spec(b, a),
{
}

/// Every field with a runtime id, or with a name and non-empty bounds, matches itself.
pub proof fn lemma_same_field_reflexive(a: FocusedField)
    requires
        a.runtime_id@.len() > 0 || ((a.class_name@.len() > 0 || a.automation_id@.len() > 0)
            && a.bounds@[2] > a.bounds@[0] && a.bounds@[3] > a.bounds@[1]),
    ensures
        same_field_spec(a, a),
{
}

/// Whether the current focus is still the captured destination: same window, control and
/// application, and (when both sides have accessibility identities) the same field.
pub open spec fn target_unchanged_spec(expected: PasteTarget, current: PasteTarget) -> bool {
    &&& current.window == expected.window
    &&& current.control == expected.control
    &&& current.app_key@ == expected.app_key@
    &&& match (expected.element, current.element) {
        (Some(e), Some(c)) => same_field_spec(e, c),
        _ => true,
    }
}

pub fn target_unchanged(expected: &PasteTarget, current: &PasteTarget) -> (r: bool)
    ensures
        r == target_unchanged_spec(*expected, *current),
{
    if current.window != expected.window || current.control != expected.control || !str_eq(
        current.app_key.as_str(),
        expected.app_key.as_str(),
    ) {
        return false;
    }
    match (&expected.element, &current.element) {
        (Some(e), Some(c)) => e.same_field(c),
        _ => true,
    }
}

/// Whether a transcript may be pasted into the destination captured at the start (`target`)
/// given the destination focused now (`current`): refused when no text field can be found,
/// and when the focused field is not the captured one.
pub fn paste_target_check(target: &PasteTarget, current: Option<PasteTarget>) -> (r: Result<(), String>)
    ensures
        current is None ==> (r matches Err(e) && e@ == "Could not find the text field."@),
        current matches Some(c) && !target_unchanged_spec(*target, c) ==> (r matches Err(e) && e@
            == "The active text field changed."@),
        current matches Some(c) && target_unchanged_spec(*target, c) ==> r is Ok,
{
    match current {
        None => Err("Could not find the text field.".to_owned()),
        Some(c) => {
            if target_unchanged(target, &c) {
                Ok(())
            } else {
                Err("The active text field changed.".to_owned())
            }
        },
    }
}

/// Keys that spoken commands press.
#[derive(Clone, Copy, Debug, PartialEq, Eq, Structural)]
pub enum SpokenKey {
    Return,
    CapsLock,
    Tab,
    Escape,
    Backspace,
}

/// The key a private-use sentinel character stands for.
pub open spec fn key_of(c: char) -> Option<SpokenKey> {
    if c == '\u{E090}' {
        Some(SpokenKey::Return)
    } else if c == '\u{E091}' {
        Some(SpokenKey::CapsLock)
    } else if c == '\u{E092}' {
        Some(SpokenKey::Tab)
    } else if c == '\u{E093}' {
        Some(SpokenKey::Escape)
    } else if c == '\u{E094}' {
        Some(SpokenKey::Backspace)
    } else {
        None
    }
}

pub fn sentinel_to_key(ch: char) -> (r: Option<SpokenKey>)
    ensures
        r == key_of(ch),
{
    if ch == '\u{E090}' {
        Some(SpokenKey::Return)
    } else if ch == '\u{E091}' {
        Some(SpokenKey::CapsLock)
    } else if ch == '\u{E092}' {
        Some(SpokenKey::Tab)
    } else if ch == '\u{E093}' {
        Some(SpokenKey::Escape)
    } else if ch == '\u{E094}' {
        Some(SpokenKey::Backspace)
    } else {
        None
    }
}

/// Whether `s` holds any key sentinel.
pub open spec fn has_sentinels(s: Seq<char>) -> bool {
    exists|i: int| 0 <= i < s.len() && #[trigger] key_of(s[i]) is Some
}

pub fn text_has_spoken_key_sentinels(s: &str) -> (r: bool)
    ensures
        r == has_sentinels(s@),
{
    let v = chars_of(s);
    for i in 0..v.len()
        invariant
            v@ == s@,
            forall|k: int| 0 <= k < i ==> #[trigger] key_of(v@[k]) is None,
    {
        if sentinel_to_key(v[i]).is_some() {
            assert(key_of(s@[i as int]) is Some);
            return true;
        }
    }
    false
}

/// The clipboard form of one character: Return and Tab sentinels become `\n` and `\t`,
/// other sentinels are dropped.
pub open spec fn clipboard_chars(c: char) -> Seq<char> {
    if c == '\u{E090}' {
        seq!['\n']
    } else if c == '\u{E092}' {
        seq!['\t']
    } else if c == '\u{E091}' || c == '\u{E093}' || c == '\u{E094}' {
        Seq::empty()
    } else {
        seq![c]
    }
}

/// The clipboard form of a transcript.
pub open spec fn clipboard_form(s: Seq<char>) -> Seq<char>
    decreases s.len(),
{
    if s.len() == 0 {
        Seq::empty()
    } else {
        clipboard_form(s.drop_last()) + clipboard_chars(s.last())
    }
}

/// Copied text holds no key marker, and text without markers is copied unchanged.
pub proof fn lemma_clipboard_has_no_key_markers(s: Seq<char>)
    ensures
        !has_sentinels(clipboard_form(s)),
        !has_sentinels(s) ==> clipboard_form(s) == s,
    decreases s.len(),
{
    if s.len() > 0 {
        lemma_clipboard_has_no_key_markers(s.drop_last());
        let a = clipboard_form(s.drop_last());
        let b = clipboard_chars(s.last());
        assert forall|k: int| 0 <= k < (a + b).len() implies #[trigger] key_of((a + b)[k]) is None by {
            if k >= a.len() {
                assert(b[k - a.len()] == (a + b)[k]);
            } else {
                assert(!(key_of(a[k]) is Some));
            }
        }
        if !has_sentinels(s) {
            assert(key_of(s[s.len() - 1]) is None);
            assert forall|k: int| 0 <= k < s.drop_last().len() implies #[trigger] key_of(
                s.drop_last()[k],
            ) is None by {
                assert(s.drop_last()[k] == s[k]);
            }
            assert(s.drop_last().push(s.last()) =~= s);
        }
    } else {
        assert(clipboard_form(s) =~= Seq::<char>::empty());
    }
}

/// Text copied for a completed dictation: spoken editing commands are key markers,
/// not clipboard characters.
pub fn clipboard_text(text: &str) -> (r: String)
    ensures
        r@ == clipboard_form(text@),
{
    let v = chars_of(text);
    let mut out: Vec<char> = Vec::new();
    assert(v@.take(0) =~= Seq::<char>::empty());
    for i in 0..v.len()
        invariant
            v@ == text@,
            out@ == clipboard_form(v@.take(i as int)),
    {
        let c = v[i];
        assert(v@.take(i + 1).drop_last() =~= v@.take(i as int));
        if c == '\u{E090}' {
            out.push('\n');
        } else if c == '\u{E092}' {
            out.push('\t');
        } else if c == '\u{E091}' || c == '\u{E093}' || c == '\u{E094}' {
        } else {
            out.push(c);
        }
        assert(out@ =~= clipboard_form(v@.take(i + 1)));
    }
    assert(v@.take(v@.len() as int) =~= v@);
    string_from_chars(out.as_slice())
}

/// One input action at the focused control; each costs one undo step.
pub enum PasteStep {
    /// Put this text on the clipboard and paste it.
    Chunk(String),
    /// Shift+Return: a line break that chat-style fields keep.
    ShiftReturn,
    /// Click a key named by a sentinel.
    Key(SpokenKey),
}

/// A paste step as a value.
pub ghost enum StepView {
    Chunk(Seq<char>),
    ShiftReturn,
    Key(SpokenKey),
}

impl View for PasteStep {
    type V = StepView;

    open spec fn view(&self) -> StepView {
        match self {
            PasteStep::Chunk(s) => StepView::Chunk(s@),
            PasteStep::ShiftReturn => StepView::ShiftReturn,
            PasteStep::Key(k) => StepView::Key(*k),
        }
    }
}

pub open spec fn steps_view(v: Seq<PasteStep>) -> Seq<StepView> {
    v.map_values(|p: PasteStep| p@)
}

/// A paste of `cur` if it is non-empty.
pub open spec fn chunk_step(cur: Seq<char>) -> Seq<StepView> {
    if cur.len() == 0 {
        Seq::empty()
    } else {
        seq![StepView::Chunk(cur)]
    }
}

/// Steps for the rest `s` of a text when `cur` is the unpasted part of the current line:
/// each line's text is one paste, each `\n` a Shift+Return, each sentinel its key.
pub open spec fn plan_from(s: Seq<char>, cur: Seq<char>) -> Seq<StepView>
    decreases s.len(),
{
    if s.len() == 0 {
        chunk_step(cur)
    } else if key_of(s[0]) is Some {
        chunk_step(cur) + seq![StepView::Key(key_of(s[0])->0)] + plan_from(s.skip(1), Seq::empty())
    } else if s[0] == '\n' {
        chunk_step(cur) + seq![StepView::ShiftReturn] + plan_from(s.skip(1), Seq::empty())
    } else {
        plan_from(s.skip(1), cur.push(s[0]))
    }
}

/// `\r\n` and lone `\r` as `\n`.
pub open spec fn unix_newlines(s: Seq<char>) -> Seq<char> {
    replace_all(replace_all(s, "\r\n"@, "\n"@), "\r"@, "\n"@)
}

/// The steps that insert `text` at the focused control.
pub open spec fn paste_plan_spec(text: Seq<char>) -> Seq<StepView> {
    plan_from(unix_newlines(text), Seq::empty())
}

fn push_chunk(steps: &mut Vec<PasteStep>, cur: &Vec<char>)
    ensures
        steps_view(final(steps)@) == steps_view(old(steps)@) + chunk_step(cur@),
{
    let ghost before = steps@;
    if cur.len() > 0 {
        steps.push(PasteStep::Chunk(string_from_chars(cur.as_slice())));
        assert(steps_view(steps@) =~= steps_view(before) + chunk_step(cur@));
    } else {
        assert(steps_view(steps@) =~= steps_view(before) + chunk_step(cur@));
    }
}

/// Line breaks normalised, then the text split into pastes, Shift+Returns and key clicks.
pub fn paste_plan(text: &str) -> (r: Vec<PasteStep>)
    ensures
        steps_view(r@) == paste_plan_spec(text@),
        typed_text(steps_view(r@)) == lf_normalized(text@),
{
    proof {
        paste_plan_types_the_transcript(text@);
    }
    proof {
        reveal_strlit("\r\n");
        reveal_strlit("\r");
    }
    let crlf = replace_str(text, "\r\n", "\n");
    let normalized = replace_str(crlf.as_str(), "\r", "\n");
    let s = chars_of(normalized.as_str());
    let mut steps: Vec<PasteStep> = Vec::new();
    let mut cur: Vec<char> = Vec::new();
    let n = s.len();
    assert(s@.skip(0) =~= s@);
    let mut i: usize = 0;
    while i < n
        invariant
            n == s@.len(),
            i <= n,
            s@ == unix_newlines(text@),
            steps_view(steps@) + plan_from(s@.skip(i as int), cur@) == paste_plan_spec(text@),
        decreases n - i,
    {
        let c = s[i];
        let ghost rest = s@.skip(i as int);
        assert(rest[0] == c);
        assert(rest.skip(1) =~= s@.skip(i + 1));
        let ghost before = steps_view(steps@);
        let ghost cur0 = cur@;
        match sentinel_to_key(c) {
            Some(k) => {
                push_chunk(&mut steps, &cur);
                let ghost mid = steps@;
                steps.push(PasteStep::Key(k));
                assert(steps_view(steps@) =~= steps_view(mid).push(StepView::Key(k)));
                cur = Vec::new();
                assert(steps_view(steps@) + plan_from(s@.skip(i + 1), cur@) =~= before + plan_from(
                    rest,
                    cur0,
                ));
            },
            None => {
                if c == '\n' {
                    push_chunk(&mut steps, &cur);
                    let ghost mid = steps@;
                    steps.push(PasteStep::ShiftReturn);
                    assert(steps_view(steps@) =~= steps_view(mid).push(StepView::ShiftReturn));
                    cur = Vec::new();
                    assert(steps_view(steps@) + plan_from(s@.skip(i + 1), cur@) =~= before
                        + plan_from(rest, cur0));
                } else {
                    cur.push(c);
                    assert(steps_view(steps@) + plan_from(s@.skip(i + 1), cur@) =~= before
                        + plan_from(rest, cur0));
                }
            },
        }
        i = i + 1;
    }
    push_chunk(&mut steps, &cur);
    assert(s@.skip(n as int) =~= Seq::<char>::empty());
    steps
}

/// The sentinel character for a key.
pub open spec fn sentinel_of(k: SpokenKey) -> char {
    match k {
        SpokenKey::Return => '\u{E090}',
        SpokenKey::CapsLock => '\u{E091}',
        SpokenKey::Tab => '\u{E092}',
        SpokenKey::Escape => '\u{E093}',
        SpokenKey::Backspace => '\u{E094}',
    }
}

/// The text a sequence of steps types, with line breaks as `\n` and keys as sentinels.
pub open spec fn typed_text(steps: Seq<StepView>) -> Seq<char>
    decreases steps.len(),
{
    if steps.len() == 0 {
        Seq::empty()
    } else {
        typed_text(steps.drop_last()) + match steps.last() {
            StepView::Chunk(t) => t,
            StepView::ShiftReturn => seq!['\n'],
            StepView::Key(k) => seq![sentinel_of(k)],
        }
    }
}

proof fn lemma_typed_single(x: StepView)
    ensures
        typed_text(seq![x]) == typed_text(Seq::<StepView>::empty()) + match x {
            StepView::Chunk(t) => t,
            StepView::ShiftReturn => seq!['\n'],
            StepView::Key(k) => seq![sentinel_of(k)],
        },
        typed_text(Seq::<StepView>::empty()) == Seq::<char>::empty(),
{
    assert(seq![x].drop_last() =~= Seq::<StepView>::empty());
}

proof fn lemma_typed_chunk(cur: Seq<char>)
    ensures
        typed_text(chunk_step(cur)) == cur,
{
    if cur.len() > 0 {
        lemma_typed_single(StepView::Chunk(cur));
        assert(Seq::<char>::empty() + cur =~= cur);
    }
}

proof fn lemma_typed_text_append(a: Seq<StepView>, b: Seq<StepView>)
    ensures
        typed_text(a + b) == typed_text(a) + typed_text(b),
    decreases b.len(),
{
    if b.len() == 0 {
        assert(a + b =~= a);
    } else {
        lemma_typed_text_append(a, b.drop_last());
        assert((a + b).drop_last() =~= a + b.drop_last());
    }
}

proof fn lemma_plan_from_typed(s: Seq<char>, cur: Seq<char>)
    ensures
        typed_text(plan_from(s, cur)) == cur + s,
    decreases s.len(),
{
    if s.len() == 0 {
        lemma_typed_chunk(cur);
        assert(cur + s =~= cur);
    } else {
        let rest = s.skip(1);
        let head = if key_of(s[0]) is Some {
            seq![StepView::Key(key_of(s[0])->0)]
        } else {
            seq![StepView::ShiftReturn]
        };
        if key_of(s[0]) is Some || s[0] == '\n' {
            lemma_plan_from_typed(rest, Seq::empty());
            lemma_typed_text_append(chunk_step(cur) + head, plan_from(rest, Seq::empty()));
            lemma_typed_text_append(chunk_step(cur), head);
            lemma_typed_chunk(cur);
            if key_of(s[0]) is Some {
                lemma_typed_single(StepView::Key(key_of(s[0])->0));
            } else {
                lemma_typed_single(StepView::ShiftReturn);
            }
            assert(typed_text(head) =~= seq![s[0]]);
            assert(cur + seq![s[0]] + (Seq::<char>::empty() + rest) =~= cur + s);
        } else {
            lemma_plan_from_typed(rest, cur.push(s[0]));
            assert(cur.push(s[0]) + rest =~= cur + s);
        }
    }
}

/// Pasting loses and reorders nothing: the steps type exactly the text with its
/// line breaks normalised to `\n`.
pub proof fn lemma_paste_plan_types_text(text: Seq<char>)
    ensures
        typed_text(paste_plan_spec(text)) == unix_newlines(text),
{
    lemma_plan_from_typed(unix_newlines(text), Seq::empty());
    assert(Seq::<char>::empty() + unix_newlines(text) =~= unix_newlines(text));
}

/// `s` with each CR-LF pair and each lone CR read as one LF, character by character.
pub open spec fn lf_normalized(s: Seq<char>) -> Seq<char>
    decreases s.len(),
{
    if s.len() == 0 {
        s
    } else if s[0] == '\r' && s.len() >= 2 && s[1] == '\n' {
        seq!['\n'] + lf_normalized(s.skip(2))
    } else if s[0] == '\r' {
        seq!['\n'] + lf_normalized(s.skip(1))
    } else {
        seq![s[0]] + lf_normalized(s.skip(1))
    }
}

proof fn lemma_replace_char_concat(x: Seq<char>, y: Seq<char>, c: char, to: Seq<char>)
    ensures
        replace_all(x + y, seq![c], to) == replace_all(x, seq![c], to) + replace_all(y, seq![c], to),
    decreases x.len(),
{
    if x.len() == 0 {
        assert(x + y =~= y);
        assert(replace_all(x, seq![c], to) =~= Seq::<char>::empty());
    } else {
        let xy = x + y;
        assert(xy.skip(1) =~= x.skip(1) + y);
        assert(xy.take(1) =~= x.take(1));
        lemma_replace_char_concat(x.skip(1), y, c, to);
        if x.take(1) == seq![c] {
            assert(replace_all(xy, seq![c], to) == to + replace_all(xy.skip(1), seq![c], to));
        } else {
            assert(replace_all(xy, seq![c], to) == seq![xy[0]] + replace_all(xy.skip(1), seq![c], to));
            assert(replace_all(x, seq![c], to) == seq![x[0]] + replace_all(x.skip(1), seq![c], to));
        }
    }
}

proof fn lemma_unix_newlines_is_lf_normalized(s: Seq<char>)
    ensures
        unix_newlines(s) == lf_normalized(s),
    decreases s.len(),
{
    reveal_strlit("\r\n");
    reveal_strlit("\r");
    reveal_strlit("\n");
    let crlf = "\r\n"@;
    let cr = "\r"@;
    let lf = "\n"@;
    assert(crlf =~= seq!['\r', '\n']);
    assert(cr =~= seq!['\r']);
    assert(lf =~= seq!['\n']);
    if s.len() == 0 {
        assert(replace_all(s, crlf, lf) =~= s);
        assert(replace_all(s, cr, lf) =~= s);
    } else if s.len() == 1 {
        assert(replace_all(s, crlf, lf) == s);
        assert(s.skip(1) =~= Seq::<char>::empty());
        assert(replace_all(s.skip(1), cr, lf) =~= Seq::<char>::empty());
        assert(lf_normalized(s.skip(1)) =~= Seq::<char>::empty());
        if s[0] == '\r' {
            assert(s.take(1) =~= cr);
            assert(replace_all(s, cr, lf) =~= lf + Seq::<char>::empty());
        } else {
            assert(s.take(1)[0] != cr[0]);
            assert(s.take(1) != cr);
            assert(replace_all(s, cr, lf) =~= seq![s[0]] + Seq::<char>::empty());
        }
        assert(lf_normalized(s) =~= replace_all(s, cr, lf));
    } else if s[0] == '\r' && s[1] == '\n' {
        assert(s.take(2) =~= crlf);
        let rest = s.skip(2);
        lemma_unix_newlines_is_lf_normalized(rest);
        assert(replace_all(s, crlf, lf) == lf + replace_all(rest, crlf, lf));
        lemma_replace_char_concat(lf, replace_all(rest, crlf, lf), '\r', lf);
        assert(lf.take(1)[0] != cr[0]);
        assert(lf.take(1) != cr);
        assert(lf.skip(1) =~= Seq::<char>::empty());
        assert(replace_all(lf.skip(1), cr, lf) =~= Seq::<char>::empty());
        assert(replace_all(lf, cr, lf) =~= lf);
    } else {
        if s[0] == '\r' {
            assert(s.take(2)[1] != crlf[1]);
        } else {
            assert(s.take(2)[0] != crlf[0]);
        }
        assert(s.take(2) != crlf);
        let rest = s.skip(1);
        lemma_unix_newlines_is_lf_normalized(rest);
        let head = seq![s[0]];
        assert(replace_all(s, crlf, lf) == head + replace_all(rest, crlf, lf));
        lemma_replace_char_concat(head, replace_all(rest, crlf, lf), '\r', lf);
        assert(head.skip(1) =~= Seq::<char>::empty());
        assert(replace_all(head.skip(1), cr, lf) =~= Seq::<char>::empty());
        if s[0] == '\r' {
            assert(head.take(1) =~= cr);
            assert(replace_all(head, cr, lf) =~= lf);
        } else {
            assert(head.take(1) =~= head);
            assert(head[0] != cr[0]);
            assert(head != cr);
            assert(replace_all(head, cr, lf) =~= head);
        }
    }
}

/// The paste plan types back exactly the transcript, with each CR-LF pair and each lone
/// CR read as one line break: no line break is lost, added or merged, so a blank line
/// between paragraphs stays a blank line.
pub proof fn paste_plan_types_the_transcript(text: Seq<char>)
    ensures
        typed_text(paste_plan_spec(text)) == lf_normalized(text),
{
    lemma_paste_plan_types_text(text);
    lemma_unix_newlines_is_lf_normalized(text);
}

/// Text without line breaks or sentinels is one paste, or nothing when empty.
pub proof fn lemma_plain_text_is_one_chunk(text: Seq<char>)
    requires
        forall|i: int| 0 <= i < text.len() ==> text[i] != '\n' && text[i] != '\r' && key_of(text[i]) is None,
    ensures
        paste_plan_spec(text) == chunk_step(text),
{
    reveal_strlit("\r\n");
    reveal_strlit("\r");
    lemma_replace_absent(text, "\r\n"@, "\n"@);
    lemma_replace_absent(text, "\r"@, "\n"@);
    lemma_plan_from_plain(text, Seq::empty());
    assert(Seq::<char>::empty() + text =~= text);
}

proof fn lemma_replace_absent(s: Seq<char>, from: Seq<char>, to: Seq<char>)
    requires
        from.len() > 0,
        forall|i: int| 0 <= i < s.len() ==> s[i] != from[0],
    ensures
        replace_all(s, from, to) == s,
    decreases s.len(),
{
    if s.len() >= from.len() {
        assert(s.take(from.len() as int)[0] != from[0]);
        lemma_replace_absent(s.skip(1), from, to);
        assert(seq![s[0]] + s.skip(1) =~= s);
    }
}

proof fn lemma_plan_from_plain(s: Seq<char>, cur: Seq<char>)
    requires
        forall|i: int| 0 <= i < s.len() ==> s[i] != '\n' && key_of(s[i]) is None,
    ensures
        plan_from(s, cur) == chunk_step(cur + s),
    decreases s.len(),
{
    if s.len() == 0 {
        assert(cur + s =~= cur);
    } else {
        lemma_plan_from_plain(s.skip(1), cur.push(s[0]));
        assert(cur.push(s[0]) + s.skip(1) =~= cur + s);
    }
}

/// Undo steps a paste costs: one per step, saturating at `u32::MAX`.
pub fn undo_step_count(steps: &[PasteStep]) -> (r: u32)
    ensures
        r == if steps@.len() < u32::MAX {
            steps@.len()
        } else {
            u32::MAX as nat
        },
{
    if steps.len() < 0xFFFF_FFFFusize {
        steps.len() as u32
    } else {
        0xFFFF_FFFFu32
    }
}

/// Steps for a verified destination: one whole-text clipboard paste when the destination
/// application opted into multiline paste and the text has no key commands, else the
/// line-by-line plan.
pub fn destination_plan(text: &str, multiline: bool) -> (r: Vec<PasteStep>)
    ensures
        steps_view(r@) == if multiline && !has_sentinels(text@) {
            seq![StepView::Chunk(text@)]
        } else {
            paste_plan_spec(text@)
        },
        !(multiline && !has_sentinels(text@)) ==> typed_text(steps_view(r@)) == lf_normalized(text@),
{
    if multiline && !text_has_spoken_key_sentinels(text) {
        let v = vec![PasteStep::Chunk(text.to_owned())];
        assert(steps_view(v@) =~= seq![StepView::Chunk(text@)]);
        v
    } else {
        paste_plan(text)
    }
}

/// Number of single undo presses for a request of `n` (at most 64).
pub fn undo_n_times_at_focus(n: u32) -> (presses: u32)
    ensures
        presses == if n < 64 {
            n
        } else {
            64
        },
{
    if n < 64 {
        n
    } else {
        64
    }
}

} // verus!
