//! The floating dictation widget: its phase, layout and size, and the sequence numbers
//! that tag inference requests.
use crate::text::str_eq;
use vstd::prelude::*;

verus! {

#[derive(Clone, Copy, Debug, PartialEq, Eq, Structural)]
pub enum HudPhase {
    /// Widget not shown (engine stopped).
    Hidden,
    /// Small pill: engine running, not dictating.
    Idle,
    Listening,
    Transcribing,
}

#[derive(Clone, Copy, Debug, PartialEq, Eq, Structural)]
pub enum HudLayout {
    Collapsed,
    Listening,
    Preview,
}

/// The counter after one step: one more, wrapping from `u64::MAX` to 0.
pub open spec fn seq_step(v: u64) -> u64 {
    if v == u64::MAX {
        0
    } else {
        (v + 1) as u64
    }
}

/// The counter after `k` steps from `v`.
pub open spec fn seq_steps(v: u64, k: nat) -> u64
    decreases k,
{
    if k == 0 {
        v
    } else {
        seq_step(seq_steps(v, (k - 1) as nat))
    }
}

/// Takes the next sequence number: returns the current value and advances the counter
/// (wrapping, as an atomic `fetch_add` does).
pub fn next_seq(seq: &mut u64) -> (r: u64)
    ensures
        r == *old(seq),
        *final(seq) == seq_step(*old(seq)),
{
    let r = *seq;
    *seq = if r == u64::MAX {
        0
    } else {
        r + 1
    };
    r
}

/// `k` calls of `next_seq` on a counter holding `v`: the `i`-th call returns `v + i` and the
/// counter ends at `v + k`, both wrapping modulo 2^64; so up to 2^64 calls never hand out
/// the same number twice.
pub proof fn next_seq_over_many_calls(v: u64, k: nat)
    ensures
        seq_steps(v, k) == (v + k) % 0x1_0000_0000_0000_0000,
        k <= 0x1_0000_0000_0000_0000 ==> forall|i: nat, j: nat|
            i < j < k ==> #[trigger] seq_steps(v, i) != #[trigger] seq_steps(v, j),
    decreases k,
{
    let m: int = 0x1_0000_0000_0000_0000;
    if k > 0 {
        next_seq_over_many_calls(v, (k - 1) as nat);
        let p = seq_steps(v, (k - 1) as nat);
        assert(p == (v + k - 1) % m);
        assert(seq_steps(v, k) == seq_step(p));
        assert(seq_step(p) == (v + k) % m) by (nonlinear_arith)
            requires
                p == (v + k - 1) % m,
                seq_step(p) == if p == m - 1 { 0 } else { p + 1 },
                m == 0x1_0000_0000_0000_0000,
                k > 0,
                v >= 0,
        ;
    }
    if k <= m {
        assert forall|i: nat, j: nat| i < j < k implies #[trigger] seq_steps(v, i) != #[trigger] seq_steps(v, j) by {
            next_seq_over_many_calls(v, i);
            next_seq_over_many_calls(v, j);
            assert((v + i) % m != (v + j) % m) by (nonlinear_arith)
                requires
                    0 <= i < j,
                    j - i < m,
                    m == 0x1_0000_0000_0000_0000,
                    v >= 0,
            ;
        }
    }
}

/// The phase the widget shows: unless hidden, an active recording shows listening and
/// pending jobs show transcribing.
pub fn snapshot_phase(stored: HudPhase, recording: bool, pending: usize) -> (r: HudPhase)
    ensures
        r == if stored == HudPhase::Hidden {
            HudPhase::Hidden
        } else if recording {
            HudPhase::Listening
        } else if pending > 0 {
            HudPhase::Transcribing
        } else {
            stored
        },
{
    if stored == HudPhase::Hidden {
        stored
    } else if recording {
        HudPhase::Listening
    } else if pending > 0 {
        HudPhase::Transcribing
    } else {
        stored
    }
}

/// Engine start-up stages that need the detailed widget.
pub open spec fn detail_stage(stage: Seq<char>) -> bool {
    stage == "checking"@ || stage == "downloading"@ || stage == "loading"@ || stage == "warming"@
}

/// What the widget reports besides its phase.
pub struct HudNotices {
    pub preview: bool,
    pub outcome: bool,
    pub mic_error: bool,
    pub mic_notice: bool,
    pub preview_status: bool,
}

/// The widget layout: the preview size when there is text, an outcome, a microphone error,
/// a notice while listening, or an engine start-up stage; the listening size while
/// listening or transcribing; else collapsed.
pub fn snapshot_layout(phase: HudPhase, notices: &HudNotices, stage: &str) -> (r: HudLayout)
    ensures
        r == if notices.preview || notices.outcome || notices.mic_error || (phase
            == HudPhase::Listening && (notices.mic_notice || notices.preview_status))
            || detail_stage(stage@) {
            HudLayout::Preview
        } else if phase == HudPhase::Listening || phase == HudPhase::Transcribing {
            HudLayout::Listening
        } else {
            HudLayout::Collapsed
        },
{
    let stage_detail = str_eq(stage, "checking") || str_eq(stage, "downloading") || str_eq(
        stage,
        "loading",
    ) || str_eq(stage, "warming");
    let needs_detail = notices.preview || notices.outcome || notices.mic_error || (phase
        == HudPhase::Listening && (notices.mic_notice || notices.preview_status)) || stage_detail;
    if needs_detail {
        HudLayout::Preview
    } else if phase == HudPhase::Listening || phase == HudPhase::Transcribing {
        HudLayout::Listening
    } else {
        HudLayout::Collapsed
    }
}

/// Layout after a recording is processed: wide enough for the outcome tip when there is one.
pub fn collapse_layout(has_outcome: bool) -> (r: HudLayout)
    ensures
        r == if has_outcome {
            HudLayout::Preview
        } else {
            HudLayout::Collapsed
        },
{
    if has_outcome {
        HudLayout::Preview
    } else {
        HudLayout::Collapsed
    }
}

/// The widget is shown unless its setting is `false`.
pub fn widget_enabled(setting: Option<&str>) -> (r: bool)
    ensures
        r == !(setting matches Some(v) && v@ == "false"@),
{
    match setting {
        Some(v) => !str_eq(v, "false"),
        None => true,
    }
}

/// Widget style: `controls` when chosen, else `classic`.
pub fn widget_style(setting: Option<&str>) -> (r: &'static str)
    ensures
        r@ == if setting matches Some(v) && v@ == "controls"@ {
            "controls"@
        } else {
            "classic"@
        },
{
    match setting {
        Some(v) => if str_eq(v, "controls") {
            "controls"
        } else {
            "classic"
        },
        None => "classic",
    }
}

/// Logical widget size (width, height) for a style and layout.
pub fn layout_size(classic: bool, layout: HudLayout) -> (r: (u32, u32))
    ensures
        classic ==> r == match layout {
            HudLayout::Collapsed => (72u32, 22u32),
            HudLayout::Listening => (88u32, 36u32),
            HudLayout::Preview => (300u32, 64u32),
        },
        !classic ==> r == match layout {
            HudLayout::Collapsed => (180u32, 40u32),
            HudLayout::Listening => (240u32, 52u32),
            HudLayout::Preview => (320u32, 104u32),
        },
{
    if classic {
        match layout {
            HudLayout::Collapsed => (72, 22),
            HudLayout::Listening => (88, 36),
            HudLayout::Preview => (300, 64),
        }
    } else {
        match layout {
            HudLayout::Collapsed => (180, 40),
            HudLayout::Listening => (240, 52),
            HudLayout::Preview => (320, 104),
        }
    }
}

/// New top-left corner after resizing from (`old_w`, `old_h`) to (`new_w`, `new_h`)
/// so that the horizontal centre and the bottom edge stay where they were.
pub fn keep_center_bottom(x: i32, y: i32, old_w: u32, old_h: u32, new_w: u32, new_h: u32) -> (r: (
    i64,
    i64,
))
    ensures
        r.0 == x + old_w as int / 2 - new_w as int / 2,
        r.1 == y + old_h as int - new_h as int,
{
    let center_x = x as i64 + (old_w / 2) as i64;
    let bottom = y as i64 + old_h as i64;
    (center_x - (new_w / 2) as i64, bottom - new_h as i64)
}

/// Half of `d`, rounded toward zero (integer division as Rust computes it).
pub open spec fn half_toward_zero(d: int) -> int {
    if d >= 0 {
        d / 2
    } else {
        -((-d) / 2)
    }
}

/// Top-left corner that centres a window of width `w` and height `h` horizontally in the
/// work area (the half difference rounded toward zero), 36 pixels above its bottom edge.
pub fn bottom_center(area_x: i32, area_y: i32, area_w: u32, area_h: u32, w: u32, h: u32) -> (r: (
    i64,
    i64,
))
    ensures
        r.0 == area_x + half_toward_zero(area_w as int - w as int),
        r.1 == area_y + area_h as int - h as int - 36,
{
    let dx = area_w as i64 - w as i64;
    let half = if dx >= 0 {
        dx / 2
    } else {
        -((-dx) / 2)
    };
    (area_x as i64 + half, area_y as i64 + area_h as i64 - h as i64 - 36)
}

/// Whether the widget is on screen: its setting allows it and an engine (local or remote)
/// is running.
pub fn widget_visible(enabled: bool, engine_running: bool) -> (r: bool)
    ensures
        r == (enabled && engine_running),
{
    enabled && engine_running
}

/// Takes the next live-preview session id: like `next_seq`, but zero (which means "no
/// live session") is skipped, so the first session gets 1.
pub fn next_stream_seq(seq: &mut u64) -> (r: u64)
    ensures
        r != 0,
        r == if *old(seq) != 0 {
            *old(seq)
        } else {
            1
        },
        *final(seq) == if *old(seq) == 0 {
            2
        } else if *old(seq) == u64::MAX {
            0
        } else {
            (*old(seq) + 1) as u64
        },
{
    let first = next_seq(seq);
    if first != 0 {
        first
    } else {
        next_seq(seq)
    }
}

} // verus!

