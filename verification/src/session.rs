//! Decisions around the inference engine: numeric settings, live-preview feeding, engine
//! start/stop guards, status and first-message settings, the crash watchdog, idle
//! unloading, punctuation restoring and error messages. The application performs each
//! step and reports what it observed.
use crate::engine::{opt_view, whisper_device};
use crate::errors::{is_err_with, is_some_text};
use crate::numbers::{parse_u32, parse_u64, unsigned_value};
use crate::text::{ascii_lowercase, push_str, str_eq, trim, trim_string};
use vstd::prelude::*;

verus! {

/// `v` clamped to `[lo, hi]`.
pub open spec fn clamp(v: int, lo: int, hi: int) -> int {
    if v < lo {
        lo
    } else if v > hi {
        hi
    } else {
        v
    }
}

/// An unsigned setting as `str::parse` reads it into a type whose largest value is `max`:
/// `None` when unset, unparsable or out of range.
pub open spec fn parsed_unsigned(raw: Option<Seq<char>>, max: nat) -> Option<nat> {
    match raw {
        Some(s) => match unsigned_value(s) {
            Some(v) if v <= max => Some(v),
            _ => None,
        },
        None => None,
    }
}

/// A `u32` setting: parsed, else `default`, then clamped to `[lo, hi]`.
pub fn setting_u32(raw: Option<&str>, default: u32, lo: u32, hi: u32) -> (r: u32)
    requires
        lo <= hi,
    ensures
        r == clamp(
            match parsed_unsigned(opt_view(raw), u32::MAX as nat) {
                Some(v) => v as int,
                None => default as int,
            },
            lo as int,
            hi as int,
        ),
{
    let v = match raw {
        Some(s) => match parse_u32(s) {
            Some(x) => x,
            None => default,
        },
        None => default,
    };
    if v < lo {
        lo
    } else if v > hi {
        hi
    } else {
        v
    }
}

/// Pause between two live-preview feeds: `live_feed_interval_ms`, else the older
/// `live_chunk_interval_ms`, else 200; clamped to `[100, 30000]`.
pub fn live_feed_interval_ms(feed: Option<&str>, chunk: Option<&str>) -> (r: u64)
    ensures
        r == clamp(
            match parsed_unsigned(opt_view(feed), u64::MAX as nat) {
                Some(v) => v as int,
                None => match parsed_unsigned(opt_view(chunk), u64::MAX as nat) {
                    Some(v) => v as int,
                    None => 200,
                },
            },
            100,
            30000,
        ),
{
    let first = match feed {
        Some(s) => parse_u64(s),
        None => None,
    };
    let v = match first {
        Some(x) => x,
        None => match chunk {
            Some(s) => match parse_u64(s) {
                Some(x) => x,
                None => 200,
            },
            None => 200,
        },
    };
    if v < 100 {
        100
    } else if v > 30000 {
        30000
    } else {
        v
    }
}

/// Least audio before the first live-preview feed: `live_min_audio_ms`, else 800;
/// clamped to `[200, 10000]`.
pub fn live_min_audio_ms(raw: Option<&str>) -> (r: u32)
    ensures
        r == clamp(
            match parsed_unsigned(opt_view(raw), u32::MAX as nat) {
                Some(v) => v as int,
                None => 800,
            },
            200,
            10000,
        ),
{
    setting_u32(raw, 800, 200, 10000)
}

/// Silence that splits speech segments: `vad_min_silence_ms`, else 500; clamped to
/// `[50, 3000]`.
pub fn vad_min_silence_ms(raw: Option<&str>) -> (r: u32)
    ensures
        r == clamp(
            match parsed_unsigned(opt_view(raw), u32::MAX as nat) {
                Some(v) => v as int,
                None => 500,
            },
            50,
            3000,
        ),
{
    setting_u32(raw, 500, 50, 3000)
}

/// Milliseconds of audio in `n` samples at `rate`, truncated to `u32` as the feed loop does.
pub open spec fn audio_ms(n: nat, rate: nat) -> u32 {
    ((n * 1000) / rate) as u32
}

/// Whether the live preview feeds the samples from `cursor` on: there must be samples, a
/// rate, and new samples past the cursor; and before the first feed (cursor 0) at least a
/// quarter of the minimum audio (never less than 50 ms).
pub fn should_feed_live_audio(total: usize, rate: u32, cursor: usize, min_audio_ms: u32) -> (r: bool)
    requires
        total <= 18_446_744_073_709_551,
    ensures
        r == (total > 0 && rate > 0 && cursor < total && !(cursor == 0 && audio_ms(
            (total - cursor) as nat,
            rate as nat,
        ) < (if min_audio_ms / 4 > 50 {
            min_audio_ms / 4
        } else {
            50
        }))),
{
    if total == 0 || rate == 0 {
        return false;
    }
    if cursor >= total {
        return false;
    }
    let delta = (total - cursor) as u64;
    let ms = (delta * 1000 / (rate as u64)) as u32;
    let quarter = min_audio_ms / 4;
    let floor = if quarter > 50 {
        quarter
    } else {
        50
    };
    !(ms < floor && cursor == 0)
}

/// Why an engine start or stop cannot go ahead now, checked in this order: the capture
/// slot is being changed, a recording is active, transcription work is running.
pub fn engine_transition_guard(
    stopping: bool,
    capture_slot_free: bool,
    recording: bool,
    work_free: bool,
) -> (r: Result<(), String>)
    ensures
        !capture_slot_free ==> is_err_with(r, "Recording is stopping. Try again shortly."@),
        capture_slot_free && recording ==> is_err_with(
            r,
            if stopping {
                "Finish recording before stopping the engine"@
            } else {
                "Finish recording before restarting the engine"@
            },
        ),
        capture_slot_free && !recording && !work_free ==> is_err_with(
            r,
            if stopping {
                "Wait for processing to finish before stopping the engine"@
            } else {
                "Wait for dictation processing to finish before restarting the engine"@
            },
        ),
        capture_slot_free && !recording && work_free ==> r is Ok,
{
    if !capture_slot_free {
        return Err("Recording is stopping. Try again shortly.".to_owned());
    }
    if recording {
        return Err(
            if stopping {
                "Finish recording before stopping the engine"
            } else {
                "Finish recording before restarting the engine"
            }.to_owned(),
        );
    }
    if !work_free {
        return Err(
            if stopping {
                "Wait for processing to finish before stopping the engine"
            } else {
                "Wait for dictation processing to finish before restarting the engine"
            }.to_owned(),
        );
    }
    Ok(())
}

/// The engine's state as the settings screen shows it.
pub struct EngineStatus {
    pub ready: bool,
    /// `starting`, `local`, `remote` or `none`.
    pub mode: String,
    pub message: Option<String>,
    pub inference_detail: Option<String>,
}

/// The status for what is observed: an engine transition in progress; the local process,
/// if any, and whether it is alive; whether a remote node is attached; and the last
/// device line. A local process that died reads as absent.
pub fn engine_status_view(
    transition_busy: bool,
    local_alive: Option<bool>,
    remote_attached: bool,
    detail: Option<String>,
) -> (r: EngineStatus)
    ensures
        transition_busy ==> {
            &&& !r.ready
            &&& r.mode@ == "starting"@
            &&& is_some_text(r.message, "Engine is starting or stopping — please wait."@)
            &&& r.inference_detail is None
        },
        !transition_busy && local_alive == Some(true) ==> {
            &&& r.ready
            &&& r.mode@ == "local"@
            &&& is_some_text(r.message, "Sidecar running — use push-to-talk or Transcribe."@)
            &&& r.inference_detail == detail
        },
        !transition_busy && local_alive != Some(true) && remote_attached ==> {
            &&& r.ready
            &&& r.mode@ == "remote"@
            &&& is_some_text(r.message, "Connected to Yapper Node — use push-to-talk or Transcribe."@)
            &&& r.inference_detail == detail
        },
        !transition_busy && local_alive != Some(true) && !remote_attached ==> {
            &&& !r.ready
            &&& r.mode@ == "none"@
            &&& is_some_text(r.message, "Engine not started"@)
            &&& r.inference_detail is None
        },
{
    if transition_busy {
        return EngineStatus {
            ready: false,
            mode: "starting".to_owned(),
            message: Some("Engine is starting or stopping — please wait.".to_owned()),
            inference_detail: None,
        };
    }
    if local_alive == Some(true) {
        return EngineStatus {
            ready: true,
            mode: "local".to_owned(),
            message: Some("Sidecar running — use push-to-talk or Transcribe.".to_owned()),
            inference_detail: detail,
        };
    }
    if remote_attached {
        return EngineStatus {
            ready: true,
            mode: "remote".to_owned(),
            message: Some("Connected to Yapper Node — use push-to-talk or Transcribe.".to_owned()),
            inference_detail: detail,
        };
    }
    EngineStatus {
        ready: false,
        mode: "none".to_owned(),
        message: Some("Engine not started".to_owned()),
        inference_detail: None,
    }
}

/// Whether the `inference_host` setting selects a remote node (unset means local).
pub fn uses_remote_host(host: Option<&str>) -> (r: bool)
    ensures
        r == (opt_view(host) == Some("remote"@)),
{
    match host {
        Some(h) => str_eq(h, "remote"),
        None => false,
    }
}

/// The node URL and token to connect with: `ws://127.0.0.1:8765` and an empty token when
/// unset.
pub fn remote_endpoint(url: Option<String>, token: Option<String>) -> (r: (String, String))
    ensures
        r.0@ == match url {
            Some(u) => u@,
            None => "ws://127.0.0.1:8765"@,
        },
        r.1@ == match token {
            Some(t) => t@,
            None => Seq::<char>::empty(),
        },
{
    let u = match url {
        Some(u) => u,
        None => "ws://127.0.0.1:8765".to_owned(),
    };
    let t = match token {
        Some(t) => t,
        None => String::new(),
    };
    (u, t)
}

/// The engine settings sent with the first message to the inference process.
pub struct InitPlan {
    pub model: String,
    pub device: String,
    pub compute_type: String,
    pub mock: bool,
    pub engine: String,
    pub lazy_load: bool,
}

/// The first message's settings: `compute_type` defaults to `int8`, `engine` to `whisper`;
/// mock and lazy loading are on only for the value `true`. A remote node always gets the
/// CPU device and eager loading; a local process gets the device that the preference and
/// the CUDA probe select.
pub fn init_plan(
    remote: bool,
    model: String,
    compute: Option<String>,
    mock: Option<&str>,
    engine: Option<String>,
    lazy: Option<&str>,
    device_pref: Option<&str>,
    cuda: bool,
) -> (r: InitPlan)
    ensures
        r.model == model,
        r.compute_type@ == match compute {
            Some(c) => c@,
            None => "int8"@,
        },
        r.mock == (opt_view(mock) == Some("true"@)),
        r.engine@ == match engine {
            Some(e) => e@,
            None => "whisper"@,
        },
        r.lazy_load == (!remote && opt_view(lazy) == Some("true"@)),
        remote ==> r.device@ == "cpu"@,
        !remote ==> r.device@ == (if cuda && opt_view(device_pref) != Some("cpu"@) {
            "cuda"@
        } else {
            "cpu"@
        }),
{
    let compute_type = match compute {
        Some(c) => c,
        None => "int8".to_owned(),
    };
    let mock_on = match mock {
        Some(m) => str_eq(m, "true"),
        None => false,
    };
    let engine = match engine {
        Some(e) => e,
        None => "whisper".to_owned(),
    };
    let lazy_on = match lazy {
        Some(l) => str_eq(l, "true"),
        None => false,
    };
    let device = if remote {
        "cpu".to_owned()
    } else {
        let pref = match device_pref {
            Some(p) => p,
            None => "auto",
        };
        whisper_device(pref, cuda).to_owned()
    };
    proof {
        reveal_strlit("auto");
        reveal_strlit("cpu");
    }
    InitPlan {
        model,
        device,
        compute_type,
        mock: mock_on,
        engine,
        lazy_load: !remote && lazy_on,
    }
}

/// What the crash watchdog does on a tick.
#[derive(PartialEq, Eq, Structural)]
pub enum WatchdogStep {
    /// A newer engine run owns supervision: this watchdog ends.
    Exit,
    /// Nothing to do until the next tick.
    Wait,
    /// The local process died: clear the session and start recovery.
    Recover,
}

/// The watchdog's step: it ends once its run is superseded, recovers when the local process
/// it watches has died, and otherwise waits.
pub fn watchdog_step(run_current: bool, local_alive: Option<bool>) -> (r: WatchdogStep)
    ensures
        r == if !run_current {
            WatchdogStep::Exit
        } else if local_alive == Some(false) {
            WatchdogStep::Recover
        } else {
            WatchdogStep::Wait
        },
{
    if !run_current {
        WatchdogStep::Exit
    } else {
        match local_alive {
            Some(false) => WatchdogStep::Recover,
            _ => WatchdogStep::Wait,
        }
    }
}

/// How many restarts the watchdog tries before giving up.
pub const RESTART_ATTEMPTS: u32 = 3;

/// The pause before restart attempt `attempt` (counted from 1): 800 ms per attempt.
pub fn restart_delay_ms(attempt: u32) -> (r: u64)
    requires
        1 <= attempt <= RESTART_ATTEMPTS,
    ensures
        r == 800 * attempt,
{
    800 * (attempt as u64)
}

/// The message shown once every restart attempt failed.
pub fn restart_failed_message(last_error: &str) -> (r: String)
    ensures
        r@ == "Could not restart the inference engine. "@ + last_error@,
{
    let mut m = "Could not restart the inference engine. ".to_owned();
    push_str(&mut m, last_error);
    m
}

/// The error kept for the final message: the latest non-empty one.
pub fn keep_restart_error(last: String, error: String) -> (r: String)
    ensures
        r == if error@.len() == 0 {
            last
        } else {
            error
        },
{
    if error.as_str().is_empty() {
        last
    } else {
        error
    }
}

/// What the idle supervisor does on a tick.
#[derive(PartialEq, Eq, Structural)]
pub enum IdleStep {
    /// The run was superseded or the engine is gone: the supervisor ends.
    Exit,
    /// Keep the model for now.
    Keep,
    /// Ask the engine to drop its weights.
    Unload,
}

/// The idle supervisor's decision: it ends when its run is superseded or no local engine
/// is left; it keeps the model while anything is recording or transcribing, while idle
/// unloading is off (no setting, an unparsable one, or 0 minutes), before the model has
/// been idle that many minutes, or when no model is loaded; otherwise it unloads.
pub fn idle_step(
    run_current: bool,
    has_engine: bool,
    busy: bool,
    unload_after_mins: Option<u64>,
    idle_ms: u64,
    model_loaded: bool,
) -> (r: IdleStep)
    requires
        unload_after_mins matches Some(m) ==> m <= u64::MAX / 60,
    ensures
        r == if !run_current || !has_engine {
            IdleStep::Exit
        } else if busy {
            IdleStep::Keep
        } else {
            match unload_after_mins {
                None => IdleStep::Keep,
                Some(m) => if m == 0 || idle_ms < m * 60000 || !model_loaded {
                    IdleStep::Keep
                } else {
                    IdleStep::Unload
                },
            }
        },
{
    if !run_current || !has_engine {
        return IdleStep::Exit;
    }
    if busy {
        return IdleStep::Keep;
    }
    match unload_after_mins {
        None => IdleStep::Keep,
        Some(m) => {
            if m == 0 || (idle_ms as u128) < (m as u128) * 60000 || !model_loaded {
                IdleStep::Keep
            } else {
                IdleStep::Unload
            }
        },
    }
}

/// Whether punctuation is restored by the engine: the `grammar_restore` mode (any case)
/// `off`, `false` or `0` never; `always`, `on`, `true` or `1` always; anything else
/// (including unset, which means `auto`) when the transcript looks under-punctuated.
pub fn grammar_restore_wanted(mode: Option<&str>, underpunctuated: bool) -> (r: bool)
    ensures
        ({
            let m = match opt_view(mode) {
                Some(v) => ascii_lowercase(v),
                None => "auto"@,
            };
            r == if m == "off"@ || m == "false"@ || m == "0"@ {
                false
            } else if m == "always"@ || m == "on"@ || m == "true"@ || m == "1"@ {
                true
            } else {
                underpunctuated
            }
        }),
{
    let m = match mode {
        Some(v) => crate::text::ascii_lowercase_string(v),
        None => "auto".to_owned(),
    };
    let m = m.as_str();
    if str_eq(m, "off") || str_eq(m, "false") || str_eq(m, "0") {
        false
    } else if str_eq(m, "always") || str_eq(m, "on") || str_eq(m, "true") || str_eq(m, "1") {
        true
    } else {
        underpunctuated
    }
}

/// What a piece of live text does to the preview: blank text changes nothing (`None`);
/// otherwise the trimmed text becomes the preview, and the widget grows to the preview size
/// only for the first text of the recording (when the current preview is empty).
pub fn live_preview_update(current: &str, raw: &str) -> (r: Option<(String, bool)>)
    ensures
        trim(raw@).len() == 0 ==> r is None,
        trim(raw@).len() > 0 ==> (r matches Some((t, grow)) && t@ == trim(raw@) && grow == (current@.len()
            == 0)),
{
    let t = trim_string(raw);
    if t.as_str().is_empty() {
        None
    } else {
        Some((t, current.is_empty()))
    }
}

/// The message for a failed write to the inference process: on Windows, error 232 (the
/// pipe is being closed) means the process went away; any other error keeps its own text.
pub fn pipe_write_error_message(windows: bool, os_error: Option<i32>, text: String) -> (r: String)
    ensures
        windows && os_error == Some(232i32) ==> r@
            == "The inference process closed its input pipe (often it exited or crashed). Restart the engine from Home or Settings."@,
        !(windows && os_error == Some(232i32)) ==> r == text,
{
    if windows && os_error == Some(232) {
        "The inference process closed its input pipe (often it exited or crashed). Restart the engine from Home or Settings.".to_owned()
    } else {
        text
    }
}

/// The live-preview engine: `live_streaming_engine`, else `moonshine`.
pub fn live_streaming_engine(raw: Option<String>) -> (r: String)
    ensures
        r@ == match raw {
            Some(v) => v@,
            None => "moonshine"@,
        },
{
    match raw {
        Some(v) => v,
        None => "moonshine".to_owned(),
    }
}

/// The live-preview model: `live_streaming_model`, else `small_streaming`.
pub fn live_streaming_model(raw: Option<String>) -> (r: String)
    ensures
        r@ == match raw {
            Some(v) => v@,
            None => "small_streaming"@,
        },
{
    match raw {
        Some(v) => v,
        None => "small_streaming".to_owned(),
    }
}

/// The settings that decide where and how model weights are cached.
pub struct ModelCacheSettings {
    pub whisper_model: String,
    pub mock_transcription: bool,
    pub lazy_load_whisper: bool,
    pub whisper_device: String,
    pub compute_type: String,
}

/// The cache settings as stored: model `base`, device `auto` and compute `int8` when unset;
/// demo mode and lazy loading on only for the value `true`.
pub fn model_cache_settings(
    whisper_model: Option<String>,
    mock: Option<&str>,
    lazy: Option<&str>,
    device: Option<String>,
    compute: Option<String>,
) -> (r: ModelCacheSettings)
    ensures
        r.whisper_model@ == match whisper_model {
            Some(v) => v@,
            None => "base"@,
        },
        r.mock_transcription == (opt_view(mock) == Some("true"@)),
        r.lazy_load_whisper == (opt_view(lazy) == Some("true"@)),
        r.whisper_device@ == match device {
            Some(v) => v@,
            None => "auto"@,
        },
        r.compute_type@ == match compute {
            Some(v) => v@,
            None => "int8"@,
        },
{
    ModelCacheSettings {
        whisper_model: match whisper_model {
            Some(v) => v,
            None => "base".to_owned(),
        },
        mock_transcription: match mock {
            Some(m) => str_eq(m, "true"),
            None => false,
        },
        lazy_load_whisper: match lazy {
            Some(l) => str_eq(l, "true"),
            None => false,
        },
        whisper_device: match device {
            Some(v) => v,
            None => "auto".to_owned(),
        },
        compute_type: match compute {
            Some(v) => v,
            None => "int8".to_owned(),
        },
    }
}

/// What the live-preview loop does on a tick.
#[derive(PartialEq, Eq, Structural)]
pub enum LiveTick {
    /// The recording ended or live preview was turned off: the loop ends.
    Stop,
    /// Nothing to send yet.
    Wait,
    /// Send the samples from `from` to the end of the recording.
    Feed { from: usize },
}

/// The live-preview tick: it stops when the recording is no longer active or the preview is
/// no longer wanted; otherwise it feeds the new samples after the cursor when
/// `should_feed_live_audio` allows, and waits otherwise.
pub fn live_tick(
    ptt_active: bool,
    live_wanted: bool,
    total: usize,
    rate: u32,
    cursor: usize,
    min_audio_ms: u32,
) -> (r: LiveTick)
    requires
        total <= 18_446_744_073_709_551,
    ensures
        !ptt_active || !live_wanted ==> r == LiveTick::Stop,
        ptt_active && live_wanted ==> r == if total > 0 && rate > 0 && cursor < total && !(cursor
            == 0 && audio_ms((total - cursor) as nat, rate as nat) < (if min_audio_ms / 4 > 50 {
            min_audio_ms / 4
        } else {
            50
        })) {
            LiveTick::Feed { from: cursor }
        } else {
            LiveTick::Wait
        },
{
    if !ptt_active || !live_wanted {
        return LiveTick::Stop;
    }
    if should_feed_live_audio(total, rate, cursor, min_audio_ms) {
        LiveTick::Feed { from: cursor }
    } else {
        LiveTick::Wait
    }
}

/// How sending live-preview audio went.
#[derive(PartialEq, Eq, Structural)]
pub enum FeedResult {
    /// The audio was sent.
    Sent,
    /// The engine was busy with other audio; nothing was sent.
    Busy,
    /// Sending failed.
    Failed,
}

/// After a feed attempt over the samples up to `total`: the cursor moves to `total` only
/// when the audio was actually sent, so no speech is skipped; a busy engine leaves it for
/// the next tick; a failure keeps the cursor, reports the interruption and ends the loop.
/// Returns the new cursor, the status line to show, and whether the loop ends.
pub fn live_after_feed(result: FeedResult, cursor: usize, total: usize) -> (r: (usize, Option<&'static str>, bool))
    ensures
        result == FeedResult::Sent ==> r.0 == total && r.1 is None && !r.2,
        result == FeedResult::Busy ==> r.0 == cursor && r.1 is None && !r.2,
        result == FeedResult::Failed ==> r.0 == cursor && r.2 && (r.1 matches Some(m) && m@
            == "Preview interrupted. Final transcription is still available."@),
{
    match result {
        FeedResult::Sent => (total, None, false),
        FeedResult::Busy => (cursor, None, false),
        FeedResult::Failed => (cursor, Some("Preview interrupted. Final transcription is still available."), true),
    }
}

/// Status while the live-preview stream is being prepared.
pub fn preview_preparing() -> (r: &'static str)
    ensures
        r@ == "Preparing live preview; the first use may download a model..."@,
{
    "Preparing live preview; the first use may download a model..."
}

/// Status once the stream listens for audio.
pub fn preview_listening() -> (r: &'static str)
    ensures
        r@ == "Listening for preview..."@,
{
    "Listening for preview..."
}

/// Status when the stream could not start (the final transcription still runs), or, with
/// `still_final` off, when the preview failed while running.
pub fn preview_unavailable(error: &str, still_final: bool) -> (r: String)
    ensures
        still_final ==> r@ == "Preview unavailable: "@ + error@ + ". Final transcription is still available."@,
        !still_final ==> r@ == "Preview unavailable: "@ + error@,
{
    let mut m = "Preview unavailable: ".to_owned();
    push_str(&mut m, error);
    if still_final {
        push_str(&mut m, ". Final transcription is still available.");
    }
    m
}

/// Where one restart attempt of the watchdog stands.
#[derive(PartialEq, Eq, Structural)]
pub enum RestartGate {
    /// A newer engine run took over: the recovery is done.
    Superseded,
    /// The process is running again: the recovery is done.
    Recovered,
    /// Recording or transcription still runs: check again shortly.
    WaitIdle,
    /// It stayed busy for the whole wait: this attempt fails.
    GiveUp,
    /// Start the engine now.
    Go,
}

/// The restart attempt's gate: done when superseded or running again; otherwise it starts
/// once capture and processing are idle, waits while they are busy, and gives up when the
/// wait (a minute) is over.
pub fn restart_gate(run_current: bool, alive: bool, idle: bool, waited_out: bool) -> (r: RestartGate)
    ensures
        r == if !run_current {
            RestartGate::Superseded
        } else if alive {
            RestartGate::Recovered
        } else if idle {
            RestartGate::Go
        } else if waited_out {
            RestartGate::GiveUp
        } else {
            RestartGate::WaitIdle
        },
{
    if !run_current {
        RestartGate::Superseded
    } else if alive {
        RestartGate::Recovered
    } else if idle {
        RestartGate::Go
    } else if waited_out {
        RestartGate::GiveUp
    } else {
        RestartGate::WaitIdle
    }
}

/// The error of an attempt that gave up waiting for recording to finish.
pub fn restart_busy_message() -> (r: &'static str)
    ensures
        r@ == "Finish the active recording before restarting."@,
{
    "Finish the active recording before restarting."
}

/// The run a following attempt watches: an attempt that started the engine and failed
/// advanced the run itself, so the next attempt takes that run over; otherwise it keeps
/// the run it had.
pub fn run_after_attempt(started: bool, ready: bool, expected: u64, current: u64) -> (r: u64)
    ensures
        r == if started && !ready {
            current
        } else {
            expected
        },
{
    if started && !ready {
        current
    } else {
        expected
    }
}

} // verus!

