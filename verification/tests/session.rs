use std::collections::VecDeque;
use yapper::recording::{
    empty_recording_outcome, join_piece, merged_layout, no_speech_outcome, use_merged,
    GAP_16K_SAMPLES, MERGED_MAX_16K_SAMPLES,
};
use yapper::remote::{next_backoff_ms, while_disconnected, DisconnectedStep, OutboundKind, BACKOFF_MAX_MS, BACKOFF_START_MS};
use yapper::session::{
    live_streaming_engine, live_streaming_model, model_cache_settings,
    engine_status_view, engine_transition_guard, grammar_restore_wanted, idle_step, init_plan,
    keep_restart_error, live_feed_interval_ms, live_min_audio_ms, live_preview_update,
    pipe_write_error_message, remote_endpoint, restart_delay_ms, restart_failed_message,
    setting_u32, should_feed_live_audio, uses_remote_host, vad_min_silence_ms, watchdog_step,
    IdleStep, WatchdogStep, RESTART_ATTEMPTS,
};
use yapper::sidecar::{
    has_ready_event, model_load_verdict, pop_sidecar_file_done_for_path,
    pop_sidecar_transcript_for_seq, push_capped, spawn_env_overrides, take_first_error,
    take_model_load_events, take_ready_metadata, unload_confirmed, SidecarEvent, SidecarSpawnEnv,
};

fn fin(text: &str, seq: u64) -> SidecarEvent {
    SidecarEvent::Final { text: text.into(), seq }
}

fn err(m: &str) -> SidecarEvent {
    SidecarEvent::Error { message: m.into() }
}

fn dq(v: Vec<SidecarEvent>) -> VecDeque<SidecarEvent> {
    VecDeque::from(v)
}

fn kinds<'a>(q: impl IntoIterator<Item = &'a SidecarEvent>) -> Vec<String> {
    q.into_iter()
        .map(|e| match e {
            SidecarEvent::Ready { .. } => "ready".to_string(),
            SidecarEvent::Partial { seq, .. } => format!("partial{seq}"),
            SidecarEvent::Final { seq, .. } => format!("final{seq}"),
            SidecarEvent::Error { message } => format!("error:{message}"),
            SidecarEvent::FileProgress { path } => format!("progress:{path}"),
            SidecarEvent::FileDone { path, .. } => format!("done:{path}"),
            SidecarEvent::ModelState { loaded } => format!("model:{loaded}"),
            SidecarEvent::StreamStarted { session_id } => format!("started{session_id}"),
            SidecarEvent::StreamResult { session_id, text, is_final } => {
                format!("stream{session_id}:{text}:{is_final}")
            }
        })
        .collect()
}

#[test]
fn transcript_wait_takes_its_own_final_and_leaves_others() {
    let mut q = dq(vec![fin("other", 1), SidecarEvent::ModelState { loaded: true }, fin("mine", 2)]);
    assert_eq!(pop_sidecar_transcript_for_seq(&mut q, 2), Ok(Some("mine".to_string())));
    assert_eq!(kinds(&q), vec!["final1", "model:true"]);
    assert_eq!(pop_sidecar_transcript_for_seq(&mut q, 7), Ok(None));
    assert_eq!(q.len(), 2);
}

#[test]
fn transcript_wait_fails_on_the_first_error() {
    let mut q = dq(vec![fin("a", 1), err("bad"), fin("b", 2)]);
    assert_eq!(pop_sidecar_transcript_for_seq(&mut q, 2), Err("bad".to_string()));
    assert_eq!(kinds(&q), vec!["final1", "final2"]);
}

#[test]
fn file_wait_drops_its_progress_and_takes_its_result() {
    let mut q = dq(vec![
        SidecarEvent::FileProgress { path: "a.wav".into() },
        SidecarEvent::FileProgress { path: "b.wav".into() },
        SidecarEvent::FileDone { path: "a.wav".into(), text: "hello".into() },
    ]);
    assert_eq!(pop_sidecar_file_done_for_path(&mut q, "a.wav"), Ok(Some("hello".to_string())));
    assert_eq!(kinds(&q), vec!["progress:b.wav"]);
    let mut q2 = dq(vec![err("x")]);
    assert_eq!(pop_sidecar_file_done_for_path(&mut q2, "a.wav"), Err("x".to_string()));
}

#[test]
fn queue_helpers() {
    let mut q = dq(vec![
        fin("a", 1),
        SidecarEvent::Ready { engines: vec![], inference_device: Some("cuda".into()), compute_type: None },
        err("e1"),
        SidecarEvent::ModelState { loaded: false },
        err("e2"),
    ]);
    assert!(has_ready_event(&q));
    assert_eq!(take_first_error(&mut q), Some("e1".to_string()));
    let load = take_model_load_events(&mut q);
    assert_eq!(kinds(&load), vec!["model:false", "error:e2"]);
    assert_eq!(take_ready_metadata(&mut q), Some((Some("cuda".to_string()), None)));
    assert_eq!(kinds(&q), vec!["final1"]);
    assert_eq!(take_first_error(&mut q), None);
}

#[test]
fn model_load_is_settled_by_the_first_loaded_report_or_error() {
    assert_eq!(model_load_verdict(&vec![SidecarEvent::ModelState { loaded: false }]), None);
    assert_eq!(
        model_load_verdict(&vec![SidecarEvent::ModelState { loaded: false }, err("no"), SidecarEvent::ModelState { loaded: true }]),
        Some(Err("no".to_string()))
    );
    assert_eq!(model_load_verdict(&vec![SidecarEvent::ModelState { loaded: true }, err("late")]), Some(Ok(())));
    assert!(unload_confirmed(&vec![fin("a", 1), SidecarEvent::ModelState { loaded: false }]));
    assert!(!unload_confirmed(&vec![SidecarEvent::ModelState { loaded: true }]));
}

#[test]
fn capped_queue_drops_oldest() {
    let mut q = VecDeque::from(vec![1, 2, 3]);
    push_capped(&mut q, 4, 3);
    assert_eq!(q, VecDeque::from(vec![2, 3, 4]));
    push_capped(&mut q, 5, 5);
    assert_eq!(q, VecDeque::from(vec![2, 3, 4, 5]));
}

#[test]
fn spawn_environment_puts_the_runtime_first() {
    let env = SidecarSpawnEnv {
        path_prepend_windows: Some("C:\\gpu\\bin".into()),
        ld_library_path_prepend_unix: Some("/opt/nv".into()),
    };
    assert_eq!(
        spawn_env_overrides(&env, true, false, "C:\\Windows", ""),
        vec![("PATH".to_string(), "C:\\gpu\\bin;C:\\Windows".to_string())]
    );
    assert_eq!(
        spawn_env_overrides(&env, false, true, "", "/usr/lib"),
        vec![("LD_LIBRARY_PATH".to_string(), "/opt/nv:/usr/lib".to_string())]
    );
    assert_eq!(
        spawn_env_overrides(&env, false, true, "", ""),
        vec![("LD_LIBRARY_PATH".to_string(), "/opt/nv".to_string())]
    );
    let none = SidecarSpawnEnv { path_prepend_windows: None, ld_library_path_prepend_unix: None };
    assert!(spawn_env_overrides(&none, true, true, "a", "b").is_empty());
}

#[test]
fn numeric_settings_parse_and_clamp() {
    assert_eq!(setting_u32(Some("+42"), 1, 0, 100), 42);
    assert_eq!(live_feed_interval_ms(Some("50"), None), 100);
    assert_eq!(live_feed_interval_ms(Some("bad"), Some("450")), 450);
    assert_eq!(live_feed_interval_ms(None, None), 200);
    assert_eq!(live_feed_interval_ms(Some("99999999"), None), 30000);
    assert_eq!(live_min_audio_ms(None), 800);
    assert_eq!(live_min_audio_ms(Some("5")), 200);
    assert_eq!(vad_min_silence_ms(Some("4000")), 3000);
    assert_eq!(vad_min_silence_ms(Some("-1")), 500);
}

#[test]
fn first_live_feed_waits_for_enough_audio() {
    // 800 ms minimum: the first feed needs 200 ms; 16 kHz gives 16 samples per ms.
    assert!(!should_feed_live_audio(3199, 16000, 0, 800));
    assert!(should_feed_live_audio(3200, 16000, 0, 800));
    assert!(should_feed_live_audio(1700, 16000, 1600, 800));
    assert!(!should_feed_live_audio(1600, 16000, 1600, 800));
    assert!(!should_feed_live_audio(0, 16000, 0, 800));
    assert!(!should_feed_live_audio(100, 0, 0, 800));
    // The floor is 50 ms when a quarter of the minimum is less.
    assert!(!should_feed_live_audio(799, 16000, 0, 100));
    assert!(should_feed_live_audio(800, 16000, 0, 100));
}

#[test]
fn engine_transitions_are_refused_while_busy() {
    assert_eq!(engine_transition_guard(false, false, false, true).unwrap_err(), "Recording is stopping. Try again shortly.");
    assert_eq!(engine_transition_guard(false, true, true, true).unwrap_err(), "Finish recording before restarting the engine");
    assert_eq!(engine_transition_guard(true, true, true, true).unwrap_err(), "Finish recording before stopping the engine");
    assert_eq!(
        engine_transition_guard(false, true, false, false).unwrap_err(),
        "Wait for dictation processing to finish before restarting the engine"
    );
    assert_eq!(
        engine_transition_guard(true, true, false, false).unwrap_err(),
        "Wait for processing to finish before stopping the engine"
    );
    assert!(engine_transition_guard(true, true, false, true).is_ok());
}

#[test]
fn engine_status_reports_the_live_engine() {
    let s = engine_status_view(true, Some(true), true, Some("d".into()));
    assert!(!s.ready);
    assert_eq!(s.mode, "starting");
    let s = engine_status_view(false, Some(true), true, Some("d".into()));
    assert!(s.ready);
    assert_eq!(s.mode, "local");
    assert_eq!(s.inference_detail.as_deref(), Some("d"));
    let s = engine_status_view(false, Some(false), true, None);
    assert_eq!(s.mode, "remote");
    let s = engine_status_view(false, Some(false), false, Some("d".into()));
    assert!(!s.ready);
    assert_eq!(s.mode, "none");
    assert_eq!(s.message.as_deref(), Some("Engine not started"));
    assert_eq!(s.inference_detail, None);
}

#[test]
fn init_settings_and_remote_endpoint() {
    assert!(uses_remote_host(Some("remote")));
    assert!(!uses_remote_host(Some("local")));
    assert!(!uses_remote_host(None));
    assert_eq!(remote_endpoint(None, None), ("ws://127.0.0.1:8765".to_string(), String::new()));
    let p = init_plan(false, "base".into(), None, Some("true"), None, Some("true"), Some("auto"), true);
    assert_eq!((p.device.as_str(), p.compute_type.as_str(), p.engine.as_str()), ("cuda", "int8", "whisper"));
    assert!(p.mock && p.lazy_load);
    let p = init_plan(true, "base".into(), Some("float16".into()), None, Some("parakeet".into()), Some("true"), Some("cuda"), true);
    assert_eq!((p.device.as_str(), p.compute_type.as_str(), p.engine.as_str()), ("cpu", "float16", "parakeet"));
    assert!(!p.mock && !p.lazy_load);
    let p = init_plan(false, "m".into(), None, None, None, None, Some("cpu"), true);
    assert_eq!(p.device, "cpu");
}

#[test]
fn watchdog_and_restart() {
    assert!(watchdog_step(false, Some(false)) == WatchdogStep::Exit);
    assert!(watchdog_step(true, Some(false)) == WatchdogStep::Recover);
    assert!(watchdog_step(true, Some(true)) == WatchdogStep::Wait);
    assert!(watchdog_step(true, None) == WatchdogStep::Wait);
    assert_eq!(RESTART_ATTEMPTS, 3);
    assert_eq!(restart_delay_ms(1), 800);
    assert_eq!(restart_delay_ms(3), 2400);
    assert_eq!(restart_failed_message("busy"), "Could not restart the inference engine. busy");
    assert_eq!(keep_restart_error("a".into(), String::new()), "a");
    assert_eq!(keep_restart_error("a".into(), "b".into()), "b");
}

#[test]
fn idle_unload_after_the_configured_minutes() {
    assert!(idle_step(false, true, false, Some(5), 0, true) == IdleStep::Exit);
    assert!(idle_step(true, false, false, Some(5), 0, true) == IdleStep::Exit);
    assert!(idle_step(true, true, true, Some(5), 999_999_999, true) == IdleStep::Keep);
    assert!(idle_step(true, true, false, None, 999_999_999, true) == IdleStep::Keep);
    assert!(idle_step(true, true, false, Some(0), 999_999_999, true) == IdleStep::Keep);
    assert!(idle_step(true, true, false, Some(5), 299_999, true) == IdleStep::Keep);
    assert!(idle_step(true, true, false, Some(5), 300_000, true) == IdleStep::Unload);
    assert!(idle_step(true, true, false, Some(5), 300_000, false) == IdleStep::Keep);
}

#[test]
fn grammar_restore_modes() {
    assert!(!grammar_restore_wanted(Some("OFF"), true));
    assert!(grammar_restore_wanted(Some("Always"), false));
    assert!(grammar_restore_wanted(None, true));
    assert!(!grammar_restore_wanted(Some("auto"), false));
}

#[test]
fn live_preview_text_and_pipe_errors() {
    assert_eq!(live_preview_update("", "  hi  "), Some(("hi".to_string(), true)));
    assert_eq!(live_preview_update("old", "new"), Some(("new".to_string(), false)));
    assert_eq!(live_preview_update("old", "   "), None);
    assert!(pipe_write_error_message(true, Some(232), "os".into()).starts_with("The inference process closed its input pipe"));
    assert_eq!(pipe_write_error_message(false, Some(232), "os".into()), "os");
    assert_eq!(pipe_write_error_message(true, Some(5), "os".into()), "os");
}

#[test]
fn stitched_segments_have_gaps_only_between_audio() {
    let (starts, total) = merged_layout(&[100, 0, 50]);
    assert_eq!(starts, vec![0, 100 + GAP_16K_SAMPLES, 100 + 2 * GAP_16K_SAMPLES]);
    assert_eq!(total, 150 + 2 * GAP_16K_SAMPLES);
    let (starts, total) = merged_layout(&[0, 10]);
    assert_eq!(starts, vec![0, 0]);
    assert_eq!(total, 10);
    assert!(!use_merged(0));
    assert!(use_merged(MERGED_MAX_16K_SAMPLES));
    assert!(!use_merged(MERGED_MAX_16K_SAMPLES + 1));
}

#[test]
fn segment_texts_join_with_single_spaces() {
    let mut s = String::new();
    join_piece(&mut s, "one");
    join_piece(&mut s, "");
    join_piece(&mut s, "two");
    assert_eq!(s, "one two");
    assert_eq!(empty_recording_outcome(), "Hold longer — nothing pasted");
    assert_eq!(no_speech_outcome(), "No speech heard — hold and speak");
}

#[test]
fn reconnect_backoff_doubles_up_to_thirty_seconds() {
    let mut ms = BACKOFF_START_MS;
    let mut seen = vec![];
    for _ in 0..8 {
        ms = next_backoff_ms(ms);
        seen.push(ms);
    }
    assert_eq!(seen, vec![1000, 2000, 4000, 8000, 16000, 30000, 30000, 30000]);
    assert_eq!(next_backoff_ms(BACKOFF_MAX_MS), BACKOFF_MAX_MS);
    assert!(while_disconnected(OutboundKind::Shutdown) == DisconnectedStep::Stop);
    assert!(while_disconnected(OutboundKind::Init) == DisconnectedStep::RememberInit);
    assert!(while_disconnected(OutboundKind::Other) == DisconnectedStep::Discard);
}

#[test]
fn live_stream_and_cache_settings_defaults() {
    assert_eq!(live_streaming_engine(None), "moonshine");
    assert_eq!(live_streaming_engine(Some("x".into())), "x");
    assert_eq!(live_streaming_model(None), "small_streaming");
    let s = model_cache_settings(None, Some("true"), Some("TRUE"), None, None);
    assert_eq!((s.whisper_model.as_str(), s.whisper_device.as_str(), s.compute_type.as_str()), ("base", "auto", "int8"));
    assert!(s.mock_transcription);
    assert!(!s.lazy_load_whisper);
}
