use std::collections::VecDeque;
use yapper::session::{
    live_after_feed, live_tick, preview_listening, preview_preparing, preview_unavailable,
    restart_busy_message, restart_gate, run_after_attempt, FeedResult, LiveTick, RestartGate,
};
use yapper::sidecar::{
    drain_stream_results, pop_stream_for_session, pop_stream_started, SidecarEvent, STREAM_DRAIN_MAX,
};

fn result(session_id: u64, text: &str, is_final: bool) -> SidecarEvent {
    SidecarEvent::StreamResult { session_id, text: text.into(), is_final }
}

fn err(m: &str) -> SidecarEvent {
    SidecarEvent::Error { message: m.into() }
}

fn is_model(e: &SidecarEvent) -> bool {
    matches!(e, SidecarEvent::ModelState { .. })
}

#[test]
fn stream_start_waits_for_its_own_session_or_an_error() {
    let mut q = VecDeque::from(vec![
        SidecarEvent::StreamStarted { session_id: 1 },
        SidecarEvent::ModelState { loaded: true },
        SidecarEvent::StreamStarted { session_id: 2 },
    ]);
    assert_eq!(pop_stream_started(&mut q, 2), Some(Ok(())));
    assert_eq!(q.len(), 2);
    assert!(matches!(q[0], SidecarEvent::StreamStarted { session_id: 1 }));
    assert_eq!(pop_stream_started(&mut q, 9), None);
    assert_eq!(q.len(), 2);
    let mut q2 = VecDeque::from(vec![err("no model"), SidecarEvent::StreamStarted { session_id: 3 }]);
    assert_eq!(pop_stream_started(&mut q2, 3), Some(Err("no model".to_string())));
    assert_eq!(q2.len(), 1);
}

#[test]
fn stream_results_are_taken_per_session() {
    let mut q = VecDeque::from(vec![result(1, "old", false), result(2, "new", true)]);
    assert_eq!(pop_stream_for_session(&mut q, 2), Ok(Some(("new".to_string(), true))));
    assert_eq!(q.len(), 1);
    assert_eq!(pop_stream_for_session(&mut q, 2), Ok(None));
    let mut q2 = VecDeque::from(vec![result(1, "x", false), err("gone")]);
    assert_eq!(pop_stream_for_session(&mut q2, 2), Err("gone".to_string()));
    assert_eq!(q2.len(), 1);
}

#[test]
fn drain_shows_the_last_non_blank_result() {
    let mut q = VecDeque::from(vec![
        result(5, "hel", false),
        SidecarEvent::ModelState { loaded: true },
        result(4, "other", false),
        result(5, "hello", false),
        result(5, "   ", false),
    ]);
    let (text, error) = drain_stream_results(&mut q, 5);
    assert_eq!(text.as_deref(), Some("hello"));
    assert_eq!(error, None);
    assert_eq!(q.len(), 2);
    assert!(is_model(&q[0]));
    assert!(matches!(&q[1], SidecarEvent::StreamResult { session_id: 4, .. }));
}

#[test]
fn drain_stops_at_an_error() {
    let mut q = VecDeque::from(vec![result(5, "a", false), err("boom"), result(5, "b", false)]);
    let (text, error) = drain_stream_results(&mut q, 5);
    assert_eq!(text.as_deref(), Some("a"));
    assert_eq!(error.as_deref(), Some("boom"));
    assert_eq!(q.len(), 1);
    assert!(matches!(&q[0], SidecarEvent::StreamResult { text, .. } if text == "b"));
    let mut empty = VecDeque::new();
    assert_eq!(drain_stream_results(&mut empty, 1), (None, None));
}

#[test]
fn drain_takes_at_most_its_budget() {
    let mut q = VecDeque::new();
    for i in 0..(STREAM_DRAIN_MAX + 3) {
        q.push_back(result(1, &format!("t{i}"), false));
    }
    let (text, error) = drain_stream_results(&mut q, 1);
    assert_eq!(text, Some(format!("t{}", STREAM_DRAIN_MAX - 1)));
    assert_eq!(error, None);
    assert_eq!(q.len(), 3);
}

#[test]
fn live_tick_feeds_only_while_recording_with_new_audio() {
    assert!(live_tick(false, true, 16_000, 16_000, 0, 800) == LiveTick::Stop);
    assert!(live_tick(true, false, 16_000, 16_000, 0, 800) == LiveTick::Stop);
    assert!(live_tick(true, true, 16_000, 16_000, 0, 800) == LiveTick::Feed { from: 0 });
    // Before the first feed at least max(min/4, 50) ms are needed: 200 ms here.
    assert!(live_tick(true, true, 3_000, 16_000, 0, 800) == LiveTick::Wait);
    assert!(live_tick(true, true, 3_200, 16_000, 0, 800) == LiveTick::Feed { from: 0 });
    assert!(live_tick(true, true, 100, 16_000, 90, 800) == LiveTick::Feed { from: 90 });
    assert!(live_tick(true, true, 100, 16_000, 100, 800) == LiveTick::Wait);
    assert!(live_tick(true, true, 100, 0, 0, 800) == LiveTick::Wait);
}

#[test]
fn live_cursor_moves_only_after_audio_was_sent() {
    assert_eq!(live_after_feed(FeedResult::Sent, 10, 50), (50, None, false));
    assert_eq!(live_after_feed(FeedResult::Busy, 10, 50), (10, None, false));
    assert_eq!(
        live_after_feed(FeedResult::Failed, 10, 50),
        (10, Some("Preview interrupted. Final transcription is still available."), true)
    );
}

#[test]
fn preview_status_lines() {
    assert_eq!(preview_preparing(), "Preparing live preview; the first use may download a model...");
    assert_eq!(preview_listening(), "Listening for preview...");
    assert_eq!(preview_unavailable("timeout", false), "Preview unavailable: timeout");
    assert_eq!(
        preview_unavailable("timeout", true),
        "Preview unavailable: timeout. Final transcription is still available."
    );
}

#[test]
fn restart_gate_order() {
    assert!(restart_gate(false, true, true, true) == RestartGate::Superseded);
    assert!(restart_gate(true, true, false, false) == RestartGate::Recovered);
    assert!(restart_gate(true, false, true, true) == RestartGate::Go);
    assert!(restart_gate(true, false, false, true) == RestartGate::GiveUp);
    assert!(restart_gate(true, false, false, false) == RestartGate::WaitIdle);
    assert_eq!(restart_busy_message(), "Finish the active recording before restarting.");
    assert_eq!(run_after_attempt(true, false, 3, 4), 4);
    assert_eq!(run_after_attempt(true, true, 3, 4), 3);
    assert_eq!(run_after_attempt(false, false, 3, 4), 3);
}
