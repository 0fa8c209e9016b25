use std::collections::VecDeque;
use std::sync::Arc;
use yapper::dictation::{
    append_text, background_step, check_can_record, complete_job, completion_outcome, delivery,
    discard_job, enqueue_job, failure_outcome, job_views, paste_outcome, pending_count, prune,
    reserve, reserve_job, set_status, start_refusal, stop_refusal, background_commit, setting_enabled, snapshot_consistent, BackgroundStep,
    Delivery, Job, JobStatus, KEEP_FOR_MS,
};

const NOW: u64 = 1_000_000;

fn job(id: u64, status: JobStatus) -> Job<Arc<Vec<f32>>> {
    Job {
        id,
        audio: Arc::new(vec![0.1; 1600]),
        audio_len: 1600,
        rate: 16000,
        created_ms: NOW,
        text: "Previous result".into(),
        status,
        error: None,
        elapsed_ms: 0,
        app_key: None,
    }
}

#[test]
fn expired_recordings_are_removed_but_active_jobs_survive() {
    let mut jobs = VecDeque::from(vec![
        job(1, JobStatus::Failed),
        job(2, JobStatus::Processing),
        job(3, JobStatus::Queued),
        job(4, JobStatus::Ready),
    ]);
    for j in jobs.iter_mut().take(3) {
        j.created_ms = NOW - KEEP_FOR_MS - 1000;
    }
    prune(&mut jobs, NOW);
    assert_eq!(jobs.iter().map(|j| j.id).collect::<Vec<_>>(), vec![2, 3, 4]);
}

#[test]
fn retry_reservation_preserves_audio_and_prevents_duplicate_work() {
    let mut jobs = VecDeque::from(vec![job(1, JobStatus::Failed)]);
    let (audio, rate) = reserve_job(&mut jobs, 1).unwrap();
    assert_eq!(rate, 16000);
    assert!(Arc::ptr_eq(&audio, &jobs[0].audio));
    assert_eq!(jobs[0].text, "Previous result");
    assert!(reserve_job(&mut jobs, 1).is_err());
    assert!(reserve_job(&mut jobs, 99).is_err());
}

#[test]
fn completed_phrases_join_without_duplication_or_empty_spacing() {
    let mut text = String::new();
    append_text(&mut text, " First phrase. ");
    append_text(&mut text, "");
    append_text(&mut text, "Second phrase.");
    assert_eq!(text, "First phrase. Second phrase.");
}

#[test]
fn reservation_errors_name_their_cause() {
    let mut jobs = VecDeque::from(vec![job(1, JobStatus::Processing)]);
    assert_eq!(reserve_job(&mut jobs, 2).unwrap_err(), "Recording expired or was discarded");
    assert_eq!(reserve_job(&mut jobs, 1).unwrap_err(), "This recording is already processing");
    assert_eq!(jobs[0].status, JobStatus::Processing);
}

#[test]
fn retry_is_refused_when_the_queue_is_full_while_recording() {
    let mut jobs = VecDeque::from(vec![
        job(1, JobStatus::Queued),
        job(2, JobStatus::Queued),
        job(3, JobStatus::Processing),
        job(4, JobStatus::Queued),
        job(5, JobStatus::Failed),
    ]);
    assert_eq!(
        reserve(&mut jobs, 5, true, NOW).unwrap_err(),
        "The queue is full. Wait for a dictation to finish before retrying."
    );
    assert!(reserve(&mut jobs, 5, false, NOW).is_ok());
    assert_eq!(jobs[4].status, JobStatus::Queued);
}

#[test]
fn five_waiting_dictations_block_a_new_recording() {
    let mut jobs: VecDeque<_> = (1..=5).map(|i| job(i, JobStatus::Queued)).collect();
    assert_eq!(
        check_can_record(&mut jobs, NOW).unwrap_err(),
        "Five dictations are waiting. Let one finish before recording again."
    );
    jobs[0].status = JobStatus::Ready;
    assert!(check_can_record(&mut jobs, NOW).is_ok());
    assert_eq!(pending_count(&jobs), 4);
}

#[test]
fn discard_refuses_active_jobs_and_removes_finished_ones() {
    let mut jobs = VecDeque::from(vec![job(1, JobStatus::Processing), job(2, JobStatus::Ready)]);
    assert_eq!(
        discard_job(&mut jobs, 1).unwrap_err(),
        "Wait for processing to finish before discarding"
    );
    assert_eq!(jobs.len(), 2);
    assert!(discard_job(&mut jobs, 2).is_ok());
    assert_eq!(jobs.iter().map(|j| j.id).collect::<Vec<_>>(), vec![1]);
}

#[test]
fn enqueue_evicts_oldest_finished_job_but_never_active_ones() {
    let mut jobs = VecDeque::from(vec![
        job(1, JobStatus::Queued),
        job(2, JobStatus::Ready),
        job(3, JobStatus::Failed),
        job(4, JobStatus::Processing),
        job(5, JobStatus::Ready),
    ]);
    enqueue_job(&mut jobs, job(6, JobStatus::Queued), NOW);
    assert_eq!(jobs.iter().map(|j| j.id).collect::<Vec<_>>(), vec![1, 3, 4, 5, 6]);

    let mut busy: VecDeque<_> = (1..=5).map(|i| job(i, JobStatus::Queued)).collect();
    enqueue_job(&mut busy, job(6, JobStatus::Queued), NOW);
    assert_eq!(busy.len(), 6);
}

#[test]
fn job_views_list_newest_first() {
    let mut jobs = VecDeque::from(vec![job(1, JobStatus::Ready), job(2, JobStatus::Queued)]);
    let views = job_views(&mut jobs, NOW);
    assert_eq!(views.iter().map(|v| v.id).collect::<Vec<_>>(), vec![2, 1]);
    assert_eq!(views[0].status.as_str(), "queued");
}

#[test]
fn completion_sets_text_and_status() {
    let mut jobs = VecDeque::from(vec![job(1, JobStatus::Processing)]);
    complete_job(&mut jobs, 1, "Done.".into(), NOW + 5, 1234);
    assert_eq!(jobs[0].text, "Done.");
    assert_eq!(jobs[0].status, JobStatus::Ready);
    assert_eq!(jobs[0].elapsed_ms, 1234);
    assert_eq!(jobs[0].created_ms, NOW + 5);
    set_status(&mut jobs, 1, JobStatus::Failed, Some("boom".into()), NOW + 9);
    assert_eq!(jobs[0].status, JobStatus::Failed);
    assert_eq!(jobs[0].error.as_deref(), Some("boom"));
    assert_eq!(completion_outcome(""), "No speech detected");
    assert_eq!(completion_outcome("x"), "Transcript ready");
}

#[test]
fn background_commits_after_eight_seconds_at_a_pause() {
    assert!(matches!(background_step(10, 5, 16000), BackgroundStep::Stop));
    assert!(matches!(background_step(0, 100, 0), BackgroundStep::Stop));
    assert!(matches!(background_step(0, 16000 * 8 - 1, 16000), BackgroundStep::Wait));
    match background_step(0, 16000 * 8, 16000) {
        BackgroundStep::Check { quiet, end } => {
            assert_eq!(quiet, 12000);
            assert_eq!(end, 16000 * 8 - 6000);
        }
        _ => panic!("expected a pause check"),
    }
    assert!(snapshot_consistent(16000, 200, 16000, 200));
    assert!(!snapshot_consistent(48000, 200, 16000, 200));
    assert!(!snapshot_consistent(16000, 199, 16000, 200));
}

#[test]
fn finished_text_goes_to_the_right_place() {
    assert!(delivery("", true, true, true) == Delivery::Keep);
    assert!(delivery("hi", true, false, false) == Delivery::PasteToTarget);
    assert!(delivery("hi", false, true, true) == Delivery::AskToCopy);
    assert!(delivery("hi", false, true, false) == Delivery::PasteAtFocus);
    assert!(delivery("hi", false, false, true) == Delivery::Keep);
    assert_eq!(paste_outcome(true), "Dictation pasted");
    assert_eq!(paste_outcome(false), "Text ready in Home — destination changed");
    assert_eq!(failure_outcome(), "Dictation saved temporarily — retry from Home");
}

#[test]
fn boolean_settings_are_true_only_for_true() {
    assert!(setting_enabled(Some("true"), false));
    assert!(!setting_enabled(Some("TRUE"), true));
    assert!(!setting_enabled(Some("1"), true));
    assert!(setting_enabled(None, true));
    assert!(!setting_enabled(None, false));
}

#[test]
fn start_refusals_come_in_order() {
    let mut full: VecDeque<_> = (1..=5).map(|i| job(i, JobStatus::Queued)).collect();
    assert_eq!(
        start_refusal(true, true, &mut full, NOW).unwrap_err(),
        "The engine is starting or stopping. Wait until it is ready."
    );
    assert_eq!(start_refusal(false, true, &mut full, NOW).unwrap_err(), "Already recording");
    assert_eq!(full.len(), 5);
    assert_eq!(
        start_refusal(false, false, &mut full, NOW).unwrap_err(),
        "Five dictations are waiting. Let one finish before recording again."
    );
    let mut few = VecDeque::from(vec![job(1, JobStatus::Queued), job(2, JobStatus::Ready)]);
    few[1].created_ms = NOW - KEEP_FOR_MS - 1;
    assert!(start_refusal(false, false, &mut few, NOW).is_ok());
    assert_eq!(few.len(), 1);
}

#[test]
fn stop_needs_an_active_recording() {
    assert!(stop_refusal(true).is_ok());
    assert_eq!(stop_refusal(false).unwrap_err(), "No recording is active");
}

#[test]
fn background_commit_advances_only_on_success() {
    assert_eq!(
        background_commit(0, "First.".to_string(), 128_000, Ok(" Second. ".to_string())),
        Some((128_000, "First. Second.".to_string()))
    );
    assert_eq!(background_commit(0, String::new(), 9, Ok("One".to_string())), Some((9, "One".to_string())));
    assert_eq!(background_commit(5, "Kept".to_string(), 9, Err("offline".to_string())), None);
}

#[test]
fn background_commits_and_the_rest_cover_each_sample_once() {
    let rate = 16_000u32;
    let mut cursor = 0usize;
    let mut text = String::new();
    let mut slices = Vec::new();
    // The recording grows by three seconds per tick; each check commits at once.
    for tick in 1..=12usize {
        let total = tick * 3 * rate as usize;
        if let BackgroundStep::Check { end, .. } = background_step(cursor, total, rate) {
            let piece = Ok(format!("p{tick}"));
            let (next, joined) = background_commit(cursor, text.clone(), end, piece).unwrap();
            slices.push((cursor, next));
            cursor = next;
            text = joined;
        }
    }
    let len = 36 * rate as usize;
    slices.push((cursor, len));
    assert_eq!(slices.len(), 5);
    assert_eq!(slices[0].0, 0);
    for w in slices.windows(2) {
        assert!(w[0].0 < w[0].1);
        assert_eq!(w[0].1, w[1].0);
    }
    assert_eq!(slices.last().unwrap().1, len);
    assert_eq!(text, "p3 p6 p9 p12");
}
