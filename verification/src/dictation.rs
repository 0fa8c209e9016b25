//! Recording jobs: retained audio, status, expiry and retry reservation. Jobs are kept
//! in arrival order; at most five are retained, finished jobs expire after ten minutes,
//! and queued or processing jobs are never dropped.
use crate::engine::opt_view;
use crate::errors::is_err_with;
use crate::text::{chars_of, push_str, string_from_chars, trim, trim_bounds};
use std::collections::VecDeque;
use vstd::prelude::*;

verus! {

/// How long a finished job stays available (milliseconds).
pub const KEEP_FOR_MS: u64 = 600_000;

/// Maximum number of retained jobs.
pub const MAX_JOBS: usize = 5;

#[derive(Clone, Copy, Debug, PartialEq, Eq, Structural)]
pub enum JobStatus {
    Queued,
    Processing,
    Ready,
    Failed,
}

impl JobStatus {
    /// Queued or processing: work is pending and the job must survive expiry.
    pub open spec fn active(self) -> bool {
        self is Queued || self is Processing
    }

    pub fn is_active(&self) -> (r: bool)
        ensures
            r == self.active(),
    {
        match self {
            JobStatus::Queued | JobStatus::Processing => true,
            _ => false,
        }
    }

    /// The status name shown to the user interface.
    pub fn as_str(&self) -> (r: &'static str)
        ensures
            r@ == match *self {
                JobStatus::Queued => "queued"@,
                JobStatus::Processing => "processing"@,
                JobStatus::Ready => "ready"@,
                JobStatus::Failed => "failed"@,
            },
    {
        match self {
            JobStatus::Queued => "queued",
            JobStatus::Processing => "processing",
            JobStatus::Ready => "ready",
            JobStatus::Failed => "failed",
        }
    }
}

/// One recording. `audio` is the shell's handle to the samples (`audio_len` of them at
/// `rate` Hz); times are milliseconds on the shell's monotonic clock.
pub struct Job<A> {
    pub id: u64,
    pub audio: A,
    pub audio_len: usize,
    pub rate: u32,
    pub created_ms: u64,
    pub text: String,
    pub status: JobStatus,
    pub error: Option<String>,
    pub elapsed_ms: u64,
    pub app_key: Option<String>,
}

/// A job as listed to the user interface.
pub struct JobView {
    pub id: u64,
    pub text: String,
    pub status: JobStatus,
    pub error: Option<String>,
    pub audio_len: usize,
    pub rate: u32,
    pub elapsed_ms: u64,
    pub app_key: Option<String>,
}

/// Whether a job survives expiry at `now_ms`: younger than ten minutes, or still active.
pub open spec fn keep_job<A>(j: Job<A>, now_ms: u64) -> bool {
    (if now_ms >= j.created_ms {
        now_ms - j.created_ms
    } else {
        0
    }) < KEEP_FOR_MS || j.status.active()
}

/// The jobs that survive expiry at `now_ms`, in order.
pub open spec fn pruned<A>(jobs: Seq<Job<A>>, now_ms: u64) -> Seq<Job<A>> {
    jobs.filter(|j: Job<A>| keep_job(j, now_ms))
}

/// Number of queued or processing jobs.
pub open spec fn active_jobs<A>(jobs: Seq<Job<A>>) -> nat {
    jobs.filter(|j: Job<A>| j.status.active()).len()
}

proof fn lemma_filter_take_step<A>(s: Seq<A>, k: int, f: spec_fn(A) -> bool)
    requires
        0 <= k < s.len(),
    ensures
        s.take(k + 1).filter(f) == if f(s[k]) {
            s.take(k).filter(f).push(s[k])
        } else {
            s.take(k).filter(f)
        },
{
    reveal(Seq::filter);
    assert(s.take(k + 1).drop_last() =~= s.take(k));
}

fn keep_exec<A>(j: &Job<A>, now_ms: u64) -> (r: bool)
    ensures
        r == keep_job(*j, now_ms),
{
    let age = if now_ms >= j.created_ms {
        now_ms - j.created_ms
    } else {
        0
    };
    age < KEEP_FOR_MS || j.status.is_active()
}

/// Drops finished jobs older than ten minutes, keeping order.
pub fn prune<A>(jobs: &mut VecDeque<Job<A>>, now_ms: u64)
    ensures
        final(jobs)@ == pruned(old(jobs)@, now_ms),
        forall|i: int|
            0 <= i < old(jobs)@.len() && (now_ms < old(jobs)@[i].created_ms + 600_000 || old(
                jobs,
            )@[i].status.active()) ==> #[trigger] final(jobs)@.contains(old(jobs)@[i]),
{
    proof {
        expiry_keeps_recent_and_pending_jobs(jobs@, now_ms);
    }
    let ghost orig = jobs@;
    let ghost f = |j: Job<A>| keep_job(j, now_ms);
    let mut i: usize = 0;
    let ghost mut k: int = 0;
    proof {
        reveal(Seq::filter);
        assert(orig.take(0).filter(f) =~= Seq::<Job<A>>::empty());
        assert(orig.skip(0) =~= orig);
    }
    while i < jobs.len()
        invariant
            0 <= k <= orig.len(),
            f == (|j: Job<A>| keep_job(j, now_ms)),
            i == orig.take(k).filter(f).len(),
            jobs@ == orig.take(k).filter(f) + orig.skip(k),
        decreases orig.len() - k,
    {
        proof {
            lemma_filter_take_step(orig, k, f);
            assert(jobs@[i as int] == orig[k]);
        }
        if keep_exec(&jobs[i], now_ms) {
            i = i + 1;
        } else {
            let ghost before = jobs@;
            let _ = jobs.remove(i);
        }
        proof {
            assert(orig.skip(k) =~= seq![orig[k]] + orig.skip(k + 1));
            assert(jobs@ =~= orig.take(k + 1).filter(f) + orig.skip(k + 1));
            k = k + 1;
        }
    }
    proof {
        assert(orig.skip(k).len() == 0);
        assert(k == orig.len());
        assert(orig.take(k) =~= orig);
        assert(jobs@ =~= orig.take(k).filter(f));
    }
}

/// Number of queued or processing jobs.
pub fn pending_count<A>(jobs: &VecDeque<Job<A>>) -> (n: usize)
    ensures
        n == active_jobs(jobs@),
{
    let ghost f = |j: Job<A>| j.status.active();
    let mut n: usize = 0;
    proof {
        reveal(Seq::filter);
        assert(jobs@.take(0).filter(f) =~= Seq::<Job<A>>::empty());
    }
    for i in 0..jobs.len()
        invariant
            f == (|j: Job<A>| j.status.active()),
            n == jobs@.take(i as int).filter(f).len(),
            n <= i,
    {
        proof {
            lemma_filter_take_step(jobs@, i as int, f);
        }
        if jobs[i].status.is_active() {
            n = n + 1;
        }
    }
    assert(jobs@.take(jobs@.len() as int) =~= jobs@);
    n
}

/// `i` is the first position holding a job with this id.
pub open spec fn first_with_id<A>(jobs: Seq<Job<A>>, id: u64, i: int) -> bool {
    &&& 0 <= i < jobs.len()
    &&& jobs[i].id == id
    &&& forall|k: int| 0 <= k < i ==> jobs[k].id != id
}

/// Some job has this id.
pub open spec fn has_id<A>(jobs: Seq<Job<A>>, id: u64) -> bool {
    exists|i: int| 0 <= i < jobs.len() && jobs[i].id == id
}

fn find_job<A>(jobs: &VecDeque<Job<A>>, id: u64) -> (r: Option<usize>)
    ensures
        match r {
            Some(i) => first_with_id(jobs@, id, i as int),
            None => !has_id(jobs@, id),
        },
{
    for i in 0..jobs.len()
        invariant
            forall|k: int| 0 <= k < i ==> jobs@[k].id != id,
    {
        if jobs[i].id == id {
            return Some(i);
        }
    }
    None
}

/// A job after its status changes; finishing (ready or failed) restarts its expiry clock.
pub open spec fn with_status<A>(
    j: Job<A>,
    status: JobStatus,
    error: Option<String>,
    now_ms: u64,
) -> Job<A> {
    Job {
        id: j.id,
        audio: j.audio,
        audio_len: j.audio_len,
        rate: j.rate,
        created_ms: if status is Ready || status is Failed {
            now_ms
        } else {
            j.created_ms
        },
        text: j.text,
        status: status,
        error: error,
        elapsed_ms: j.elapsed_ms,
        app_key: j.app_key,
    }
}

/// Sets the status and error of the first job with this id; no job, no change.
pub fn set_status<A>(
    jobs: &mut VecDeque<Job<A>>,
    id: u64,
    status: JobStatus,
    error: Option<String>,
    now_ms: u64,
)
    ensures
        forall|i: int|
            first_with_id(old(jobs)@, id, i) ==> final(jobs)@ == old(jobs)@.update(
                i,
                with_status(old(jobs)@[i], status, error, now_ms),
            ),
        !has_id(old(jobs)@, id) ==> final(jobs)@ == old(jobs)@,
{
    match find_job(jobs, id) {
        None => {},
        Some(i) => {
            let ghost before = jobs@;
            let mut j = jobs.remove(i).unwrap();
            j.status = status;
            j.error = error;
            if status == JobStatus::Ready || status == JobStatus::Failed {
                j.created_ms = now_ms;
            }
            jobs.insert(i, j);
            assert(jobs@ =~= before.update(i as int, with_status(before[i as int], status, error, now_ms)));
        },
    }
}

/// Records a finished transcription on the first job with this id: its text, status
/// ready, no error, a fresh expiry clock and the processing time.
pub fn complete_job<A>(jobs: &mut VecDeque<Job<A>>, id: u64, text: String, now_ms: u64, elapsed_ms: u64)
    ensures
        forall|i: int|
            first_with_id(old(jobs)@, id, i) ==> final(jobs)@ == old(jobs)@.update(
                i,
                Job {
                    id: old(jobs)@[i].id,
                    audio: old(jobs)@[i].audio,
                    audio_len: old(jobs)@[i].audio_len,
                    rate: old(jobs)@[i].rate,
                    created_ms: now_ms,
                    text: text,
                    status: JobStatus::Ready,
                    error: None,
                    elapsed_ms: elapsed_ms,
                    app_key: old(jobs)@[i].app_key,
                },
            ),
        !has_id(old(jobs)@, id) ==> final(jobs)@ == old(jobs)@,
{
    match find_job(jobs, id) {
        None => {},
        Some(i) => {
            let ghost before = jobs@;
            let mut j = jobs.remove(i).unwrap();
            j.text = text;
            j.status = JobStatus::Ready;
            j.error = None;
            j.created_ms = now_ms;
            j.elapsed_ms = elapsed_ms;
            jobs.insert(i, j);
            assert(jobs@ =~= before.update(i as int, j));
        },
    }
}

/// Swaps in a compact copy of a job's audio (`audio_len` samples at `rate` Hz).
pub fn replace_audio<A>(jobs: &mut VecDeque<Job<A>>, id: u64, audio: A, audio_len: usize, rate: u32)
    ensures
        forall|i: int|
            first_with_id(old(jobs)@, id, i) ==> final(jobs)@ == old(jobs)@.update(
                i,
                Job {
                    id: old(jobs)@[i].id,
                    audio: audio,
                    audio_len: audio_len,
                    rate: rate,
                    created_ms: old(jobs)@[i].created_ms,
                    text: old(jobs)@[i].text,
                    status: old(jobs)@[i].status,
                    error: old(jobs)@[i].error,
                    elapsed_ms: old(jobs)@[i].elapsed_ms,
                    app_key: old(jobs)@[i].app_key,
                },
            ),
        !has_id(old(jobs)@, id) ==> final(jobs)@ == old(jobs)@,
{
    match find_job(jobs, id) {
        None => {},
        Some(i) => {
            let ghost before = jobs@;
            let mut j = jobs.remove(i).unwrap();
            j.audio = audio;
            j.audio_len = audio_len;
            j.rate = rate;
            jobs.insert(i, j);
            assert(jobs@ =~= before.update(i as int, j));
        },
    }
}

/// Marks the first job with this id as queued for another transcription and hands back
/// a copy of its audio handle and its sample rate. A missing job or one that is already
/// queued or processing is refused, and nothing changes.
pub fn reserve_job<A: Clone>(jobs: &mut VecDeque<Job<A>>, id: u64) -> (r: Result<(A, u32), String>)
    ensures
        !has_id(old(jobs)@, id) ==> final(jobs)@ == old(jobs)@ && is_err_with(r, "Recording expired or was discarded"@),
        forall|i: int|
            first_with_id(old(jobs)@, id, i) ==> if old(jobs)@[i].status.active() {
                final(jobs)@ == old(jobs)@ && is_err_with(r, "This recording is already processing"@)
            } else {
                &&& final(jobs)@ == old(jobs)@.update(
                    i,
                    with_status(old(jobs)@[i], JobStatus::Queued, old(jobs)@[i].error, 0),
                )
                &&& r matches Ok((a, rate)) && rate == old(jobs)@[i].rate && cloned(
                    old(jobs)@[i].audio,
                    a,
                )
            },
{
    match find_job(jobs, id) {
        None => Err("Recording expired or was discarded".to_owned()),
        Some(i) => {
            if jobs[i].status.is_active() {
                return Err("This recording is already processing".to_owned());
            }
            let ghost before = jobs@;
            let audio = jobs[i].audio.clone();
            let rate = jobs[i].rate;
            let mut j = jobs.remove(i).unwrap();
            j.status = JobStatus::Queued;
            jobs.insert(i, j);
            assert(jobs@ =~= before.update(
                i as int,
                with_status(before[i as int], JobStatus::Queued, before[i as int].error, 0),
            ));
            Ok((audio, rate))
        },
    }
}

/// Retry reservation: expire old jobs, refuse when a recording is active and only one
/// queue slot is left, else `reserve_job`.
pub fn reserve<A: Clone>(jobs: &mut VecDeque<Job<A>>, id: u64, recording_active: bool, now_ms: u64) -> (r:
    Result<(A, u32), String>)
    ensures
        ({
            let p = pruned(old(jobs)@, now_ms);
            if recording_active && active_jobs(p) >= MAX_JOBS - 1 {
                final(jobs)@ == p && is_err_with(r, "The queue is full. Wait for a dictation to finish before retrying."@)
            } else {
                &&& (!has_id(p, id) ==> final(jobs)@ == p && is_err_with(r, "Recording expired or was discarded"@))
                &&& forall|i: int|
                    first_with_id(p, id, i) ==> if p[i].status.active() {
                        final(jobs)@ == p && is_err_with(r, "This recording is already processing"@)
                    } else {
                        &&& final(jobs)@ == p.update(
                            i,
                            with_status(p[i], JobStatus::Queued, p[i].error, 0),
                        )
                        &&& r matches Ok((a, rate)) && rate == p[i].rate && cloned(p[i].audio, a)
                    }
            }
        }),
{
    prune(jobs, now_ms);
    if recording_active && pending_count(jobs) >= MAX_JOBS - 1 {
        return Err("The queue is full. Wait for a dictation to finish before retrying.".to_owned());
    }
    reserve_job(jobs, id)
}

/// Removes every job with this id unless one of them is still queued or processing.
pub fn discard_job<A>(jobs: &mut VecDeque<Job<A>>, id: u64) -> (r: Result<(), String>)
    ensures
        (exists|i: int|
            0 <= i < old(jobs)@.len() && old(jobs)@[i].id == id && old(jobs)@[i].status.active())
            ==> final(jobs)@ == old(jobs)@ && is_err_with(r, "Wait for processing to finish before discarding"@),
        !(exists|i: int|
            0 <= i < old(jobs)@.len() && old(jobs)@[i].id == id && old(jobs)@[i].status.active())
            ==> final(jobs)@ == old(jobs)@.filter(|j: Job<A>| j.id != id) && r is Ok,
{
    for i in 0..jobs.len()
        invariant
            forall|k: int| 0 <= k < i ==> !(jobs@[k].id == id && jobs@[k].status.active()),
    {
        if jobs[i].id == id && jobs[i].status.is_active() {
            return Err("Wait for processing to finish before discarding".to_owned());
        }
    }
    let ghost orig = jobs@;
    let ghost f = |j: Job<A>| j.id != id;
    let mut i: usize = 0;
    let ghost mut k: int = 0;
    proof {
        reveal(Seq::filter);
        assert(orig.take(0).filter(f) =~= Seq::<Job<A>>::empty());
        assert(orig.skip(0) =~= orig);
    }
    while i < jobs.len()
        invariant
            0 <= k <= orig.len(),
            f == (|j: Job<A>| j.id != id),
            i == orig.take(k).filter(f).len(),
            jobs@ == orig.take(k).filter(f) + orig.skip(k),
        decreases orig.len() - k,
    {
        proof {
            lemma_filter_take_step(orig, k, f);
            assert(jobs@[i as int] == orig[k]);
        }
        if jobs[i].id != id {
            i = i + 1;
        } else {
            let _ = jobs.remove(i);
        }
        proof {
            assert(orig.skip(k) =~= seq![orig[k]] + orig.skip(k + 1));
            assert(jobs@ =~= orig.take(k + 1).filter(f) + orig.skip(k + 1));
            k = k + 1;
        }
    }
    proof {
        assert(k == orig.len());
        assert(orig.take(k) =~= orig);
        assert(jobs@ =~= orig.take(k).filter(f));
    }
    Ok(())
}

/// Whether a new recording may start: expire old jobs, then refuse when five are waiting.
pub fn check_can_record<A>(jobs: &mut VecDeque<Job<A>>, now_ms: u64) -> (r: Result<(), String>)
    ensures
        final(jobs)@ == pruned(old(jobs)@, now_ms),
        active_jobs(final(jobs)@) >= MAX_JOBS ==> is_err_with(r, "Five dictations are waiting. Let one finish before recording again."@),
        active_jobs(final(jobs)@) < MAX_JOBS ==> r is Ok,
{
    prune(jobs, now_ms);
    if pending_count(jobs) >= MAX_JOBS {
        Err("Five dictations are waiting. Let one finish before recording again.".to_owned())
    } else {
        Ok(())
    }
}

/// `i` is the first position holding a finished (ready or failed) job.
pub open spec fn first_finished<A>(jobs: Seq<Job<A>>, i: int) -> bool {
    &&& 0 <= i < jobs.len()
    &&& !jobs[i].status.active()
    &&& forall|k: int| 0 <= k < i ==> jobs[k].status.active()
}

/// Oldest finished jobs removed until fewer than five jobs remain or none is finished.
pub open spec fn evicted<A>(jobs: Seq<Job<A>>) -> Seq<Job<A>>
    decreases jobs.len(),
{
    if jobs.len() >= MAX_JOBS && exists|i: int| first_finished(jobs, i) {
        evicted(jobs.remove(choose|i: int| first_finished(jobs, i)))
    } else {
        jobs
    }
}

fn find_finished<A>(jobs: &VecDeque<Job<A>>) -> (r: Option<usize>)
    ensures
        match r {
            Some(i) => first_finished(jobs@, i as int),
            None => forall|k: int| 0 <= k < jobs@.len() ==> jobs@[k].status.active(),
        },
{
    for i in 0..jobs.len()
        invariant
            forall|k: int| 0 <= k < i ==> jobs@[k].status.active(),
    {
        if !jobs[i].status.is_active() {
            return Some(i);
        }
    }
    None
}

proof fn lemma_first_finished_unique<A>(jobs: Seq<Job<A>>, i: int, j: int)
    requires
        first_finished(jobs, i),
        first_finished(jobs, j),
    ensures
        i == j,
{
}

/// Adds a new job at the end after expiring old jobs and evicting the oldest finished
/// ones while five are retained. Queued and processing jobs are never evicted.
pub fn enqueue_job<A>(jobs: &mut VecDeque<Job<A>>, job: Job<A>, now_ms: u64)
    ensures
        final(jobs)@ == evicted(pruned(old(jobs)@, now_ms)).push(job),
{
    prune(jobs, now_ms);
    let ghost start = jobs@;
    loop
        invariant
            evicted(start) == evicted(jobs@),
        ensures
            evicted(start) == jobs@,
        decreases jobs@.len(),
    {
        if jobs.len() < MAX_JOBS {
            break;
        }
        match find_finished(jobs) {
            Some(i) => {
                proof {
                    let c = choose|c: int| first_finished(jobs@, c);
                    lemma_first_finished_unique(jobs@, i as int, c);
                }
                let _ = jobs.remove(i);
            },
            None => {
                proof {
                    assert forall|c: int| !first_finished(jobs@, c) by {
                        if first_finished(jobs@, c) {
                            assert(jobs@[c].status.active());
                        }
                    }
                }
                break;
            },
        }
    }
    jobs.push_back(job);
}

/// The listed form of a job.
pub open spec fn view_of<A>(j: Job<A>) -> JobView {
    JobView {
        id: j.id,
        text: j.text,
        status: j.status,
        error: j.error,
        audio_len: j.audio_len,
        rate: j.rate,
        elapsed_ms: j.elapsed_ms,
        app_key: j.app_key,
    }
}

fn clone_opt_string(s: &Option<String>) -> (r: Option<String>)
    ensures
        r == *s,
{
    match s {
        Some(t) => Some(t.clone()),
        None => None,
    }
}

/// Expires old jobs, then lists the remaining ones newest first.
pub fn job_views<A>(jobs: &mut VecDeque<Job<A>>, now_ms: u64) -> (r: Vec<JobView>)
    ensures
        final(jobs)@ == pruned(old(jobs)@, now_ms),
        r@.len() == final(jobs)@.len(),
        forall|i: int|
            0 <= i < r@.len() ==> #[trigger] r@[i] == view_of(final(jobs)@[final(jobs)@.len() - 1 - i]),
{
    prune(jobs, now_ms);
    let n = jobs.len();
    let mut out: Vec<JobView> = Vec::new();
    let mut k: usize = 0;
    while k < n
        invariant
            n == jobs@.len(),
            k <= n,
            out@.len() == k,
            forall|i: int| 0 <= i < k ==> #[trigger] out@[i] == view_of(jobs@[n - 1 - i]),
        decreases n - k,
    {
        let j = &jobs[n - 1 - k];
        out.push(
            JobView {
                id: j.id,
                text: j.text.clone(),
                status: j.status,
                error: clone_opt_string(&j.error),
                audio_len: j.audio_len,
                rate: j.rate,
                elapsed_ms: j.elapsed_ms,
                app_key: clone_opt_string(&j.app_key),
            },
        );
        k = k + 1;
    }
    out
}

/// `text` followed by the trimmed `piece`, with one space between them when both are
/// non-empty.
pub open spec fn appended(text: Seq<char>, piece: Seq<char>) -> Seq<char> {
    if text.len() > 0 && trim(piece).len() > 0 {
        text + seq![' '] + trim(piece)
    } else {
        text + trim(piece)
    }
}

/// Joins a completed phrase onto the text so far.
pub fn append_text(text: &mut String, piece: &str)
    ensures
        final(text)@ == appended(old(text)@, piece@),
{
    let v = chars_of(piece);
    let (lo, hi) = trim_bounds(v.as_slice());
    let trimmed = string_from_chars(crate::text::slice_range(v.as_slice(), lo, hi));
    if !text.as_str().is_empty() && lo < hi {
        push_str(text, " ");
        proof {
            reveal_strlit(" ");
        }
    }
    push_str(text, trimmed.as_str());
}

/// The status line shown after a transcription completes.
pub fn completion_outcome(text: &str) -> (r: &'static str)
    ensures
        text@.len() == 0 ==> r@ == "No speech detected"@,
        text@.len() > 0 ==> r@ == "Transcript ready"@,
{
    if text.is_empty() {
        "No speech detected"
    } else {
        "Transcript ready"
    }
}

/// Expiry never drops a queued or processing job, and keeps every job younger than ten
/// minutes; everything kept keeps its relative order.
pub proof fn lemma_prune_keeps_active<A>(jobs: Seq<Job<A>>, now_ms: u64)
    ensures
        pruned(jobs, now_ms).filter(|j: Job<A>| j.status.active()) == jobs.filter(
            |j: Job<A>| j.status.active(),
        ),
        forall|i: int|
            0 <= i < pruned(jobs, now_ms).len() ==> keep_job(#[trigger] pruned(jobs, now_ms)[i], now_ms),
    decreases jobs.len(),
{
    let f = |j: Job<A>| keep_job(j, now_ms);
    let g = |j: Job<A>| j.status.active();
    reveal(Seq::filter);
    if jobs.len() > 0 {
        lemma_prune_keeps_active(jobs.drop_last(), now_ms);
        let p = jobs.drop_last().filter(f);
        if f(jobs.last()) {
            assert(p.push(jobs.last()).drop_last() =~= p);
        }
    }
    broadcast use vstd::seq_lib::group_filter_ensures;
    assert(forall|i: int| 0 <= i < jobs.filter(f).len() ==> f(#[trigger] jobs.filter(f)[i]));
}

proof fn lemma_remove_finished_keeps_active<A>(jobs: Seq<Job<A>>, i: int)
    requires
        0 <= i < jobs.len(),
        !jobs[i].status.active(),
    ensures
        jobs.remove(i).filter(|j: Job<A>| j.status.active()) == jobs.filter(
            |j: Job<A>| j.status.active(),
        ),
{
    let g = |j: Job<A>| j.status.active();
    broadcast use Seq::filter_distributes_over_add;
    assert(jobs =~= jobs.take(i) + seq![jobs[i]] + jobs.skip(i + 1));
    assert(jobs.remove(i) =~= jobs.take(i) + jobs.skip(i + 1));
    reveal(Seq::filter);
    assert(seq![jobs[i]].drop_last() =~= Seq::<Job<A>>::empty());
    assert(!g(jobs[i]));
    assert(Seq::<Job<A>>::empty().filter(g) =~= Seq::<Job<A>>::empty());
    assert(seq![jobs[i]].filter(g) =~= Seq::<Job<A>>::empty());
    assert(jobs.take(i) + seq![jobs[i]] + jobs.skip(i + 1) =~= jobs.take(i) + (seq![jobs[i]]
        + jobs.skip(i + 1)));
}

/// Eviction removes only finished jobs: the queued and processing jobs are exactly
/// those before eviction, in the same order.
pub proof fn lemma_eviction_keeps_active<A>(jobs: Seq<Job<A>>)
    ensures
        evicted(jobs).filter(|j: Job<A>| j.status.active()) == jobs.filter(
            |j: Job<A>| j.status.active(),
        ),
    decreases jobs.len(),
{
    if jobs.len() >= MAX_JOBS && exists|i: int| first_finished(jobs, i) {
        let i = choose|i: int| first_finished(jobs, i);
        lemma_remove_finished_keeps_active(jobs, i);
        lemma_eviction_keeps_active(jobs.remove(i));
    }
}

/// Eviction leaves fewer than five jobs unless all of them are queued or processing.
pub proof fn lemma_eviction_bound<A>(jobs: Seq<Job<A>>)
    ensures
        evicted(jobs).len() < MAX_JOBS || forall|k: int|
            0 <= k < evicted(jobs).len() ==> evicted(jobs)[k].status.active(),
    decreases jobs.len(),
{
    if jobs.len() >= MAX_JOBS && exists|i: int| first_finished(jobs, i) {
        let i = choose|i: int| first_finished(jobs, i);
        lemma_eviction_bound(jobs.remove(i));
    } else if jobs.len() >= MAX_JOBS {
        assert forall|k: int| 0 <= k < jobs.len() implies jobs[k].status.active() by {
            if !jobs[k].status.active() {
                let m = choose_first_finished(jobs, k);
                assert(first_finished(jobs, m));
            }
        }
    }
}

/// The first finished job at or before `k`, when `jobs[k]` is finished.
proof fn choose_first_finished<A>(jobs: Seq<Job<A>>, k: int) -> (m: int)
    requires
        0 <= k < jobs.len(),
        !jobs[k].status.active(),
    ensures
        first_finished(jobs, m),
    decreases k,
{
    if exists|j: int| 0 <= j < k && !jobs[j].status.active() {
        let j = choose|j: int| 0 <= j < k && !jobs[j].status.active();
        choose_first_finished(jobs, j)
    } else {
        k
    }
}

/// A reserved recording is refused if reserved again before it finishes: after a
/// successful reservation the job is queued and is still the first with its id.
pub proof fn lemma_reservation_is_exclusive<A>(jobs: Seq<Job<A>>, id: u64, i: int, e: Option<String>)
    requires
        first_with_id(jobs, id, i),
    ensures
        first_with_id(jobs.update(i, with_status(jobs[i], JobStatus::Queued, e, 0)), id, i),
        jobs.update(i, with_status(jobs[i], JobStatus::Queued, e, 0))[i].status.active(),
        jobs.update(i, with_status(jobs[i], JobStatus::Queued, e, 0))[i].text == jobs[i].text,
        jobs.update(i, with_status(jobs[i], JobStatus::Queued, e, 0))[i].audio == jobs[i].audio,
{
}

/// A boolean dictation setting: `true` only for the value `true`; `default` when unset.
pub fn setting_enabled(raw: Option<&str>, default: bool) -> (r: bool)
    ensures
        r == match opt_view(raw) {
            Some(v) => v == "true"@,
            None => default,
        },
{
    match raw {
        Some(v) => crate::text::str_eq(v, "true"),
        None => default,
    }
}

/// What the background transcriber does on a tick while recording continues.
pub enum BackgroundStep {
    /// The recording no longer matches what was committed: stop committing.
    Stop,
    /// Less than eight seconds since the last commit: wait.
    Wait,
    /// Look for a pause in the last `quiet` samples; if there is one, commit the samples up
    /// to `end`, which leaves half of the pause for the next slice.
    Check { quiet: usize, end: usize },
}

/// The background step for `total` samples recorded at `rate`, `cursor` of them committed.
pub fn background_step(cursor: usize, total: usize, rate: u32) -> (r: BackgroundStep)
    requires
        rate as int * 8 <= usize::MAX,
    ensures
        cursor > total || rate == 0 ==> r is Stop,
        cursor <= total && rate > 0 && total - cursor < rate * 8 ==> r is Wait,
        cursor <= total && rate > 0 && total - cursor >= rate * 8 ==> (r matches BackgroundStep::Check {
            quiet,
            end,
        } && quiet == rate * 3 / 4 && end == total - quiet / 2 && cursor < end <= total),
{
    if cursor > total || rate == 0 {
        return BackgroundStep::Stop;
    }
    let r = rate as usize;
    if total - cursor < r * 8 {
        return BackgroundStep::Wait;
    }
    let quiet = r * 3 / 4;
    BackgroundStep::Check { quiet, end: total - quiet / 2 }
}

/// Whether a full snapshot still extends the recording the tail came from: same rate and
/// at least `total` samples.
pub fn snapshot_consistent(snapshot_rate: u32, snapshot_len: usize, rate: u32, total: usize) -> (r: bool)
    ensures
        r == (snapshot_rate == rate && snapshot_len >= total),
{
    snapshot_rate == rate && snapshot_len >= total
}

/// Where a finished transcript goes.
#[derive(PartialEq, Eq, Structural)]
pub enum Delivery {
    /// Nothing to insert: the text stays in the job list.
    Keep,
    /// Paste into the destination captured when recording began.
    PasteToTarget,
    /// No destination could be identified: ask the user to copy from the job list.
    AskToCopy,
    /// Paste where the focus is now.
    PasteAtFocus,
}

/// Delivery of a finished transcript: empty text is kept; a captured destination is pasted
/// into; an insertion without one asks to copy where destinations are identified (Windows)
/// and pastes at the focus elsewhere; otherwise the text is kept.
pub fn delivery(text: &str, has_target: bool, insert: bool, identifies_targets: bool) -> (r: Delivery)
    ensures
        r == if text@.len() == 0 {
            Delivery::Keep
        } else if has_target {
            Delivery::PasteToTarget
        } else if insert {
            if identifies_targets {
                Delivery::AskToCopy
            } else {
                Delivery::PasteAtFocus
            }
        } else {
            Delivery::Keep
        },
{
    if text.is_empty() {
        Delivery::Keep
    } else if has_target {
        Delivery::PasteToTarget
    } else if insert {
        if identifies_targets {
            Delivery::AskToCopy
        } else {
            Delivery::PasteAtFocus
        }
    } else {
        Delivery::Keep
    }
}

/// The status line after pasting into the captured destination.
pub fn paste_outcome(pasted: bool) -> (r: &'static str)
    ensures
        pasted ==> r@ == "Dictation pasted"@,
        !pasted ==> r@ == "Text ready in Home — destination changed"@,
{
    if pasted {
        "Dictation pasted"
    } else {
        "Text ready in Home — destination changed"
    }
}

/// The job note and status line when no destination was identified.
pub fn copy_prompt() -> (r: (&'static str, &'static str))
    ensures
        r.0@ == "Could not identify the destination. Copy your transcript here."@,
        r.1@ == "Transcript ready in Home — copy to insert"@,
{
    (
        "Could not identify the destination. Copy your transcript here.",
        "Transcript ready in Home — copy to insert",
    )
}

/// The status line when transcription failed and the recording was kept for a retry.
pub fn failure_outcome() -> (r: &'static str)
    ensures
        r@ == "Dictation saved temporarily — retry from Home"@,
{
    "Dictation saved temporarily — retry from Home"
}

/// Why a new recording cannot start, in the order they are checked: an engine start or stop
/// is under way; a recording is already active; five dictations are waiting (after old
/// jobs expire). The jobs change only when the first two pass.
pub fn start_refusal<A>(
    engine_busy: bool,
    capture_active: bool,
    jobs: &mut VecDeque<Job<A>>,
    now_ms: u64,
) -> (r: Result<(), String>)
    ensures
        engine_busy ==> final(jobs)@ == old(jobs)@ && is_err_with(
            r,
            "The engine is starting or stopping. Wait until it is ready."@,
        ),
        !engine_busy && capture_active ==> final(jobs)@ == old(jobs)@ && is_err_with(
            r,
            "Already recording"@,
        ),
        !engine_busy && !capture_active ==> {
            &&& final(jobs)@ == pruned(old(jobs)@, now_ms)
            &&& active_jobs(final(jobs)@) >= MAX_JOBS ==> is_err_with(
                r,
                "Five dictations are waiting. Let one finish before recording again."@,
            )
            &&& active_jobs(final(jobs)@) < MAX_JOBS ==> r is Ok
        },
{
    if engine_busy {
        return Err("The engine is starting or stopping. Wait until it is ready.".to_owned());
    }
    if capture_active {
        return Err("Already recording".to_owned());
    }
    check_can_record(jobs, now_ms)
}

/// Stopping needs an active recording.
pub fn stop_refusal(capture_active: bool) -> (r: Result<(), String>)
    ensures
        capture_active ==> r is Ok,
        !capture_active ==> is_err_with(r, "No recording is active"@),
{
    if capture_active {
        Ok(())
    } else {
        Err("No recording is active".to_owned())
    }
}

/// The background transcriber after transcribing the slice up to `end`: on success the
/// cursor moves to `end` and the piece is joined onto the text; on an error nothing moves
/// and background commits stop (the final transcription retries the uncommitted tail).
pub fn background_commit(cursor: usize, text: String, end: usize, piece: Result<String, String>) -> (r:
    Option<(usize, String)>)
    ensures
        match piece {
            Ok(p) => r matches Some((c, t)) && c == end && t@ == appended(text@, p@),
            Err(_) => r is None,
        },
{
    match piece {
        Ok(p) => {
            let mut t = text;
            append_text(&mut t, p.as_str());
            Some((end, t))
        },
        Err(_) => None,
    }
}


/// Where the `j`-th transcribed slice of a recording starts, when its background commits
/// ended at `ends` in order: at 0 for the first slice, else where the previous commit ended.
pub open spec fn slice_start(ends: Seq<int>, j: int) -> int {
    if j == 0 {
        0
    } else {
        ends[j - 1]
    }
}

/// Where the `j`-th slice ends: at its commit's end, or at the end of the recording for the
/// slice that the final transcription takes after the last commit (`j == ends.len()`).
pub open spec fn slice_end(ends: Seq<int>, len: int, j: int) -> int {
    if j < ends.len() {
        ends[j]
    } else {
        len
    }
}

/// Commits that each end past where the previous one ended, and inside the recording.
pub open spec fn forward_commits(ends: Seq<int>, len: int) -> bool {
    forall|j: int| 0 <= j < ends.len() ==> slice_start(ends, j) < #[trigger] ends[j] <= len
}

proof fn forward_commits_increase(ends: Seq<int>, len: int, a: int, b: int)
    requires
        forward_commits(ends, len),
        0 <= a < b < ends.len(),
    ensures
        ends[a] < ends[b],
    decreases b - a,
{
    assert(slice_start(ends, b) < ends[b]);
    if a + 1 < b {
        forward_commits_increase(ends, len, a, b - 1);
    }
}

proof fn slice_of_sample(ends: Seq<int>, len: int, i: int) -> (j: int)
    requires
        forward_commits(ends, len),
        0 <= i < len,
    ensures
        0 <= j <= ends.len(),
        slice_start(ends, j) <= i < slice_end(ends, len, j),
    decreases ends.len(),
{
    if ends.len() == 0 {
        0
    } else {
        let n = ends.len() - 1;
        let last = ends[n];
        if i >= last {
            ends.len() as int
        } else {
            let front = ends.drop_last();
            assert forall|j: int| 0 <= j < front.len() implies slice_start(front, j) < #[trigger] front[j]
                <= last by {
                assert(slice_start(ends, j) < ends[j]);
                if j > 0 {
                    assert(slice_start(front, j) == ends[j - 1]);
                }
                if j < n {
                    forward_commits_increase(ends, len, j, n);
                }
            }
            let j = slice_of_sample(front, last, i);
            if j > 0 {
                assert(slice_start(front, j) == slice_start(ends, j));
            }
            j
        }
    }
}

/// Every recorded sample is transcribed exactly once, so the text is inserted once: when
/// background commits move the cursor forward (each ends past the previous one and inside
/// the recording, as `background_step` and `background_commit` guarantee) and the final
/// transcription takes the rest from the last commit on, sample `i` lies in exactly one of
/// the slices.
pub proof fn each_sample_transcribed_once(ends: Seq<int>, len: int, i: int)
    requires
        forward_commits(ends, len),
        0 <= i < len,
    ensures
        exists|j: int| 0 <= j <= ends.len() && slice_start(ends, j) <= i < #[trigger] slice_end(ends, len, j),
        forall|j1: int, j2: int|
            0 <= j1 <= ends.len() && 0 <= j2 <= ends.len() && slice_start(ends, j1) <= i < #[trigger] slice_end(
                ends,
                len,
                j1,
            ) && slice_start(ends, j2) <= i < #[trigger] slice_end(ends, len, j2) ==> j1 == j2,
{
    let j = slice_of_sample(ends, len, i);
    assert(slice_start(ends, j) <= i < slice_end(ends, len, j));
    assert forall|j1: int, j2: int|
        0 <= j1 <= ends.len() && 0 <= j2 <= ends.len() && slice_start(ends, j1) <= i < #[trigger] slice_end(
            ends,
            len,
            j1,
        ) && slice_start(ends, j2) <= i < #[trigger] slice_end(ends, len, j2) implies j1 == j2 by {
        if j1 < j2 {
            // The later slice starts at or after the earlier one ends.
            if j1 < j2 - 1 {
                forward_commits_increase(ends, len, j1, j2 - 1);
            }
            assert(slice_end(ends, len, j1) <= slice_start(ends, j2));
        } else if j2 < j1 {
            if j2 < j1 - 1 {
                forward_commits_increase(ends, len, j2, j1 - 1);
            }
            assert(slice_end(ends, len, j2) <= slice_start(ends, j1));
        }
    }
}


/// Expiry keeps every job younger than ten minutes (600 000 ms), whatever its status, and
/// every queued or processing job. What it keeps was in the list, and a finished job ten
/// minutes old or older is never kept.
pub proof fn expiry_keeps_recent_and_pending_jobs<A>(jobs: Seq<Job<A>>, now_ms: u64)
    ensures
        forall|i: int|
            0 <= i < jobs.len() && (now_ms < jobs[i].created_ms + 600_000 || jobs[i].status is Queued
                || jobs[i].status is Processing) ==> #[trigger] pruned(jobs, now_ms).contains(jobs[i]),
        forall|k: int|
            0 <= k < pruned(jobs, now_ms).len() ==> jobs.contains(#[trigger] pruned(jobs, now_ms)[k]) && (
            now_ms < pruned(jobs, now_ms)[k].created_ms + 600_000 || pruned(jobs, now_ms)[k].status is Queued
                || pruned(jobs, now_ms)[k].status is Processing),
{
    let f = |j: Job<A>| keep_job(j, now_ms);
    assert forall|i: int|
        0 <= i < jobs.len() && (now_ms < jobs[i].created_ms + 600_000 || jobs[i].status is Queued
            || jobs[i].status is Processing) implies #[trigger] pruned(jobs, now_ms).contains(jobs[i]) by {
        assert(f(jobs[i]));
        jobs.lemma_filter_contains(f, i);
    }
    assert forall|k: int| 0 <= k < pruned(jobs, now_ms).len() implies jobs.contains(
        #[trigger] pruned(jobs, now_ms)[k],
    ) && (now_ms < pruned(jobs, now_ms)[k].created_ms + 600_000 || pruned(jobs, now_ms)[k].status is Queued
        || pruned(jobs, now_ms)[k].status is Processing) by {
        jobs.lemma_filter_pred(f, k);
        assert(jobs.filter(f).contains(jobs.filter(f)[k]));
        jobs.lemma_filter_contains_rev(f, jobs.filter(f)[k]);
    }
}

} // verus!

