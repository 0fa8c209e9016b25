//! Events from the inference process and the queue that holds them until a waiter takes
//! the one it is waiting for. Waiters remove only their own event (or the first error);
//! every other event stays queued in arrival order.
use crate::engine::opt_string_view;
use crate::platform::merged_library_path;
use crate::text::{push_str, str_eq};
use std::collections::VecDeque;
use vstd::prelude::*;

verus! {

/// One message from the inference process, as far as the application reads it.
pub enum SidecarEvent {
    Ready { engines: Vec<String>, inference_device: Option<String>, compute_type: Option<String> },
    Partial { text: String, seq: u64 },
    Final { text: String, seq: u64 },
    Error { message: String },
    FileProgress { path: String },
    FileDone { path: String, text: String },
    ModelState { loaded: bool },
    /// A live-preview session is ready for audio.
    StreamStarted { session_id: u64 },
    /// Text of a live-preview session; `is_final` marks the last one after the stream ends.
    StreamResult { session_id: u64, text: String, is_final: bool },
}

/// `r` is an error with exactly this message.
pub open spec fn err_with<T>(r: Result<T, String>, msg: String) -> bool {
    r matches Err(e) && e == msg
}

/// An event that ends a wait for the transcript of chunk `seq`.
pub open spec fn ends_transcript_wait(e: SidecarEvent, seq: u64) -> bool {
    e is Error || (e matches SidecarEvent::Final { seq: s, .. } && s == seq)
}

/// `i` is the first position in `q` satisfying `p`.
pub open spec fn first_where(q: Seq<SidecarEvent>, p: spec_fn(SidecarEvent) -> bool, i: int) -> bool {
    &&& 0 <= i < q.len()
    &&& p(q[i])
    &&& forall|k: int| 0 <= k < i ==> !p(q[k])
}

/// No event in `q` satisfies `p`.
pub open spec fn none_where(q: Seq<SidecarEvent>, p: spec_fn(SidecarEvent) -> bool) -> bool {
    forall|k: int| 0 <= k < q.len() ==> !p(q[k])
}

/// Removes the first `Final` for `seq` or the first `Error`, whichever comes first, and
/// returns its text (`Ok(Some)`) or message (`Err`). Without either: `Ok(None)`, no change.
pub fn pop_sidecar_transcript_for_seq(q: &mut VecDeque<SidecarEvent>, seq: u64) -> (r: Result<
    Option<String>,
    String,
>)
    ensures
        forall|i: int|
            first_where(old(q)@, |e: SidecarEvent| ends_transcript_wait(e, seq), i) ==> {
                &&& final(q)@ == old(q)@.remove(i)
                &&& match old(q)@[i] {
                    SidecarEvent::Error { message } => err_with(r, message),
                    SidecarEvent::Final { text, .. } => r == Ok::<Option<String>, String>(
                        Some(text),
                    ),
                    _ => false,
                }
            },
        none_where(old(q)@, |e: SidecarEvent| ends_transcript_wait(e, seq)) ==> final(q)@ == old(
            q,
        )@ && r == Ok::<Option<String>, String>(None),
{
    let ghost p = |e: SidecarEvent| ends_transcript_wait(e, seq);
    let mut i: usize = 0;
    while i < q.len()
        invariant
            p == (|e: SidecarEvent| ends_transcript_wait(e, seq)),
            i <= q@.len(),
            q@ == old(q)@,
            forall|k: int| 0 <= k < i ==> !p(q@[k]),
        decreases q@.len() - i,
    {
        let stop = match &q[i] {
            SidecarEvent::Error { .. } => true,
            SidecarEvent::Final { seq: s, .. } => *s == seq,
            _ => false,
        };
        if stop {
            let ghost before = q@;
            let e = q.remove(i).unwrap();
            assert(first_where(before, p, i as int));
            return match e {
                SidecarEvent::Error { message } => Err(message),
                SidecarEvent::Final { text, .. } => Ok(Some(text)),
                _ => Ok(None),
            };
        }
        i = i + 1;
    }
    Ok(None)
}

/// An event that ends a wait for the transcript of file `path`.
pub open spec fn ends_file_wait(e: SidecarEvent, path: Seq<char>) -> bool {
    e is Error || (e matches SidecarEvent::FileDone { path: p, .. } && p@ == path)
}

/// Events that end a wait for file `path`.
pub open spec fn file_wait_stops(path: Seq<char>) -> spec_fn(SidecarEvent) -> bool {
    |e: SidecarEvent| ends_file_wait(e, path)
}

/// Events other than progress reports for file `path`.
pub open spec fn not_progress_for(path: Seq<char>) -> spec_fn(SidecarEvent) -> bool {
    |e: SidecarEvent| !progress_for(e, path)
}

/// A progress report for file `path`.
pub open spec fn progress_for(e: SidecarEvent, path: Seq<char>) -> bool {
    e matches SidecarEvent::FileProgress { path: p } && p@ == path
}

proof fn lemma_filter_take_step(s: Seq<SidecarEvent>, k: int, f: spec_fn(SidecarEvent) -> bool)
    requires
        0 <= k < s.len(),
    ensures
        s.take(k + 1).filter(f) == if f(s[k]) {
            s.take(k).filter(f).push(s[k])
        } else {
            s.take(k).filter(f)
        },
{
    reveal(Seq::filter);
    assert(s.take(k + 1).drop_last() =~= s.take(k));
}

/// Like the transcript wait for a file: progress reports for `path` before the stopping
/// event are dropped; the first `FileDone` for `path` or the first `Error` is removed and
/// returned. Without either, only those progress reports go, and the result is `Ok(None)`.
pub fn pop_sidecar_file_done_for_path(q: &mut VecDeque<SidecarEvent>, path: &str) -> (r: Result<
    Option<String>,
    String,
>)
    ensures
        forall|i: int|
            first_where(old(q)@, file_wait_stops(path@), i) ==> {
                &&& final(q)@ == old(q)@.take(i).filter(not_progress_for(path@)) + old(q)@.skip(
                    i + 1,
                )
                &&& match old(q)@[i] {
                    SidecarEvent::Error { message } => err_with(r, message),
                    SidecarEvent::FileDone { text, .. } => r == Ok::<Option<String>, String>(
                        Some(text),
                    ),
                    _ => false,
                }
            },
        none_where(old(q)@, file_wait_stops(path@)) ==> final(q)@ == old(q)@.filter(
            not_progress_for(path@),
        ) && r == Ok::<Option<String>, String>(None),
{
    let ghost orig = q@;
    let ghost stop = file_wait_stops(path@);
    let ghost keep = not_progress_for(path@);
    let mut i: usize = 0;
    let ghost mut k: int = 0;
    proof {
        reveal(Seq::filter);
        assert(orig.take(0).filter(keep) =~= Seq::<SidecarEvent>::empty());
        assert(orig.skip(0) =~= orig);
    }
    while i < q.len()
        invariant
            0 <= k <= orig.len(),
            orig == old(q)@,
            stop == file_wait_stops(path@),
            keep == not_progress_for(path@),
            i == orig.take(k).filter(keep).len(),
            q@ == orig.take(k).filter(keep) + orig.skip(k),
            forall|m: int| 0 <= m < k ==> !stop(orig[m]),
        decreases orig.len() - k,
    {
        proof {
            lemma_filter_take_step(orig, k, keep);
            assert(q@[i as int] == orig[k]);
        }
        let (is_stop, is_progress) = match &q[i] {
            SidecarEvent::Error { .. } => (true, false),
            SidecarEvent::FileDone { path: p, .. } => (str_eq(p.as_str(), path), false),
            SidecarEvent::FileProgress { path: p } => (false, str_eq(p.as_str(), path)),
            _ => (false, false),
        };
        assert(is_stop == stop(orig[k]));
        assert(is_progress == !keep(orig[k]));
        if is_stop {
            let ghost before = q@;
            let e = q.remove(i).unwrap();
            proof {
                assert(first_where(orig, stop, k));
                assert(orig.skip(k) =~= seq![orig[k]] + orig.skip(k + 1));
                assert(q@ =~= orig.take(k).filter(keep) + orig.skip(k + 1));
                assert forall|j: int| first_where(orig, stop, j) implies j == k by {
                    if j < k {
                        assert(!stop(orig[j]));
                    } else if j > k {
                        assert(!stop(orig[k]));
                    }
                }
            }
            return match e {
                SidecarEvent::Error { message } => Err(message),
                SidecarEvent::FileDone { text, .. } => Ok(Some(text)),
                _ => Ok(None),
            };
        }
        if is_progress {
            let _ = q.remove(i);
        } else {
            i = i + 1;
        }
        proof {
            assert(orig.skip(k) =~= seq![orig[k]] + orig.skip(k + 1));
            assert(q@ =~= orig.take(k + 1).filter(keep) + orig.skip(k + 1));
            k = k + 1;
        }
    }
    proof {
        assert(k == orig.len());
        assert(orig.take(k) =~= orig);
        assert(q@ =~= orig.filter(keep));
    }
    Ok(None)
}

/// Removes and returns the message of the first `Error`; other events stay.
pub fn take_first_error(q: &mut VecDeque<SidecarEvent>) -> (r: Option<String>)
    ensures
        forall|i: int|
            first_where(old(q)@, |e: SidecarEvent| e is Error, i) ==> final(q)@ == old(q)@.remove(i)
                && r == Some(old(q)@[i]->Error_message),
        none_where(old(q)@, |e: SidecarEvent| e is Error) ==> final(q)@ == old(q)@ && r is None,
{
    let ghost p = |e: SidecarEvent| e is Error;
    let mut i: usize = 0;
    while i < q.len()
        invariant
            p == (|e: SidecarEvent| e is Error),
            i <= q@.len(),
            q@ == old(q)@,
            forall|k: int| 0 <= k < i ==> !p(q@[k]),
        decreases q@.len() - i,
    {
        if let SidecarEvent::Error { .. } = &q[i] {
            let ghost before = q@;
            let e = q.remove(i).unwrap();
            assert(first_where(before, p, i as int));
            if let SidecarEvent::Error { message } = e {
                return Some(message);
            }
            return None;
        }
        i = i + 1;
    }
    None
}

/// Whether a `Ready` event is queued.
pub fn has_ready_event(q: &VecDeque<SidecarEvent>) -> (r: bool)
    ensures
        r == exists|i: int| 0 <= i < q@.len() && q@[i] is Ready,
{
    for i in 0..q.len()
        invariant
            forall|k: int| 0 <= k < i ==> !(q@[k] is Ready),
    {
        if let SidecarEvent::Ready { .. } = &q[i] {
            return true;
        }
    }
    false
}

/// A model-state change or an error: what model loading waits for.
pub open spec fn is_load_event(e: SidecarEvent) -> bool {
    e is ModelState || e is Error
}

/// Removes the model-state and error events, in order; transcripts, partials and file
/// events stay queued in order.
pub fn take_model_load_events(q: &mut VecDeque<SidecarEvent>) -> (r: Vec<SidecarEvent>)
    ensures
        r@ == old(q)@.filter(|e: SidecarEvent| is_load_event(e)),
        final(q)@ == old(q)@.filter(|e: SidecarEvent| !is_load_event(e)),
{
    let ghost orig = q@;
    let ghost take = |e: SidecarEvent| is_load_event(e);
    let ghost keep = |e: SidecarEvent| !is_load_event(e);
    let mut out: Vec<SidecarEvent> = Vec::new();
    let mut i: usize = 0;
    let ghost mut k: int = 0;
    proof {
        reveal(Seq::filter);
        assert(orig.take(0).filter(keep) =~= Seq::<SidecarEvent>::empty());
        assert(orig.take(0).filter(take) =~= Seq::<SidecarEvent>::empty());
        assert(orig.skip(0) =~= orig);
    }
    while i < q.len()
        invariant
            0 <= k <= orig.len(),
            take == (|e: SidecarEvent| is_load_event(e)),
            keep == (|e: SidecarEvent| !is_load_event(e)),
            i == orig.take(k).filter(keep).len(),
            q@ == orig.take(k).filter(keep) + orig.skip(k),
            out@ == orig.take(k).filter(take),
        decreases orig.len() - k,
    {
        proof {
            lemma_filter_take_step(orig, k, keep);
            lemma_filter_take_step(orig, k, take);
            assert(q@[i as int] == orig[k]);
        }
        let is_load = match &q[i] {
            SidecarEvent::ModelState { .. } | SidecarEvent::Error { .. } => true,
            _ => false,
        };
        if is_load {
            let e = q.remove(i).unwrap();
            out.push(e);
        } else {
            i = i + 1;
        }
        proof {
            assert(orig.skip(k) =~= seq![orig[k]] + orig.skip(k + 1));
            assert(q@ =~= orig.take(k + 1).filter(keep) + orig.skip(k + 1));
            k = k + 1;
        }
    }
    proof {
        assert(k == orig.len());
        assert(orig.take(k) =~= orig);
        assert(q@ =~= orig.filter(keep));
    }
    out
}

/// Removes the first `Ready` and returns its device and compute-type metadata; the other
/// events keep their order.
pub fn take_ready_metadata(q: &mut VecDeque<SidecarEvent>) -> (r: Option<(Option<String>, Option<String>)>)
    ensures
        forall|i: int|
            first_where(old(q)@, |e: SidecarEvent| e is Ready, i) ==> final(q)@ == old(q)@.remove(i)
                && r == Some((old(q)@[i]->inference_device, old(q)@[i]->compute_type)),
        none_where(old(q)@, |e: SidecarEvent| e is Ready) ==> final(q)@ == old(q)@ && r is None,
{
    let ghost p = |e: SidecarEvent| e is Ready;
    let mut i: usize = 0;
    while i < q.len()
        invariant
            p == (|e: SidecarEvent| e is Ready),
            i <= q@.len(),
            q@ == old(q)@,
            forall|k: int| 0 <= k < i ==> !p(q@[k]),
        decreases q@.len() - i,
    {
        if let SidecarEvent::Ready { .. } = &q[i] {
            let ghost before = q@;
            let e = q.remove(i).unwrap();
            assert(first_where(before, p, i as int));
            if let SidecarEvent::Ready { inference_device, compute_type, .. } = e {
                return Some((inference_device, compute_type));
            }
            return None;
        }
        i = i + 1;
    }
    None
}

/// `q` with `x` at the back, after dropping the oldest items so that at most `cap` remain.
pub open spec fn capped_push<T>(q: Seq<T>, x: T, cap: nat) -> Seq<T> {
    (if q.len() >= cap {
        q.skip(q.len() - cap + 1)
    } else {
        q
    }).push(x)
}

/// A capped queue never holds more than its cap, whatever it held before, and the newest
/// item is always kept.
pub proof fn capped_push_stays_within_cap<T>(q: Seq<T>, x: T, cap: nat)
    requires
        cap > 0,
    ensures
        capped_push(q, x, cap).len() <= cap,
        capped_push(q, x, cap).last() == x,
        q.len() < cap ==> capped_push(q, x, cap) == q.push(x),
{
}

/// Appends `x`, first dropping the oldest entries so that at most `cap` remain.
pub fn push_capped<T>(q: &mut VecDeque<T>, x: T, cap: usize)
    requires
        cap > 0,
    ensures
        final(q)@ == capped_push(old(q)@, x, cap as nat),
{
    let ghost orig = q@;
    let n0 = q.len();
    let mut dropped: usize = 0;
    assert(orig.skip(0) =~= orig);
    while q.len() >= cap
        invariant
            cap > 0,
            dropped <= orig.len(),
            q@ == orig.skip(dropped as int),
            dropped + q@.len() == orig.len(),
            orig.len() == n0,
            orig.len() >= cap ==> dropped <= orig.len() - cap + 1,
            orig.len() < cap ==> dropped == 0,
        decreases q@.len(),
    {
        let _ = q.remove(0);
        assert(orig.skip(dropped as int).remove(0) =~= orig.skip(dropped + 1));
        dropped = dropped + 1;
    }
    q.push_back(x);
}

/// Search paths added to the inference process's environment for the NVIDIA runtime.
pub struct SidecarSpawnEnv {
    /// Windows: put in front of `PATH` (the folder holding the cuBLAS/cuDNN libraries).
    pub path_prepend_windows: Option<String>,
    /// Unix: put in front of `LD_LIBRARY_PATH`.
    pub ld_library_path_prepend_unix: Option<String>,
}

/// The variables to set on the inference process for `env`, given which platform runs and
/// the current `PATH` and `LD_LIBRARY_PATH`: on Windows `PATH` becomes the folder, `;` and
/// the old value; on Unix `LD_LIBRARY_PATH` gets the fragment in front, joined by `:` when
/// the old value is not empty. Nothing is set for a part that is absent or for the other
/// platform.
pub fn spawn_env_overrides(
    env: &SidecarSpawnEnv,
    windows: bool,
    unix: bool,
    old_path: &str,
    old_ld: &str,
) -> (r: Vec<(String, String)>)
    ensures
        r@.len() == (if windows && env.path_prepend_windows is Some { 1int } else { 0int }) + (
        if unix && env.ld_library_path_prepend_unix is Some {
            1int
        } else {
            0int
        }),
        windows && env.path_prepend_windows is Some ==> {
            &&& r@[0].0@ == "PATH"@
            &&& r@[0].1@ == env.path_prepend_windows->0@ + ";"@ + old_path@
        },
        unix && env.ld_library_path_prepend_unix is Some ==> {
            let i = r@.len() - 1;
            &&& r@[i].0@ == "LD_LIBRARY_PATH"@
            &&& r@[i].1@ == if old_ld@.len() == 0 {
                env.ld_library_path_prepend_unix->0@
            } else {
                env.ld_library_path_prepend_unix->0@ + ":"@ + old_ld@
            }
        },
{
    let mut out: Vec<(String, String)> = Vec::new();
    if windows {
        if let Some(bin) = &env.path_prepend_windows {
            let mut v = bin.clone();
            push_str(&mut v, ";");
            push_str(&mut v, old_path);
            out.push(("PATH".to_owned(), v));
        }
    }
    if unix {
        if let Some(fragment) = &env.ld_library_path_prepend_unix {
            let merged = merged_library_path(fragment.as_str(), old_ld);
            out.push(("LD_LIBRARY_PATH".to_owned(), merged));
        }
    }
    out
}

/// An event that settles a model load: the model reports itself loaded, or an error.
pub open spec fn settles_load(e: SidecarEvent) -> bool {
    (e matches SidecarEvent::ModelState { loaded } && loaded) || e is Error
}

/// The outcome of a model load from the events drained in one round: the first settling
/// event decides (loaded: `Ok`; an error: `Err` with its message); without one the wait
/// goes on (`None`). A report that the model is not loaded does not settle it.
pub fn model_load_verdict(events: &Vec<SidecarEvent>) -> (r: Option<Result<(), String>>)
    ensures
        r is None <==> none_where(events@, |e: SidecarEvent| settles_load(e)),
        forall|i: int|
            #![trigger events@[i]]
            first_where(events@, |e: SidecarEvent| settles_load(e), i) ==> match events@[i] {
                SidecarEvent::Error { message } => r == Some(Err::<(), String>(message)),
                _ => r == Some(Ok::<(), String>(())),
            },
{
    let ghost p = |e: SidecarEvent| settles_load(e);
    let mut i: usize = 0;
    while i < events.len()
        invariant
            p == (|e: SidecarEvent| settles_load(e)),
            i <= events@.len(),
            forall|k: int| 0 <= k < i ==> !p(events@[k]),
        decreases events@.len() - i,
    {
        match &events[i] {
            SidecarEvent::ModelState { loaded } => {
                if *loaded {
                    assert(first_where(events@, p, i as int));
                    return Some(Ok(()));
                }
            },
            SidecarEvent::Error { message } => {
                assert(first_where(events@, p, i as int));
                return Some(Err(message.clone()));
            },
            _ => {},
        }
        i = i + 1;
    }
    None
}

/// Whether the drained events include a report that the model is no longer loaded.
pub fn unload_confirmed(events: &Vec<SidecarEvent>) -> (r: bool)
    ensures
        r == exists|i: int|
            0 <= i < events@.len() && (#[trigger] events@[i] matches SidecarEvent::ModelState {
                loaded,
            } && !loaded),
{
    for i in 0..events.len()
        invariant
            forall|k: int|
                0 <= k < i ==> !(#[trigger] events@[k] matches SidecarEvent::ModelState {
                    loaded,
                } && !loaded),
    {
        if let SidecarEvent::ModelState { loaded } = &events[i] {
            if !*loaded {
                return true;
            }
        }
    }
    false
}

/// An event that ends a wait for live-preview session `session_id` to start.
pub open spec fn ends_stream_start(e: SidecarEvent, session_id: u64) -> bool {
    e is Error || (e matches SidecarEvent::StreamStarted { session_id: s } && s == session_id)
}

/// Removes the first start report for `session_id` or the first `Error`, whichever comes
/// first: `Some(Ok)` for the start, `Some(Err)` with the message for the error. Without
/// either: `None`, no change.
pub fn pop_stream_started(q: &mut VecDeque<SidecarEvent>, session_id: u64) -> (r: Option<Result<(), String>>)
    ensures
        forall|i: int|
            first_where(old(q)@, |e: SidecarEvent| ends_stream_start(e, session_id), i) ==> {
                &&& final(q)@ == old(q)@.remove(i)
                &&& match old(q)@[i] {
                    SidecarEvent::Error { message } => r == Some(Err::<(), String>(message)),
                    _ => r == Some(Ok::<(), String>(())),
                }
            },
        none_where(old(q)@, |e: SidecarEvent| ends_stream_start(e, session_id)) ==> final(q)@ == old(
            q,
        )@ && r is None,
{
    let ghost p = |e: SidecarEvent| ends_stream_start(e, session_id);
    let mut i: usize = 0;
    while i < q.len()
        invariant
            p == (|e: SidecarEvent| ends_stream_start(e, session_id)),
            i <= q@.len(),
            q@ == old(q)@,
            forall|k: int| 0 <= k < i ==> !p(q@[k]),
        decreases q@.len() - i,
    {
        let stop = match &q[i] {
            SidecarEvent::Error { .. } => true,
            SidecarEvent::StreamStarted { session_id: s } => *s == session_id,
            _ => false,
        };
        if stop {
            let ghost before = q@;
            let e = q.remove(i).unwrap();
            assert(first_where(before, p, i as int));
            return match e {
                SidecarEvent::Error { message } => Some(Err(message)),
                _ => Some(Ok(())),
            };
        }
        i = i + 1;
    }
    None
}

/// A live-preview result for `session_id`, or an error.
pub open spec fn stream_event(e: SidecarEvent, session_id: u64) -> bool {
    e is Error || (e matches SidecarEvent::StreamResult { session_id: s, .. } && s == session_id)
}

/// Removes the first result for `session_id` or the first `Error`, whichever comes first:
/// the result's text and finality, or the error's message. Without either: `Ok(None)`.
pub fn pop_stream_for_session(q: &mut VecDeque<SidecarEvent>, session_id: u64) -> (r: Result<
    Option<(String, bool)>,
    String,
>)
    ensures
        forall|i: int|
            first_where(old(q)@, |e: SidecarEvent| stream_event(e, session_id), i) ==> {
                &&& final(q)@ == old(q)@.remove(i)
                &&& match old(q)@[i] {
                    SidecarEvent::Error { message } => err_with(r, message),
                    SidecarEvent::StreamResult { text, is_final, .. } => r == Ok::<
                        Option<(String, bool)>,
                        String,
                    >(Some((text, is_final))),
                    _ => false,
                }
            },
        none_where(old(q)@, |e: SidecarEvent| stream_event(e, session_id)) ==> final(q)@ == old(
            q,
        )@ && r == Ok::<Option<(String, bool)>, String>(None),
{
    let ghost p = |e: SidecarEvent| stream_event(e, session_id);
    let mut i: usize = 0;
    while i < q.len()
        invariant
            p == (|e: SidecarEvent| stream_event(e, session_id)),
            i <= q@.len(),
            q@ == old(q)@,
            forall|k: int| 0 <= k < i ==> !p(q@[k]),
        decreases q@.len() - i,
    {
        let stop = match &q[i] {
            SidecarEvent::Error { .. } => true,
            SidecarEvent::StreamResult { session_id: s, .. } => *s == session_id,
            _ => false,
        };
        if stop {
            let ghost before = q@;
            let e = q.remove(i).unwrap();
            assert(first_where(before, p, i as int));
            return match e {
                SidecarEvent::Error { message } => Err(message),
                SidecarEvent::StreamResult { text, is_final, .. } => Ok(Some((text, is_final))),
                _ => Ok(None),
            };
        }
        i = i + 1;
    }
    Ok(None)
}

/// At most this many results are taken in one drain.
pub const STREAM_DRAIN_MAX: usize = 256;

/// `later` when it holds a text, else `earlier`.
pub open spec fn latest(later: Option<Seq<char>>, earlier: Option<Seq<char>>) -> Option<Seq<char>> {
    if later is Some {
        later
    } else {
        earlier
    }
}

/// Draining live-preview results for `session_id` from the front of `q`, taking at most
/// `budget` results: every result for the session and the first error are removed, other
/// events stay in order, and draining stops at the error. Gives what stays queued, the
/// last non-blank result text, and the error's message.
pub open spec fn drained(q: Seq<SidecarEvent>, session_id: u64, budget: nat) -> (
    Seq<SidecarEvent>,
    Option<Seq<char>>,
    Option<String>,
)
    decreases q.len(),
{
    if q.len() == 0 || budget == 0 {
        (q, None, None)
    } else {
        match q[0] {
            SidecarEvent::Error { message } => (q.skip(1), None, Some(message)),
            SidecarEvent::StreamResult { session_id: s, text, .. } => if s == session_id {
                let rest = drained(q.skip(1), session_id, (budget - 1) as nat);
                (
                    rest.0,
                    latest(
                        rest.1,
                        if crate::text::trim(text@).len() > 0 {
                            Some(text@)
                        } else {
                            None
                        },
                    ),
                    rest.2,
                )
            } else {
                let rest = drained(q.skip(1), session_id, budget);
                (seq![q[0]] + rest.0, rest.1, rest.2)
            },
            _ => {
                let rest = drained(q.skip(1), session_id, budget);
                (seq![q[0]] + rest.0, rest.1, rest.2)
            },
        }
    }
}

/// Takes the queued live-preview results for `session_id` (at most `STREAM_DRAIN_MAX`):
/// the text to show is the last non-blank one, so stale results are never shown one at a
/// time; an error ends the drain and is returned. Other events stay queued in order.
pub fn drain_stream_results(q: &mut VecDeque<SidecarEvent>, session_id: u64) -> (r: (
    Option<String>,
    Option<String>,
))
    ensures
        ({
            let d = drained(old(q)@, session_id, STREAM_DRAIN_MAX as nat);
            &&& final(q)@ == d.0
            &&& opt_string_view(r.0) == d.1
            &&& r.1 == d.2
        }),
{
    let mut items: VecDeque<SidecarEvent> = VecDeque::new();
    std::mem::swap(q, &mut items);
    let ghost orig = items@;
    let mut last: Option<String> = None;
    let mut budget: usize = STREAM_DRAIN_MAX;
    assert(q@ + drained(items@, session_id, budget as nat).0 =~= drained(items@, session_id, budget as nat).0);
    while items.len() > 0 && budget > 0
        invariant
            budget <= STREAM_DRAIN_MAX,
            orig == old(q)@,
            ({
                let d = drained(items@, session_id, budget as nat);
                let whole = drained(orig, session_id, STREAM_DRAIN_MAX as nat);
                &&& whole.0 == q@ + d.0
                &&& whole.1 == latest(d.1, opt_string_view(last))
                &&& whole.2 == d.2
            }),
        decreases items@.len(),
    {
        let ghost before = items@;
        let ghost q_before = q@;
        let e = items.pop_front().unwrap();
        assert(before.skip(1) =~= items@);
        match e {
            SidecarEvent::Error { message } => {
                q.append(&mut items);
                return (last, Some(message));
            },
            SidecarEvent::StreamResult { session_id: s, text, is_final } => {
                if s == session_id {
                    if !crate::text::is_blank(text.as_str()) {
                        last = Some(text);
                    }
                    budget = budget - 1;
                } else {
                    q.push_back(SidecarEvent::StreamResult { session_id: s, text, is_final });
                    assert(q@ + drained(items@, session_id, budget as nat).0 =~= q_before + (seq![
                        before[0]] + drained(items@, session_id, budget as nat).0));
                }
            },
            other => {
                q.push_back(other);
                assert(q@ + drained(items@, session_id, budget as nat).0 =~= q_before + (seq![
                    before[0]] + drained(items@, session_id, budget as nat).0));
            },
        }
    }
    q.append(&mut items);
    (last, None)
}


/// A live-preview result of session `session_id`.
pub open spec fn session_result(e: SidecarEvent, session_id: u64) -> bool {
    e matches SidecarEvent::StreamResult { session_id: s, .. } && s == session_id
}

/// Queued preview results are drained, not shown one stale result at a time: when no error
/// is queued and the queue fits the drain's budget, one drain leaves no result of the
/// session behind and reports no error, and every other event stays queued.
pub proof fn drain_takes_every_session_result(q: Seq<SidecarEvent>, session_id: u64, budget: nat)
    requires
        q.len() <= budget,
        forall|i: int| 0 <= i < q.len() ==> !(#[trigger] q[i] is Error),
    ensures
        ({
            let d = drained(q, session_id, budget);
            &&& d.2 is None
            &&& forall|i: int| 0 <= i < d.0.len() ==> !session_result(#[trigger] d.0[i], session_id)
            &&& forall|i: int|
                0 <= i < q.len() && !session_result(#[trigger] q[i], session_id) ==> d.0.contains(q[i])
        }),
    decreases q.len(),
{
    if q.len() == 0 || budget == 0 {
    } else {
        let rest = q.skip(1);
        assert forall|i: int| 0 <= i < rest.len() implies !(#[trigger] rest[i] is Error) by {
            assert(rest[i] == q[i + 1]);
        }
        if session_result(q[0], session_id) {
            drain_takes_every_session_result(rest, session_id, (budget - 1) as nat);
            assert forall|i: int|
                0 <= i < q.len() && !session_result(#[trigger] q[i], session_id) implies drained(
                q,
                session_id,
                budget,
            ).0.contains(q[i]) by {
                assert(i > 0);
                assert(q[i] == rest[i - 1]);
            }
        } else {
            drain_takes_every_session_result(rest, session_id, budget);
            let tail = drained(rest, session_id, budget).0;
            let whole = seq![q[0]] + tail;
            assert(!(q[0] is Error));
            assert(drained(q, session_id, budget).0 == whole);
            assert forall|i: int| 0 <= i < whole.len() implies !session_result(#[trigger] whole[i], session_id) by {
                if i > 0 {
                    assert(whole[i] == tail[i - 1]);
                }
            }
            assert forall|i: int|
                0 <= i < q.len() && !session_result(#[trigger] q[i], session_id) implies whole.contains(q[i]) by {
                if i == 0 {
                    assert(whole[0] == q[0]);
                } else {
                    assert(q[i] == rest[i - 1]);
                    let k = choose|k: int| 0 <= k < tail.len() && tail[k] == rest[i - 1];
                    assert(whole[k + 1] == tail[k]);
                }
            }
        }
    }
}

} // verus!

