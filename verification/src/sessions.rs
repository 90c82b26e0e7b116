//! Play sessions: their duration, the recovery of sessions left open by a
//! crash, and the decisions of the tracker that follows a launched game.
use vstd::prelude::*;
use crate::models::Installation;
use crate::paths::{parent, parent_of};
use crate::text::{chars_to_string, owned, str_chars};

verus! {

/// The longest duration credited to a session recovered after a crash.
pub const MAX_RECOVERY_SECONDS: i64 = 64800;

/// Probes while confirming a directly started process.
pub const DIRECT_ATTEMPTS: u32 = 10;

/// Probes while looking for the game among new processes.
pub const DETECTION_ATTEMPTS: u32 = 45;

/// Pause after a failed direct confirmation, in milliseconds.
pub const DIRECT_INTERVAL_MS: u64 = 250;

/// Pause after a failed detection probe, in milliseconds.
pub const DETECTION_INTERVAL_MS: u64 = 2000;

/// Pause between heartbeats, in milliseconds.
pub const HEARTBEAT_INTERVAL_MS: u64 = 5000;

// ---------------------------------------------------------------------------
// Durations
// ---------------------------------------------------------------------------

/// The whole seconds from instant `start` to instant `end` as chrono
/// counts them (`DateTime::parse_from_rfc3339` on both, then the
/// difference's `num_seconds`, which rounds toward zero), or `None` when
/// either text is not RFC 3339.
pub uninterp spec fn rfc3339_elapsed(start: Seq<char>, end: Seq<char>) -> Option<i64>;

/// Parses both timestamps with `chrono::DateTime::parse_from_rfc3339` and
/// takes `num_seconds` of their difference; the result is named
/// `rfc3339_elapsed`.
#[verifier::external_body]
fn elapsed_seconds(start: &str, end: &str) -> (r: Option<i64>)
    ensures
        r == rfc3339_elapsed(start@, end@),
{
    match (chrono::DateTime::parse_from_rfc3339(start), chrono::DateTime::parse_from_rfc3339(end)) {
        (Ok(s), Ok(e)) => Some((e - s).num_seconds()),
        _ => None,
    }
}

/// Whole seconds from `start_text` to `end_text`, never negative; zero when
/// either is not an RFC 3339 timestamp.
pub open spec fn spec_duration(start_text: Seq<char>, end_text: Seq<char>) -> int {
    match rfc3339_elapsed(start_text, end_text) {
        Some(n) => if n < 0 {
            0
        } else {
            n as int
        },
        None => 0,
    }
}

/// The whole seconds between two RFC 3339 timestamps, zero when the end is
/// not after the start or either does not parse.
pub fn duration_between(started_at: &str, ended_at: &str) -> (r: i64)
    ensures
        r as int == spec_duration(started_at@, ended_at@),
        r >= 0,
{
    match elapsed_seconds(started_at, ended_at) {
        Some(n) => if n < 0 {
            0
        } else {
            n
        },
        None => 0,
    }
}

/// The duration credited to a session left open: up to the last heartbeat,
/// at most eighteen hours, zero without a heartbeat.
pub open spec fn spec_recovery_duration(started_at: Seq<char>, last_seen_at: Option<Seq<char>>) -> int {
    match last_seen_at {
        None => 0,
        Some(l) => {
            let d = spec_duration(started_at, l);
            if d <= MAX_RECOVERY_SECONDS {
                d
            } else {
                MAX_RECOVERY_SECONDS as int
            }
        },
    }
}

/// The duration given to a session found open at start-up whose process
/// is gone.
pub fn safe_recovery_duration(started_at: &str, last_seen_at: Option<&str>) -> (r: i64)
    ensures
        r as int == spec_recovery_duration(
            started_at@,
            match last_seen_at {
                Some(l) => Some(l@),
                None => None,
            },
        ),
        0 <= r <= MAX_RECOVERY_SECONDS,
{
    match last_seen_at {
        None => 0,
        Some(l) => {
            let d = duration_between(started_at, l);
            if d <= MAX_RECOVERY_SECONDS {
                d
            } else {
                MAX_RECOVERY_SECONDS
            }
        },
    }
}

/// How a session found open at start-up is closed when its process is
/// gone: it ends at the last heartbeat (or at its start without one) and is
/// credited the safe recovery duration.
pub fn recovery_close(started_at: &str, last_seen_at: Option<&str>) -> (r: (String, i64))
    ensures
        r.0@ == match last_seen_at {
            Some(l) => l@,
            None => started_at@,
        },
        r.1 as int == spec_recovery_duration(
            started_at@,
            match last_seen_at {
                Some(l) => Some(l@),
                None => None,
            },
        ),
{
    let duration = safe_recovery_duration(started_at, last_seen_at);
    let ended = match last_seen_at {
        Some(l) => owned(l),
        None => owned(started_at),
    };
    (ended, duration)
}

/// A session found open at start-up.
#[derive(Debug, Clone)]
pub struct OpenSession {
    pub id: String,
    pub started_at: String,
    pub last_seen_at: Option<String>,
    pub process_id: Option<i64>,
    pub process_path: Option<String>,
}

/// What recovery does with an open session.
#[derive(Debug, Clone)]
pub enum RecoveryAction {
    /// Its process still runs: keep following it.
    Follow { pid: u32, path: String },
    /// Close it, ending at `ended_at` with `duration` seconds.
    Close { ended_at: String, duration: i64 },
}

/// The process an open session recorded, when it recorded both its id and
/// its path (the id read as a `u32`, as the process table numbers them).
pub open spec fn spec_recorded_process(s: OpenSession) -> Option<(u32, Seq<char>)> {
    match (s.process_id, s.process_path) {
        (Some(pid), Some(path)) => Some((pid as u32, path@)),
        _ => None,
    }
}

pub fn recorded_process(s: &OpenSession) -> (r: Option<(u32, &str)>)
    ensures
        match r {
            Some((pid, path)) => spec_recorded_process(*s) == Some((pid, path@)),
            None => spec_recorded_process(*s) is None,
        },
{
    match (s.process_id, &s.process_path) {
        (Some(pid), Some(path)) => Some((pid as u32, path.as_str())),
        _ => None,
    }
}

/// The action for a session, given whether its recorded process still runs
/// (`still_running` is only consulted when it recorded one): a running
/// process is followed; any other session is closed at its last heartbeat
/// (or its start) with the safe recovery duration.
pub open spec fn recovery_matches(s: OpenSession, still_running: bool, a: RecoveryAction) -> bool {
    match spec_recorded_process(s) {
        Some((pid, path)) if still_running => a matches RecoveryAction::Follow { pid: p, path: q } && p
            == pid && q@ == path,
        _ => a matches RecoveryAction::Close { ended_at, duration } && ended_at@ == (match s.last_seen_at {
            Some(l) => l@,
            None => s.started_at@,
        }) && duration as int == spec_recovery_duration(s.started_at@, crate::models::opt_view(s.last_seen_at)) && 0
            <= duration <= MAX_RECOVERY_SECONDS,
    }
}

/// The recovery pass over the sessions found open: `still_running[i]` is
/// the answer for session `i`'s recorded process.
pub fn recovery_plan(sessions: &Vec<OpenSession>, still_running: &Vec<bool>) -> (r: Vec<RecoveryAction>)
    requires
        still_running@.len() == sessions@.len(),
    ensures
        r@.len() == sessions@.len(),
        forall|i: int|
            0 <= i < r@.len() ==> recovery_matches(sessions@[i], still_running@[i], #[trigger] r@[i]),
{
    let mut out: Vec<RecoveryAction> = Vec::new();
    let mut i: usize = 0;
    while i < sessions.len()
        invariant
            i <= sessions.len(),
            still_running@.len() == sessions@.len(),
            out@.len() == i,
            forall|j: int|
                0 <= j < i ==> recovery_matches(sessions@[j], still_running@[j], #[trigger] out@[j]),
        decreases sessions.len() - i,
    {
        let s = &sessions[i];
        let action = match recorded_process(s) {
            Some((pid, path)) if still_running[i] => RecoveryAction::Follow { pid, path: owned(path) },
            _ => {
                let last = match &s.last_seen_at {
                    Some(l) => Some(l.as_str()),
                    None => None,
                };
                let (ended_at, duration) = recovery_close(s.started_at.as_str(), last);
                RecoveryAction::Close { ended_at, duration }
            },
        };
        out.push(action);
        i += 1;
    }
    out
}

/// The folder watched for the game's process: the install folder, else the
/// folder of the executable.
pub open spec fn spec_install_directory(install_dir: Option<Seq<char>>, executable: Option<Seq<char>>) -> Option<
    Seq<char>,
> {
    match install_dir {
        Some(d) => Some(d),
        None => match executable {
            Some(e) => parent(e),
            None => None,
        },
    }
}

/// The folder in which the launched game's process is expected.
pub fn install_directory(installation: &Installation) -> (r: Option<String>)
    ensures
        match r {
            Some(d) => spec_install_directory(
                crate::models::opt_view(installation.install_dir),
                crate::models::opt_view(installation.executable),
            ) == Some(d@),
            None => spec_install_directory(
                crate::models::opt_view(installation.install_dir),
                crate::models::opt_view(installation.executable),
            ) is None,
        },
{
    match &installation.install_dir {
        Some(d) => Some(d.clone()),
        None => match &installation.executable {
            Some(e) => match parent_of(str_chars(e.as_str()).as_slice()) {
                Some(p) => Some(chars_to_string(p.as_slice())),
                None => None,
            },
            None => None,
        },
    }
}

// ---------------------------------------------------------------------------
// The tracker of a launched game
// ---------------------------------------------------------------------------

/// Where the tracker of a launched game stands.
#[derive(Debug, Clone, Copy, PartialEq, Eq)]
pub enum TrackerState {
    /// Confirming that a directly started process is the game, after
    /// `attempt` failed probes.
    Confirming { attempt: u32 },
    /// Looking for the game among new processes, after `attempt` failed
    /// probes.
    Discovering { attempt: u32 },
    /// Following the game, after `misses` probes in a row that did not find
    /// it.
    Tracking { misses: u32 },
    /// The session was recorded and closed.
    Finished,
    /// No trustworthy game process was found.
    Abandoned,
}

/// What the tracker asks to be written.
#[derive(Debug, Clone, Copy, PartialEq, Eq)]
pub enum SessionWrite {
    Nothing,
    Start,
    Heartbeat,
    Finish,
}

/// One decision: what to write, how long to wait before the next probe, and
/// the next state.
#[derive(Debug, Clone, Copy, PartialEq, Eq)]
pub struct TrackerStep {
    pub state: TrackerState,
    pub write: SessionWrite,
    pub wait_ms: u64,
}

/// The first state: confirming a directly started process, or discovering
/// the game among new processes.
pub fn tracker_start(direct: bool) -> (r: TrackerState)
    ensures
        direct ==> r == (TrackerState::Confirming { attempt: 0 }),
        !direct ==> r == (TrackerState::Discovering { attempt: 0 }),
        r == tracker_start_state(direct),
{
    if direct {
        TrackerState::Confirming { attempt: 0 }
    } else {
        TrackerState::Discovering { attempt: 0 }
    }
}

/// A state the tracker can be in: probe counts stay below their limits.
pub open spec fn tracker_ok(s: TrackerState) -> bool {
    match s {
        TrackerState::Confirming { attempt } => attempt < DIRECT_ATTEMPTS,
        TrackerState::Discovering { attempt } => attempt < DETECTION_ATTEMPTS,
        TrackerState::Tracking { misses } => misses < 2,
        _ => true,
    }
}

/// Whether the tracker still probes for the game's process.
pub open spec fn tracker_running(s: TrackerState) -> bool {
    s is Confirming || s is Discovering || s is Tracking
}

/// The decision after a probe that did (`found`) or did not find the game:
/// a found process starts the session; detection gives up after 10 direct
/// or 45 discovery probes; while tracking, a found process is a heartbeat
/// and two misses in a row finish the session.
pub open spec fn spec_tracker_next(s: TrackerState, found: bool) -> TrackerStep {
    match s {
        TrackerState::Confirming { attempt } => if found {
            TrackerStep {
                state: TrackerState::Tracking { misses: 0 },
                write: SessionWrite::Start,
                wait_ms: HEARTBEAT_INTERVAL_MS,
            }
        } else if attempt + 1 < DIRECT_ATTEMPTS {
            TrackerStep {
                state: TrackerState::Confirming { attempt: (attempt + 1) as u32 },
                write: SessionWrite::Nothing,
                wait_ms: DIRECT_INTERVAL_MS,
            }
        } else {
            TrackerStep {
                state: TrackerState::Abandoned,
                write: SessionWrite::Nothing,
                wait_ms: DIRECT_INTERVAL_MS,
            }
        },
        TrackerState::Discovering { attempt } => if found {
            TrackerStep {
                state: TrackerState::Tracking { misses: 0 },
                write: SessionWrite::Start,
                wait_ms: HEARTBEAT_INTERVAL_MS,
            }
        } else if attempt + 1 < DETECTION_ATTEMPTS {
            TrackerStep {
                state: TrackerState::Discovering { attempt: (attempt + 1) as u32 },
                write: SessionWrite::Nothing,
                wait_ms: DETECTION_INTERVAL_MS,
            }
        } else {
            TrackerStep {
                state: TrackerState::Abandoned,
                write: SessionWrite::Nothing,
                wait_ms: DETECTION_INTERVAL_MS,
            }
        },
        TrackerState::Tracking { misses } => if found {
            TrackerStep {
                state: TrackerState::Tracking { misses: 0 },
                write: SessionWrite::Heartbeat,
                wait_ms: HEARTBEAT_INTERVAL_MS,
            }
        } else if misses + 1 >= 2 {
            TrackerStep { state: TrackerState::Finished, write: SessionWrite::Finish, wait_ms: 0 }
        } else {
            TrackerStep {
                state: TrackerState::Tracking { misses: (misses + 1) as u32 },
                write: SessionWrite::Nothing,
                wait_ms: HEARTBEAT_INTERVAL_MS,
            }
        },
        TrackerState::Finished => TrackerStep { state: s, write: SessionWrite::Nothing, wait_ms: 0 },
        TrackerState::Abandoned => TrackerStep { state: s, write: SessionWrite::Nothing, wait_ms: 0 },
    }
}

/// Decides what follows a probe of the running processes.
pub fn tracker_next(s: TrackerState, found: bool) -> (r: TrackerStep)
    requires
        tracker_ok(s),
    ensures
        r == spec_tracker_next(s, found),
        tracker_ok(r.state),
{
    match s {
        TrackerState::Confirming { attempt } => if found {
            TrackerStep {
                state: TrackerState::Tracking { misses: 0 },
                write: SessionWrite::Start,
                wait_ms: HEARTBEAT_INTERVAL_MS,
            }
        } else if attempt + 1 < DIRECT_ATTEMPTS {
            TrackerStep {
                state: TrackerState::Confirming { attempt: attempt + 1 },
                write: SessionWrite::Nothing,
                wait_ms: DIRECT_INTERVAL_MS,
            }
        } else {
            TrackerStep {
                state: TrackerState::Abandoned,
                write: SessionWrite::Nothing,
                wait_ms: DIRECT_INTERVAL_MS,
            }
        },
        TrackerState::Discovering { attempt } => if found {
            TrackerStep {
                state: TrackerState::Tracking { misses: 0 },
                write: SessionWrite::Start,
                wait_ms: HEARTBEAT_INTERVAL_MS,
            }
        } else if attempt + 1 < DETECTION_ATTEMPTS {
            TrackerStep {
                state: TrackerState::Discovering { attempt: attempt + 1 },
                write: SessionWrite::Nothing,
                wait_ms: DETECTION_INTERVAL_MS,
            }
        } else {
            TrackerStep {
                state: TrackerState::Abandoned,
                write: SessionWrite::Nothing,
                wait_ms: DETECTION_INTERVAL_MS,
            }
        },
        TrackerState::Tracking { misses } => if found {
            TrackerStep {
                state: TrackerState::Tracking { misses: 0 },
                write: SessionWrite::Heartbeat,
                wait_ms: HEARTBEAT_INTERVAL_MS,
            }
        } else if misses + 1 >= 2 {
            TrackerStep { state: TrackerState::Finished, write: SessionWrite::Finish, wait_ms: 0 }
        } else {
            TrackerStep {
                state: TrackerState::Tracking { misses: misses + 1 },
                write: SessionWrite::Nothing,
                wait_ms: HEARTBEAT_INTERVAL_MS,
            }
        },
        TrackerState::Finished => TrackerStep { state: s, write: SessionWrite::Nothing, wait_ms: 0 },
        TrackerState::Abandoned => TrackerStep { state: s, write: SessionWrite::Nothing, wait_ms: 0 },
    }
}

/// Whether the tracker still probes.
pub fn tracker_is_running(s: TrackerState) -> (r: bool)
    ensures
        r == tracker_running(s),
{
    match s {
        TrackerState::Confirming { .. } | TrackerState::Discovering { .. } | TrackerState::Tracking {
            ..
        } => true,
        _ => false,
    }
}

/// The states reached from `s` by the probe results `found`, in order.
pub open spec fn tracker_after(s: TrackerState, found: Seq<bool>) -> TrackerState
    decreases found.len(),
{
    if found.len() == 0 {
        s
    } else {
        spec_tracker_next(tracker_after(s, found.drop_last()), found.last()).state
    }
}

/// A session row is written only after a probe found the game's process,
/// and at most once per launch: a miss never starts a session, and once the
/// tracker follows (or has finished) a session it never starts another.
pub proof fn law_start_needs_a_find(s: TrackerState, found: bool)
    ensures
        spec_tracker_next(s, false).write != SessionWrite::Start,
        spec_tracker_next(s, found).write == SessionWrite::Start ==> found && (s is Confirming
            || s is Discovering),
        (s is Tracking || s is Finished) ==> spec_tracker_next(s, found).write != SessionWrite::Start
            && (spec_tracker_next(s, found).state is Tracking || spec_tracker_next(s, found).state is Finished),
        (spec_tracker_next(s, found).write == SessionWrite::Heartbeat || spec_tracker_next(s, found).write
            == SessionWrite::Finish) ==> s is Tracking,
{
}

/// What the tracker writes at probe `i` of a run from `s` with the probe
/// results `found`.
pub open spec fn tracker_write_at(s: TrackerState, found: Seq<bool>, i: int) -> SessionWrite {
    spec_tracker_next(tracker_after(s, found.take(i)), found[i]).write
}

/// After the first `k` probes of a run that starts by looking for the game,
/// the tracker follows (or has closed) a session exactly when one of those
/// probes wrote its start.
proof fn lemma_run_started(direct: bool, found: Seq<bool>, k: int)
    requires
        0 <= k <= found.len(),
    ensures
        ({
            let st = tracker_after(tracker_start_state(direct), found.take(k));
            (st is Tracking || st is Finished) <==> exists|j: int|
                0 <= j < k && #[trigger] tracker_write_at(tracker_start_state(direct), found, j)
                    == SessionWrite::Start
        }),
    decreases k,
{
    let s0 = tracker_start_state(direct);
    if k == 0 {
        assert(found.take(0) =~= Seq::<bool>::empty());
    } else {
        lemma_run_started(direct, found, k - 1);
        assert(found.take(k).drop_last() =~= found.take(k - 1));
        assert(found.take(k).last() == found[k - 1]);
        let prev = tracker_after(s0, found.take(k - 1));
        law_start_needs_a_find(prev, found[k - 1]);
        if prev is Tracking || prev is Finished {
            let j0 = choose|j: int| 0 <= j < k - 1 && #[trigger] tracker_write_at(s0, found, j)
                == SessionWrite::Start;
            assert(0 <= j0 < k && tracker_write_at(s0, found, j0) == SessionWrite::Start);
        } else {
            assert(tracker_write_at(s0, found, k - 1) == spec_tracker_next(prev, found[k - 1]).write);
            if tracker_write_at(s0, found, k - 1) == SessionWrite::Start {
                assert(exists|j: int| 0 <= j < k && #[trigger] tracker_write_at(s0, found, j)
                    == SessionWrite::Start);
            }
        }
    }
}

/// The state a run starts in.
pub open spec fn tracker_start_state(direct: bool) -> TrackerState {
    if direct {
        TrackerState::Confirming { attempt: 0 }
    } else {
        TrackerState::Discovering { attempt: 0 }
    }
}

/// Over a whole run of the tracker, a session row is started only at a
/// probe that found the game's process, and at most once: no later probe
/// starts another. So a run in which no probe finds the process writes no
/// session at all.
pub proof fn law_run_starts_once_after_a_find(direct: bool, found: Seq<bool>, i: int)
    requires
        0 <= i < found.len(),
        tracker_write_at(tracker_start_state(direct), found, i) == SessionWrite::Start,
    ensures
        found[i],
        forall|j: int| 0 <= j < found.len() && j != i ==> #[trigger] tracker_write_at(
            tracker_start_state(direct),
            found,
            j,
        ) != SessionWrite::Start,
{
    let s0 = tracker_start_state(direct);
    let prev = tracker_after(s0, found.take(i));
    law_start_needs_a_find(prev, found[i]);
    lemma_run_started(direct, found, i);
    assert forall|j: int| 0 <= j < found.len() && j != i implies #[trigger] tracker_write_at(
        s0,
        found,
        j,
    ) != SessionWrite::Start by {
        if j < i {
            if tracker_write_at(s0, found, j) == SessionWrite::Start {
                assert(exists|jj: int| 0 <= jj < i && #[trigger] tracker_write_at(s0, found, jj)
                    == SessionWrite::Start);
            }
        } else {
            lemma_run_started(direct, found, j);
            lemma_run_started(direct, found, i + 1);
            assert(found.take(i + 1).drop_last() =~= found.take(i));
            assert(found.take(i + 1).last() == found[i]);
            assert(exists|jj: int| 0 <= jj < j && #[trigger] tracker_write_at(s0, found, jj)
                == SessionWrite::Start);
            let st = tracker_after(s0, found.take(j));
            law_start_needs_a_find(st, found[j]);
        }
    }
}

/// A session is finished exactly when two probes in a row miss the game:
/// from tracking, one miss keeps it open and a second miss right after
/// closes it with a `Finish` write; any found process in between resets the
/// count.
pub proof fn law_two_misses_finish(misses: u32)
    requires
        misses < 2,
    ensures
        spec_tracker_next(TrackerState::Tracking { misses: 0 }, false).state
            == (TrackerState::Tracking { misses: 1 }),
        spec_tracker_next(TrackerState::Tracking { misses: 1 }, false).write
            == SessionWrite::Finish,
        spec_tracker_next(TrackerState::Tracking { misses: 1 }, false).state
            == TrackerState::Finished,
        spec_tracker_next(TrackerState::Tracking { misses }, true).state == (TrackerState::Tracking {
            misses: 0,
        }),
        spec_tracker_next(TrackerState::Tracking { misses }, true).write == SessionWrite::Heartbeat,
{
}

/// Detection never runs past its limit: after 45 discovery probes that all
/// miss, or 10 direct confirmations that all miss, the tracker has given
/// up without writing a session.
pub proof fn law_detection_gives_up(found: Seq<bool>, direct: bool)
    requires
        found.len() == (if direct {
            DIRECT_ATTEMPTS
        } else {
            DETECTION_ATTEMPTS
        }),
        forall|i: int| 0 <= i < found.len() ==> !#[trigger] found[i],
    ensures
        tracker_after(
            if direct {
                TrackerState::Confirming { attempt: 0 }
            } else {
                TrackerState::Discovering { attempt: 0 }
            },
            found,
        ) == TrackerState::Abandoned,
{
    let s0 = if direct {
        TrackerState::Confirming { attempt: 0 }
    } else {
        TrackerState::Discovering { attempt: 0 }
    };
    let limit = if direct {
        DIRECT_ATTEMPTS
    } else {
        DETECTION_ATTEMPTS
    };
    lemma_detection_prefix(found, direct, limit - 1);
    assert(found.take(limit as int).drop_last() =~= found.take(limit - 1));
    assert(found.take(limit as int) =~= found);
    assert(found[limit - 1] == false);
}

proof fn lemma_detection_prefix(found: Seq<bool>, direct: bool, k: int)
    requires
        0 <= k < (if direct {
            DIRECT_ATTEMPTS
        } else {
            DETECTION_ATTEMPTS
        }),
        k <= found.len(),
        forall|i: int| 0 <= i < found.len() ==> !#[trigger] found[i],
    ensures
        tracker_after(
            if direct {
                TrackerState::Confirming { attempt: 0 }
            } else {
                TrackerState::Discovering { attempt: 0 }
            },
            found.take(k),
        ) == (if direct {
            TrackerState::Confirming { attempt: k as u32 }
        } else {
            TrackerState::Discovering { attempt: k as u32 }
        }),
    decreases k,
{
    if k > 0 {
        lemma_detection_prefix(found, direct, k - 1);
        assert(found.take(k).drop_last() =~= found.take(k - 1));
        assert(found.take(k).last() == found[k - 1]);
    } else {
        assert(found.take(0) =~= Seq::<bool>::empty());
    }
}

/// The tracker's limits: a directly started process is confirmed in at
/// most 10 probes 250 ms apart, a new process is looked for in at most 45
/// probes 2 s apart, a followed game is probed every 5 s, and a recovered
/// session never counts more than 18 hours.
pub proof fn law_tracker_limits()
    ensures
        DIRECT_ATTEMPTS == 10,
        DIRECT_INTERVAL_MS == 250,
        DETECTION_ATTEMPTS == 45,
        DETECTION_INTERVAL_MS == 2 * 1000,
        HEARTBEAT_INTERVAL_MS == 5 * 1000,
        MAX_RECOVERY_SECONDS == 18 * 60 * 60,
{
}

} // verus!
