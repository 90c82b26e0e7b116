use ludex::sessions::{
    duration_between, recovery_close, recovery_plan, safe_recovery_duration, tracker_next, tracker_start,
    OpenSession, RecoveryAction, SessionWrite, TrackerState,
};

#[test]
fn calculates_session_duration() {
    assert_eq!(duration_between("2026-08-28T10:00:00+00:00", "2026-08-28T11:30:05+00:00"), 5405);
}

#[test]
fn rejects_negative_duration() {
    assert_eq!(duration_between("2026-08-28T12:00:00+00:00", "2026-08-28T11:00:00+00:00"), 0);
}

#[test]
fn incomplete_session_uses_last_heartbeat_and_caps_corruption() {
    assert_eq!(safe_recovery_duration("2026-08-01T00:00:00+00:00", Some("2026-08-28T00:00:00+00:00")), 18 * 60 * 60);
    assert_eq!(safe_recovery_duration("2026-08-28T10:00:00+00:00", None), 0);
}

#[test]
fn durations_respect_offsets_and_fractions() {
    assert_eq!(duration_between("2026-08-28T10:00:00+02:00", "2026-08-28T09:00:00Z"), 3600);
    assert_eq!(duration_between("2026-08-28T10:00:00.900Z", "2026-08-28T10:00:02.100Z"), 1);
    assert_eq!(duration_between("not a date", "2026-08-28T10:00:00Z"), 0);
}

#[test]
fn recovered_sessions_end_at_the_last_heartbeat() {
    let (end, d) = recovery_close("2026-08-28T10:00:00+00:00", Some("2026-08-28T10:20:00+00:00"));
    assert_eq!(end, "2026-08-28T10:20:00+00:00");
    assert_eq!(d, 1200);
    let (end, d) = recovery_close("2026-08-28T10:00:00+00:00", None);
    assert_eq!(end, "2026-08-28T10:00:00+00:00");
    assert_eq!(d, 0);
}

#[test]
fn tracker_finishes_after_two_misses_in_a_row() {
    let s = tracker_start(false);
    let step = tracker_next(s, true);
    assert_eq!(step.write, SessionWrite::Start);
    let step = tracker_next(step.state, false);
    assert_eq!(step.state, TrackerState::Tracking { misses: 1 });
    let step = tracker_next(step.state, true);
    assert_eq!(step.write, SessionWrite::Heartbeat);
    let step = tracker_next(step.state, false);
    let step = tracker_next(step.state, false);
    assert_eq!(step.write, SessionWrite::Finish);
    assert_eq!(step.state, TrackerState::Finished);
}

#[test]
fn tracker_gives_up_after_ten_direct_probes() {
    let mut s = tracker_start(true);
    for _ in 0..9 {
        s = tracker_next(s, false).state;
        assert!(matches!(s, TrackerState::Confirming { .. }));
    }
    let step = tracker_next(s, false);
    assert_eq!(step.state, TrackerState::Abandoned);
    assert_eq!(step.wait_ms, 250);
}

#[test]
fn recovery_follows_running_processes_and_closes_the_rest() {
    let session = |id: &str, pid: Option<i64>, last: Option<&str>| OpenSession {
        id: id.to_string(),
        started_at: "2026-08-28T10:00:00+00:00".to_string(),
        last_seen_at: last.map(str::to_string),
        process_id: pid,
        process_path: Some("C:\\Games\\g.exe".to_string()),
    };
    let sessions = vec![
        session("a", Some(42), Some("2026-08-28T11:00:00+00:00")),
        session("b", Some(43), Some("2026-08-28T11:00:00+00:00")),
        session("c", None, None),
    ];
    let plan = recovery_plan(&sessions, &vec![true, false, true]);
    assert!(matches!(&plan[0], RecoveryAction::Follow { pid: 42, path } if path == "C:\\Games\\g.exe"));
    assert!(matches!(&plan[1], RecoveryAction::Close { ended_at, duration: 3600 } if ended_at == "2026-08-28T11:00:00+00:00"));
    assert!(matches!(&plan[2], RecoveryAction::Close { ended_at, duration: 0 } if ended_at == "2026-08-28T10:00:00+00:00"));
}

#[test]
fn a_run_starts_one_session_only_after_a_find() {
    let probes = [false, false, true, true, false, true, false, false];
    let mut s = tracker_start(false);
    let mut starts = Vec::new();
    for (i, found) in probes.iter().enumerate() {
        let step = tracker_next(s, *found);
        if step.write == SessionWrite::Start {
            starts.push(i);
        }
        s = step.state;
    }
    assert_eq!(starts, vec![2]);
    assert_eq!(s, TrackerState::Finished);
    let mut s = tracker_start(true);
    for _ in 0..10 {
        let step = tracker_next(s, false);
        assert_ne!(step.write, SessionWrite::Start);
        s = step.state;
    }
    assert_eq!(s, TrackerState::Abandoned);
}
