use soundboard::audio_core::AudioCore;
use soundboard::graph::{linux_setup_plan, GraphPhase};
use soundboard::sessions::SessionTracker;

#[test]
fn reload_clears_sessions_before_the_graph() {
    let mut core = AudioCore::new(3000);
    core.manager.begin_create(linux_setup_plan());
    core.manager.on_command_ok(Some(700));
    core.manager.on_command_ok(Some(701));
    core.tracker.play("a.wav".to_string(), 10_000, 31, 0);
    core.tracker.play("b.wav".to_string(), 10_000, 32, 0);
    let (handles, unloads) = core.prepare_reload();
    assert_eq!(handles, vec![31, 32]);
    assert_eq!(unloads.len(), 2);
    assert_eq!(core.tracker.active_count(), 0);
    assert!(matches!(core.manager.phase, GraphPhase::Absent));
    assert_eq!(core.manager.registered_count(), 0);
}

#[test]
fn reap_tolerance_boundary() {
    // A 3.00 s file: the session survives while the elapsed position is
    // short of duration minus the 10 ms tolerance, and is reaped from the
    // boundary on.
    let mut t = SessionTracker::new();
    t.play("clip.ogg".to_string(), 3000, 1, 0);
    t.tick_and_reap(2989);
    assert_eq!(t.active_count(), 1);
    t.tick_and_reap(2990);
    assert_eq!(t.active_count(), 0);

    let mut t = SessionTracker::new();
    t.play("clip.ogg".to_string(), 3000, 1, 0);
    t.tick_and_reap(3001);
    assert_eq!(t.active_count(), 0);
}

#[test]
fn concurrent_sessions_of_one_path_live_independently() {
    // Two plays of the same file started 1 s apart: each reaches its end on
    // its own elapsed time.
    let mut t = SessionTracker::new();
    let first = t.play("same.wav".to_string(), 2000, 1, 0);
    let second = t.play("same.wav".to_string(), 2000, 2, 1000);
    assert_ne!(first, second);
    assert_eq!(t.active_count(), 2);
    t.tick_and_reap(2500);
    let view = t.snapshot(2500);
    assert_eq!(view.len(), 1);
    assert_eq!(view[0].session_id, second);
    t.tick_and_reap(3500);
    assert_eq!(t.active_count(), 0);
}

#[test]
fn reap_keeps_exactly_the_unfinished_unstopped_sessions() {
    let mut t = SessionTracker::new();
    let a = t.play("a.wav".to_string(), 10_000, 1, 0);
    let _b = t.play("b.wav".to_string(), 1000, 2, 0);
    let c = t.play("c.wav".to_string(), 10_000, 3, 0);
    let _d = t.play("d.wav".to_string(), 10_000, 4, 0);
    t.stop(c, 100);
    // At 2000 ms: b has ended, c was stopped; a and d remain.
    t.tick_and_reap(2000);
    let view = t.snapshot(2000);
    assert_eq!(view.len(), 2);
    assert_eq!(view[0].session_id, a);
    assert_eq!(view[1].paused, false);
}

#[test]
fn stopped_session_survives_until_the_next_reap() {
    let mut t = SessionTracker::new();
    let sid = t.play("a.wav".to_string(), 60_000, 1, 0);
    assert!(t.stop(sid, 10));
    assert_eq!(t.active_count(), 1);
    t.tick_and_reap(20);
    assert_eq!(t.active_count(), 0);
    assert!(!t.stop(sid, 30));
}

#[test]
fn pause_banks_elapsed_time() {
    let mut t = SessionTracker::new();
    let sid = t.play("a.wav".to_string(), 3000, 1, 0);
    assert!(t.pause(sid, 1000));
    // Paused at 1000 ms: the position no longer advances.
    t.tick_and_reap(50_000);
    assert_eq!(t.active_count(), 1);
    let view = t.snapshot(50_000);
    assert_eq!(view[0].elapsed_ms, 1000);
    assert!(view[0].paused);
    // Resumed: 1990 ms later the elapsed position reaches 2990 = 3000 - 10.
    assert!(t.resume(sid, 50_000));
    t.tick_and_reap(51_989);
    assert_eq!(t.active_count(), 1);
    t.tick_and_reap(51_990);
    assert_eq!(t.active_count(), 0);
}

#[test]
fn pause_and_resume_are_idempotent() {
    let mut t = SessionTracker::new();
    let sid = t.play("a.wav".to_string(), 10_000, 1, 0);
    assert!(t.resume(sid, 100));
    assert!(t.pause(sid, 1000));
    assert!(t.pause(sid, 2000));
    let view = t.snapshot(2000);
    assert_eq!(view[0].elapsed_ms, 1000);
    assert!(!t.pause(99, 2000));
    assert!(!t.resume(99, 2000));
}

#[test]
fn stop_all_clears_and_hands_back_handles() {
    let mut t = SessionTracker::new();
    t.play("a.wav".to_string(), 10_000, 41, 0);
    t.play("b.wav".to_string(), 10_000, 42, 0);
    let handles = t.stop_all();
    assert_eq!(handles, vec![41, 42]);
    assert_eq!(t.active_count(), 0);
}

#[test]
fn snapshot_reports_paths_and_positions() {
    let mut t = SessionTracker::new();
    t.play("x.mp3".to_string(), 5000, 1, 100);
    let view = t.snapshot(600);
    assert_eq!(view.len(), 1);
    assert_eq!(view[0].source_path, "x.mp3");
    assert_eq!(view[0].elapsed_ms, 500);
    assert_eq!(view[0].duration_ms, 5000);
    assert!(!view[0].paused);
}
