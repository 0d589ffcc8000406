use soundboard::selection::{LoopPhase, SelectionLoop};

#[test]
fn poll_interval_uses_the_injected_clock() {
    let mut sl = SelectionLoop::new(3000);
    assert!(!sl.poll_due(0));
    assert!(!sl.poll_due(2999));
    assert!(sl.poll_due(3000));
    sl.begin_poll(3000);
    let sources = vec![5u64];
    sl.finish_poll(&sources);
    assert!(!sl.poll_due(5999));
    assert!(sl.poll_due(6000));
}

#[test]
fn first_poll_selects_the_first_available_source() {
    let mut sl = SelectionLoop::new(3000);
    sl.begin_poll(0);
    let sources = vec![7u64, 9];
    let target = sl.finish_poll(&sources);
    assert_eq!(target, Some(7));
    assert!(matches!(sl.phase, LoopPhase::Applying));
    sl.on_move_result(true);
    assert_eq!(sl.selection.applied, Some(7));
    assert!(matches!(sl.phase, LoopPhase::Idle));
}

#[test]
fn empty_poll_changes_nothing() {
    let mut sl = SelectionLoop::new(3000);
    sl.apply_routing(7);
    sl.begin_poll(0);
    let sources: Vec<u64> = Vec::new();
    let target = sl.finish_poll(&sources);
    assert_eq!(target, None);
    assert_eq!(sl.selection.desired, Some(7));
    assert_eq!(sl.selection.applied, None);
    assert!(matches!(sl.phase, LoopPhase::Idle));
}

#[test]
fn vanished_selection_heals_to_first_and_reapplies() {
    // Apply stream 7; it then disappears from the next poll. The desired
    // selection resets to the first listed stream and one applying cycle
    // routes it.
    let mut sl = SelectionLoop::new(3000);
    sl.begin_poll(0);
    let first = vec![7u64];
    assert_eq!(sl.finish_poll(&first), Some(7));
    sl.on_move_result(true);
    assert_eq!(sl.selection.applied, Some(7));

    sl.begin_poll(3000);
    let next = vec![4u64, 9];
    let target = sl.finish_poll(&next);
    assert_eq!(target, Some(4));
    assert_eq!(sl.selection.desired, Some(4));
    assert_eq!(sl.selection.applied, Some(7));
    sl.on_move_result(true);
    assert_eq!(sl.selection.applied, Some(4));
}

#[test]
fn failed_move_leaves_applied_unchanged_and_retries() {
    let mut sl = SelectionLoop::new(3000);
    sl.begin_poll(0);
    let sources = vec![7u64, 9];
    sl.apply_routing(9);
    // A poll while 9 is desired but not yet applied requests the move.
    assert_eq!(sl.finish_poll(&sources), Some(9));
    sl.on_move_result(false);
    assert_eq!(sl.selection.applied, None);
    assert_eq!(sl.selection.desired, Some(9));
    // The next cycle retries the same move.
    sl.begin_poll(3000);
    assert_eq!(sl.finish_poll(&sources), Some(9));
    sl.on_move_result(true);
    assert_eq!(sl.selection.applied, Some(9));
}

#[test]
fn matching_selection_stays_idle() {
    let mut sl = SelectionLoop::new(3000);
    sl.begin_poll(0);
    let sources = vec![7u64];
    sl.finish_poll(&sources);
    sl.on_move_result(true);
    sl.begin_poll(3000);
    let target = sl.finish_poll(&sources);
    assert_eq!(target, None);
    assert!(matches!(sl.phase, LoopPhase::Idle));
    assert_eq!(sl.selection.applied, Some(7));
}
