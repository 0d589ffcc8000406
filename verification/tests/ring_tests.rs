use soundboard::ring::{RingBridge, BRIDGE_SAMPLE_CAPACITY};

#[test]
fn overflow_drops_the_newest_sample() {
    // Capacity 4, five pushes and no pop: exactly 4 samples retained, the
    // fifth (newest) dropped, nothing blocks or panics.
    let mut b = RingBridge::new(4);
    assert!(b.push_sample(10));
    assert!(b.push_sample(11));
    assert!(b.push_sample(12));
    assert!(b.push_sample(13));
    assert!(!b.push_sample(14));
    assert_eq!(b.occupied(), 4);
    assert_eq!(b.pop_sample(), 10);
    assert_eq!(b.pop_sample(), 11);
    assert_eq!(b.pop_sample(), 12);
    assert_eq!(b.pop_sample(), 13);
    assert_eq!(b.occupied(), 0);
}

#[test]
fn empty_bridge_renders_silence() {
    let mut b = RingBridge::new(8);
    assert_eq!(b.pop_sample(), 0);
    b.push_sample(7);
    assert_eq!(b.pop_sample(), 7);
    assert_eq!(b.pop_sample(), 0);
}

#[test]
fn frames_are_duplicated_across_both_channels() {
    let mut b = RingBridge::new(8);
    b.push_frame(3);
    b.push_frame(4);
    assert_eq!(b.occupied(), 4);
    assert_eq!(b.pop_sample(), 3);
    assert_eq!(b.pop_sample(), 3);
    assert_eq!(b.pop_sample(), 4);
    assert_eq!(b.pop_sample(), 4);
}

#[test]
fn frame_push_into_one_free_slot_keeps_one_channel() {
    let mut b = RingBridge::new(3);
    b.push_frame(1);
    b.push_frame(2);
    assert_eq!(b.occupied(), 3);
    assert_eq!(b.pop_sample(), 1);
    assert_eq!(b.pop_sample(), 1);
    assert_eq!(b.pop_sample(), 2);
    assert_eq!(b.occupied(), 0);
}

#[test]
fn capture_buffer_push_fills_and_drops() {
    let mut b = RingBridge::new(5);
    b.push_frames(&vec![1, 2, 3]);
    // Frames 1 and 2 fit in full; of frame 3 only one channel fits.
    assert_eq!(b.occupied(), 5);
    let out = b.fill_output(5);
    assert_eq!(out, vec![1, 1, 2, 2, 3]);
}

#[test]
fn output_fill_pads_with_silence() {
    let mut b = RingBridge::new(8);
    b.push_sample(5);
    b.push_sample(6);
    b.push_sample(7);
    let out = b.fill_output(5);
    assert_eq!(out, vec![5, 6, 7, 0, 0]);
    assert_eq!(b.occupied(), 0);
}

#[test]
fn default_capacity_holds_a_second_of_stereo() {
    let b = RingBridge::with_default_capacity();
    assert_eq!(b.bound(), BRIDGE_SAMPLE_CAPACITY);
    assert_eq!(BRIDGE_SAMPLE_CAPACITY, 48_000 * 2);
}
