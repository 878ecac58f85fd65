use soft_rdma::msn_tracker::AckMsnTracker;
use soft_rdma::psn_tracker::PsnTracker;
use soft_rdma::tracker::LocalAckTracker;
use soft_rdma::tracker::RemoteAckTracker;

#[test]
fn ack_one_advances_base_past_contiguous_run() {
    let mut t = PsnTracker::new(0);
    assert_eq!(t.base_psn(), 0);
    assert_eq!(t.ack_one(0), Some(1));
    assert_eq!(t.base_psn(), 1);
}

#[test]
fn ack_one_replay_is_absorbed() {
    let mut t = PsnTracker::new(0);
    assert_eq!(t.ack_one(3), None);
    assert_eq!(t.ack_one(3), None);
    assert_eq!(t.ack_one(0), Some(1));
    assert_eq!(t.ack_one(1), Some(2));
    assert_eq!(t.ack_one(2), Some(4));
    // Replaying already-processed PSNs leaves the base unchanged.
    assert_eq!(t.ack_one(2), None);
    assert_eq!(t.ack_one(0), None);
    assert_eq!(t.base_psn(), 4);
}

#[test]
fn bitmap_replay_is_absorbed() {
    let mut t = PsnTracker::new(0);
    let bm: u128 = 0b111; // PSNs 0, 1, 2
    assert_eq!(t.ack_bitmap(0, bm), Some(3));
    assert_eq!(t.ack_bitmap(0, bm), None);
    assert_eq!(t.base_psn(), 3);
}

#[test]
fn selective_bits_compact_once_gap_closes() {
    // Bitmap acks for PSNs base+1..base+3, then the base itself: the
    // tracker advances past the whole run.
    let mut t = PsnTracker::new(0);
    let bm: u128 = 0b1110; // bits 1..=3
    assert_eq!(t.ack_bitmap(0, bm), None);
    assert_eq!(t.base_psn(), 0);
    assert_eq!(t.ack_one(0), Some(4));
    assert_eq!(t.base_psn(), 4);
}

#[test]
fn selective_ack_out_of_order_compacts() {
    // Bitmap ack at base 10 with bit 2 set (PSN 12), then PSNs 10 and 11.
    let mut t = PsnTracker::new(10);
    assert_eq!(t.ack_bitmap(10, 1 << 2), None);
    assert_eq!(t.ack_one(10), Some(11));
    assert_eq!(t.ack_one(11), Some(13));
    assert_eq!(t.base_psn(), 13);
}

#[test]
fn ack_before_is_cumulative_and_complete() {
    let mut t = PsnTracker::new(0);
    assert_eq!(t.ack_before(5), Some(5));
    assert!(t.all_acked(0));
    assert!(t.all_acked(4));
    assert!(t.all_acked(5));
    assert!(!t.all_acked(6));
    // Stale cumulative ack is absorbed.
    assert_eq!(t.ack_before(3), None);
    assert_eq!(t.base_psn(), 5);
}

#[test]
fn base_is_monotonic_across_mixed_acks() {
    let mut t = PsnTracker::new(100);
    let mut last = t.base_psn();
    t.ack_one(102);
    assert!(t.base_psn() >= last);
    last = t.base_psn();
    t.ack_bitmap(100, 0b1);
    assert!(t.base_psn() >= last);
    last = t.base_psn();
    t.ack_before(103);
    assert!(t.base_psn() >= last);
    assert_eq!(t.base_psn(), 103);
}

#[test]
fn local_ack_bitmap_merges_implied_range() {
    // The previous report's base was 0; a report at base 4 implies PSNs
    // 0..4 were received even with an empty bitmap.
    let mut t = LocalAckTracker::new(0);
    assert_eq!(t.ack_bitmap(4, 0), Some(4));
    assert_eq!(t.base_psn(), 4);
    // Replaying the same report changes nothing.
    assert_eq!(t.ack_bitmap(4, 0), None);
    assert_eq!(t.base_psn(), 4);
}

#[test]
fn local_nak_bitmap_merges_both_snapshots() {
    let mut t = LocalAckTracker::new(0);
    // Old snapshot at 0 with PSNs 0..2 acked; current snapshot at 4 with
    // PSN 4 acked; the implied range [0, 0) is empty.
    let r = t.nak_bitmap(0, 0b11, 4, 0b1);
    assert_eq!(r, Some(2));
    assert_eq!(t.base_psn(), 2);
}

#[test]
fn remote_stale_nak_skips_implied_range() {
    // msn must equal msn_pre + 1 for the implied cumulative range to be
    // trusted; a stale msn applies only the two explicit bitmaps.
    let mut stale = RemoteAckTracker::new(0);
    assert_eq!(stale.nak_bitmap(7, 10, 0, 10, 0), None);
    assert_eq!(stale.base_psn(), 0);

    let mut fresh = RemoteAckTracker::new(0);
    assert_eq!(fresh.nak_bitmap(1, 10, 0, 10, 0), Some(10));
    assert_eq!(fresh.base_psn(), 10);
}

#[test]
fn remote_ack_before_reports_new_base() {
    let mut t = RemoteAckTracker::new(0);
    assert_eq!(t.ack_before(6), Some(6));
    assert_eq!(t.ack_before(6), None);
    assert_eq!(t.base_psn(), 6);
}

#[test]
fn highest_bitmap_bit_reaches_the_window_edge() {
    let mut t = PsnTracker::new(0);
    // Bit 127 of the bitmap reports PSN 127, the far edge of the flag
    // window; cumulative acknowledgment up to it compacts straight past.
    assert_eq!(t.ack_bitmap(0, 1u128 << 127), None);
    assert_eq!(t.ack_before(127), Some(128));
    assert_eq!(t.base_psn(), 128);
}

#[test]
fn base_wraps_around_the_sequence_space() {
    let mut t = PsnTracker::new(u32::MAX);
    assert_eq!(t.ack_one(u32::MAX), Some(0));
    assert_eq!(t.base_psn(), 0);
    // The wrapped-around PSN is stale now.
    assert_eq!(t.ack_one(u32::MAX), None);
    assert!(t.all_acked(u32::MAX));
}

#[test]
fn msn_tracker_accepts_fresh_and_absorbs_stale() {
    let mut t = AckMsnTracker::new(0);
    assert_eq!(t.ack(0), Some(1));
    assert_eq!(t.ack(0), None);
    assert_eq!(t.ack(5), Some(6));
    assert_eq!(t.ack(3), None);
    assert_eq!(t.base_msn(), 6);
}
