use soft_rdma::protocol::SendWrBase;
use soft_rdma::protocol::SendWrRdma;
use soft_rdma::protocol::WorkReqOpCode;
use soft_rdma::qp::DeviceQp;
use soft_rdma::qp::QpManager;
use soft_rdma::qp::State;

fn write_wr(addr: u64, length: u32) -> SendWrRdma {
    let base = SendWrBase::new(1, 0, addr, length, 7, 0);
    SendWrRdma::new_from_base(base, 0x1000, 9, WorkReqOpCode::RdmaWrite)
}

fn rc_qp(pmtu: u32) -> DeviceQp {
    DeviceQp::new_rc(3, pmtu, 4, 0x0a00_0001, 0x02_00_00_00_00_01, Some(1), Some(2))
}

#[test]
fn basic_allocate_then_ack() {
    // PMTU 256: a 512-byte aligned request takes 2 PSNs, MSN 0, base PSN 0;
    // acknowledging PSNs 1 then 0 advances the base to 2.
    let mut qp = rc_qp(256);
    let (params, base_psn) = qp.next_wr(&write_wr(0, 512)).unwrap();
    assert_eq!(params.msn, 0);
    assert_eq!(base_psn, 0);
    assert_eq!(params.pmtu, 256);
    assert_eq!(params.qpn, 3);
    assert_eq!(params.dqpn, 4);
    qp.ack_one(1);
    assert!(!qp.all_acked(1));
    qp.ack_one(0);
    assert!(qp.all_acked(1));
    assert!(qp.all_acked(2));
    assert!(!qp.all_acked(3));
}

#[test]
fn num_psn_counts_boundary_crossings() {
    let qp = rc_qp(256);
    // Aligned: plain ceiling division.
    assert_eq!(qp.num_psn(0, 512), Some(2));
    assert_eq!(qp.num_psn(0, 513), Some(3));
    assert_eq!(qp.num_psn(0, 0), Some(0));
    assert_eq!(qp.num_psn(0, 1), Some(1));
    // Misaligned start: the shorter first segment, up to the next MTU
    // boundary, counts as a packet of its own.
    assert_eq!(qp.num_psn(100, 512), Some(3)); // 156 + 256 + 100
    assert_eq!(qp.num_psn(100, 600), Some(3)); // 156 + 256 + 188
    assert_eq!(qp.num_psn(100, 100), Some(1)); // fits before the boundary
}

#[test]
fn window_exhaustion_refuses_allocation() {
    // Window of 64 PSNs: a request needing 65 is refused outright, 64 is
    // granted, and then nothing more fits until acknowledgment.
    let mut qp = rc_qp(1);
    assert_eq!(qp.next_wr(&write_wr(0, 65)), None);
    let (params, base_psn) = qp.next_wr(&write_wr(0, 64)).unwrap();
    assert_eq!((params.msn, base_psn), (0, 0));
    assert_eq!(qp.next_wr(&write_wr(0, 1)), None);
    // Acknowledging everything reopens the window.
    assert_eq!(qp.ack_range(64, 0, 0), Some(64));
    let (params, base_psn) = qp.next_wr(&write_wr(0, 1)).unwrap();
    assert_eq!((params.msn, base_psn), (1, 64));
}

#[test]
fn msn_wraparound_collision_refuses_allocation() {
    let mut state = State::new();
    // Zero-length allocations consume MSNs without touching the window;
    // after the full 16-bit space the next MSN would collide with the
    // still-unacknowledged base MSN.
    for i in 0..u16::MAX {
        let (msn, _psn) = state.next(0).unwrap();
        assert_eq!(msn, i);
    }
    assert_eq!(state.next(0), None);
}

#[test]
fn ack_range_gates_cumulative_on_fresh_msn() {
    let mut qp = rc_qp(256);
    let _ = qp.next_wr(&write_wr(0, 4096)).unwrap(); // 16 PSNs outstanding
    // A fresh acknowledgment MSN lets the report cumulatively ack PSNs
    // below its base.
    assert_eq!(qp.ack_range(8, 0, 0), Some(8));
    assert!(qp.all_acked(7));
    // A stale MSN applies only the bitmap: PSNs 10 and 11 are flagged but
    // the base cannot move to the report's base.
    assert_eq!(qp.ack_range(10, 0b11, 0), None);
    assert!(!qp.all_acked(9));
    // A later fresh report compacts everything through PSN 12.
    assert_eq!(qp.ack_range(10, 0, 1), Some(12));
    assert!(qp.all_acked(11));
}

#[test]
fn registry_exhaustion_and_reuse() {
    // A registry for two connections refuses the third; destroying one
    // frees exactly one identifier for reuse.
    let mut mgr = QpManager::new(2);
    let a = mgr.create_qp(rc_qp(256)).unwrap();
    let b = mgr.create_qp(rc_qp(256)).unwrap();
    assert_eq!(a, 0);
    assert_eq!(b, 1);
    assert_eq!(mgr.create_qp(rc_qp(256)), None);
    assert!(mgr.destroy_qp(0).is_some());
    assert_eq!(mgr.create_qp(rc_qp(512)).unwrap(), 0);
    assert_eq!(mgr.create_qp(rc_qp(512)), None);
}

#[test]
fn registry_lookup_and_bounds() {
    let mut mgr = QpManager::new(2);
    let qpn = mgr.create_qp(rc_qp(256)).unwrap();
    assert_eq!(mgr.get_qp(qpn).unwrap().qpn(), 3);
    assert!(mgr.get_qp(5).is_none());
    assert!(mgr.destroy_qp(5).is_none());
    let qp = mgr.get_qp_mut(qpn).unwrap();
    qp.ack_one(0);
    assert!(mgr.get_qp(qpn).unwrap().all_acked(0));
    assert!(mgr.destroy_qp(qpn).is_some());
    assert!(mgr.get_qp(qpn).is_none());
    assert!(mgr.destroy_qp(qpn).is_none());
}

#[test]
fn device_qp_accessors_and_message_tracker() {
    let mut qp = rc_qp(256);
    assert_eq!(qp.qpn(), 3);
    assert_eq!(qp.send_cq_handle(), Some(1));
    assert_eq!(qp.recv_cq_handle(), Some(2));
    let tracker = qp.message_tracker();
    tracker.register(0, 0, 2);
    tracker.register(1, 2, 2);
    assert_eq!(tracker.len(), 2);
    // Once the base passes the first span, exactly that message completes.
    let done = tracker.complete_before(2);
    assert_eq!(done.len(), 1);
    assert_eq!(done[0].msn, 0);
    assert_eq!(qp.message_tracker().len(), 1);
}
