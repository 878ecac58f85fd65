use soft_rdma::protocol::QpParams;
use soft_rdma::protocol::SendWrBase;
use soft_rdma::protocol::SendWrRdma;
use soft_rdma::protocol::WorkReqOpCode;
use soft_rdma::send_queue::IbvSendQueue;
use soft_rdma::send_queue::SendQueueElem;

fn elem(psn: u32) -> SendQueueElem {
    let base = SendWrBase::new(psn as u64, 0, 0x1000, 64, 3, 0);
    let wr = SendWrRdma::new_from_base(base, 0x2000, 4, WorkReqOpCode::RdmaWrite);
    let qp_param = QpParams {
        msn: psn as u16,
        qp_type: 2,
        qpn: 1,
        mac_addr: 0,
        dqpn: 2,
        dqp_ip: 0,
        pmtu: 256,
    };
    SendQueueElem::new(wr, psn, qp_param)
}

#[test]
fn range_returns_covering_records_in_order() {
    // Outstanding PSNs 5..10; the query [6, 9) returns the records for
    // PSNs 6, 7 and 8, ascending.
    let mut q = IbvSendQueue::new();
    for psn in 5..10 {
        q.push(elem(psn));
    }
    let r = q.range(6, 9);
    let psns: Vec<u32> = r.iter().map(|e| e.psn()).collect();
    assert_eq!(psns, vec![6, 7, 8]);
}

#[test]
fn range_includes_record_covering_low_end() {
    // Records span several PSNs each; the record starting at 4 covers
    // PSN 6, so a query from 6 must include it.
    let mut q = IbvSendQueue::new();
    q.push(elem(0));
    q.push(elem(4));
    q.push(elem(8));
    let r = q.range(6, 9);
    let psns: Vec<u32> = r.iter().map(|e| e.psn()).collect();
    assert_eq!(psns, vec![4, 8]);
}

#[test]
fn pop_until_drops_acknowledged_prefix() {
    let mut q = IbvSendQueue::new();
    for psn in 0..6 {
        q.push(elem(psn));
    }
    q.pop_until(3);
    let left = q.range(0, 100);
    let psns: Vec<u32> = left.iter().map(|e| e.psn()).collect();
    assert_eq!(psns, vec![3, 4, 5]);
}

#[test]
fn elem_accessors_return_construction_values() {
    let e = elem(42);
    assert_eq!(e.psn(), 42);
    assert_eq!(e.opcode(), WorkReqOpCode::RdmaWrite);
    assert_eq!(e.wr().base.wr_id, 42);
    assert_eq!(e.wr().raddr(), 0x1000);
    assert_eq!(e.wr().length(), 64);
    assert_eq!(e.qp_param().pmtu, 256);
}
