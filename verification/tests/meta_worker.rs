use soft_rdma::meta_worker::AckResponse;
use soft_rdma::meta_worker::CompletionTask;
use soft_rdma::meta_worker::MetaWorker;
use soft_rdma::meta_worker::RecvEventOp;
use soft_rdma::protocol::HeaderReadMeta;
use soft_rdma::protocol::HeaderType;
use soft_rdma::protocol::HeaderWriteMeta;
use soft_rdma::protocol::PacketPos;
use soft_rdma::protocol::WorkReqOpCode;

fn write_meta(pos: PacketPos, psn: u32, header_type: HeaderType) -> HeaderWriteMeta {
    HeaderWriteMeta {
        pos,
        msn: 7,
        psn,
        solicited: false,
        ack_req: false,
        is_retry: false,
        dqpn: 1,
        total_len: 1024,
        raddr: 0x2000,
        rkey: 5,
        imm: 0xdead,
        header_type,
    }
}

#[test]
fn write_header_registers_and_acks() {
    let mut w = MetaWorker::new(4);
    let out = w.handle_header_write(write_meta(PacketPos::Only, 0, HeaderType::Send));
    match out.register {
        Some(CompletionTask::Register { qpn, event }) => {
            assert_eq!(qpn, 1);
            assert_eq!(event.op, RecvEventOp::Recv);
            assert_eq!(event.meta.msn, 7);
            assert_eq!(event.meta.psn, 0);
        },
        other => panic!("expected a registration, got {:?}", other),
    }
    // PSN 0 was the receive base, so the base advanced and an
    // acknowledgment completion is raised.
    assert_eq!(out.ack, Some(CompletionTask::Ack { qpn: 1, base_psn: 1, is_send: false }));
    assert_eq!(out.nak, None);
}

#[test]
fn middle_packet_registers_nothing() {
    let mut w = MetaWorker::new(4);
    let out = w.handle_header_write(write_meta(PacketPos::Middle, 5, HeaderType::Send));
    assert_eq!(out.register, None);
    // PSN 5 is ahead of the base: no acknowledgment completion yet.
    assert_eq!(out.ack, None);
}

#[test]
fn plain_write_registers_nothing_but_still_acks() {
    let mut w = MetaWorker::new(4);
    let out = w.handle_header_write(write_meta(PacketPos::Only, 0, HeaderType::Write));
    assert_eq!(out.register, None);
    assert_eq!(out.ack, Some(CompletionTask::Ack { qpn: 1, base_psn: 1, is_send: false }));
}

#[test]
fn retried_ack_request_raises_nak() {
    let mut w = MetaWorker::new(4);
    let mut meta = write_meta(PacketPos::Last, 9, HeaderType::Write);
    meta.is_retry = true;
    meta.ack_req = true;
    let out = w.handle_header_write(meta);
    // The receive base is still 0: PSN 9 is out of order.
    assert_eq!(
        out.nak,
        Some(AckResponse::Nak { qpn: 1, base_psn: 0, ack_req_packet_psn: 9 }),
    );
}

#[test]
fn connections_are_tracked_independently() {
    let mut w = MetaWorker::new(4);
    assert_eq!(w.max_num_qps(), 4);
    // Acknowledging PSN 0 on connection 1 leaves connection 2's base at 0.
    let out = w.handle_header_write(write_meta(PacketPos::Only, 0, HeaderType::Send));
    assert!(out.ack.is_some());
    let mut other = write_meta(PacketPos::Only, 1, HeaderType::Send);
    other.dqpn = 2;
    // On connection 2, PSN 1 is ahead of the untouched base 0: no ack yet.
    let out = w.handle_header_write(other);
    assert_eq!(out.ack, None);
}

#[test]
fn read_header_builds_solicited_response() {
    let w = MetaWorker::new(1);
    let meta = HeaderReadMeta {
        dqpn: 3,
        raddr: 0x4000,
        laddr: 0x8000,
        total_len: 256,
        rkey: 11,
        lkey: 13,
        ack_req: true,
    };
    let task = w.handle_header_read(meta);
    assert_eq!(task.qpn, 3);
    assert_eq!(task.opcode, WorkReqOpCode::RdmaReadResp);
    // The solicited verbs flag is set exactly when an ack was requested.
    assert_eq!(task.wr.base.send_flags, 4);
    assert_eq!(task.wr.base.addr, 0x4000);
    assert_eq!(task.wr.base.length, 256);
    assert_eq!(task.wr.base.rkey, 11);
    assert_eq!(task.wr.laddr, 0x8000);
    assert_eq!(task.wr.lkey, 13);

    let mut quiet = meta;
    quiet.ack_req = false;
    assert_eq!(w.handle_header_read(quiet).wr.base.send_flags, 0);
}

#[test]
fn imm_value_rides_the_registration() {
    let mut w = MetaWorker::new(4);
    let out = w.handle_header_write(write_meta(PacketPos::Last, 0, HeaderType::WriteWithImm));
    match out.register {
        Some(CompletionTask::Register { event, .. }) => {
            assert_eq!(event.op, RecvEventOp::WriteWithImm { imm: 0xdead });
        },
        other => panic!("expected a registration, got {:?}", other),
    }
}
