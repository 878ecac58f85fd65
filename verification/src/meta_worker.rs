//! Decision core of the inbound-header worker.
//!
//! A header-processing worker feeds header-derived acknowledgment facts
//! into the per-connection receive trackers and decides which events to
//! raise: completion registrations for message-ending packets, an
//! acknowledgment completion when the receive base advanced, and a
//! negative acknowledgment when a retried packet demanding one arrives.
//! Delivering those events to their dispatchers is the caller's business;
//! this core only computes them.

use vstd::prelude::*;

use crate::constants::SEND_FLAG_SOLICITED;
use crate::protocol::HeaderReadMeta;
use crate::protocol::HeaderType;
use crate::protocol::HeaderWriteMeta;
use crate::protocol::PacketPos;
use crate::protocol::SendWrBase;
use crate::protocol::SendWrRdma;
use crate::protocol::WorkReqOpCode;
use crate::psn_tracker::adv_opt;
use crate::psn_tracker::m_ack_one;
use crate::tracker::LocalAckTracker;

verus! {

/// Which message and packet an event concerns.
#[derive(Clone, Copy, Debug, PartialEq, Eq, Structural)]
pub struct MessageMeta {
    pub msn: u16,
    pub psn: u32,
}

/// What a received message asks the completion layer to do.
#[derive(Clone, Copy, Debug, PartialEq, Eq, Structural)]
pub enum RecvEventOp {
    WriteWithImm { imm: u32 },
    Recv,
    ReadResp,
}

/// A receive-side completion event.
#[derive(Clone, Copy, Debug, PartialEq, Eq, Structural)]
pub struct RecvEvent {
    pub op: RecvEventOp,
    pub meta: MessageMeta,
}

/// A task for the completion dispatcher.
#[derive(Clone, Copy, Debug, PartialEq, Eq, Structural)]
pub enum CompletionTask {
    Register { qpn: u32, event: RecvEvent },
    Ack { qpn: u32, base_psn: u32, is_send: bool },
}

/// A response for the acknowledgment transmitter.
#[derive(Clone, Copy, Debug, PartialEq, Eq, Structural)]
pub enum AckResponse {
    Nak { qpn: u32, base_psn: u32, ack_req_packet_psn: u32 },
}

/// Everything one write-path header asks the caller to dispatch, in
/// dispatch order: registration, acknowledgment completion, negative
/// acknowledgment.
#[derive(Clone, Copy, Debug, PartialEq, Eq, Structural)]
pub struct HeaderWriteOutput {
    pub register: Option<CompletionTask>,
    pub ack: Option<CompletionTask>,
    pub nak: Option<AckResponse>,
}

/// A write task handed to the transmission worker in answer to a read
/// request.
#[derive(Clone, Copy, Debug, PartialEq, Eq, Structural)]
pub struct RdmaWriteTask {
    pub qpn: u32,
    pub wr: SendWrRdma,
    pub opcode: WorkReqOpCode,
}

/// The packet ends its message.
pub open spec fn is_message_end(pos: PacketPos) -> bool {
    pos is Last || pos is Only
}

/// The completion registration a message-ending packet produces.
pub open spec fn spec_register_task(meta: HeaderWriteMeta) -> Option<CompletionTask> {
    if is_message_end(meta.pos) && !(meta.header_type is Write) {
        let op = match meta.header_type {
            HeaderType::WriteWithImm => RecvEventOp::WriteWithImm { imm: meta.imm },
            HeaderType::Send => RecvEventOp::Recv,
            _ => RecvEventOp::ReadResp,
        };
        Some(
            CompletionTask::Register {
                qpn: meta.dqpn,
                event: RecvEvent { op, meta: MessageMeta { msn: meta.msn, psn: meta.psn } },
            },
        )
    } else {
        None
    }
}

/// The inbound-header worker: one receive-path acknowledgment tracker per
/// connection, indexed by destination queue-pair number.
pub struct MetaWorker {
    recv_table: Vec<LocalAckTracker>,
}

impl MetaWorker {
    /// The per-connection receive trackers.
    pub closed spec fn table(self) -> Seq<LocalAckTracker> {
        self.recv_table@
    }

    pub open spec fn wf(self) -> bool {
        forall|j: int| 0 <= j < self.table().len() ==> self.table()[j].wf()
    }

    /// A worker with one fresh tracker per possible connection: each
    /// starts with its window based at zero, nothing selectively
    /// acknowledged, and no report seen.
    pub fn new(max_num_qps: u32) -> (r: Self)
        ensures
            r.wf(),
            r.table().len() == max_num_qps,
            forall|i: int|
                0 <= i < max_num_qps ==> {
                    &&& r.table()[i].model().base == 0
                    &&& r.table()[i].model().bits == Seq::new(
                        crate::constants::BITMAP_WIDTH as nat,
                        |b: int| false,
                    )
                    &&& r.table()[i].spec_psn_pre() == 0
                },
    {
        let size = max_num_qps as usize;
        let mut recv_table: Vec<LocalAckTracker> = Vec::new();
        let mut j: usize = 0;
        while j < size
            invariant
                j <= size,
                recv_table@.len() == j,
                forall|i: int|
                    0 <= i < j ==> {
                        &&& recv_table@[i].wf()
                        &&& recv_table@[i].model().base == 0
                        &&& recv_table@[i].model().bits == Seq::new(
                            crate::constants::BITMAP_WIDTH as nat,
                            |b: int| false,
                        )
                        &&& recv_table@[i].spec_psn_pre() == 0
                    },
            decreases size - j,
        {
            recv_table.push(LocalAckTracker::new(0));
            j += 1;
        }
        MetaWorker { recv_table }
    }

    /// How many connections the worker tracks.
    pub fn max_num_qps(&self) -> (r: usize)
        ensures
            r == self.table().len(),
    {
        self.recv_table.len()
    }

    /// Digest one write-path header: acknowledge its PSN on the owning
    /// connection's receive tracker and decide what to dispatch.  The
    /// caller has already validated that the destination queue pair
    /// exists; a missing one is a programming-error fault, not a state
    /// this core admits.
    pub fn handle_header_write(&mut self, meta: HeaderWriteMeta) -> (out: HeaderWriteOutput)
        requires
            old(self).wf(),
            meta.dqpn < old(self).table().len(),
        ensures
            final(self).wf(),
            final(self).table().len() == old(self).table().len(),
            ({
                let i = meta.dqpn as int;
                let m0 = old(self).table()[i].model();
                let m1 = m_ack_one(m0, meta.psn);
                &&& final(self).table()[i].model() == m1
                &&& final(self).table()[i].spec_psn_pre() == old(self).table()[i].spec_psn_pre()
                &&& forall|j: int|
                    0 <= j < old(self).table().len() && j != i ==> final(self).table()[j] == old(
                        self,
                    ).table()[j]
                &&& out.register == spec_register_task(meta)
                &&& out.ack == (match adv_opt(m0, m1) {
                    Some(base_psn) => Some(
                        CompletionTask::Ack { qpn: meta.dqpn, base_psn, is_send: false },
                    ),
                    None => None::<CompletionTask>,
                })
                &&& out.nak == (if is_message_end(meta.pos) && meta.is_retry && meta.ack_req {
                    Some(
                        AckResponse::Nak {
                            qpn: meta.dqpn,
                            base_psn: m1.base,
                            ack_req_packet_psn: meta.psn,
                        },
                    )
                } else {
                    None::<AckResponse>
                })
            }),
    {
        let is_end = match meta.pos {
            PacketPos::Last | PacketPos::Only => true,
            _ => false,
        };
        let register = if is_end {
            match meta.header_type {
                HeaderType::Write => None,
                HeaderType::WriteWithImm => Some(
                    CompletionTask::Register {
                        qpn: meta.dqpn,
                        event: RecvEvent {
                            op: RecvEventOp::WriteWithImm { imm: meta.imm },
                            meta: MessageMeta { msn: meta.msn, psn: meta.psn },
                        },
                    },
                ),
                HeaderType::Send => Some(
                    CompletionTask::Register {
                        qpn: meta.dqpn,
                        event: RecvEvent {
                            op: RecvEventOp::Recv,
                            meta: MessageMeta { msn: meta.msn, psn: meta.psn },
                        },
                    },
                ),
                HeaderType::ReadResp => Some(
                    CompletionTask::Register {
                        qpn: meta.dqpn,
                        event: RecvEvent {
                            op: RecvEventOp::ReadResp,
                            meta: MessageMeta { msn: meta.msn, psn: meta.psn },
                        },
                    },
                ),
            }
        } else {
            None
        };
        let tracker = &mut self.recv_table[meta.dqpn as usize];
        let acked = tracker.ack_one(meta.psn);
        let ack = match acked {
            Some(base_psn) => Some(
                CompletionTask::Ack { qpn: meta.dqpn, base_psn, is_send: false },
            ),
            None => None,
        };
        let nak = if is_end && meta.is_retry && meta.ack_req {
            Some(
                AckResponse::Nak {
                    qpn: meta.dqpn,
                    base_psn: tracker.base_psn(),
                    ack_req_packet_psn: meta.psn,
                },
            )
        } else {
            None
        };
        HeaderWriteOutput { register, ack, nak }
    }

    /// Answer a read-request header: build the write task that sends the
    /// requested data back, marked solicited when an acknowledgment was
    /// asked for.
    pub fn handle_header_read(&self, meta: HeaderReadMeta) -> (r: RdmaWriteTask)
        ensures
            r.qpn == meta.dqpn,
            r.opcode == WorkReqOpCode::RdmaReadResp,
            r.wr.base == (SendWrBase {
                wr_id: 0,
                send_flags: if meta.ack_req {
                    SEND_FLAG_SOLICITED
                } else {
                    0
                },
                addr: meta.raddr,
                length: meta.total_len,
                rkey: meta.rkey,
                imm_data: 0,
            }),
            r.wr.laddr == meta.laddr,
            r.wr.lkey == meta.lkey,
            r.wr.opcode == WorkReqOpCode::RdmaReadResp,
    {
        let flags = if meta.ack_req {
            SEND_FLAG_SOLICITED
        } else {
            0
        };
        let base = SendWrBase::new(0, flags, meta.raddr, meta.total_len, meta.rkey, 0);
        let send_wr = SendWrRdma::new_from_base(base, meta.laddr, meta.lkey, WorkReqOpCode::RdmaReadResp);
        RdmaWriteTask { qpn: meta.dqpn, wr: send_wr, opcode: WorkReqOpCode::RdmaReadResp }
    }
}

} // verus!
