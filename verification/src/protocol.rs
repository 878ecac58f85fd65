//! Plain data carried between the sequencing core and its collaborators:
//! work-request descriptions, per-connection parameters, and the
//! header-derived acknowledgment facts that drive the trackers.

use vstd::prelude::*;

verus! {

/// Operation requested by a work request.
#[derive(Clone, Copy, Debug, PartialEq, Eq, Structural)]
pub enum WorkReqOpCode {
    RdmaWrite,
    RdmaWriteWithImm,
    Send,
    SendWithImm,
    RdmaRead,
    RdmaReadResp,
}

/// Fields common to every send work request.
#[derive(Clone, Copy, Debug, PartialEq, Eq, Structural)]
pub struct SendWrBase {
    pub wr_id: u64,
    pub send_flags: u32,
    pub addr: u64,
    pub length: u32,
    pub rkey: u32,
    pub imm_data: u32,
}

impl SendWrBase {
    pub fn new(wr_id: u64, send_flags: u32, addr: u64, length: u32, rkey: u32, imm_data: u32) -> (r:
        Self)
        ensures
            r == (SendWrBase { wr_id, send_flags, addr, length, rkey, imm_data }),
    {
        SendWrBase { wr_id, send_flags, addr, length, rkey, imm_data }
    }
}

/// An RDMA send work request: the common fields plus the local buffer.
#[derive(Clone, Copy, Debug, PartialEq, Eq, Structural)]
pub struct SendWrRdma {
    pub base: SendWrBase,
    pub laddr: u64,
    pub lkey: u32,
    pub opcode: WorkReqOpCode,
}

impl SendWrRdma {
    pub fn new_from_base(base: SendWrBase, laddr: u64, lkey: u32, opcode: WorkReqOpCode) -> (r:
        Self)
        ensures
            r == (SendWrRdma { base, laddr, lkey, opcode }),
    {
        SendWrRdma { base, laddr, lkey, opcode }
    }

    /// Remote address the request starts at.
    pub fn raddr(&self) -> (r: u64)
        ensures
            r == self.base.addr,
    {
        self.base.addr
    }

    /// Byte length of the request.
    pub fn length(&self) -> (r: u32)
        ensures
            r == self.base.length,
    {
        self.base.length
    }

    /// Operation requested.
    pub fn opcode(&self) -> (r: WorkReqOpCode)
        ensures
            r == self.opcode,
    {
        self.opcode
    }
}

/// Connection parameters stamped onto every chunk built for a work
/// request.
#[derive(Clone, Copy, Debug, PartialEq, Eq, Structural)]
pub struct QpParams {
    pub msn: u16,
    pub qp_type: u8,
    pub qpn: u32,
    pub mac_addr: u64,
    pub dqpn: u32,
    pub dqp_ip: u32,
    pub pmtu: u32,
}

/// Position of one packet within its message.
#[derive(Clone, Copy, Debug, PartialEq, Eq, Structural)]
pub enum PacketPos {
    First,
    Middle,
    Last,
    Only,
}

/// Kind of a data-bearing inbound header.
#[derive(Clone, Copy, Debug, PartialEq, Eq, Structural)]
pub enum HeaderType {
    Write,
    WriteWithImm,
    Send,
    ReadResp,
}

/// Acknowledgment facts derived from one inbound write-path header.
#[derive(Clone, Copy, Debug, PartialEq, Eq, Structural)]
pub struct HeaderWriteMeta {
    pub pos: PacketPos,
    pub msn: u16,
    pub psn: u32,
    pub solicited: bool,
    pub ack_req: bool,
    pub is_retry: bool,
    pub dqpn: u32,
    pub total_len: u32,
    pub raddr: u64,
    pub rkey: u32,
    pub imm: u32,
    pub header_type: HeaderType,
}

/// Facts derived from one inbound read-request header.
#[derive(Clone, Copy, Debug, PartialEq, Eq, Structural)]
pub struct HeaderReadMeta {
    pub dqpn: u32,
    pub raddr: u64,
    pub laddr: u64,
    pub total_len: u32,
    pub rkey: u32,
    pub lkey: u32,
    pub ack_req: bool,
}

} // verus!
