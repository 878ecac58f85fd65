//! Per-connection sequencing state and the connection registry.
//!
//! `DeviceQp` owns one connection's allocation cursors (next PSN, next
//! MSN) and its acknowledgment trackers; `next_wr` hands out the sequence
//! numbers a work request needs, refusing when the outstanding window
//! would overflow or the message counter would collide with the unacked
//! base.  `QpManager` is a fixed-capacity registry mapping queue-pair
//! numbers to that state: a presence bitmap (kept in an outside
//! bit-vector) beside a dense slot array.

use vstd::prelude::*;

use crate::constants::BITMAP_WIDTH;
use crate::constants::MAX_PSN_WINDOW;
use crate::constants::QP_TYPE_RC;
use crate::message_tracker::MessageSpan;
use crate::message_tracker::MessageTracker;
use crate::msn_tracker::m_ack_msn;
use crate::msn_tracker::AckMsnTracker;
use crate::protocol::QpParams;
use crate::protocol::SendWrRdma;
use crate::psn_tracker::adv_opt;
use crate::psn_tracker::m_ack_before;
use crate::psn_tracker::m_ack_bitmap;
use crate::psn_tracker::m_ack_one;
use crate::psn_tracker::PsnModel;
use crate::psn_tracker::PsnTracker;
use crate::seqnum::psn_dist;
use crate::seqnum::spec_msn_geq;
use crate::seqnum::spec_psn_leq;
use crate::seqnum::spec_psn_lt;
use crate::tracker::opt_or;

verus! {

/// Allocation cursors plus acknowledgment trackers of one connection.
pub struct State {
    msn: u16,
    psn: u32,
    psn_tracker: PsnTracker,
    ack_msn_tracker: AckMsnTracker,
    message_tracker: MessageTracker,
}

/// A fresh allocation of `num_psn` PSNs is admissible: it keeps the
/// outstanding span within the window and the next MSN clear of the
/// unacknowledged base.
pub open spec fn next_ok(msn: u16, psn: u32, base_psn: u32, base_msn: u16, num_psn: u32) -> bool {
    &&& psn_dist(psn, base_psn) + num_psn <= MAX_PSN_WINDOW
    &&& vstd::wrapping::u16_specs::wrapping_add(msn, 1) != base_msn
}

impl State {
    /// Next MSN to hand out.
    pub closed spec fn spec_msn(self) -> u16 {
        self.msn
    }

    /// Next PSN to hand out.
    pub closed spec fn spec_psn(self) -> u32 {
        self.psn
    }

    /// Model of the packet sequence tracker.
    pub closed spec fn psn_model(self) -> PsnModel {
        self.psn_tracker.model()
    }

    /// Base of the acknowledgment-MSN tracker.
    pub closed spec fn spec_base_msn(self) -> u16 {
        self.ack_msn_tracker.spec_base_msn()
    }

    /// Spans of the in-flight messages.
    pub closed spec fn spans(self) -> Seq<MessageSpan> {
        self.message_tracker.spans()
    }

    pub open spec fn wf(self) -> bool {
        crate::psn_tracker::wf_bits(self.psn_model().bits)
    }

    /// PSNs allocated but not yet cumulatively acknowledged.
    pub open spec fn outstanding(self) -> u32 {
        psn_dist(self.spec_psn(), self.psn_model().base)
    }

    /// Fresh state: counters at zero, nothing outstanding.
    pub fn new() -> (r: Self)
        ensures
            r.wf(),
            r.spec_msn() == 0,
            r.spec_psn() == 0,
            r.psn_model().base == 0,
            r.psn_model().bits == Seq::new(BITMAP_WIDTH as nat, |i: int| false),
            r.spec_base_msn() == 0,
            r.spans() == Seq::<MessageSpan>::empty(),
    {
        State {
            msn: 0,
            psn: 0,
            psn_tracker: PsnTracker::new(0),
            ack_msn_tracker: AckMsnTracker::new(0),
            message_tracker: MessageTracker::new(),
        }
    }

    /// Hand out the MSN and base PSN for a request needing `num_psn`
    /// packets, advancing both cursors; refuse — changing nothing — when
    /// the window would overflow or the message counter would catch up
    /// with the unacknowledged base MSN.
    pub fn next(&mut self, num_psn: u32) -> (r: Option<(u16, u32)>)
        requires
            old(self).wf(),
        ensures
            final(self).wf(),
            final(self).psn_model() == old(self).psn_model(),
            final(self).spec_base_msn() == old(self).spec_base_msn(),
            final(self).spans() == old(self).spans(),
            ({
                let ok = next_ok(
                    old(self).spec_msn(),
                    old(self).spec_psn(),
                    old(self).psn_model().base,
                    old(self).spec_base_msn(),
                    num_psn,
                );
                &&& r == (if ok {
                    Some((old(self).spec_msn(), old(self).spec_psn()))
                } else {
                    None::<(u16, u32)>
                })
                &&& final(self).spec_msn() == (if ok {
                    vstd::wrapping::u16_specs::wrapping_add(old(self).spec_msn(), 1)
                } else {
                    old(self).spec_msn()
                })
                &&& final(self).spec_psn() == (if ok {
                    vstd::wrapping::u32_specs::wrapping_add(old(self).spec_psn(), num_psn)
                } else {
                    old(self).spec_psn()
                })
                &&& ok ==> final(self).outstanding() == old(self).outstanding() + num_psn
            }),
    {
        let base_psn = self.psn_tracker.base_psn();
        let outstanding_num_psn = self.psn.wrapping_sub(base_psn);
        if outstanding_num_psn as u64 + num_psn as u64 > MAX_PSN_WINDOW as u64 {
            return None;
        }
        let next_msn = self.msn.wrapping_add(1);
        if next_msn == self.ack_msn_tracker.base_msn() {
            return None;
        }
        let current_psn = self.psn;
        let current_msn = self.msn;
        self.msn = next_msn;
        self.psn = self.psn.wrapping_add(num_psn);
        Some((current_msn, current_psn))
    }
}

/// Number of PSNs a request of `length` bytes starting at `addr` needs on
/// a connection with path MTU `pmtu`: one packet per MTU boundary the
/// request touches, so a start that is not MTU-aligned makes the first
/// segment shorter and can add one packet over the aligned count.
pub open spec fn spec_num_psn(pmtu: u32, addr: u64, length: u32) -> u32
    recommends
        pmtu >= 1,
{
    if length == 0 {
        0
    } else {
        let rem = addr as int % pmtu as int;
        ((rem + length + pmtu - 1) / (pmtu as int)) as u32
    }
}

/// A queue pair of a reliable connection.
pub struct DeviceQp {
    qp_type: u8,
    qpn: u32,
    dqpn: u32,
    dqp_ip: u32,
    mac_addr: u64,
    pmtu: u32,
    send_cq: Option<u32>,
    recv_cq: Option<u32>,
    state: State,
}

impl DeviceQp {
    pub closed spec fn spec_qpn(self) -> u32 {
        self.qpn
    }

    pub closed spec fn spec_dqpn(self) -> u32 {
        self.dqpn
    }

    pub closed spec fn spec_dqp_ip(self) -> u32 {
        self.dqp_ip
    }

    pub closed spec fn spec_mac_addr(self) -> u64 {
        self.mac_addr
    }

    pub closed spec fn spec_pmtu(self) -> u32 {
        self.pmtu
    }

    pub closed spec fn spec_qp_type(self) -> u8 {
        self.qp_type
    }

    pub closed spec fn spec_send_cq(self) -> Option<u32> {
        self.send_cq
    }

    pub closed spec fn spec_recv_cq(self) -> Option<u32> {
        self.recv_cq
    }

    pub closed spec fn spec_state(self) -> State {
        self.state
    }

    pub open spec fn wf(self) -> bool {
        &&& self.spec_state().wf()
        &&& self.spec_pmtu() >= 1
    }

    /// The connection's static parameters, as stamped onto chunks, with
    /// the message sequence number `msn`.
    pub open spec fn spec_qp_params(self, msn: u16) -> QpParams {
        QpParams {
            msn,
            qp_type: self.spec_qp_type(),
            qpn: self.spec_qpn(),
            mac_addr: self.spec_mac_addr(),
            dqpn: self.spec_dqpn(),
            dqp_ip: self.spec_dqp_ip(),
            pmtu: self.spec_pmtu(),
        }
    }

    /// A new reliable connection; `pmtu` is the path MTU in bytes.
    pub fn new_rc(
        qpn: u32,
        pmtu: u32,
        dqpn: u32,
        dqp_ip: u32,
        mac_addr: u64,
        send_cq: Option<u32>,
        recv_cq: Option<u32>,
    ) -> (r: Self)
        requires
            pmtu >= 1,
        ensures
            r.wf(),
            r.spec_qpn() == qpn,
            r.spec_dqpn() == dqpn,
            r.spec_dqp_ip() == dqp_ip,
            r.spec_mac_addr() == mac_addr,
            r.spec_pmtu() == pmtu,
            r.spec_qp_type() == QP_TYPE_RC,
            r.spec_send_cq() == send_cq,
            r.spec_recv_cq() == recv_cq,
            r.spec_state().spec_msn() == 0,
            r.spec_state().spec_psn() == 0,
            r.spec_state().psn_model().base == 0,
            r.spec_state().psn_model().bits == Seq::new(BITMAP_WIDTH as nat, |i: int| false),
            r.spec_state().spec_base_msn() == 0,
            r.spec_state().spans() == Seq::<MessageSpan>::empty(),
    {
        DeviceQp {
            qp_type: QP_TYPE_RC,
            qpn,
            dqpn,
            dqp_ip,
            mac_addr,
            pmtu,
            send_cq,
            recv_cq,
            state: State::new(),
        }
    }

    /// How many PSNs a work request of `length` bytes starting at remote
    /// address `addr` consumes on this connection.
    pub fn num_psn(&self, addr: u64, length: u32) -> (r: Option<u32>)
        requires
            self.wf(),
        ensures
            r == Some(spec_num_psn(self.spec_pmtu(), addr, length)),
    {
        if length == 0 {
            return Some(0);
        }
        let pmtu64 = self.pmtu as u64;
        let rem = addr % pmtu64;
        let length64 = length as u64;
        let n = (rem + length64 + (pmtu64 - 1)) / pmtu64;
        proof {
            assert(rem + length64 <= length64 * pmtu64) by (nonlinear_arith)
                requires
                    rem < pmtu64,
                    length64 >= 1,
                    pmtu64 >= 1;
            vstd::arithmetic::div_mod::lemma_div_is_ordered(
                rem + length64 + pmtu64 - 1,
                length64 * pmtu64 + pmtu64 - 1,
                pmtu64 as int,
            );
            vstd::arithmetic::div_mod::lemma_fundamental_div_mod_converse(
                length64 * pmtu64 + pmtu64 - 1,
                pmtu64 as int,
                length64 as int,
                pmtu64 - 1,
            );
        }
        Some(n as u32)
    }

    /// Assign sequence numbers to a work request: on success, the chunk
    /// parameters carrying the assigned MSN, and the assigned base PSN.
    /// Refused — with no state change — when the outstanding window or
    /// the message counter is exhausted.
    pub fn next_wr(&mut self, wr: &SendWrRdma) -> (r: Option<(QpParams, u32)>)
        requires
            old(self).wf(),
        ensures
            final(self).wf(),
            final(self).spec_qpn() == old(self).spec_qpn(),
            final(self).spec_dqpn() == old(self).spec_dqpn(),
            final(self).spec_dqp_ip() == old(self).spec_dqp_ip(),
            final(self).spec_mac_addr() == old(self).spec_mac_addr(),
            final(self).spec_pmtu() == old(self).spec_pmtu(),
            final(self).spec_qp_type() == old(self).spec_qp_type(),
            final(self).spec_send_cq() == old(self).spec_send_cq(),
            final(self).spec_recv_cq() == old(self).spec_recv_cq(),
            final(self).spec_state().psn_model() == old(self).spec_state().psn_model(),
            final(self).spec_state().spec_base_msn() == old(self).spec_state().spec_base_msn(),
            final(self).spec_state().spans() == old(self).spec_state().spans(),
            ({
                let num = spec_num_psn(old(self).spec_pmtu(), wr.base.addr, wr.base.length);
                let ok = next_ok(
                    old(self).spec_state().spec_msn(),
                    old(self).spec_state().spec_psn(),
                    old(self).spec_state().psn_model().base,
                    old(self).spec_state().spec_base_msn(),
                    num,
                );
                &&& r == (if ok {
                    Some(
                        (
                            old(self).spec_qp_params(old(self).spec_state().spec_msn()),
                            old(self).spec_state().spec_psn(),
                        ),
                    )
                } else {
                    None::<(QpParams, u32)>
                })
                &&& final(self).spec_state().spec_msn() == (if ok {
                    vstd::wrapping::u16_specs::wrapping_add(old(self).spec_state().spec_msn(), 1)
                } else {
                    old(self).spec_state().spec_msn()
                })
                &&& final(self).spec_state().spec_psn() == (if ok {
                    vstd::wrapping::u32_specs::wrapping_add(old(self).spec_state().spec_psn(), num)
                } else {
                    old(self).spec_state().spec_psn()
                })
                &&& ok ==> final(self).spec_state().outstanding() <= MAX_PSN_WINDOW
            }),
    {
        let num_psn = match self.num_psn(wr.raddr(), wr.length()) {
            Some(n) => n,
            None => {
                return None;
            },
        };
        match self.state.next(num_psn) {
            Some((msn, base_psn)) => Some(
                (
                    QpParams {
                        msn,
                        qp_type: self.qp_type,
                        qpn: self.qpn,
                        mac_addr: self.mac_addr,
                        dqpn: self.dqpn,
                        dqp_ip: self.dqp_ip,
                        pmtu: self.pmtu,
                    },
                    base_psn,
                ),
            ),
            None => None,
        }
    }

    /// Acknowledge a single PSN on the send path.
    pub fn ack_one(&mut self, psn: u32)
        requires
            old(self).wf(),
        ensures
            final(self).wf(),
            final(self).spec_state().psn_model() == m_ack_one(
                old(self).spec_state().psn_model(),
                psn,
            ),
            final(self).spec_state().spec_msn() == old(self).spec_state().spec_msn(),
            final(self).spec_state().spec_psn() == old(self).spec_state().spec_psn(),
            final(self).spec_state().spec_base_msn() == old(self).spec_state().spec_base_msn(),
            final(self).spec_state().spans() == old(self).spec_state().spans(),
            final(self).spec_qp_params(0) == old(self).spec_qp_params(0),
            final(self).spec_send_cq() == old(self).spec_send_cq(),
            final(self).spec_recv_cq() == old(self).spec_recv_cq(),
    {
        let _ = self.state.psn_tracker.ack_one(psn);
    }

    /// Digest a peer acknowledgment report: when its MSN is fresh, the
    /// report cumulatively acknowledges everything before `base_psn`; the
    /// selective bitmap anchored there is merged either way.  Returns the
    /// highest newly confirmed base, if any.
    pub fn ack_range(&mut self, base_psn: u32, bitmap: u128, ack_msn: u16) -> (r: Option<u32>)
        requires
            old(self).wf(),
        ensures
            final(self).wf(),
            final(self).spec_state().spec_msn() == old(self).spec_state().spec_msn(),
            final(self).spec_state().spec_psn() == old(self).spec_state().spec_psn(),
            final(self).spec_state().spans() == old(self).spec_state().spans(),
            final(self).spec_qp_params(0) == old(self).spec_qp_params(0),
            final(self).spec_send_cq() == old(self).spec_send_cq(),
            final(self).spec_recv_cq() == old(self).spec_recv_cq(),
            final(self).spec_state().spec_base_msn() == m_ack_msn(
                old(self).spec_state().spec_base_msn(),
                ack_msn,
            ),
            ({
                let m0 = old(self).spec_state().psn_model();
                let fresh = spec_msn_geq(ack_msn, old(self).spec_state().spec_base_msn());
                let m1 = if fresh {
                    m_ack_before(m0, base_psn)
                } else {
                    m0
                };
                let m2 = m_ack_bitmap(m1, base_psn, bitmap);
                &&& final(self).spec_state().psn_model() == m2
                &&& r == opt_or(
                    adv_opt(m1, m2),
                    if fresh && spec_psn_lt(m0.base, base_psn) {
                        Some(m1.base)
                    } else {
                        None::<u32>
                    },
                )
            }),
    {
        let mut acked_psn: Option<u32> = None;
        if self.state.ack_msn_tracker.ack(ack_msn).is_some() {
            acked_psn = self.state.psn_tracker.ack_before(base_psn);
        }
        if let Some(psn) = self.state.psn_tracker.ack_bitmap(base_psn, bitmap) {
            acked_psn = Some(psn);
        }
        acked_psn
    }

    /// Every PSN up to `psn` is acknowledged.
    pub fn all_acked(&self, psn: u32) -> (r: bool)
        ensures
            r == spec_psn_leq(psn, self.spec_state().psn_model().base),
    {
        self.state.psn_tracker.all_acked(psn)
    }

    /// The message completion tracker of this connection.
    pub fn message_tracker(&mut self) -> (r: &mut MessageTracker)
        ensures
            r.spans() == old(self).spec_state().spans(),
            final(self).spec_state().spans() == final(r).spans(),
            final(self).spec_state().spec_msn() == old(self).spec_state().spec_msn(),
            final(self).spec_state().spec_psn() == old(self).spec_state().spec_psn(),
            final(self).spec_state().psn_model() == old(self).spec_state().psn_model(),
            final(self).spec_state().spec_base_msn() == old(self).spec_state().spec_base_msn(),
            final(self).spec_qp_params(0) == old(self).spec_qp_params(0),
            final(self).spec_send_cq() == old(self).spec_send_cq(),
            final(self).spec_recv_cq() == old(self).spec_recv_cq(),
    {
        &mut self.state.message_tracker
    }

    /// The send completion queue handle.
    pub fn send_cq_handle(&self) -> (r: Option<u32>)
        ensures
            r == self.spec_send_cq(),
    {
        self.send_cq
    }

    /// The receive completion queue handle.
    pub fn recv_cq_handle(&self) -> (r: Option<u32>)
        ensures
            r == self.spec_recv_cq(),
    {
        self.recv_cq
    }

    /// The queue-pair number of this connection.
    pub fn qpn(&self) -> (r: u32)
        ensures
            r == self.spec_qpn(),
    {
        self.qpn
    }
}

/// Presence bitmap of the registry, held in an outside bit-vector.
/// Verus sees it only through `bv_bits` and the trusted accessors below.
#[verifier::external_body]
pub struct PresenceBitmap {
    inner: bitvec::vec::BitVec<usize, bitvec::order::Lsb0>,
}

/// The bits held by a presence bitmap, lowest index first.
pub uninterp spec fn bv_bits(v: PresenceBitmap) -> Seq<bool>;

/// Relies on bitvec's `BitVec::repeat`: a bit-vector of `len` copies of
/// `bit`.
#[verifier::external_body]
fn bv_repeat(bit: bool, len: usize) -> (r: PresenceBitmap)
    ensures
        bv_bits(r) == Seq::new(len as nat, |i: int| bit),
{
    PresenceBitmap { inner: bitvec::vec::BitVec::repeat(bit, len) }
}

/// Relies on bitvec's `BitSlice::first_zero`: the index of the first
/// clear bit, or nothing when every bit is set.
#[verifier::external_body]
fn bv_first_zero(v: &PresenceBitmap) -> (r: Option<usize>)
    ensures
        match r {
            Some(i) => i < bv_bits(*v).len() && !bv_bits(*v)[i as int] && forall|j: int|
                0 <= j < i ==> bv_bits(*v)[j],
            None => forall|j: int| 0 <= j < bv_bits(*v).len() ==> bv_bits(*v)[j],
        },
{
    v.inner.first_zero()
}

/// Relies on bitvec's `BitSlice::set`: writes one bit in place; the index
/// must be in bounds.
#[verifier::external_body]
fn bv_set(v: &mut PresenceBitmap, index: usize, value: bool)
    requires
        index < bv_bits(*old(v)).len(),
    ensures
        bv_bits(*final(v)) == bv_bits(*old(v)).update(index as int, value),
{
    v.inner.set(index, value);
}

/// Fixed-capacity connection registry: a presence bitmap beside a dense
/// slot array.  Queue-pair numbers are unique among live connections and
/// reused only after explicit destruction.
pub struct QpManager {
    bitmap: PresenceBitmap,
    qps: Vec<Option<DeviceQp>>,
}

impl QpManager {
    /// The slot array: entry `i` is the connection with queue-pair number
    /// `i`, when live.
    pub closed spec fn slots(self) -> Seq<Option<DeviceQp>> {
        self.qps@
    }

    /// The registry invariant: the bitmap mirrors slot occupancy and the
    /// capacity fits a queue-pair number.
    pub closed spec fn wf(self) -> bool {
        &&& bv_bits(self.bitmap).len() == self.qps@.len()
        &&& self.qps@.len() <= u32::MAX
        &&& forall|i: int|
            0 <= i < self.qps@.len() ==> bv_bits(self.bitmap)[i] == self.qps@[i] is Some
    }

    /// An empty registry with room for `max_num_qps` connections.
    pub fn new(max_num_qps: u32) -> (r: Self)
        ensures
            r.wf(),
            r.slots() == Seq::new(max_num_qps as nat, |i: int| None::<DeviceQp>),
    {
        let size = max_num_qps as usize;
        let bitmap = bv_repeat(false, size);
        let mut qps: Vec<Option<DeviceQp>> = Vec::new();
        let mut j: usize = 0;
        while j < size
            invariant
                j <= size,
                qps@.len() == j,
                forall|i: int| 0 <= i < j ==> qps@[i] is None,
            decreases size - j,
        {
            qps.push(None);
            j += 1;
        }
        proof {
            assert(qps@ =~= Seq::new(max_num_qps as nat, |i: int| None::<DeviceQp>));
        }
        QpManager { bitmap, qps }
    }

    /// How many connections the registry can hold.
    fn max_num_qps(&self) -> (r: usize)
        ensures
            r == self.slots().len(),
    {
        self.qps.len()
    }

    /// Register a new connection under the lowest free queue-pair number
    /// and return that number; refused when the registry is full.
    pub fn create_qp(&mut self, qp: DeviceQp) -> (r: Option<u32>)
        requires
            old(self).wf(),
        ensures
            final(self).wf(),
            match r {
                Some(qpn) => {
                    &&& qpn < old(self).slots().len()
                    &&& old(self).slots()[qpn as int] is None
                    &&& forall|j: int| 0 <= j < qpn ==> old(self).slots()[j] is Some
                    &&& final(self).slots() == old(self).slots().update(qpn as int, Some(qp))
                },
                None => {
                    &&& final(self).slots() == old(self).slots()
                    &&& forall|j: int|
                        0 <= j < old(self).slots().len() ==> old(self).slots()[j] is Some
                },
            },
    {
        let first = bv_first_zero(&self.bitmap);
        let qpn = match first {
            Some(i) => i,
            None => {
                proof {
                    assert forall|j: int|
                        0 <= j < old(self).slots().len() implies old(self).slots()[j] is Some by {
                        assert(bv_bits(old(self).bitmap)[j]);
                    }
                }
                return None;
            },
        };
        proof {
            assert(!bv_bits(old(self).bitmap)[qpn as int]);
            assert(old(self).slots()[qpn as int] is None);
            assert forall|j: int| 0 <= j < qpn implies old(self).slots()[j] is Some by {
                assert(bv_bits(old(self).bitmap)[j]);
            }
        }
        bv_set(&mut self.bitmap, qpn, true);
        self.qps[qpn] = Some(qp);
        Some(qpn as u32)
    }

    /// Remove the connection registered under `qpn` and return ownership
    /// of its state; an out-of-range or free number yields nothing.
    pub fn destroy_qp(&mut self, qpn: u32) -> (r: Option<DeviceQp>)
        requires
            old(self).wf(),
        ensures
            final(self).wf(),
            if qpn < old(self).slots().len() {
                &&& r == old(self).slots()[qpn as int]
                &&& final(self).slots() == old(self).slots().update(qpn as int, None::<DeviceQp>)
            } else {
                &&& r is None
                &&& final(self).slots() == old(self).slots()
            },
    {
        if qpn as usize >= self.max_num_qps() {
            return None;
        }
        bv_set(&mut self.bitmap, qpn as usize, false);
        let r = self.qps[qpn as usize].take();
        proof {
            assert(self.qps@ =~= old(self).qps@.update(qpn as int, None::<DeviceQp>));
        }
        r
    }

    /// The connection registered under `qpn`, when live.
    pub fn get_qp(&self, qpn: u32) -> (r: Option<&DeviceQp>)
        ensures
            match r {
                Some(q) => qpn < self.slots().len() && self.slots()[qpn as int] == Some(*q),
                None => qpn >= self.slots().len() || self.slots()[qpn as int] is None,
            },
    {
        if qpn as usize >= self.max_num_qps() {
            return None;
        }
        self.qps[qpn as usize].as_ref()
    }

    /// Mutable access to the connection registered under `qpn`, when live.
    pub fn get_qp_mut(&mut self, qpn: u32) -> (r: Option<&mut DeviceQp>)
        requires
            old(self).wf(),
        ensures
            final(self).wf(),
            match r {
                Some(q) => {
                    &&& qpn < old(self).slots().len()
                    &&& old(self).slots()[qpn as int] == Some(*q)
                    &&& final(self).slots() == old(self).slots().update(
                        qpn as int,
                        Some(*final(q)),
                    )
                },
                None => {
                    &&& (qpn >= old(self).slots().len() || old(self).slots()[qpn as int] is None)
                    &&& final(self).slots() == old(self).slots()
                },
            },
    {
        if qpn as usize >= self.max_num_qps() {
            return None;
        }
        let r = self.qps[qpn as usize].as_mut();
        r
    }
}

} // verus!
