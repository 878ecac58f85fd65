//! Acknowledgment coordinators for the receive and send paths.
//!
//! Both compose the packet sequence tracker to digest one inbound
//! acknowledgment or negative-acknowledgment message and derive a single
//! fact for the caller: the new acknowledgment base, when the message
//! moved it.  Stale or duplicated messages are absorbed silently.
//!
//! The local coordinator tracks `psn_pre`, the base reported by the
//! previous message: two consecutive reports imply that everything
//! between the two bases was received, so that interval is merged as
//! fully acknowledged before the bitmap of the newer report.  The remote
//! coordinator additionally remembers the last acknowledgment MSN and
//! trusts the implied interval only when the incoming MSN directly
//! follows it, guarding against reports processed out of message order.

use vstd::prelude::*;

use crate::psn_tracker::adv_opt;
use crate::psn_tracker::m_ack_before;
use crate::psn_tracker::m_ack_bitmap;
use crate::psn_tracker::m_ack_one;
use crate::psn_tracker::m_ack_range;
use crate::psn_tracker::PsnModel;
use crate::psn_tracker::PsnTracker;
use crate::seqnum::psn_lt;
use crate::seqnum::spec_psn_lt;

verus! {

/// The first option when it reports something, the second otherwise.
pub open spec fn opt_or(a: Option<u32>, b: Option<u32>) -> Option<u32> {
    if a is Some {
        a
    } else {
        b
    }
}

/// Receive-path acknowledgment coordinator.
pub struct LocalAckTracker {
    psn_tracker: PsnTracker,
    psn_pre: u32,
}

impl LocalAckTracker {
    /// Model of the underlying packet sequence tracker.
    pub closed spec fn model(self) -> PsnModel {
        self.psn_tracker.model()
    }

    /// The base reported by the previous acknowledgment message.
    pub closed spec fn spec_psn_pre(self) -> u32 {
        self.psn_pre
    }

    pub open spec fn wf(self) -> bool {
        crate::psn_tracker::wf_bits(self.model().bits)
    }

    /// A fresh coordinator with its window based at `base_psn`.
    pub fn new(base_psn: u32) -> (r: Self)
        ensures
            r.wf(),
            r.model().base == base_psn,
            r.model().bits == Seq::new(crate::constants::BITMAP_WIDTH as nat, |i: int| false),
            r.spec_psn_pre() == base_psn,
    {
        LocalAckTracker { psn_tracker: PsnTracker::new(base_psn), psn_pre: base_psn }
    }

    /// Acknowledge a single received PSN.
    pub fn ack_one(&mut self, psn: u32) -> (r: Option<u32>)
        requires
            old(self).wf(),
        ensures
            final(self).wf(),
            final(self).model() == m_ack_one(old(self).model(), psn),
            final(self).spec_psn_pre() == old(self).spec_psn_pre(),
            r == adv_opt(old(self).model(), final(self).model()),
    {
        self.psn_tracker.ack_one(psn)
    }

    /// Digest an acknowledgment report: the interval from the previously
    /// reported base up to `base_psn` is fully acknowledged, then the
    /// bitmap anchored at `base_psn` is merged.
    pub fn ack_bitmap(&mut self, base_psn: u32, bitmap: u128) -> (r: Option<u32>)
        requires
            old(self).wf(),
        ensures
            final(self).wf(),
            ({
                let m0 = old(self).model();
                let m1 = m_ack_range(m0, old(self).spec_psn_pre(), base_psn);
                let m2 = m_ack_bitmap(m1, base_psn, bitmap);
                &&& final(self).model() == m2
                &&& final(self).spec_psn_pre() == (if spec_psn_lt(
                    old(self).spec_psn_pre(),
                    base_psn,
                ) {
                    base_psn
                } else {
                    old(self).spec_psn_pre()
                })
                &&& r == opt_or(adv_opt(m1, m2), adv_opt(m0, m1))
            }),
    {
        let x = self.psn_tracker.ack_range(self.psn_pre, base_psn);
        let y = self.psn_tracker.ack_bitmap(base_psn, bitmap);
        if psn_lt(self.psn_pre, base_psn) {
            self.psn_pre = base_psn;
        }
        match y {
            Some(v) => Some(v),
            None => x,
        }
    }

    /// Digest a negative acknowledgment carrying two window snapshots: the
    /// interval up to the older snapshot, the older bitmap, then the
    /// current bitmap.
    pub fn nak_bitmap(
        &mut self,
        psn_pre: u32,
        pre_bitmap: u128,
        psn_now: u32,
        now_bitmap: u128,
    ) -> (r: Option<u32>)
        requires
            old(self).wf(),
        ensures
            final(self).wf(),
            ({
                let m0 = old(self).model();
                let m1 = m_ack_range(m0, old(self).spec_psn_pre(), psn_pre);
                let m2 = m_ack_bitmap(m1, psn_pre, pre_bitmap);
                let m3 = m_ack_bitmap(m2, psn_now, now_bitmap);
                &&& final(self).model() == m3
                &&& final(self).spec_psn_pre() == (if spec_psn_lt(
                    old(self).spec_psn_pre(),
                    psn_now,
                ) {
                    psn_now
                } else {
                    old(self).spec_psn_pre()
                })
                &&& r == opt_or(adv_opt(m2, m3), opt_or(adv_opt(m1, m2), adv_opt(m0, m1)))
            }),
    {
        let x = self.psn_tracker.ack_range(self.psn_pre, psn_pre);
        let y = self.psn_tracker.ack_bitmap(psn_pre, pre_bitmap);
        let z = self.psn_tracker.ack_bitmap(psn_now, now_bitmap);
        if psn_lt(self.psn_pre, psn_now) {
            self.psn_pre = psn_now;
        }
        match z {
            Some(v) => Some(v),
            None => match y {
                Some(v) => Some(v),
                None => x,
            },
        }
    }

    /// The lowest PSN not yet cumulatively acknowledged.
    pub fn base_psn(&self) -> (r: u32)
        ensures
            r == self.model().base,
    {
        self.psn_tracker.base_psn()
    }
}

/// Send-path acknowledgment coordinator.
pub struct RemoteAckTracker {
    psn_tracker: PsnTracker,
    msn_pre: u16,
    psn_pre: u32,
}

impl RemoteAckTracker {
    /// Model of the underlying packet sequence tracker.
    pub closed spec fn model(self) -> PsnModel {
        self.psn_tracker.model()
    }

    /// The base PSN reported by the previous negative acknowledgment.
    pub closed spec fn spec_psn_pre(self) -> u32 {
        self.psn_pre
    }

    /// The MSN carried by the previous negative acknowledgment.
    pub closed spec fn spec_msn_pre(self) -> u16 {
        self.msn_pre
    }

    pub open spec fn wf(self) -> bool {
        crate::psn_tracker::wf_bits(self.model().bits)
    }

    /// A fresh coordinator with its window based at `base_psn`.
    pub fn new(base_psn: u32) -> (r: Self)
        ensures
            r.wf(),
            r.model().base == base_psn,
            r.model().bits == Seq::new(crate::constants::BITMAP_WIDTH as nat, |i: int| false),
            r.spec_psn_pre() == base_psn,
            r.spec_msn_pre() == 0,
    {
        RemoteAckTracker { psn_tracker: PsnTracker::new(base_psn), msn_pre: 0, psn_pre: base_psn }
    }

    /// Cumulatively acknowledge every PSN strictly before `psn`.
    pub fn ack_before(&mut self, psn: u32) -> (r: Option<u32>)
        requires
            old(self).wf(),
        ensures
            final(self).wf(),
            final(self).model() == m_ack_before(old(self).model(), psn),
            final(self).spec_psn_pre() == old(self).spec_psn_pre(),
            final(self).spec_msn_pre() == old(self).spec_msn_pre(),
            r == (if spec_psn_lt(old(self).model().base, psn) {
                Some(final(self).model().base)
            } else {
                None::<u32>
            }),
    {
        self.psn_tracker.ack_before(psn)
    }

    /// Digest a peer negative acknowledgment carrying two window
    /// snapshots.  The interval implied by consecutive reports is trusted
    /// only when `msn` directly follows the previously seen one;
    /// otherwise only the two explicit bitmaps are merged, so a report
    /// processed out of message order can never cumulatively acknowledge
    /// a gap.
    pub fn nak_bitmap(
        &mut self,
        msn: u16,
        psn_pre: u32,
        pre_bitmap: u128,
        psn_now: u32,
        now_bitmap: u128,
    ) -> (r: Option<u32>)
        requires
            old(self).wf(),
        ensures
            final(self).wf(),
            ({
                let fresh = msn == vstd::wrapping::u16_specs::wrapping_add(
                    old(self).spec_msn_pre(),
                    1,
                );
                let m0 = old(self).model();
                let m1 = if fresh {
                    m_ack_range(m0, old(self).spec_psn_pre(), psn_pre)
                } else {
                    m0
                };
                let m2 = m_ack_bitmap(m1, psn_pre, pre_bitmap);
                let m3 = m_ack_bitmap(m2, psn_now, now_bitmap);
                let moved = spec_psn_lt(old(self).spec_psn_pre(), psn_now);
                &&& final(self).model() == m3
                &&& final(self).spec_psn_pre() == (if moved {
                    psn_now
                } else {
                    old(self).spec_psn_pre()
                })
                &&& final(self).spec_msn_pre() == (if moved {
                    msn
                } else {
                    old(self).spec_msn_pre()
                })
                &&& r == opt_or(
                    adv_opt(m2, m3),
                    opt_or(adv_opt(m1, m2), if fresh {
                        adv_opt(m0, m1)
                    } else {
                        None::<u32>
                    }),
                )
            }),
    {
        let x = if msn == self.msn_pre.wrapping_add(1) {
            self.psn_tracker.ack_range(self.psn_pre, psn_pre)
        } else {
            None
        };
        let y = self.psn_tracker.ack_bitmap(psn_pre, pre_bitmap);
        let z = self.psn_tracker.ack_bitmap(psn_now, now_bitmap);
        if psn_lt(self.psn_pre, psn_now) {
            self.psn_pre = psn_now;
            self.msn_pre = msn;
        }
        match z {
            Some(v) => Some(v),
            None => match y {
                Some(v) => Some(v),
                None => x,
            },
        }
    }

    /// The lowest PSN not yet cumulatively acknowledged.
    pub fn base_psn(&self) -> (r: u32)
        ensures
            r == self.model().base,
    {
        self.psn_tracker.base_psn()
    }
}

} // verus!
