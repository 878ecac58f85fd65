//! Cumulative acknowledgment of 16-bit message sequence numbers.
//!
//! `base_msn` is the lowest MSN not yet acknowledged.  An incoming MSN at
//! or ahead of the base (under the message window comparator) advances the
//! base just past it; a stale MSN changes nothing.  The tracker validates
//! that an acknowledgment message itself is fresh before its PSN contents
//! are trusted.

use vstd::prelude::*;

use crate::seqnum::msn_dist;
use crate::seqnum::msn_geq;
use crate::seqnum::spec_msn_geq;

verus! {

/// Message sequence tracker; see the module documentation.
pub struct AckMsnTracker {
    base_msn: u16,
}

/// The base after acknowledging `msn`: one past it when it is fresh,
/// unchanged when it is stale.
pub open spec fn m_ack_msn(base: u16, msn: u16) -> u16 {
    if spec_msn_geq(msn, base) {
        vstd::wrapping::u16_specs::wrapping_add(msn, 1)
    } else {
        base
    }
}

impl AckMsnTracker {
    /// The lowest MSN not yet acknowledged.
    pub closed spec fn spec_base_msn(self) -> u16 {
        self.base_msn
    }

    /// A fresh tracker with its base at `base_msn`.
    pub fn new(base_msn: u16) -> (r: Self)
        ensures
            r.spec_base_msn() == base_msn,
    {
        AckMsnTracker { base_msn }
    }

    /// The lowest MSN not yet acknowledged.
    pub fn base_msn(&self) -> (r: u16)
        ensures
            r == self.spec_base_msn(),
    {
        self.base_msn
    }

    /// Acknowledge `msn`: advances the base past it when it is at or ahead
    /// of the base, and reports the new base; a stale MSN is absorbed with
    /// no state change.
    pub fn ack(&mut self, msn: u16) -> (r: Option<u16>)
        ensures
            final(self).spec_base_msn() == m_ack_msn(old(self).spec_base_msn(), msn),
            r == (if spec_msn_geq(msn, old(self).spec_base_msn()) {
                Some(final(self).spec_base_msn())
            } else {
                None::<u16>
            }),
    {
        if msn_geq(msn, self.base_msn) {
            self.base_msn = msn.wrapping_add(1);
            Some(self.base_msn)
        } else {
            None
        }
    }
}

/// Replaying an acknowledged MSN never moves the base: once `base_msn`
/// has advanced past `msn`, acknowledging `msn` again is a no-op.
pub proof fn lemma_msn_ack_idempotent(base: u16, msn: u16)
    ensures
        m_ack_msn(m_ack_msn(base, msn), msn) == m_ack_msn(base, msn),
{
}

/// The base never moves behind under the message window comparator: an
/// acknowledged MSN strictly inside the window advances the base to a
/// value still at or ahead of the old one.
pub proof fn lemma_msn_ack_monotonic(base: u16, msn: u16)
    requires
        spec_msn_geq(msn, base) ==> msn_dist(msn, base) < crate::constants::MAX_MSN_WINDOW,
    ensures
        spec_msn_geq(m_ack_msn(base, msn), base),
{
}

} // verus!
