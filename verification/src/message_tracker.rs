//! Completion tracking for in-flight messages.
//!
//! Each outbound message registers the span of packet sequence numbers it
//! occupies, keyed by its message sequence number.  Spans are registered
//! in the order their PSNs were assigned, so they sit in ascending PSN
//! order by construction.  When the cumulative acknowledgment base
//! advances, every leading span that now lies wholly below the base is
//! complete: it is removed and handed back so a completion can be raised.

use vstd::prelude::*;

use crate::seqnum::psn_leq;
use crate::seqnum::spec_psn_leq;

verus! {

/// The packet span of one in-flight message: `num_psn` PSNs starting at
/// `base_psn`, owned by message `msn`.
#[derive(Clone, Copy, PartialEq, Eq, Structural)]
pub struct MessageSpan {
    pub msn: u16,
    pub base_psn: u32,
    pub num_psn: u32,
}

/// The PSN one past the span's last packet.
pub open spec fn span_end(s: MessageSpan) -> u32 {
    vstd::wrapping::u32_specs::wrapping_add(s.base_psn, s.num_psn)
}

/// A span is complete once the acknowledgment base is at or past its end.
pub open spec fn span_complete(s: MessageSpan, base: u32) -> bool {
    spec_psn_leq(span_end(s), base)
}

/// How many leading spans of `entries` are complete at `base`.
pub open spec fn complete_prefix(entries: Seq<MessageSpan>, base: u32) -> nat
    decreases entries.len(),
{
    if entries.len() == 0 || !span_complete(entries[0], base) {
        0
    } else {
        1 + complete_prefix(entries.subrange(1, entries.len() as int), base)
    }
}

pub proof fn lemma_complete_prefix_bound(entries: Seq<MessageSpan>, base: u32)
    ensures
        complete_prefix(entries, base) <= entries.len(),
        forall|i: int| 0 <= i < complete_prefix(entries, base) ==> span_complete(entries[i], base),
        complete_prefix(entries, base) < entries.len() ==> !span_complete(
            entries[complete_prefix(entries, base) as int],
            base,
        ),
    decreases entries.len(),
{
    if entries.len() != 0 && span_complete(entries[0], base) {
        let rest = entries.subrange(1, entries.len() as int);
        lemma_complete_prefix_bound(rest, base);
        assert forall|i: int| 0 <= i < complete_prefix(entries, base) implies span_complete(
            entries[i],
            base,
        ) by {
            if i > 0 {
                assert(span_complete(rest[i - 1], base));
            }
        }
    }
}

/// Message completion tracker; see the module documentation.
pub struct MessageTracker {
    entries: Vec<MessageSpan>,
}

impl MessageTracker {
    /// The registered spans, oldest first.
    pub closed spec fn spans(self) -> Seq<MessageSpan> {
        self.entries@
    }

    /// A tracker with no message in flight.
    pub fn new() -> (r: Self)
        ensures
            r.spans() == Seq::<MessageSpan>::empty(),
    {
        let entries: Vec<MessageSpan> = Vec::new();
        proof {
            assert(entries@ =~= Seq::<MessageSpan>::empty());
        }
        MessageTracker { entries }
    }

    /// Register the span of a newly allocated outbound message.  The
    /// caller assigns PSNs monotonically, so appending keeps the spans in
    /// ascending PSN order.
    pub fn register(&mut self, msn: u16, base_psn: u32, num_psn: u32)
        ensures
            final(self).spans() == old(self).spans().push(
                MessageSpan { msn, base_psn, num_psn },
            ),
    {
        self.entries.push(MessageSpan { msn, base_psn, num_psn });
    }

    /// How many messages are still in flight.
    pub fn len(&self) -> (r: usize)
        ensures
            r == self.spans().len(),
    {
        self.entries.len()
    }

    /// Remove and return every leading span whose whole packet range now
    /// lies at or below the acknowledgment base `psn`, oldest first.
    pub fn complete_before(&mut self, psn: u32) -> (r: Vec<MessageSpan>)
        ensures
            r@ == old(self).spans().subrange(
                0,
                complete_prefix(old(self).spans(), psn) as int,
            ),
            final(self).spans() == old(self).spans().subrange(
                complete_prefix(old(self).spans(), psn) as int,
                old(self).spans().len() as int,
            ),
    {
        proof {
            lemma_complete_prefix_bound(old(self).spans(), psn);
        }
        let ghost s0 = self.entries@;
        let ghost k: nat = complete_prefix(s0, psn);
        let mut out: Vec<MessageSpan> = Vec::new();
        while self.entries.len() > 0 && psn_leq(
            self.entries[0].base_psn.wrapping_add(self.entries[0].num_psn),
            psn,
        )
            invariant
                out@.len() <= k,
                out@ == s0.subrange(0, out@.len() as int),
                self.entries@ == s0.subrange(out@.len() as int, s0.len() as int),
                k == complete_prefix(s0, psn),
                k <= s0.len(),
                forall|i: int| 0 <= i < k ==> span_complete(s0[i], psn),
                k < s0.len() ==> !span_complete(s0[k as int], psn),
            decreases self.entries@.len(),
        {
            proof {
                assert(self.entries@[0] == s0[out@.len() as int]);
                assert(span_complete(s0[out@.len() as int], psn));
            }
            let e = self.entries.remove(0);
            out.push(e);
            proof {
                assert(out@ =~= s0.subrange(0, out@.len() as int));
                assert(self.entries@ =~= s0.subrange(out@.len() as int, s0.len() as int));
            }
        }
        proof {
            if out@.len() < k {
                assert(self.entries@.len() > 0);
                assert(self.entries@[0] == s0[out@.len() as int]);
                assert(span_complete(s0[out@.len() as int], psn));
            }
            assert(out@ =~= s0.subrange(0, k as int));
            assert(self.entries@ =~= s0.subrange(k as int, s0.len() as int));
        }
        out
    }
}

} // verus!
