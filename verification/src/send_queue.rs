//! Outstanding work-request queue for retransmission lookup.
//!
//! Records are appended as the owning connection assigns PSNs, so the
//! queue is ordered by assigned base PSN by construction.  When the
//! acknowledgment base advances, the acknowledged prefix is discarded;
//! a retransmission asks for every record whose packets fall in a PSN
//! interval.

use vstd::prelude::*;

use std::collections::VecDeque;

use crate::protocol::QpParams;
use crate::protocol::SendWrRdma;
use crate::protocol::WorkReqOpCode;
use crate::seqnum::psn_leq;
use crate::seqnum::psn_lt;
use crate::seqnum::spec_psn_leq;
use crate::seqnum::spec_psn_lt;

verus! {

/// One outstanding work request: its assigned base PSN, the request, and
/// the connection parameters it was built with.  Immutable once created.
#[derive(Clone, Copy)]
pub struct SendQueueElem {
    pub psn: u32,
    pub wr: SendWrRdma,
    pub qp_param: QpParams,
}

impl SendQueueElem {
    pub fn new(wr: SendWrRdma, psn: u32, qp_param: QpParams) -> (r: Self)
        ensures
            r == (SendQueueElem { psn, wr, qp_param }),
    {
        SendQueueElem { wr, psn, qp_param }
    }

    /// The assigned base PSN.
    pub fn psn(&self) -> (r: u32)
        ensures
            r == self.psn,
    {
        self.psn
    }

    /// The work request itself.
    pub fn wr(&self) -> (r: SendWrRdma)
        ensures
            r == self.wr,
    {
        self.wr
    }

    /// The connection parameters the request was built with.
    pub fn qp_param(&self) -> (r: QpParams)
        ensures
            r == self.qp_param,
    {
        self.qp_param
    }

    /// Operation requested.
    pub fn opcode(&self) -> (r: WorkReqOpCode)
        ensures
            r == self.wr.opcode,
    {
        self.wr.opcode()
    }
}

/// How many leading records have a PSN strictly before `psn`.
pub open spec fn behind_prefix(s: Seq<SendQueueElem>, psn: u32) -> nat
    decreases s.len(),
{
    if s.len() == 0 || !spec_psn_lt(s[0].psn, psn) {
        0
    } else {
        1 + behind_prefix(s.subrange(1, s.len() as int), psn)
    }
}

/// How many leading records have a PSN at or before `psn`.
pub open spec fn at_or_behind_prefix(s: Seq<SendQueueElem>, psn: u32) -> nat
    decreases s.len(),
{
    if s.len() == 0 || !spec_psn_leq(s[0].psn, psn) {
        0
    } else {
        1 + at_or_behind_prefix(s.subrange(1, s.len() as int), psn)
    }
}

pub proof fn lemma_behind_prefix_bound(s: Seq<SendQueueElem>, psn: u32)
    ensures
        behind_prefix(s, psn) <= s.len(),
        forall|i: int| 0 <= i < behind_prefix(s, psn) ==> spec_psn_lt(s[i].psn, psn),
        behind_prefix(s, psn) < s.len() ==> !spec_psn_lt(s[behind_prefix(s, psn) as int].psn, psn),
    decreases s.len(),
{
    if s.len() != 0 && spec_psn_lt(s[0].psn, psn) {
        let rest = s.subrange(1, s.len() as int);
        lemma_behind_prefix_bound(rest, psn);
        assert forall|i: int| 0 <= i < behind_prefix(s, psn) implies spec_psn_lt(s[i].psn, psn) by {
            if i > 0 {
                assert(spec_psn_lt(rest[i - 1].psn, psn));
            }
        }
    }
}

pub proof fn lemma_at_or_behind_prefix_bound(s: Seq<SendQueueElem>, psn: u32)
    ensures
        at_or_behind_prefix(s, psn) <= s.len(),
        forall|i: int| 0 <= i < at_or_behind_prefix(s, psn) ==> spec_psn_leq(s[i].psn, psn),
        at_or_behind_prefix(s, psn) < s.len() ==> !spec_psn_leq(
            s[at_or_behind_prefix(s, psn) as int].psn,
            psn,
        ),
    decreases s.len(),
{
    if s.len() != 0 && spec_psn_leq(s[0].psn, psn) {
        let rest = s.subrange(1, s.len() as int);
        lemma_at_or_behind_prefix_bound(rest, psn);
        assert forall|i: int| 0 <= i < at_or_behind_prefix(s, psn) implies spec_psn_leq(
            s[i].psn,
            psn,
        ) by {
            if i > 0 {
                assert(spec_psn_leq(rest[i - 1].psn, psn));
            }
        }
    }
}

/// The records `range(psn_low, psn_high)` returns: the window-ordered
/// partition between the record covering `psn_low` and the first record
/// at or past `psn_high`.
pub open spec fn spec_range(s: Seq<SendQueueElem>, psn_low: u32, psn_high: u32) -> Seq<
    SendQueueElem,
> {
    let a = at_or_behind_prefix(s, psn_low);
    let a1: int = if a > 0 {
        a - 1
    } else {
        0
    };
    let b: int = behind_prefix(s, psn_high) as int;
    if a1 <= b {
        s.subrange(a1, b)
    } else {
        Seq::empty()
    }
}

/// Outstanding work-request queue; see the module documentation.
pub struct IbvSendQueue {
    inner: VecDeque<SendQueueElem>,
}

impl View for IbvSendQueue {
    type V = Seq<SendQueueElem>;

    /// The outstanding records, lowest assigned PSN first.
    closed spec fn view(&self) -> Seq<SendQueueElem> {
        self.inner@
    }
}

impl IbvSendQueue {
    /// An empty queue.
    pub fn new() -> (r: Self)
        ensures
            r@ == Seq::<SendQueueElem>::empty(),
    {
        let inner: VecDeque<SendQueueElem> = VecDeque::new();
        proof {
            assert(inner@ =~= Seq::<SendQueueElem>::empty());
        }
        IbvSendQueue { inner }
    }

    /// Append a record.  The owning connection assigns PSNs monotonically,
    /// so appending keeps the queue ordered.
    pub fn push(&mut self, elem: SendQueueElem)
        ensures
            final(self)@ == old(self)@.push(elem),
    {
        self.inner.push_back(elem);
    }

    /// Drop every leading record whose PSN is strictly before `psn` under
    /// the window comparator; their packets are all acknowledged.
    pub fn pop_until(&mut self, psn: u32)
        ensures
            final(self)@ == old(self)@.subrange(
                behind_prefix(old(self)@, psn) as int,
                old(self)@.len() as int,
            ),
    {
        proof {
            lemma_behind_prefix_bound(old(self)@, psn);
        }
        let ghost s0 = self.inner@;
        let ghost k: nat = behind_prefix(s0, psn);
        let total: usize = self.inner.len();
        let mut n: usize = 0;
        while self.inner.len() > 0 && psn_lt(self.inner[0].psn, psn)
            invariant
                n <= k,
                k == behind_prefix(s0, psn),
                k <= s0.len(),
                s0.len() == total,
                n == s0.len() - self.inner@.len(),
                self.inner@ == s0.subrange(n as int, s0.len() as int),
                forall|i: int| 0 <= i < k ==> spec_psn_lt(s0[i].psn, psn),
                k < s0.len() ==> !spec_psn_lt(s0[k as int].psn, psn),
            decreases self.inner@.len(),
        {
            proof {
                assert(self.inner@[0] == s0[n as int]);
                assert(n < k) by {
                    if n == k {
                        assert(k < s0.len());
                        assert(!spec_psn_lt(s0[k as int].psn, psn));
                    }
                }
            }
            let _ = self.inner.pop_front();
            n += 1;
            proof {
                assert(self.inner@ =~= s0.subrange(n as int, s0.len() as int));
            }
        }
        proof {
            if n < k {
                assert(self.inner@[0] == s0[n as int]);
                assert(spec_psn_lt(s0[n as int].psn, psn));
            }
            assert(self.inner@ =~= s0.subrange(k as int, s0.len() as int));
        }
    }

    /// All records whose packets fall in `[psn_low, psn_high)`, in queue
    /// order: from the record covering `psn_low` (which may start just
    /// before it) up to the first record at or past `psn_high`.
    pub fn range(&self, psn_low: u32, psn_high: u32) -> (r: Vec<SendQueueElem>)
        ensures
            r@ == spec_range(self@, psn_low, psn_high),
    {
        proof {
            lemma_at_or_behind_prefix_bound(self.inner@, psn_low);
            lemma_behind_prefix_bound(self.inner@, psn_high);
        }
        let len: usize = self.inner.len();
        let mut a: usize = 0;
        while a < len && psn_leq(self.inner[a].psn, psn_low)
            invariant
                len == self.inner@.len(),
                a <= at_or_behind_prefix(self.inner@, psn_low),
                forall|i: int| 0 <= i < a ==> spec_psn_leq(self.inner@[i].psn, psn_low),
            decreases len - a,
        {
            proof {
                lemma_at_or_behind_prefix_bound(self.inner@, psn_low);
            }
            a += 1;
        }
        proof {
            lemma_at_or_behind_prefix_bound(self.inner@, psn_low);
            assert(a == at_or_behind_prefix(self.inner@, psn_low)) by {
                lemma_at_or_behind_prefix_bound(self.inner@, psn_low);
                if a < at_or_behind_prefix(self.inner@, psn_low) {
                    assert(spec_psn_leq(self.inner@[a as int].psn, psn_low));
                }
            }
        }
        let mut b: usize = 0;
        while b < len && psn_lt(self.inner[b].psn, psn_high)
            invariant
                len == self.inner@.len(),
                b <= behind_prefix(self.inner@, psn_high),
                forall|i: int| 0 <= i < b ==> spec_psn_lt(self.inner@[i].psn, psn_high),
            decreases len - b,
        {
            proof {
                lemma_behind_prefix_bound(self.inner@, psn_high);
            }
            b += 1;
        }
        proof {
            lemma_behind_prefix_bound(self.inner@, psn_high);
            assert(b == behind_prefix(self.inner@, psn_high)) by {
                lemma_behind_prefix_bound(self.inner@, psn_high);
                if b < behind_prefix(self.inner@, psn_high) {
                    assert(spec_psn_lt(self.inner@[b as int].psn, psn_high));
                }
            }
        }
        let a1: usize = if a > 0 {
            a - 1
        } else {
            0
        };
        let mut r: Vec<SendQueueElem> = Vec::new();
        if a1 <= b {
            let mut i: usize = a1;
            while i < b
                invariant
                    a1 <= i <= b,
                    b <= self.inner@.len(),
                    r@ == self.inner@.subrange(a1 as int, i as int),
                decreases b - i,
            {
                r.push(self.inner[i]);
                proof {
                    assert(r@ =~= self.inner@.subrange(a1 as int, (i + 1) as int));
                }
                i += 1;
            }
        }
        proof {
            if a1 <= b {
                assert(r@ =~= spec_range(self@, psn_low, psn_high));
            } else {
                assert(r@ =~= spec_range(self@, psn_low, psn_high));
            }
        }
        r
    }
}

} // verus!
