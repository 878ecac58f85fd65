//! Per-connection cumulative and selective acknowledgment of packet
//! sequence numbers.
//!
//! The tracker keeps `base_psn`, the lowest PSN not yet cumulatively
//! acknowledged, and a fixed-width window of selective-acknowledgment
//! flags: flag `i` reports that PSN `base_psn + i` (wrapping) has been
//! acknowledged out of order.  Whenever the flag at offset zero becomes
//! set, the window is compacted: `base_psn` advances past every
//! contiguously acknowledged PSN and the flags shift down accordingly.
//!
//! Every mutation is described exactly by a model-level step function, so
//! idempotence and monotonicity of acknowledgment replay are provable
//! facts about those functions.

use vstd::prelude::*;

use crate::constants::BITMAP_WIDTH;
use crate::seqnum::psn_dist;
use crate::seqnum::psn_lt;
use crate::seqnum::psn_leq;
use crate::seqnum::spec_psn_leq;
use crate::seqnum::spec_psn_lt;

verus! {

/// Mathematical state of a packet sequence tracker: the window base and
/// the selective-acknowledgment flags at offsets `0 .. BITMAP_WIDTH`.
pub ghost struct PsnModel {
    pub base: u32,
    pub bits: Seq<bool>,
}

/// Well-formed flag window: full width, and nothing pending at offset
/// zero (a set offset-zero flag is always compacted away at once).
pub open spec fn wf_bits(s: Seq<bool>) -> bool {
    &&& s.len() == BITMAP_WIDTH
    &&& !s[0]
}

/// Number of leading set flags: how far the base may advance.
pub open spec fn lead_ones(s: Seq<bool>) -> nat
    decreases s.len(),
{
    if s.len() == 0 || !s[0] {
        0
    } else {
        1 + lead_ones(s.subrange(1, s.len() as int))
    }
}

/// The window after its first `k` flags are shifted out; fresh offsets at
/// the top are unacknowledged.
pub open spec fn shift_out(s: Seq<bool>, k: nat) -> Seq<bool>
    recommends
        k <= s.len(),
{
    s.subrange(k as int, s.len() as int) + Seq::new(k, |i: int| false)
}

/// Compaction: advance the base past every leading set flag and shift the
/// window down by the same amount.
pub open spec fn m_compact(m: PsnModel) -> PsnModel {
    PsnModel {
        base: vstd::wrapping::u32_specs::wrapping_add(m.base, lead_ones(m.bits) as u32),
        bits: shift_out(m.bits, lead_ones(m.bits)),
    }
}

/// The window with the flag for `psn` set; a PSN outside the window
/// (behind the base, or too far ahead) leaves it unchanged.
pub open spec fn mark_bit(base: u32, s: Seq<bool>, psn: u32) -> Seq<bool> {
    let d = psn_dist(psn, base);
    if d < BITMAP_WIDTH as u32 {
        s.update(d as int, true)
    } else {
        s
    }
}

/// Acknowledging one PSN, then compacting.
pub open spec fn m_ack_one(m: PsnModel, psn: u32) -> PsnModel {
    m_compact(PsnModel { base: m.base, bits: mark_bit(m.base, m.bits, psn) })
}

/// Bit `i` of a wire bitmap.
pub open spec fn bit_of(bm: u128, i: int) -> bool {
    0 <= i < BITMAP_WIDTH && (bm >> (i as u128)) & 1 == 1
}

/// The window merged with a peer bitmap anchored at `abase`: offset `j`
/// becomes set when bit `psn_dist(base + j, abase)` of the bitmap is set.
pub open spec fn merge_bitmap(base: u32, s: Seq<bool>, abase: u32, abm: u128) -> Seq<bool> {
    Seq::new(
        s.len(),
        |j: int|
            s[j] || {
                let i = psn_dist(
                    vstd::wrapping::u32_specs::wrapping_add(base, j as u32),
                    abase,
                );
                i < BITMAP_WIDTH as u32 && bit_of(abm, i as int)
            },
    )
}

/// Merging a selective-acknowledgment bitmap, then compacting.
pub open spec fn m_ack_bitmap(m: PsnModel, abase: u32, abm: u128) -> PsnModel {
    m_compact(PsnModel { base: m.base, bits: merge_bitmap(m.base, m.bits, abase, abm) })
}

/// `p` lies in the wrapping half-open interval `[lo, hi)`.
pub open spec fn in_wrap_range(p: u32, lo: u32, hi: u32) -> bool {
    psn_dist(p, lo) < psn_dist(hi, lo)
}

/// The window merged with the fully acknowledged interval `[lo, hi)`.
pub open spec fn merge_range(base: u32, s: Seq<bool>, lo: u32, hi: u32) -> Seq<bool> {
    Seq::new(
        s.len(),
        |j: int|
            s[j] || in_wrap_range(
                vstd::wrapping::u32_specs::wrapping_add(base, j as u32),
                lo,
                hi,
            ),
    )
}

/// Acknowledging every PSN in `[lo, hi)`, then compacting.
pub open spec fn m_ack_range(m: PsnModel, lo: u32, hi: u32) -> PsnModel {
    m_compact(PsnModel { base: m.base, bits: merge_range(m.base, m.bits, lo, hi) })
}

/// Cumulative acknowledgment of everything strictly before `psn`: when the
/// base is behind `psn` it jumps there, the window shifts down by the same
/// distance, and compaction absorbs any selective flags now contiguous.
/// A `psn` at or behind the base changes nothing.
pub open spec fn m_ack_before(m: PsnModel, psn: u32) -> PsnModel {
    if spec_psn_lt(m.base, psn) {
        let d = psn_dist(psn, m.base);
        let k: nat = if d < BITMAP_WIDTH as u32 {
            d as nat
        } else {
            BITMAP_WIDTH as nat
        };
        m_compact(PsnModel { base: psn, bits: shift_out(m.bits, k) })
    } else {
        m
    }
}

/// `Some` of the new base when a step moved it, `None` otherwise.
pub open spec fn adv_opt(pre: PsnModel, post: PsnModel) -> Option<u32> {
    if post.base != pre.base {
        Some(post.base)
    } else {
        None
    }
}

pub proof fn lemma_lead_ones_bound(s: Seq<bool>)
    ensures
        lead_ones(s) <= s.len(),
    decreases s.len(),
{
    if s.len() != 0 && s[0] {
        lemma_lead_ones_bound(s.subrange(1, s.len() as int));
    }
}

pub proof fn lemma_lead_ones_char(s: Seq<bool>)
    ensures
        lead_ones(s) <= s.len(),
        forall|i: int| 0 <= i < lead_ones(s) ==> s[i],
        lead_ones(s) < s.len() ==> !s[lead_ones(s) as int],
    decreases s.len(),
{
    lemma_lead_ones_bound(s);
    if s.len() != 0 && s[0] {
        let s1 = s.subrange(1, s.len() as int);
        lemma_lead_ones_char(s1);
        assert forall|i: int| 0 <= i < lead_ones(s) implies s[i] by {
            if i > 0 {
                assert(s1[i - 1]);
            }
        }
    }
}

pub proof fn lemma_lead_ones_exact(s: Seq<bool>, k: nat)
    requires
        k <= s.len(),
        forall|i: int| 0 <= i < k ==> s[i],
        k < s.len() ==> !s[k as int],
    ensures
        lead_ones(s) == k,
    decreases s.len(),
{
    if s.len() != 0 && s[0] {
        let s1 = s.subrange(1, s.len() as int);
        assert(k > 0);
        assert forall|i: int| 0 <= i < k - 1 implies s1[i] by {
            assert(s[i + 1]);
        }
        lemma_lead_ones_exact(s1, (k - 1) as nat);
    }
}

/// A compacted window is well formed and a compacted well-formed window is
/// unchanged.
pub proof fn lemma_compact_wf(m: PsnModel)
    requires
        m.bits.len() == BITMAP_WIDTH,
    ensures
        wf_bits(m_compact(m).bits),
{
    lemma_lead_ones_char(m.bits);
}

pub proof fn lemma_compact_noop(m: PsnModel)
    requires
        wf_bits(m.bits),
    ensures
        m_compact(m) == m,
{
    assert(lead_ones(m.bits) == 0);
    assert(shift_out(m.bits, 0) =~= m.bits);
}

/// Packet sequence tracker; see the module documentation.
pub struct PsnTracker {
    base_psn: u32,
    acked: Vec<bool>,
}

impl PsnTracker {
    /// The mathematical state this tracker realises.
    pub closed spec fn model(self) -> PsnModel {
        PsnModel { base: self.base_psn, bits: self.acked@ }
    }

    /// The tracker's invariant: its flag window is well formed.
    pub open spec fn wf(self) -> bool {
        wf_bits(self.model().bits)
    }

    /// A fresh tracker: base at `base_psn`, nothing selectively acknowledged.
    pub fn new(base_psn: u32) -> (r: Self)
        ensures
            r.wf(),
            r.model().base == base_psn,
            r.model().bits == Seq::new(BITMAP_WIDTH as nat, |i: int| false),
    {
        let mut acked: Vec<bool> = Vec::new();
        let mut j: usize = 0;
        while j < BITMAP_WIDTH
            invariant
                j <= BITMAP_WIDTH,
                acked@.len() == j,
                forall|i: int| 0 <= i < j ==> !acked@[i],
            decreases BITMAP_WIDTH - j,
        {
            acked.push(false);
            j += 1;
        }
        proof {
            assert(acked@ =~= Seq::new(BITMAP_WIDTH as nat, |i: int| false));
        }
        PsnTracker { base_psn, acked }
    }

    /// Shift the flag window down by `k` offsets.
    fn shift_left(&mut self, k: usize)
        requires
            old(self).acked@.len() == BITMAP_WIDTH,
            k <= BITMAP_WIDTH,
        ensures
            final(self).base_psn == old(self).base_psn,
            final(self).acked@ == shift_out(old(self).acked@, k as nat),
    {
        let ghost s0 = self.acked@;
        let mut j: usize = 0;
        while j < BITMAP_WIDTH
            invariant
                j <= BITMAP_WIDTH,
                k <= BITMAP_WIDTH,
                self.base_psn == old(self).base_psn,
                self.acked@.len() == BITMAP_WIDTH,
                s0.len() == BITMAP_WIDTH,
                forall|i: int|
                    0 <= i < j ==> self.acked@[i] == (if i + k < BITMAP_WIDTH {
                        s0[i + k]
                    } else {
                        false
                    }),
                forall|i: int| j <= i < BITMAP_WIDTH ==> self.acked@[i] == s0[i],
            decreases BITMAP_WIDTH - j,
        {
            let v = if j + k < BITMAP_WIDTH {
                self.acked[j + k]
            } else {
                false
            };
            self.acked[j] = v;
            j += 1;
        }
        proof {
            assert(self.acked@ =~= shift_out(s0, k as nat));
        }
    }

    /// Advance the base past every leading acknowledged offset.
    fn compact(&mut self)
        requires
            old(self).acked@.len() == BITMAP_WIDTH,
        ensures
            final(self).wf(),
            final(self).model() == m_compact(old(self).model()),
    {
        let ghost s0 = self.acked@;
        let mut k: usize = 0;
        while k < BITMAP_WIDTH && self.acked[k]
            invariant
                k <= BITMAP_WIDTH,
                self == old(self),
                self.acked@.len() == BITMAP_WIDTH,
                forall|i: int| 0 <= i < k ==> self.acked@[i],
            decreases BITMAP_WIDTH - k,
        {
            k += 1;
        }
        proof {
            lemma_lead_ones_exact(s0, k as nat);
        }
        self.shift_left(k);
        self.base_psn = self.base_psn.wrapping_add(k as u32);
        proof {
            lemma_compact_wf(PsnModel { base: old(self).base_psn, bits: s0 });
        }
    }

    /// The lowest PSN not yet cumulatively acknowledged.
    pub fn base_psn(&self) -> (r: u32)
        ensures
            r == self.model().base,
    {
        self.base_psn
    }

    /// Every PSN up to `psn` is acknowledged: the base is at or past it
    /// under the window comparator.
    pub fn all_acked(&self, psn: u32) -> (r: bool)
        ensures
            r == spec_psn_leq(psn, self.model().base),
    {
        psn_leq(psn, self.base_psn)
    }

    /// Mark a single PSN acknowledged; report the new base when it moved.
    pub fn ack_one(&mut self, psn: u32) -> (r: Option<u32>)
        requires
            old(self).wf(),
        ensures
            final(self).wf(),
            final(self).model() == m_ack_one(old(self).model(), psn),
            r == adv_opt(old(self).model(), final(self).model()),
    {
        let d = psn.wrapping_sub(self.base_psn);
        if d < BITMAP_WIDTH as u32 {
            self.acked[d as usize] = true;
            proof {
                assert(self.acked@ =~= mark_bit(old(self).base_psn, old(self).acked@, psn));
            }
            let old_base = self.base_psn;
            self.compact();
            if self.base_psn != old_base {
                Some(self.base_psn)
            } else {
                None
            }
        } else {
            proof {
                lemma_compact_noop(old(self).model());
            }
            None
        }
    }

    /// Merge a selective-acknowledgment bitmap anchored at `abase`; report
    /// the new base when it moved.
    pub fn ack_bitmap(&mut self, abase: u32, bitmap: u128) -> (r: Option<u32>)
        requires
            old(self).wf(),
        ensures
            final(self).wf(),
            final(self).model() == m_ack_bitmap(old(self).model(), abase, bitmap),
            r == adv_opt(old(self).model(), final(self).model()),
    {
        let ghost s0 = self.acked@;
        let mut j: usize = 0;
        while j < BITMAP_WIDTH
            invariant
                j <= BITMAP_WIDTH,
                self.base_psn == old(self).base_psn,
                self.acked@.len() == BITMAP_WIDTH,
                s0.len() == BITMAP_WIDTH,
                forall|i: int|
                    0 <= i < j ==> self.acked@[i] == merge_bitmap(
                        old(self).base_psn,
                        s0,
                        abase,
                        bitmap,
                    )[i],
                forall|i: int| j <= i < BITMAP_WIDTH ==> self.acked@[i] == s0[i],
            decreases BITMAP_WIDTH - j,
        {
            let p = self.base_psn.wrapping_add(j as u32);
            let i = p.wrapping_sub(abase);
            if i < BITMAP_WIDTH as u32 && ((bitmap >> (i as u128)) & 1) == 1 {
                self.acked[j] = true;
            }
            j += 1;
        }
        proof {
            assert(self.acked@ =~= merge_bitmap(old(self).base_psn, s0, abase, bitmap));
        }
        let old_base = self.base_psn;
        self.compact();
        if self.base_psn != old_base {
            Some(self.base_psn)
        } else {
            None
        }
    }

    /// Acknowledge every PSN in the wrapping interval `[lo, hi)`; report
    /// the new base when it moved.
    pub fn ack_range(&mut self, lo: u32, hi: u32) -> (r: Option<u32>)
        requires
            old(self).wf(),
        ensures
            final(self).wf(),
            final(self).model() == m_ack_range(old(self).model(), lo, hi),
            r == adv_opt(old(self).model(), final(self).model()),
    {
        let ghost s0 = self.acked@;
        let mut j: usize = 0;
        while j < BITMAP_WIDTH
            invariant
                j <= BITMAP_WIDTH,
                self.base_psn == old(self).base_psn,
                self.acked@.len() == BITMAP_WIDTH,
                s0.len() == BITMAP_WIDTH,
                forall|i: int|
                    0 <= i < j ==> self.acked@[i] == merge_range(
                        old(self).base_psn,
                        s0,
                        lo,
                        hi,
                    )[i],
                forall|i: int| j <= i < BITMAP_WIDTH ==> self.acked@[i] == s0[i],
            decreases BITMAP_WIDTH - j,
        {
            let p = self.base_psn.wrapping_add(j as u32);
            if p.wrapping_sub(lo) < hi.wrapping_sub(lo) {
                self.acked[j] = true;
            }
            j += 1;
        }
        proof {
            assert(self.acked@ =~= merge_range(old(self).base_psn, s0, lo, hi));
        }
        let old_base = self.base_psn;
        self.compact();
        if self.base_psn != old_base {
            Some(self.base_psn)
        } else {
            None
        }
    }

    /// Cumulatively acknowledge everything strictly before `psn`; report
    /// the new base when the call advanced it.
    pub fn ack_before(&mut self, psn: u32) -> (r: Option<u32>)
        requires
            old(self).wf(),
        ensures
            final(self).wf(),
            final(self).model() == m_ack_before(old(self).model(), psn),
            r == (if spec_psn_lt(old(self).model().base, psn) {
                Some(final(self).model().base)
            } else {
                None::<u32>
            }),
    {
        if psn_lt(self.base_psn, psn) {
            let d = psn.wrapping_sub(self.base_psn);
            let k = if d < BITMAP_WIDTH as u32 {
                d as usize
            } else {
                BITMAP_WIDTH
            };
            self.shift_left(k);
            self.base_psn = psn;
            self.compact();
            Some(self.base_psn)
        } else {
            None
        }
    }
}

} // verus!
