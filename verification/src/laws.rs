//! Laws of the acknowledgment trackers, proved over their model-level
//! step functions: acknowledgment replay changes nothing, the base only
//! moves forward, cumulative acknowledgment is complete, and selective
//! flags compact forward once the gap before them closes.

use vstd::prelude::*;

use crate::constants::BITMAP_WIDTH;
use crate::constants::MAX_PSN_WINDOW;
use crate::qp::next_ok;
use crate::psn_tracker::bit_of;
use crate::psn_tracker::lead_ones;
use crate::psn_tracker::lemma_compact_noop;
use crate::psn_tracker::lemma_compact_wf;
use crate::psn_tracker::lemma_lead_ones_char;
use crate::psn_tracker::lemma_lead_ones_exact;
use crate::psn_tracker::m_ack_before;
use crate::psn_tracker::m_ack_bitmap;
use crate::psn_tracker::m_ack_one;
use crate::psn_tracker::m_ack_range;
use crate::psn_tracker::mark_bit;
use crate::psn_tracker::merge_bitmap;
use crate::psn_tracker::merge_range;
use crate::psn_tracker::shift_out;
use crate::psn_tracker::wf_bits;
use crate::psn_tracker::PsnModel;
use crate::seqnum::psn_dist;
use crate::seqnum::spec_psn_gt;
use crate::seqnum::spec_psn_leq;
use crate::seqnum::spec_psn_lt;

verus! {

/// Shorthand for wrapping addition in the packet sequence space.
pub open spec fn wadd(a: u32, n: u32) -> u32 {
    vstd::wrapping::u32_specs::wrapping_add(a, n)
}

/// Distance distributes over a wrapping advance of the first argument.
proof fn lemma_dist_wadd(a: u32, b: u32, n: u32)
    ensures
        psn_dist(wadd(a, n), b) == (if psn_dist(a, b) + n <= u32::MAX {
            psn_dist(a, b) + n
        } else {
            psn_dist(a, b) + n - 0x1_0000_0000
        }),
{
}

/// Distance distributes over a wrapping advance of the second argument.
proof fn lemma_dist_shift(a: u32, b: u32, n: u32)
    ensures
        psn_dist(a, wadd(b, n)) == (if psn_dist(a, b) >= n {
            psn_dist(a, b) - n
        } else {
            psn_dist(a, b) + 0x1_0000_0000 - n
        }),
{
}

/// Two small wrapping advances compose.
proof fn lemma_wadd_assoc(b: u32, x: u32, y: u32)
    requires
        x + y <= u32::MAX,
    ensures
        wadd(wadd(b, x), y) == wadd(b, (x + y) as u32),
{
}

/// COMPLETENESS OF CUMULATIVE ACKNOWLEDGMENT: after everything strictly
/// before `psn` is cumulatively acknowledged, every PSN strictly behind
/// `psn` under the window comparator is at or behind the new base — the
/// tracker answers that it is fully acknowledged.
pub proof fn lemma_ack_before_complete(m: PsnModel, psn: u32, p: u32)
    requires
        wf_bits(m.bits),
        spec_psn_gt(psn, p),
    ensures
        spec_psn_leq(p, m_ack_before(m, psn).base),
{
    let dpp = psn_dist(psn, p);
    if spec_psn_lt(m.base, psn) {
        let d = psn_dist(psn, m.base);
        let k: nat = if d < BITMAP_WIDTH as u32 {
            d as nat
        } else {
            BITMAP_WIDTH as nat
        };
        let shifted = shift_out(m.bits, k);
        let lead = lead_ones(shifted);
        lemma_lead_ones_char(shifted);
        lemma_dist_wadd(psn, p, lead as u32);
        assert(m_ack_before(m, psn).base == wadd(psn, lead as u32));
    } else {
        let dbp = psn_dist(m.base, psn);
        lemma_dist_wadd(m.base, p, 0);
        assert(psn_dist(m.base, p) == (if dbp + dpp <= u32::MAX {
            dbp + dpp
        } else {
            dbp + dpp - 0x1_0000_0000
        })) by {
            lemma_dist_wadd(psn, p, dbp);
            assert(wadd(psn, dbp) == m.base) by {
                lemma_dist_shift(m.base, psn, dbp);
                lemma_dist_wadd(psn, psn, dbp);
            }
        }
    }
}

/// SELECTIVE-THEN-CUMULATIVE COMPACTION: on a clean tracker, bitmap
/// acknowledgments for the `k` PSNs directly after the base followed by an
/// acknowledgment of the base itself advance the base past the whole run,
/// `k + 1` PSNs forward, leaving no selective flag behind.
pub proof fn lemma_selective_then_cumulative(m: PsnModel, abm: u128, k: nat)
    requires
        m.bits == Seq::new(BITMAP_WIDTH as nat, |i: int| false),
        1 <= k <= 126,
        forall|i: int| bit_of(abm, i) <==> 1 <= i <= k,
    ensures
        m_ack_bitmap(m, m.base, abm).base == m.base,
        m_ack_one(m_ack_bitmap(m, m.base, abm), m.base).base == wadd(m.base, (k + 1) as u32),
        m_ack_one(m_ack_bitmap(m, m.base, abm), m.base).bits == Seq::new(
            BITMAP_WIDTH as nat,
            |i: int| false,
        ),
{
    let merged = merge_bitmap(m.base, m.bits, m.base, abm);
    assert forall|j: int| 0 <= j < BITMAP_WIDTH implies merged[j] == (1 <= j <= k) by {
        lemma_dist_wadd(m.base, m.base, j as u32);
        assert(psn_dist(wadd(m.base, j as u32), m.base) == j);
    }
    lemma_lead_ones_exact(merged, 0);
    assert(shift_out(merged, 0) =~= merged);
    let m1 = m_ack_bitmap(m, m.base, abm);
    assert(m1 == PsnModel { base: m.base, bits: merged });
    assert(psn_dist(m.base, m1.base) == 0);
    let marked = mark_bit(m1.base, m1.bits, m.base);
    assert(marked =~= merged.update(0, true));
    assert forall|i: int| 0 <= i < k + 1 implies marked[i] by {}
    assert(!marked[(k + 1) as int]);
    lemma_lead_ones_exact(marked, k + 1);
    let m2 = m_ack_one(m1, m.base);
    assert(m2.base == wadd(m.base, (k + 1) as u32));
    assert(m2.bits =~= Seq::new(BITMAP_WIDTH as nat, |i: int| false));
}

/// IDEMPOTENCE OF SINGLE-PSN ACKNOWLEDGMENT: acknowledging a PSN that was
/// already processed changes nothing.
pub proof fn lemma_ack_one_idempotent(m: PsnModel, psn: u32)
    requires
        wf_bits(m.bits),
    ensures
        m_ack_one(m_ack_one(m, psn), psn) == m_ack_one(m, psn),
{
    let d0 = psn_dist(psn, m.base);
    let m1 = m_ack_one(m, psn);
    if d0 >= BITMAP_WIDTH as u32 {
        lemma_compact_noop(m);
        assert(m1 == m);
        lemma_compact_noop(m1);
    } else {
        let marked = mark_bit(m.base, m.bits, psn);
        let k: nat = lead_ones(marked);
        lemma_lead_ones_char(marked);
        lemma_compact_wf(PsnModel { base: m.base, bits: marked });
        assert(m1 == PsnModel { base: wadd(m.base, k as u32), bits: shift_out(marked, k) });
        lemma_dist_shift(psn, m.base, k as u32);
        let d1 = psn_dist(psn, m1.base);
        if k > d0 {
            assert(d1 == d0 + 0x1_0000_0000 - k);
            assert(d1 >= BITMAP_WIDTH as u32);
            lemma_compact_noop(m1);
        } else {
            assert(k < d0) by {
                if k == d0 {
                    assert(marked[d0 as int]);
                    assert(!marked[k as int]);
                }
            }
            assert(d1 == d0 - k);
            assert(m1.bits[d1 as int] == marked[d0 as int]);
            assert(mark_bit(m1.base, m1.bits, psn) =~= m1.bits);
            lemma_compact_noop(m1);
        }
    }
}

/// IDEMPOTENCE OF BITMAP ACKNOWLEDGMENT: merging the same selective
/// bitmap a second time changes nothing.
pub proof fn lemma_ack_bitmap_idempotent(m: PsnModel, abase: u32, abm: u128)
    requires
        wf_bits(m.bits),
    ensures
        m_ack_bitmap(m_ack_bitmap(m, abase, abm), abase, abm) == m_ack_bitmap(m, abase, abm),
{
    let merged = merge_bitmap(m.base, m.bits, abase, abm);
    let k: nat = lead_ones(merged);
    lemma_lead_ones_char(merged);
    lemma_compact_wf(PsnModel { base: m.base, bits: merged });
    let m1 = m_ack_bitmap(m, abase, abm);
    assert(m1 == PsnModel { base: wadd(m.base, k as u32), bits: shift_out(merged, k) });
    let merged1 = merge_bitmap(m1.base, m1.bits, abase, abm);
    assert forall|j: int| 0 <= j < BITMAP_WIDTH implies merged1[j] == m1.bits[j] by {
        lemma_wadd_assoc(m.base, k as u32, j as u32);
        assert(wadd(m1.base, j as u32) == wadd(m.base, (k + j) as u32));
        if j + k < BITMAP_WIDTH {
            lemma_dist_wadd(m.base, abase, (k + j) as u32);
            lemma_dist_wadd(m.base, abase, ((k + j) as u32));
        } else {
            assert(k > 0);
            assert(merged[0]);
            assert(!m.bits[0]);
            let i00 = psn_dist(m.base, abase);
            assert(wadd(m.base, 0u32) == m.base);
            assert(i00 < BITMAP_WIDTH as u32 && bit_of(abm, i00 as int));
            lemma_dist_wadd(m.base, abase, (k + j) as u32);
            assert(psn_dist(wadd(m.base, (k + j) as u32), abase) == i00 + k + j);
            assert(i00 + k + j >= BITMAP_WIDTH);
        }
    }
    assert(merged1 =~= m1.bits);
    lemma_compact_noop(m1);
}

/// An empty implied interval acknowledges nothing.
pub proof fn lemma_ack_range_empty(m: PsnModel, lo: u32)
    requires
        wf_bits(m.bits),
    ensures
        m_ack_range(m, lo, lo) == m,
{
    assert(merge_range(m.base, m.bits, lo, lo) =~= m.bits);
    lemma_compact_noop(m);
}

/// IDEMPOTENCE OF A FULL ACKNOWLEDGMENT REPORT: digesting the same
/// report — implied interval from the previously reported base, then the
/// bitmap — a second time changes neither the tracker nor the
/// reported-base cursor.  The report is one that moves the cursor
/// forward, as every fresh report does.
pub proof fn lemma_ack_report_replay(m: PsnModel, pre: u32, base: u32, bm: u128)
    requires
        wf_bits(m.bits),
        spec_psn_lt(pre, base) || pre == base,
    ensures
        ({
            let m1 = m_ack_range(m, pre, base);
            let m2 = m_ack_bitmap(m1, base, bm);
            let pre2: u32 = if spec_psn_lt(pre, base) {
                base
            } else {
                pre
            };
            &&& m_ack_bitmap(m_ack_range(m2, pre2, base), base, bm) == m2
            &&& (if spec_psn_lt(pre2, base) {
                base
            } else {
                pre2
            }) == pre2
        }),
{
    let m1 = m_ack_range(m, pre, base);
    lemma_compact_wf(PsnModel { base: m.base, bits: merge_range(m.base, m.bits, pre, base) });
    let m2 = m_ack_bitmap(m1, base, bm);
    lemma_compact_wf(PsnModel { base: m1.base, bits: merge_bitmap(m1.base, m1.bits, base, bm) });
    lemma_ack_range_empty(m2, base);
    lemma_ack_bitmap_idempotent(m1, base, bm);
}

/// The selective window respects the live window: no flag more than the
/// window width ahead of the base.  Callers guarantee this by keeping all
/// live sequence numbers within one window (the allocation check
/// enforces it on the send side).
pub open spec fn m_windowed(m: PsnModel) -> bool {
    forall|j: int| MAX_PSN_WINDOW <= j < BITMAP_WIDTH ==> !m.bits[j]
}

/// A windowed flag sequence never compacts further than the window width.
proof fn lemma_windowed_lead(s: Seq<bool>)
    requires
        s.len() == BITMAP_WIDTH,
        forall|j: int| MAX_PSN_WINDOW <= j < BITMAP_WIDTH ==> !s[j],
    ensures
        lead_ones(s) <= MAX_PSN_WINDOW,
{
    lemma_lead_ones_char(s);
    if lead_ones(s) > MAX_PSN_WINDOW {
        assert(s[MAX_PSN_WINDOW as int]);
    }
}

/// An advance of at most one window width never moves the base backward
/// under the window comparator.
proof fn lemma_small_advance_monotonic(b: u32, n: u32)
    requires
        n <= MAX_PSN_WINDOW,
    ensures
        spec_psn_leq(b, wadd(b, n)),
{
    lemma_dist_shift(b, b, n);
}

/// MONOTONICITY under single-PSN acknowledgment: for a PSN inside the
/// live window (or stale beyond the flag window), the base only moves
/// forward under the window comparator, and the window discipline is
/// preserved.
pub proof fn lemma_ack_one_monotonic(m: PsnModel, psn: u32)
    requires
        wf_bits(m.bits),
        m_windowed(m),
        psn_dist(psn, m.base) < MAX_PSN_WINDOW || psn_dist(psn, m.base) >= BITMAP_WIDTH as u32,
    ensures
        spec_psn_leq(m.base, m_ack_one(m, psn).base),
        m_windowed(m_ack_one(m, psn)),
        wf_bits(m_ack_one(m, psn).bits),
{
    let d0 = psn_dist(psn, m.base);
    let marked = mark_bit(m.base, m.bits, psn);
    let k: nat = lead_ones(marked);
    lemma_lead_ones_char(marked);
    lemma_compact_wf(PsnModel { base: m.base, bits: marked });
    lemma_windowed_lead(marked);
    lemma_small_advance_monotonic(m.base, k as u32);
}

/// Every PSN the bitmap reports lies inside the live window or behind the
/// flag window — the window discipline for inbound selective reports.
pub open spec fn bitmap_windowed(mbase: u32, abase: u32, abm: u128) -> bool {
    forall|i: int|
        bit_of(abm, i) ==> psn_dist(wadd(abase, i as u32), mbase) < MAX_PSN_WINDOW || psn_dist(
            wadd(abase, i as u32),
            mbase,
        ) >= BITMAP_WIDTH as u32
}

/// The base sits where its distance from a reference point says it does.
proof fn lemma_wadd_dist_inverse(p: u32, q: u32)
    ensures
        wadd(q, psn_dist(p, q)) == p,
{
}

/// MONOTONICITY under bitmap acknowledgment: for a bitmap whose reported
/// PSNs respect the window discipline, the base only moves forward and
/// the discipline is preserved.
pub proof fn lemma_ack_bitmap_monotonic(m: PsnModel, abase: u32, abm: u128)
    requires
        wf_bits(m.bits),
        m_windowed(m),
        bitmap_windowed(m.base, abase, abm),
    ensures
        spec_psn_leq(m.base, m_ack_bitmap(m, abase, abm).base),
        m_windowed(m_ack_bitmap(m, abase, abm)),
        wf_bits(m_ack_bitmap(m, abase, abm).bits),
{
    let merged = merge_bitmap(m.base, m.bits, abase, abm);
    assert forall|j: int| MAX_PSN_WINDOW <= j < BITMAP_WIDTH implies !merged[j] by {
        let p = wadd(m.base, j as u32);
        lemma_dist_wadd(m.base, m.base, j as u32);
        assert(psn_dist(p, m.base) == j);
        let i = psn_dist(p, abase);
        if i < BITMAP_WIDTH as u32 && bit_of(abm, i as int) {
            lemma_wadd_dist_inverse(p, abase);
            assert(wadd(abase, i) == p);
        }
    }
    let k: nat = lead_ones(merged);
    lemma_lead_ones_char(merged);
    lemma_compact_wf(PsnModel { base: m.base, bits: merged });
    lemma_windowed_lead(merged);
    lemma_small_advance_monotonic(m.base, k as u32);
}

/// MONOTONICITY under interval acknowledgment: for an implied interval
/// lying inside the live window, the base only moves forward and the
/// discipline is preserved.
pub proof fn lemma_ack_range_monotonic(m: PsnModel, lo: u32, hi: u32)
    requires
        wf_bits(m.bits),
        m_windowed(m),
        psn_dist(lo, m.base) <= psn_dist(hi, m.base),
        psn_dist(hi, m.base) <= MAX_PSN_WINDOW,
    ensures
        spec_psn_leq(m.base, m_ack_range(m, lo, hi).base),
        m_windowed(m_ack_range(m, lo, hi)),
        wf_bits(m_ack_range(m, lo, hi).bits),
{
    let dlo = psn_dist(lo, m.base);
    let dhi = psn_dist(hi, m.base);
    let merged = merge_range(m.base, m.bits, lo, hi);
    assert forall|j: int| MAX_PSN_WINDOW <= j < BITMAP_WIDTH implies !merged[j] by {
        let p = wadd(m.base, j as u32);
        lemma_dist_wadd(m.base, m.base, j as u32);
        assert(psn_dist(p, m.base) == j);
        lemma_wadd_dist_inverse(lo, m.base);
        lemma_wadd_dist_inverse(hi, m.base);
        lemma_dist_shift(p, m.base, dlo);
        assert(psn_dist(p, lo) == j - dlo);
        lemma_dist_shift(hi, m.base, dlo);
        assert(psn_dist(hi, lo) == dhi - dlo);
    }
    let k: nat = lead_ones(merged);
    lemma_lead_ones_char(merged);
    lemma_compact_wf(PsnModel { base: m.base, bits: merged });
    lemma_windowed_lead(merged);
    lemma_small_advance_monotonic(m.base, k as u32);
}

/// MONOTONICITY under cumulative acknowledgment: for a target inside the
/// live window (or one the comparator already places at or behind the
/// base), the base only moves forward and the discipline is preserved.
pub proof fn lemma_ack_before_monotonic(m: PsnModel, psn: u32)
    requires
        wf_bits(m.bits),
        m_windowed(m),
        psn_dist(psn, m.base) <= MAX_PSN_WINDOW || !spec_psn_lt(m.base, psn),
    ensures
        spec_psn_leq(m.base, m_ack_before(m, psn).base),
        m_windowed(m_ack_before(m, psn)),
        wf_bits(m_ack_before(m, psn).bits),
{
    if spec_psn_lt(m.base, psn) {
        let d = psn_dist(psn, m.base);
        assert(1 <= d <= MAX_PSN_WINDOW);
        let shifted = shift_out(m.bits, d as nat);
        assert forall|j: int| MAX_PSN_WINDOW - d <= j < BITMAP_WIDTH implies !shifted[j] by {
            if j + d < BITMAP_WIDTH {
                assert(!m.bits[j + d]);
            }
        }
        let k: nat = lead_ones(shifted);
        lemma_lead_ones_char(shifted);
        assert(k <= MAX_PSN_WINDOW - d) by {
            if k > MAX_PSN_WINDOW - d {
                assert(shifted[MAX_PSN_WINDOW - d as int]);
            }
        }
        lemma_compact_wf(PsnModel { base: psn, bits: shifted });
        lemma_wadd_dist_inverse(psn, m.base);
        lemma_wadd_assoc(m.base, d, k as u32);
        assert(m_ack_before(m, psn).base == wadd(m.base, (d + k) as u32));
        lemma_small_advance_monotonic(m.base, (d + k) as u32);
    } else {
        lemma_dist_shift(m.base, m.base, 0);
    }
}

/// WINDOW ENFORCEMENT: an allocation the admissibility check grants
/// leaves the outstanding span — the distance from the acknowledgment
/// base to the new cursor — within the window; one that would exceed it
/// is never admissible, and `State::next`'s contract says a refused call
/// changes nothing.
pub proof fn lemma_window_enforced(msn: u16, psn: u32, base_psn: u32, base_msn: u16, num_psn: u32)
    ensures
        next_ok(msn, psn, base_psn, base_msn, num_psn) ==> psn_dist(wadd(psn, num_psn), base_psn)
            <= MAX_PSN_WINDOW,
        psn_dist(psn, base_psn) + num_psn > MAX_PSN_WINDOW ==> !next_ok(
            msn,
            psn,
            base_psn,
            base_msn,
            num_psn,
        ),
{
    lemma_dist_wadd(psn, base_psn, num_psn);
}

} // verus!
