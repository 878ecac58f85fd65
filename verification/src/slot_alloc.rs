//! Fixed-size slot allocator over one contiguous memory region.
//!
//! The region is divided into equal slots handed out by byte offset from a
//! free list.  Deallocation validates the returned buffer — its length
//! must be one slot and its offset a slot boundary inside the region —
//! and reports a mismatch as a plain failure; an accepted slot is zeroed
//! before it returns to the free list.

use vstd::prelude::*;

use vstd::arithmetic::div_mod::lemma_fundamental_div_mod;
use vstd::arithmetic::mul::lemma_mul_inequality;

verus! {

/// A slot number can address its slot: slots `0 .. len / size` of `size`
/// bytes each fit inside a region of `len` bytes.
proof fn lemma_slot_bound(sn: int, size: int, len: int)
    requires
        size >= 1,
        0 <= sn,
        sn < len / size,
        len >= 0,
    ensures
        (sn + 1) * size <= len,
        sn * size + size <= len,
        sn * size <= len,
{
    lemma_fundamental_div_mod(len, size);
    lemma_mul_inequality(sn + 1, len / size, size);
    vstd::arithmetic::mul::lemma_mul_is_distributive_add_other_way(size, sn, 1);
}

/// Slot allocator; see the module documentation.
pub struct SlotAlloc {
    mem: Vec<u8>,
    slot_size: usize,
    free_list: Vec<usize>,
}

impl SlotAlloc {
    /// The managed memory region.
    pub closed spec fn spec_mem(self) -> Seq<u8> {
        self.mem@
    }

    /// Size of one slot in bytes.
    pub closed spec fn spec_slot_size(self) -> usize {
        self.slot_size
    }

    /// Slot numbers currently free, next to be handed out last.
    pub closed spec fn spec_free(self) -> Seq<usize> {
        self.free_list@
    }

    /// How many slots the region holds.
    pub open spec fn spec_num_slots(self) -> int {
        self.spec_mem().len() as int / self.spec_slot_size() as int
    }

    pub open spec fn wf(self) -> bool {
        &&& self.spec_slot_size() >= 1
        &&& forall|i: int| 0 <= i < self.spec_free().len() ==> self.spec_free()[i] < self.spec_num_slots()
        &&& forall|i: int, j: int|
            0 <= i < j < self.spec_free().len() ==> self.spec_free()[i] != self.spec_free()[j]
    }

    /// An allocator over `mem` with `slot_size`-byte slots; every slot
    /// starts free.
    pub fn new(mem: Vec<u8>, slot_size: usize) -> (r: Self)
        requires
            slot_size >= 1,
        ensures
            r.wf(),
            r.spec_mem() == mem@,
            r.spec_slot_size() == slot_size,
            r.spec_free() == Seq::new(
                (mem@.len() as int / slot_size as int) as nat,
                |i: int| i as usize,
            ),
    {
        let num_slots = mem.len() / slot_size;
        let mut free_list: Vec<usize> = Vec::new();
        let mut j: usize = 0;
        while j < num_slots
            invariant
                j <= num_slots,
                free_list@.len() == j,
                forall|i: int| 0 <= i < j ==> free_list@[i] == i as usize,
            decreases num_slots - j,
        {
            free_list.push(j);
            j += 1;
        }
        proof {
            assert(free_list@ =~= Seq::new(
                (mem@.len() as int / slot_size as int) as nat,
                |i: int| i as usize,
            ));
        }
        SlotAlloc { mem, slot_size, free_list }
    }

    /// There is a slot left to hand out.
    pub fn has_free_slot(&self) -> (r: bool)
        ensures
            r == (self.spec_free().len() > 0),
    {
        self.free_list.len() > 0
    }

    /// How many slots the region holds in total.
    pub fn num_slots_total(&self) -> (r: usize)
        requires
            self.wf(),
        ensures
            r == self.spec_num_slots(),
    {
        self.mem.len() / self.slot_size
    }

    /// The highest slot number, or zero for an empty region.
    pub fn slot_num_max(&self) -> (r: usize)
        requires
            self.wf(),
        ensures
            r == (if self.spec_num_slots() > 0 {
                self.spec_num_slots() - 1
            } else {
                0
            }),
    {
        let total = self.num_slots_total();
        if total > 0 {
            total - 1
        } else {
            0
        }
    }

    /// Size of one slot in bytes.
    pub fn slot_size(&self) -> (r: usize)
        ensures
            r == self.spec_slot_size(),
    {
        self.slot_size
    }

    /// Hand out a free slot, as the byte offset of its start in the
    /// region; refused when every slot is taken.
    pub fn alloc_one(&mut self) -> (r: Option<usize>)
        requires
            old(self).wf(),
        ensures
            final(self).wf(),
            final(self).spec_mem() == old(self).spec_mem(),
            final(self).spec_slot_size() == old(self).spec_slot_size(),
            match r {
                None => old(self).spec_free().len() == 0 && final(self).spec_free() == old(
                    self,
                ).spec_free(),
                Some(offset) => {
                    let n = old(self).spec_free().len() as int;
                    &&& n > 0
                    &&& offset == old(self).spec_free()[n - 1] * old(self).spec_slot_size()
                    &&& offset + old(self).spec_slot_size() <= old(self).spec_mem().len()
                    &&& final(self).spec_free() == old(self).spec_free().subrange(0, n - 1)
                },
            },
    {
        let sn = match self.free_list.pop() {
            Some(sn) => sn,
            None => {
                return None;
            },
        };
        let region_len = self.mem.len();
        proof {
            assert(sn < old(self).spec_num_slots());
            lemma_slot_bound(sn as int, self.slot_size as int, region_len as int);
            assert forall|i: int, j: int|
                0 <= i < j < self.spec_free().len() implies self.spec_free()[i]
                != self.spec_free()[j] by {
                assert(old(self).spec_free()[i] != old(self).spec_free()[j]);
            }
        }
        Some(sn * self.slot_size)
    }

    /// The slot number is already on the free list.
    fn is_free(&self, sn: usize) -> (r: bool)
        ensures
            r == self.spec_free().contains(sn),
    {
        let mut i: usize = 0;
        while i < self.free_list.len()
            invariant
                i <= self.spec_free().len(),
                forall|j: int| 0 <= j < i ==> self.spec_free()[j] != sn,
            decreases self.spec_free().len() - i,
        {
            if self.free_list[i] == sn {
                proof {
                    assert(self.spec_free()[i as int] == sn);
                }
                return true;
            }
            i += 1;
        }
        proof {
            assert(!self.spec_free().contains(sn)) by {
                if self.spec_free().contains(sn) {
                    let w = choose|w: int| 0 <= w < self.spec_free().len() && self.spec_free()[w]
                        == sn;
                    assert(self.spec_free()[w] != sn);
                }
            }
        }
        false
    }

    /// Take a slot back.  The buffer must be exactly one slot long, start
    /// on a slot boundary inside the region, and not already be free;
    /// anything else is refused.  An accepted slot is zeroed and returned
    /// to the free list.
    pub fn dealloc(&mut self, offset: usize, len: usize) -> (r: bool)
        requires
            old(self).wf(),
        ensures
            final(self).wf(),
            final(self).spec_slot_size() == old(self).spec_slot_size(),
            r == (len == old(self).spec_slot_size() && offset as int % old(
                self,
            ).spec_slot_size() as int == 0 && (offset as int / old(self).spec_slot_size() as int)
                < old(self).spec_num_slots() && !old(self).spec_free().contains(
                (offset / old(self).spec_slot_size()) as usize,
            )),
            if r {
                &&& final(self).spec_free() == old(self).spec_free().push(
                    (offset / old(self).spec_slot_size()) as usize,
                )
                &&& final(self).spec_mem() == Seq::new(
                    old(self).spec_mem().len(),
                    |i: int|
                        if offset <= i < offset + old(self).spec_slot_size() {
                            0u8
                        } else {
                            old(self).spec_mem()[i]
                        },
                )
            } else {
                &&& final(self).spec_free() == old(self).spec_free()
                &&& final(self).spec_mem() == old(self).spec_mem()
            },
    {
        if len != self.slot_size {
            return false;
        }
        if offset % self.slot_size != 0 {
            return false;
        }
        let sn = offset / self.slot_size;
        let total = self.mem.len() / self.slot_size;
        if sn >= total {
            return false;
        }
        if self.is_free(sn) {
            return false;
        }
        proof {
            lemma_slot_bound(sn as int, self.slot_size as int, self.mem@.len() as int);
            assert(sn * self.slot_size == offset) by {
                lemma_fundamental_div_mod(offset as int, self.slot_size as int);
            }
            assert(offset + self.slot_size <= self.mem@.len());
        }
        let ghost m0 = self.mem@;
        let end = offset + self.slot_size;
        let mut i: usize = offset;
        while i < end
            invariant
                offset <= i <= end,
                end <= self.mem@.len(),
                self.mem@.len() == m0.len(),
                self.slot_size == old(self).slot_size,
                self.free_list == old(self).free_list,
                forall|j: int| offset <= j < i ==> self.mem@[j] == 0u8,
                forall|j: int| 0 <= j < m0.len() && !(offset <= j < i) ==> self.mem@[j] == m0[j],
            decreases end - i,
        {
            self.mem[i] = 0;
            i += 1;
        }
        proof {
            assert(self.mem@ =~= Seq::new(
                m0.len(),
                |j: int|
                    if offset <= j < offset + old(self).spec_slot_size() {
                        0u8
                    } else {
                        m0[j]
                    },
            ));
        }
        self.free_list.push(sn);
        proof {
            let n = self.spec_free().len() as int;
            assert forall|i: int| 0 <= i < n implies self.spec_free()[i]
                < self.spec_num_slots() by {
                if i < n - 1 {
                    assert(old(self).spec_free()[i] < old(self).spec_num_slots());
                }
            }
            assert forall|i: int, j: int|
                0 <= i < j < n implies self.spec_free()[i] != self.spec_free()[j] by {
                if j < n - 1 {
                    assert(old(self).spec_free()[i] != old(self).spec_free()[j]);
                } else {
                    assert(self.spec_free()[j] == sn);
                    assert(!old(self).spec_free().contains(sn as usize));
                    assert(old(self).spec_free()[i] != sn);
                }
            }
        }
        true
    }
}

} // verus!
