use soft_rdma::slot_alloc::SlotAlloc;

#[test]
fn slot_alloc_dealloc_ok() {
    let mem = vec![0u8; 1024];
    let mut alloc = SlotAlloc::new(mem, 16);
    let slot_size = alloc.slot_size();
    let total = alloc.num_slots_total();
    assert_eq!(slot_size, 16);
    assert_eq!(total, 1024 / 16);
    assert!(alloc.has_free_slot());
    let slot = alloc.alloc_one().unwrap();
    let slot1 = alloc.alloc_one().unwrap();
    let _ = (slot, slot1);
}

#[test]
fn alloc_hands_out_distinct_slots() {
    let mem = vec![0u8; 64];
    let mut alloc = SlotAlloc::new(mem, 16);
    let a = alloc.alloc_one().unwrap();
    let b = alloc.alloc_one().unwrap();
    let c = alloc.alloc_one().unwrap();
    let d = alloc.alloc_one().unwrap();
    assert_eq!(alloc.alloc_one(), None);
    let mut offs = vec![a, b, c, d];
    offs.sort();
    assert_eq!(offs, vec![0, 16, 32, 48]);
}

#[test]
fn dealloc_rejects_mismatched_buffers() {
    let mem = vec![0u8; 64];
    let mut alloc = SlotAlloc::new(mem, 16);
    let off = alloc.alloc_one().unwrap();
    // Wrong length.
    assert!(!alloc.dealloc(off, 8));
    // Misaligned offset.
    assert!(!alloc.dealloc(off + 1, 16));
    // Out of range.
    assert!(!alloc.dealloc(1024, 16));
    // Exact buffer is accepted.
    assert!(alloc.dealloc(off, 16));
    // Returning the same slot twice is refused.
    assert!(!alloc.dealloc(off, 16));
}

#[test]
fn dealloc_frees_exactly_one_slot_for_reuse() {
    let mem = vec![0u8; 32];
    let mut alloc = SlotAlloc::new(mem, 16);
    let a = alloc.alloc_one().unwrap();
    let _b = alloc.alloc_one().unwrap();
    assert!(!alloc.has_free_slot());
    assert!(alloc.dealloc(a, 16));
    assert!(alloc.has_free_slot());
    let again = alloc.alloc_one().unwrap();
    assert_eq!(again, a);
    assert!(!alloc.has_free_slot());
}

#[test]
fn slot_num_max_is_total_minus_one() {
    let mem = vec![0u8; 1024];
    let alloc = SlotAlloc::new(mem, 256);
    assert_eq!(alloc.num_slots_total(), 4);
    assert_eq!(alloc.slot_num_max(), 3);
}
