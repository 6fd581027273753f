//! The sparse dump of a heap, for tracing.
use std::collections::BTreeMap;
use vstd::prelude::*;
use crate::machine::{heap_dump_spec, heap_dump_upto};

verus! {

broadcast use vstd::laws_cmp::group_laws_cmp;

/// The non-zero cells of a heap, by address.
pub fn heap_dump(heap: &Vec<i32>) -> (dump: BTreeMap<usize, i32>)
    ensures
        dump@ == heap_dump_spec(heap@),
{
    let mut dump: BTreeMap<usize, i32> = BTreeMap::new();
    let mut addr: usize = 0;
    assert(dump@ =~= heap_dump_upto(heap@, addr));
    while addr < heap.len()
        invariant
            addr <= heap.len(),
            dump@ == heap_dump_upto(heap@, addr),
        decreases heap.len() - addr,
    {
        let val: i32 = heap[addr];
        if val != 0 {
            dump.insert(addr, val);
        }
        addr += 1;
        assert(dump@ =~= heap_dump_upto(heap@, addr));
    }
    assert(dump@ =~= heap_dump_spec(heap@));
    dump
}

} // verus!
