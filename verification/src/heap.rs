//! The machine's heap: an append-only store of words.

use vstd::prelude::*;
use crate::fault::VmFault;

verus! {

/// The number of words a heap made by [`Heap::new`] may hold.
pub const DEFAULT_HEAP_LIMIT: usize = 1048576;

/// A bump allocator over a growable sequence of words.
///
/// An address is an index into `memory`. Allocation appends zeroed words and
/// never moves or frees earlier ones, so an address stays valid for the life
/// of the heap. `limit` caps the total number of words.
pub struct Heap {
    pub memory: Vec<u64>,
    pub limit: usize,
}

/// `size` zero words.
pub open spec fn zeros(size: nat) -> Seq<u64> {
    Seq::new(size, |i: int| 0u64)
}

/// The heap contents after allocating `size` words: the old words, then `size` zeros.
pub open spec fn spec_allocate(memory: Seq<u64>, size: nat) -> Seq<u64> {
    memory + zeros(size)
}

/// What reading `address` yields.
pub open spec fn spec_get(memory: Seq<u64>, address: int) -> Result<u64, VmFault> {
    if 0 <= address < memory.len() {
        Ok(memory[address])
    } else {
        Err(VmFault::HeapAddressOutOfRange)
    }
}

/// The heap contents after writing `value` at `address`.
pub open spec fn spec_put(memory: Seq<u64>, address: int, value: u64) -> Result<Seq<u64>, VmFault> {
    if 0 <= address < memory.len() {
        Ok(memory.update(address, value))
    } else {
        Err(VmFault::HeapAddressOutOfRange)
    }
}

/// A word that was written is read back unchanged, and a write changes no
/// other word and never the size of the heap.
pub proof fn lemma_put_then_get(memory: Seq<u64>, address: int, value: u64, other: int)
    requires
        spec_put(memory, address, value) is Ok,
    ensures
        spec_get(spec_put(memory, address, value)->Ok_0, address) == Ok::<u64, VmFault>(value),
        other != address ==> spec_get(spec_put(memory, address, value)->Ok_0, other) == spec_get(
            memory,
            other,
        ),
        spec_put(memory, address, value)->Ok_0.len() == memory.len(),
{
}

/// Successive allocations return rising addresses of blocks that do not
/// overlap: a block begins where the heap ended, the next begins where the
/// block ends, and so strictly later unless the block is empty. What the
/// heap held before an allocation it holds after it, and the new block is zero.
pub proof fn lemma_allocations_rise(memory: Seq<u64>, first: nat, second: nat)
    ensures
        ({
            let grown = spec_allocate(memory, first);
            let again = spec_allocate(grown, second);
            &&& grown.len() == memory.len() + first
            &&& again.len() == grown.len() + second
            &&& first > 0 ==> memory.len() < grown.len()
            &&& memory.is_prefix_of(grown)
            &&& grown.is_prefix_of(again)
            &&& forall|i: int| memory.len() <= i < grown.len() ==> grown[i] == 0
        }),
{
}

impl Heap {
    /// The heap respects its limit.
    pub open spec fn wf(&self) -> bool {
        self.memory@.len() <= self.limit
    }

    /// An empty heap with the default limit.
    pub fn new() -> (heap: Self)
        ensures
            heap.memory@ == Seq::<u64>::empty(),
            heap.limit == DEFAULT_HEAP_LIMIT,
            heap.wf(),
    {
        Heap { memory: Vec::new(), limit: DEFAULT_HEAP_LIMIT }
    }

    /// Reserves `size` zeroed words at the end of the heap and returns the
    /// address of the first. Fails, changing nothing, when the heap would
    /// hold more than `limit` words.
    pub fn allocate(&mut self, size: usize) -> (r: Result<usize, VmFault>)
        ensures
            final(self).limit == old(self).limit,
            if old(self).memory@.len() + size <= old(self).limit {
                &&& r == Ok::<usize, VmFault>(old(self).memory@.len() as usize)
                &&& final(self).memory@ == spec_allocate(old(self).memory@, size as nat)
            } else {
                &&& r == Err::<usize, VmFault>(VmFault::HeapExhausted)
                &&& final(self).memory@ == old(self).memory@
            },
            old(self).wf() ==> final(self).wf(),
    {
        let ptr: usize = self.memory.len();
        if size > self.limit || ptr > self.limit - size {
            return Err(VmFault::HeapExhausted);
        }
        self.memory.resize(ptr + size, 0u64);
        assert(self.memory@ =~= spec_allocate(old(self).memory@, size as nat));
        Ok(ptr)
    }

    /// Writes `value` at `address`. An address that no allocation covers is
    /// a fault, and nothing is written.
    pub fn put(&mut self, address: usize, value: u64) -> (r: Result<(), VmFault>)
        ensures
            final(self).limit == old(self).limit,
            match spec_put(old(self).memory@, address as int, value) {
                Ok(memory) => r == Ok::<(), VmFault>(()) && final(self).memory@ == memory,
                Err(fault) => r == Err::<(), VmFault>(fault) && final(self).memory@ == old(
                    self,
                ).memory@,
            },
            old(self).wf() ==> final(self).wf(),
    {
        if address >= self.memory.len() {
            return Err(VmFault::HeapAddressOutOfRange);
        }
        self.memory[address] = value;
        Ok(())
    }

    /// Reads the word at `address`. An address that no allocation covers is
    /// a fault.
    pub fn get(&self, address: usize) -> (r: Result<u64, VmFault>)
        ensures
            r == spec_get(self.memory@, address as int),
    {
        if address >= self.memory.len() {
            return Err(VmFault::HeapAddressOutOfRange);
        }
        Ok(self.memory[address])
    }
}

} // verus!
