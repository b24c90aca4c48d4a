//! Bump heap bookkeeping: a monotonic allocator carved out of a fixed
//! kernel range.  Deallocation is a no-op; predictability is the point.

use vstd::prelude::*;

verus! {

/// Heap base: the 16 MiB mark
pub const HEAP_START: usize = 0x0100_0000;

/// Heap size: 4 MiB
pub const HEAP_SIZE: usize = 0x0040_0000;

/// The smallest `align`-aligned address at or above `addr`.
pub open spec fn spec_align_up(addr: int, align: int) -> int {
    ((addr + align - 1) / align) * align
}

/// Heap stats
#[derive(Clone, Copy, Debug, PartialEq, Eq, Structural)]
pub struct HeapStats {
    pub used: usize,
    pub free: usize,
}

/// The bump allocator's state: the next free address.
pub struct SimpleBumpAllocator {
    next: usize,
}

impl SimpleBumpAllocator {
    pub closed spec fn spec_next(&self) -> int {
        self.next as int
    }

    pub closed spec fn wf(&self) -> bool {
        HEAP_START <= self.next <= HEAP_START + HEAP_SIZE
    }

    /// A fresh heap: everything free.
    pub fn new() -> (r: SimpleBumpAllocator)
        ensures
            r.wf(),
            r.spec_next() == HEAP_START,
    {
        SimpleBumpAllocator { next: HEAP_START }
    }

    /// Reset the heap to empty.
    pub fn init(&mut self)
        ensures
            final(self).wf(),
            final(self).spec_next() == HEAP_START,
    {
        self.next = HEAP_START;
    }

    /// Allocate `size` bytes at `align` alignment: the pointer moves up
    /// to the alignment boundary and past the block.  Exhaustion returns
    /// nothing and changes nothing.
    pub fn allocate(&mut self, size: usize, align: usize) -> (r: Option<usize>)
        requires
            old(self).wf(),
            1 <= align <= 4096,
            size <= HEAP_SIZE,
        ensures
            final(self).wf(),
            r is Some <==> spec_align_up(old(self).spec_next(), align as int) + size <= HEAP_START
                + HEAP_SIZE,
            match r {
                Some(addr) => {
                    &&& addr == spec_align_up(old(self).spec_next(), align as int)
                    &&& (addr as int) % (align as int) == 0
                    &&& old(self).spec_next() <= addr < old(self).spec_next() + align
                    &&& final(self).spec_next() == addr + size
                    &&& addr + size <= HEAP_START + HEAP_SIZE
                },
                None => *final(self) == *old(self),
            },
    {
        let ghost n0 = old(self).spec_next();
        let rem = self.next % align;
        proof {
            assert(0 <= n0 % (align as int) < align) by (nonlinear_arith)
                requires
                    1 <= align,
                    0 <= n0,
            ;
        }
        let alloc_start = if rem == 0 {
            self.next
        } else {
            self.next + (align - rem)
        };
        proof {
            let a_s = alloc_start as int;
            let rm = rem as int;
            let al = align as int;
            assert(a_s % al == 0) by (nonlinear_arith)
                requires
                    1 <= al,
                    0 <= n0,
                    rm == n0 % al,
                    a_s == (if rm == 0 {
                        n0
                    } else {
                        n0 + al - rm
                    }),
            ;
            let su = spec_align_up(n0, al);
            assert(su % al == 0 && n0 <= su < n0 + al) by (nonlinear_arith)
                requires
                    1 <= al,
                    0 <= n0,
                    su == ((n0 + al - 1) / al) * al,
            ;
            // two multiples of the alignment within one alignment span
            // are the same address
            assert(a_s == su) by (nonlinear_arith)
                requires
                    1 <= al,
                    a_s % al == 0,
                    su % al == 0,
                    n0 <= a_s < n0 + al,
                    n0 <= su < n0 + al,
            ;
        }
        if alloc_start > HEAP_START + HEAP_SIZE - size {
            return None;
        }
        let alloc_end = alloc_start + size;
        self.next = alloc_end;
        Some(alloc_start)
    }

    /// Deallocation is a no-op on a bump heap.
    pub fn deallocate(&mut self, ptr: usize)
        ensures
            *final(self) == *old(self),
    {
    }

    /// How much is used and how much remains.
    pub fn stats(&self) -> (r: HeapStats)
        requires
            self.wf(),
        ensures
            r.used == self.spec_next() - HEAP_START,
            r.free == HEAP_SIZE - r.used,
    {
        let used = self.next - HEAP_START;
        HeapStats { used, free: HEAP_SIZE - used }
    }
}

} // verus!
