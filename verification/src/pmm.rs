//! Physical memory manager: one `PageFrame` per 4 KiB page, a free stack
//! over the E820-usable ranges, LIFO allocation.
//!
//! Initialisation scans the E820 map and, for each usable region, aligns to
//! page boundaries, skips the low 1 MiB and the fixed kernel region (pages
//! 256..512), and pushes the remaining pages onto the free stack.
//! Allocation pops the stack and returns the page's physical address;
//! freeing pushes the page back, so the most recently freed page is handed
//! out first.  Freeing a page that is already free is a silent no-op.

use vstd::prelude::*;
use crate::boot_info::{E820Entry, E820Map};
use crate::intrusive::{lemma_stack_wf_facts, IntrusiveNode, IntrusiveStack};

verus! {

/// Page size (4KB)
pub const PAGE_SIZE: usize = 4096;

/// Maximum number of page frames tracked (256 MiB of 4 KiB pages)
pub const MAX_PAGE_FRAMES: usize = 65536;

/// Page is free
pub const PAGE_FLAG_FREE: u16 = 1;

/// Page is reserved (not usable)
pub const PAGE_FLAG_RESERVED: u16 = 2;

/// Page is kernel memory
pub const PAGE_FLAG_KERNEL: u16 = 4;

/// Page is in use by DMA
pub const PAGE_FLAG_DMA: u16 = 8;

/// Page frame flags: a small set over the `PAGE_FLAG_*` bits.
#[derive(Clone, Copy, Debug, PartialEq, Eq, Structural)]
pub struct PageFlags {
    pub bits: u16,
}

impl PageFlags {
    pub fn empty() -> (r: PageFlags)
        ensures
            r.bits == 0,
    {
        PageFlags { bits: 0 }
    }

    pub fn from_bits(bits: u16) -> (r: PageFlags)
        ensures
            r.bits == bits,
    {
        PageFlags { bits }
    }

    /// Whether every bit of `other` is set.
    pub fn contains(&self, other: PageFlags) -> (r: bool)
        ensures
            r == (self.bits & other.bits == other.bits),
    {
        self.bits & other.bits == other.bits
    }

    pub fn insert(&mut self, other: PageFlags)
        ensures
            final(self).bits == (old(self).bits | other.bits),
    {
        self.bits = self.bits | other.bits;
    }

    pub fn remove(&mut self, other: PageFlags)
        ensures
            final(self).bits == (old(self).bits & !other.bits),
    {
        self.bits = self.bits & !other.bits;
    }
}

/// Page frame structure: the state of one physical page.  Its free-list
/// linkage lives in the manager's node pool at the frame's own index.
#[derive(Clone, Copy, Debug, PartialEq, Eq, Structural)]
pub struct PageFrame {
    /// Page flags
    pub flags: PageFlags,
    /// Reference count
    pub ref_count: u16,
}

impl PageFrame {
    /// Whether the frame is on the free side of its lifecycle.
    pub open spec fn spec_is_free(&self) -> bool {
        self.flags.bits & PAGE_FLAG_FREE == PAGE_FLAG_FREE
    }

    /// Create a new page frame
    pub fn new() -> (r: PageFrame)
        ensures
            r.flags.bits == 0,
            r.ref_count == 0,
            !r.spec_is_free(),
    {
        let r = PageFrame { flags: PageFlags { bits: 0 }, ref_count: 0 };
        proof {
            assert(0u16 & 1u16 != 1u16) by (bit_vector);
        }
        r
    }

    /// Check if page is free
    pub fn is_free(&self) -> (r: bool)
        ensures
            r == self.spec_is_free(),
    {
        self.flags.bits & PAGE_FLAG_FREE == PAGE_FLAG_FREE
    }

    /// Mark page as allocated
    pub fn allocate(&mut self)
        ensures
            final(self).flags.bits == (old(self).flags.bits & !PAGE_FLAG_FREE),
            final(self).ref_count == 1,
            !final(self).spec_is_free(),
    {
        self.flags.bits = self.flags.bits & !PAGE_FLAG_FREE;
        self.ref_count = 1;
        proof {
            assert(forall|x: u16| (#[trigger] (x & !1u16)) & 1u16 != 1u16) by (bit_vector);
        }
    }

    /// Mark page as free
    pub fn free(&mut self)
        ensures
            final(self).flags.bits == (old(self).flags.bits | PAGE_FLAG_FREE),
            final(self).ref_count == 0,
            final(self).spec_is_free(),
    {
        self.flags.bits = self.flags.bits | PAGE_FLAG_FREE;
        self.ref_count = 0;
        proof {
            assert(forall|x: u16| (#[trigger] (x | 1u16)) & 1u16 == 1u16) by (bit_vector);
        }
    }
}

/// PMM Statistics
#[derive(Clone, Copy, Debug, PartialEq, Eq, Structural)]
pub struct PmmStats {
    pub total_pages: usize,
    pub free_pages: usize,
    pub reserved_pages: usize,
    pub kernel_pages: usize,
}

/// The aligned page range an E820 entry contributes: the first fully
/// contained page and the first page past the region.
pub open spec fn entry_page_range(e: E820Entry) -> (int, int) {
    if e.base > u64::MAX - 4095 || e.length > u64::MAX - e.base {
        (0, 0)
    } else {
        let start = ((e.base + 4095) / 4096) as int;
        let end = (((e.base + e.length) as u64 / 4096) as int);
        (start, end)
    }
}

/// Whether some usable entry among the first `n` covers page `idx` with a
/// fully contained, aligned page.
pub open spec fn usable_covers(entries: Seq<E820Entry>, n: int, idx: int) -> bool {
    exists|k: int|
        0 <= k < n && (#[trigger] entries[k]).region_type == 1 && entry_page_range(entries[k]).0
            <= idx < entry_page_range(entries[k]).1
}

/// The physical page-frame pool: one frame and one free-list node per
/// page, the free stack, and counters.
pub struct Pmm {
    frames: Vec<PageFrame>,
    links: Vec<IntrusiveNode>,
    free_list: IntrusiveStack,
    stats: PmmStats,
}

impl Pmm {
    /// The per-page frames.
    pub closed spec fn frames_model(&self) -> Seq<PageFrame> {
        self.frames@
    }

    /// The free stack, top first, as page indices.
    pub closed spec fn free_model(&self) -> Seq<usize> {
        self.free_list@
    }

    /// The counters.
    pub closed spec fn stats_model(&self) -> PmmStats {
        self.stats
    }

    /// Whether page `idx` is free.
    pub open spec fn spec_is_free(&self, idx: int) -> bool {
        0 <= idx < self.frames_model().len() && self.frames_model()[idx].spec_is_free()
    }

    /// The manager's invariant: one frame and one node per page, the free
    /// stack well-formed over the nodes, a page on the stack exactly when
    /// its frame is free, free frames unreferenced, and the free counter
    /// equal to the stack depth.
    pub closed spec fn wf(&self) -> bool {
        &&& self.frames.len() == MAX_PAGE_FRAMES
        &&& self.links.len() == MAX_PAGE_FRAMES
        &&& self.free_list.wf(self.links@)
        &&& forall|i: int|
            0 <= i < MAX_PAGE_FRAMES ==> ((#[trigger] self.frames@[i]).spec_is_free()
                <==> self.free_list@.contains(i as usize))
        &&& forall|i: int|
            0 <= i < MAX_PAGE_FRAMES ==> ((#[trigger] self.frames@[i]).spec_is_free()
                ==> self.frames@[i].ref_count == 0)
        &&& self.stats.free_pages == self.free_list@.len()
    }

    /// Initialize the physical memory manager from the E820 map: every
    /// page starts reserved; pages of usable regions above the kernel
    /// region become free; pages 256..512 covered by a usable region are
    /// kernel pages.
    pub fn init(e820_map: &E820Map) -> (r: Pmm)
        ensures
            r.wf(),
            r.frames_model().len() == MAX_PAGE_FRAMES,
            forall|idx: int|
                0 <= idx < MAX_PAGE_FRAMES ==> (r.spec_is_free(idx) <==> (idx >= 512
                    && usable_covers(e820_map@, e820_map@.len() as int, idx))),
    {
        let mut frames: Vec<PageFrame> = Vec::new();
        let mut links: Vec<IntrusiveNode> = Vec::new();
        let mut i: usize = 0;
        while i < MAX_PAGE_FRAMES
            invariant
                i <= MAX_PAGE_FRAMES,
                frames@.len() == i,
                links@.len() == i,
                forall|j: int|
                    0 <= j < i ==> (#[trigger] frames@[j]) == (PageFrame {
                        flags: PageFlags { bits: PAGE_FLAG_RESERVED },
                        ref_count: 0,
                    }),
            decreases MAX_PAGE_FRAMES - i,
        {
            frames.push(PageFrame { flags: PageFlags { bits: PAGE_FLAG_RESERVED }, ref_count: 0 });
            links.push(IntrusiveNode::new());
            i += 1;
        }
        proof {
            assert(forall|x: u16| x == PAGE_FLAG_RESERVED ==> x & 1u16 != 1u16) by (bit_vector);
        }
        let mut pmm = Pmm {
            frames,
            links,
            free_list: IntrusiveStack::new(),
            stats: PmmStats { total_pages: 0, free_pages: 0, reserved_pages: 0, kernel_pages: 0 },
        };

        let n_entries = e820_map.len();
        let mut k: usize = 0;
        while k < n_entries
            invariant
                k <= n_entries,
                n_entries == e820_map@.len(),
                pmm.wf(),
                pmm.frames_model().len() == MAX_PAGE_FRAMES,
                forall|idx: int|
                    0 <= idx < MAX_PAGE_FRAMES ==> (pmm.spec_is_free(idx) <==> (idx >= 512
                        && usable_covers(e820_map@, k as int, idx))),
            decreases n_entries - k,
        {
            let entry = e820_map.entry_at(k);
            let ghost rng = entry_page_range(e820_map@[k as int]);
            if entry.region_type == 1 && entry.base <= u64::MAX - 4095 && entry.length <= u64::MAX
                - entry.base {
                let start_page_u64 = (entry.base + 4095) / 4096;
                let end_page_u64 = (entry.base + entry.length) / 4096;
                let lo: usize = if start_page_u64 >= MAX_PAGE_FRAMES as u64 {
                    MAX_PAGE_FRAMES
                } else {
                    start_page_u64 as usize
                };
                let hi: usize = if end_page_u64 >= MAX_PAGE_FRAMES as u64 {
                    MAX_PAGE_FRAMES
                } else {
                    end_page_u64 as usize
                };
                proof {
                    assert(rng.0 == start_page_u64 && rng.1 == end_page_u64);
                }
                let mut p: usize = lo;
                while p < hi
                    invariant
                        p >= lo,
                        p <= hi || p == lo,
                        hi <= MAX_PAGE_FRAMES,
                        rng == entry_page_range(e820_map@[k as int]),
                        e820_map@[k as int].region_type == 1,
                        rng.0 == lo || (rng.0 >= MAX_PAGE_FRAMES && lo == MAX_PAGE_FRAMES),
                        rng.1 >= hi,
                        hi == rng.1 || hi == MAX_PAGE_FRAMES,
                        k < e820_map@.len(),
                        pmm.wf(),
                        pmm.frames_model().len() == MAX_PAGE_FRAMES,
                        forall|idx: int|
                            0 <= idx < MAX_PAGE_FRAMES ==> (pmm.spec_is_free(idx) <==> ((idx >= 512
                                && usable_covers(e820_map@, k as int, idx)) || (idx >= 512 && rng.0
                                <= idx < p))),
                    decreases hi - p,
                {
                    let ghost pre = pmm;
                    if p >= 256 && p < 512 {
                        // kernel region: 1-2 MiB
                        let f = pmm.frames[p];
                        if !f.is_free() {
                            pmm.frames.set(
                                p,
                                PageFrame {
                                    flags: PageFlags { bits: PAGE_FLAG_KERNEL },
                                    ref_count: 0,
                                },
                            );
                            pmm.stats.kernel_pages = add_saturating(pmm.stats.kernel_pages, 1);
                            proof {
                                assert(PAGE_FLAG_KERNEL & 1u16 != 1u16) by (bit_vector);
                            }
                        }
                    } else if p >= 512 {
                        let f = pmm.frames[p];
                        if !f.is_free() {
                            pmm.frames.set(
                                p,
                                PageFrame {
                                    flags: PageFlags { bits: PAGE_FLAG_FREE },
                                    ref_count: 0,
                                },
                            );
                            let ghost fl0 = pmm.free_list@;
                            let ghost frames0 = pmm.frames@;
                            proof {
                                assert(PAGE_FLAG_FREE & 1u16 == 1u16) by (bit_vector);
                                lemma_stack_wf_facts(&pmm.free_list, pmm.links@);
                                assert(!fl0.contains(p));
                            }
                            pmm.free_list.push(&mut pmm.links, p);
                            pmm.stats.free_pages = pmm.stats.free_pages + 1;
                            proof {
                                assert forall|i: int|
                                    0 <= i < MAX_PAGE_FRAMES implies ((#[trigger] pmm.frames@[
                                    i]).spec_is_free() <==> pmm.free_list@.contains(
                                    i as usize,
                                )) by {
                                    if i == p {
                                        assert(pmm.free_list@[0] == p);
                                    } else {
                                        if fl0.contains(i as usize) {
                                            let j = choose|j: int|
                                                0 <= j < fl0.len() && fl0[j] == (i as usize);
                                            assert(pmm.free_list@[j + 1] == (i as usize));
                                        }
                                        if pmm.free_list@.contains(i as usize) {
                                            let j = choose|j: int|
                                                0 <= j < pmm.free_list@.len()
                                                    && pmm.free_list@[j] == (i as usize);
                                            assert(j != 0);
                                            assert(fl0[j - 1] == (i as usize));
                                        }
                                    }
                                }
                            }
                        }
                    }
                    proof {
                        assert(1u16 & 1u16 == 1u16 && 4u16 & 1u16 != 1u16 && 2u16 & 1u16 != 1u16)
                            by (bit_vector);
                        assert forall|idx: int|
                            0 <= idx < MAX_PAGE_FRAMES implies (pmm.spec_is_free(idx) <==> ((idx
                            >= 512 && usable_covers(e820_map@, k as int, idx)) || (idx >= 512
                            && rng.0 <= idx < p + 1))) by {
                            assert(pre.spec_is_free(idx) <==> ((idx >= 512 && usable_covers(
                                e820_map@,
                                k as int,
                                idx,
                            )) || (idx >= 512 && rng.0 <= idx < p as int)));
                            if idx == p {
                                if p >= 512 {
                                    assert(lo < MAX_PAGE_FRAMES);
                                    assert(rng.0 == lo);
                                    assert(pmm.frames@[idx].spec_is_free());
                                } else {
                                    assert(!pre.spec_is_free(idx));
                                    assert(!pmm.frames@[idx].spec_is_free());
                                }
                            } else {
                                assert(pmm.frames@[idx] == pre.frames@[idx]);
                            }
                        }
                    }
                    p += 1;
                }
                proof {
                    lemma_covers_step(e820_map@, k as int);
                    assert forall|idx: int|
                        0 <= idx < MAX_PAGE_FRAMES implies (pmm.spec_is_free(idx) <==> (idx >= 512
                        && usable_covers(e820_map@, k as int + 1, idx))) by {
                        if idx >= 512 {
                            if rng.0 <= idx < rng.1 {
                                assert(idx < MAX_PAGE_FRAMES);
                                assert(rng.0 < MAX_PAGE_FRAMES);
                                assert(lo == rng.0);
                                assert(idx < hi);
                                assert(p >= hi);
                            }
                        }
                    }
                }
            } else {
                proof {
                    lemma_covers_step(e820_map@, k as int);
                    assert(e820_map@[k as int].region_type != 1 || rng == (0int, 0int));
                }
            }
            k += 1;
        }
        let ghost done = pmm;
        pmm.stats.total_pages = add_saturating(
            add_saturating(pmm.stats.free_pages, pmm.stats.kernel_pages),
            pmm.stats.reserved_pages,
        );
        proof {
            assert forall|idx: int|
                0 <= idx < MAX_PAGE_FRAMES implies (pmm.spec_is_free(idx) <==> (idx >= 512
                && usable_covers(e820_map@, e820_map@.len() as int, idx))) by {
                assert(done.spec_is_free(idx) <==> (idx >= 512 && usable_covers(
                    e820_map@,
                    e820_map@.len() as int,
                    idx,
                )));
                assert(pmm.frames@ == done.frames@);
            }
        }
        pmm
    }

    /// Allocate a physical page.
    ///
    /// Pops the free stack (LIFO): the returned address is the most
    /// recently freed page's, page-aligned; that page stops being free and
    /// gets one reference.  Returns `None` exactly when no page is free.
    pub fn alloc_page(&mut self) -> (r: Option<usize>)
        requires
            old(self).wf(),
        ensures
            final(self).wf(),
            old(self).free_model().len() == 0 ==> r is None && *final(self) == *old(self),
            old(self).free_model().len() > 0 ==> {
                let idx = old(self).free_model()[0];
                &&& r == Some((idx * PAGE_SIZE) as usize)
                &&& (idx * PAGE_SIZE) % (PAGE_SIZE as int) == 0
                &&& old(self).spec_is_free(idx as int)
                &&& !final(self).spec_is_free(idx as int)
                &&& final(self).frames_model()[idx as int].ref_count == 1
                &&& final(self).free_model() == old(self).free_model().skip(1)
                &&& final(self).stats_model().free_pages == old(self).stats_model().free_pages - 1
                &&& forall|j: int|
                    0 <= j < MAX_PAGE_FRAMES && j != idx ==> final(self).frames_model()[j] == old(
                        self,
                    ).frames_model()[j]
            },
    {
        proof {
            lemma_stack_wf_facts(&self.free_list, self.links@);
        }
        let idx = match self.free_list.pop(&mut self.links) {
            Some(idx) => idx,
            None => {
                return None;
            },
        };
        proof {
            assert(old(self).free_model().contains(idx));
            assert(idx < MAX_PAGE_FRAMES);
        }
        let mut f = self.frames[idx];
        f.allocate();
        self.frames.set(idx, f);
        self.stats.free_pages = self.stats.free_pages - 1;
        proof {
            assert forall|i: int|
                0 <= i < MAX_PAGE_FRAMES implies ((#[trigger] self.frames@[i]).spec_is_free()
                <==> self.free_list@.contains(i as usize)) by {
                if i == idx {
                    if self.free_list@.contains(idx) {
                        let j = choose|j: int|
                            0 <= j < self.free_list@.len() && self.free_list@[j] == idx;
                        assert(old(self).free_model()[j + 1] == idx);
                        assert(old(self).free_model()[0] == idx);
                    }
                } else {
                    if old(self).free_model().contains(i as usize) {
                        let j = choose|j: int|
                            0 <= j < old(self).free_model().len() && old(self).free_model()[j]
                                == (i as usize);
                        assert(j != 0);
                        assert(self.free_list@[j - 1] == (i as usize));
                    }
                    if self.free_list@.contains(i as usize) {
                        let j = choose|j: int|
                            0 <= j < self.free_list@.len() && self.free_list@[j] == (i as usize);
                        assert(old(self).free_model()[j + 1] == (i as usize));
                    }
                }
            }
        }
        proof {
            assert(idx * PAGE_SIZE <= (MAX_PAGE_FRAMES - 1) * PAGE_SIZE) by (nonlinear_arith)
                requires
                    0 <= idx < MAX_PAGE_FRAMES,
            ;
            assert((idx * PAGE_SIZE) % (PAGE_SIZE as int) == 0) by (nonlinear_arith);
        }
        Some(idx * PAGE_SIZE)
    }

    /// Free a physical page.
    ///
    /// The page holding `phys_addr` is pushed on top of the free stack
    /// and loses its references.  Addresses past the tracked range and
    /// pages that are already free are ignored: a double free is a silent
    /// no-op.
    pub fn free_page(&mut self, phys_addr: usize)
        requires
            old(self).wf(),
        ensures
            final(self).wf(),
            phys_addr / PAGE_SIZE >= MAX_PAGE_FRAMES ==> *final(self) == *old(self),
            phys_addr / PAGE_SIZE < MAX_PAGE_FRAMES && old(self).spec_is_free(
                phys_addr as int / PAGE_SIZE as int,
            ) ==> *final(self) == *old(self),
            phys_addr / PAGE_SIZE < MAX_PAGE_FRAMES && !old(self).spec_is_free(
                phys_addr as int / PAGE_SIZE as int,
            ) ==> {
                let idx = phys_addr / PAGE_SIZE;
                &&& final(self).spec_is_free(idx as int)
                &&& final(self).free_model() == seq![idx] + old(self).free_model()
                &&& final(self).stats_model().free_pages == old(self).stats_model().free_pages + 1
                &&& forall|j: int|
                    0 <= j < MAX_PAGE_FRAMES && j != idx ==> final(self).frames_model()[j] == old(
                        self,
                    ).frames_model()[j]
            },
    {
        let page_idx = phys_addr / PAGE_SIZE;
        if page_idx >= MAX_PAGE_FRAMES {
            return ;
        }
        let mut f = self.frames[page_idx];
        if f.is_free() {
            return ;
        }
        f.free();
        self.frames.set(page_idx, f);
        proof {
            assert(!old(self).free_model().contains(page_idx));
            lemma_stack_wf_facts(&self.free_list, self.links@);
        }
        self.free_list.push(&mut self.links, page_idx);
        self.stats.free_pages = self.stats.free_pages + 1;
        proof {
            assert forall|i: int|
                0 <= i < MAX_PAGE_FRAMES implies ((#[trigger] self.frames@[i]).spec_is_free()
                <==> self.free_list@.contains(i as usize)) by {
                if i == page_idx {
                    assert(self.free_list@[0] == page_idx);
                } else {
                    if old(self).free_model().contains(i as usize) {
                        let j = choose|j: int|
                            0 <= j < old(self).free_model().len() && old(self).free_model()[j]
                                == (i as usize);
                        assert(self.free_list@[j + 1] == (i as usize));
                    }
                    if self.free_list@.contains(i as usize) {
                        let j = choose|j: int|
                            0 <= j < self.free_list@.len() && self.free_list@[j] == (i as usize);
                        assert(j != 0);
                        assert(old(self).free_model()[j - 1] == (i as usize));
                    }
                }
            }
        }
    }

    /// Get PMM statistics
    pub fn stats(&self) -> (r: PmmStats)
        ensures
            r == self.stats_model(),
    {
        self.stats
    }

    /// Get free page count
    pub fn free_page_count(&self) -> (r: usize)
        ensures
            r == self.stats_model().free_pages,
    {
        self.stats.free_pages
    }

    /// Get total memory in bytes
    pub fn total_memory(&self) -> (r: usize)
        requires
            self.stats_model().total_pages * PAGE_SIZE <= usize::MAX,
        ensures
            r == self.stats_model().total_pages * PAGE_SIZE,
    {
        self.stats.total_pages * PAGE_SIZE
    }

    /// Get free memory in bytes
    pub fn free_memory(&self) -> (r: usize)
        requires
            self.stats_model().free_pages * PAGE_SIZE <= usize::MAX,
        ensures
            r == self.stats_model().free_pages * PAGE_SIZE,
    {
        self.stats.free_pages * PAGE_SIZE
    }
}

/// Saturating add used by the counters.
fn add_saturating(a: usize, b: usize) -> (r: usize)
    ensures
        r == (if a + b <= usize::MAX {
            a + b
        } else {
            usize::MAX as int
        }),
{
    if a <= usize::MAX - b {
        a + b
    } else {
        usize::MAX
    }
}

/// Extending the scanned prefix by one entry extends coverage by that
/// entry's range.
proof fn lemma_covers_step(entries: Seq<E820Entry>, k: int)
    requires
        0 <= k < entries.len(),
    ensures
        forall|idx: int|
            usable_covers(entries, k + 1, idx) <==> (usable_covers(entries, k, idx) || (
            entries[k].region_type == 1 && entry_page_range(entries[k]).0 <= idx
                < entry_page_range(entries[k]).1)),
{
    assert forall|idx: int|
        usable_covers(entries, k + 1, idx) implies (usable_covers(entries, k, idx) || (
    entries[k].region_type == 1 && entry_page_range(entries[k]).0 <= idx < entry_page_range(
        entries[k],
    ).1)) by {
        let j = choose|j: int|
            0 <= j < k + 1 && (#[trigger] entries[j]).region_type == 1 && entry_page_range(
                entries[j],
            ).0 <= idx < entry_page_range(entries[j]).1;
        if j < k {
            assert(usable_covers(entries, k, idx));
        }
    }
}

} // verus!
