//! Allocation bookkeeping: typed memory regions with allocation and
//! reference-count state, a per-CPU allocator over a local free list, and
//! the aggregated statistics.  The physical frames and the heap bytes
//! themselves are the hardware allocator's business, outside the library.

use vstd::prelude::*;
use crate::error::{AllocError, KernelError, KernelResult};

verus! {

/// Largest allocation the local free list serves, in bytes.
pub const SMALL_ALLOC_THRESHOLD: usize = 4096;

/// What a memory region is used for.
#[derive(Debug, Clone, Copy, PartialEq, Eq, Structural)]
pub enum MemoryType {
    /// Kernel code and data.
    Kernel,
    /// User code and data.
    User,
    /// Device memory (MMIO).
    Device,
    /// DMA-capable memory.
    Dma,
}

/// Flags qualifying an allocation request.
#[derive(Debug, Clone, Copy, PartialEq, Eq, Structural)]
pub struct AllocFlags {
    /// Zero the allocated memory.
    pub zero: bool,
    /// The memory must be physically contiguous.
    pub contiguous: bool,
    /// Required alignment, if any.
    pub align: Option<usize>,
    /// What the memory is for.
    pub mem_type: MemoryType,
}

impl Default for AllocFlags {
    /// The plain request: kernel memory, no zeroing, no placement demands.
    fn default() -> (r: AllocFlags)
        ensures
            r == (AllocFlags {
                zero: false,
                contiguous: false,
                align: None::<usize>,
                mem_type: MemoryType::Kernel,
            }),
    {
        AllocFlags { zero: false, contiguous: false, align: None, mem_type: MemoryType::Kernel }
    }
}

/// One region of virtual memory under the allocator's bookkeeping.
#[derive(Debug, Clone, Copy, PartialEq, Eq, Structural)]
pub struct MemoryRegion {
    /// Virtual start address.
    pub virt_start: u64,
    /// Physical start address, when mapped.
    pub phys_start: Option<u64>,
    /// Size in bytes.
    pub size: usize,
    /// What the region is for.
    pub mem_type: MemoryType,
    /// Whether the region is currently allocated.
    pub allocated: bool,
    /// Reference count for shared mappings.
    pub ref_count: usize,
}

impl MemoryRegion {
    /// A fresh region: unmapped, free, unreferenced.
    pub fn new(virt_start: u64, size: usize, mem_type: MemoryType) -> (r: MemoryRegion)
        ensures
            r == (MemoryRegion {
                virt_start,
                phys_start: None::<u64>,
                size,
                mem_type,
                allocated: false,
                ref_count: 0,
            }),
    {
        MemoryRegion { virt_start, phys_start: None, size, mem_type, allocated: false, ref_count: 0 }
    }

    /// Whether the region is allocated.
    pub fn is_allocated(&self) -> (r: bool)
        ensures
            r == self.allocated,
    {
        self.allocated
    }

    /// Claim the region: succeeds exactly when it was free.
    pub fn allocate(&mut self) -> (r: bool)
        ensures
            r == !old(self).allocated,
            *final(self) == (MemoryRegion { allocated: true, ..*old(self) }),
    {
        let was_free = !self.allocated;
        self.allocated = true;
        was_free
    }

    /// Release the region.
    pub fn deallocate(&mut self)
        ensures
            *final(self) == (MemoryRegion { allocated: false, ..*old(self) }),
    {
        self.allocated = false;
    }

    /// Count one more reference; returns the new count.
    pub fn inc_ref(&mut self) -> (r: usize)
        requires
            old(self).ref_count < usize::MAX,
        ensures
            r == old(self).ref_count + 1,
            *final(self) == (MemoryRegion { ref_count: (old(self).ref_count + 1) as usize, ..*old(self) }),
    {
        self.ref_count = self.ref_count + 1;
        self.ref_count
    }

    /// Count one reference down; returns the new count.
    pub fn dec_ref(&mut self) -> (r: usize)
        requires
            old(self).ref_count >= 1,
        ensures
            r == old(self).ref_count - 1,
            *final(self) == (MemoryRegion { ref_count: (old(self).ref_count - 1) as usize, ..*old(self) }),
    {
        self.ref_count = self.ref_count - 1;
        self.ref_count
    }

    /// The reference count.
    pub fn ref_count(&self) -> (r: usize)
        ensures
            r == self.ref_count,
    {
        self.ref_count
    }

    /// Whether this region and another share any byte.
    pub fn overlaps(&self, other: &MemoryRegion) -> (r: bool)
        requires
            self.virt_start + self.size <= u64::MAX,
            other.virt_start + other.size <= u64::MAX,
        ensures
            r == (self.virt_start < other.virt_start + other.size
                  && other.virt_start < self.virt_start + self.size),
    {
        self.virt_start < other.virt_start + (other.size as u64)
            && other.virt_start < self.virt_start + (self.size as u64)
    }
}

/// Counters of one allocator's activity.  The byte counters wrap on
/// overflow, as running totals.
#[derive(Debug, Clone, Copy, PartialEq, Eq, Structural)]
pub struct AllocatorStats {
    pub total_allocated: usize,
    pub total_freed: usize,
    pub current_usage: usize,
    pub peak_usage: usize,
    pub allocation_count: usize,
    pub free_count: usize,
}

impl AllocatorStats {
    /// All counters at zero.
    pub fn new() -> (r: AllocatorStats)
        ensures
            r == (AllocatorStats {
                total_allocated: 0,
                total_freed: 0,
                current_usage: 0,
                peak_usage: 0,
                allocation_count: 0,
                free_count: 0,
            }),
    {
        AllocatorStats {
            total_allocated: 0,
            total_freed: 0,
            current_usage: 0,
            peak_usage: 0,
            allocation_count: 0,
            free_count: 0,
        }
    }
}

/// Whether position `k` of the free list holds a region that can serve a
/// request of `size` bytes.
pub open spec fn spec_fits(s: Seq<MemoryRegion>, k: int, size: usize) -> bool {
    &&& 0 <= k < s.len()
    &&& !s[k].allocated
    &&& s[k].size >= size
}

/// The allocator of one CPU: a local free list of small regions, the large
/// allocations it tracks, and its counters.
pub struct PerCpuAllocator {
    /// Owning CPU.
    pub cpu_id: usize,
    /// Free regions available for small requests.
    pub small_free_list: Vec<MemoryRegion>,
    /// Large allocations handed through to the global allocator.
    pub large_allocations: Vec<MemoryRegion>,
    /// Activity counters.
    pub stats: AllocatorStats,
}

impl PerCpuAllocator {
    /// A fresh allocator with empty lists and zero counters.
    pub fn new(cpu_id: usize) -> (r: PerCpuAllocator)
        ensures
            r.cpu_id == cpu_id,
            r.small_free_list@.len() == 0,
            r.large_allocations@.len() == 0,
            r.stats == (AllocatorStats {
                total_allocated: 0,
                total_freed: 0,
                current_usage: 0,
                peak_usage: 0,
                allocation_count: 0,
                free_count: 0,
            }),
    {
        PerCpuAllocator {
            cpu_id,
            small_free_list: Vec::new(),
            large_allocations: Vec::new(),
            stats: AllocatorStats::new(),
        }
    }

    /// Serve a small request from the local free list: the first free
    /// region large enough is claimed and removed, and its start address
    /// returned.  With no suitable region, or a request over the small
    /// threshold, the request is out of memory here (a larger system would
    /// fall through to a global allocator).  The counters record the
    /// attempt either way.
    pub fn allocate(&mut self, size: usize, flags: AllocFlags) -> (r: KernelResult<u64>)
        ensures
            final(self).cpu_id == old(self).cpu_id,
            final(self).large_allocations@ == old(self).large_allocations@,
            final(self).stats.allocation_count
                == old(self).stats.allocation_count.wrapping_add(1),
            ({
                let s0 = old(self).small_free_list@;
                if size <= SMALL_ALLOC_THRESHOLD && (exists|k: int| spec_fits(s0, k, size)) {
                    exists|k: int|
                        {
                            &&& #[trigger] spec_fits(s0, k, size)
                            &&& forall|m: int| 0 <= m < k ==> !spec_fits(s0, m, size)
                            &&& r == Ok::<u64, KernelError>(s0[k].virt_start)
                            &&& final(self).small_free_list@ == s0.remove(k)
                            &&& final(self).stats.total_allocated
                                == old(self).stats.total_allocated.wrapping_add(size)
                            &&& final(self).stats.current_usage
                                == old(self).stats.current_usage.wrapping_add(size)
                        }
                } else {
                    &&& r == Err::<u64, KernelError>(KernelError::Memory(AllocError::OutOfMemory))
                    &&& final(self).small_free_list@ == s0
                    &&& final(self).stats.total_allocated == old(self).stats.total_allocated
                    &&& final(self).stats.current_usage == old(self).stats.current_usage
                }
            }),
    {
        let _ = flags;
        self.stats.allocation_count = self.stats.allocation_count.wrapping_add(1);
        if size > SMALL_ALLOC_THRESHOLD {
            return Err(KernelError::Memory(AllocError::OutOfMemory));
        }
        let ghost s0 = self.small_free_list@;
        let n = self.small_free_list.len();
        let mut i: usize = 0;
        while i < n
            invariant
                i <= n,
                n == self.small_free_list@.len(),
                s0 == old(self).small_free_list@,
                self.small_free_list@ == s0,
                size <= SMALL_ALLOC_THRESHOLD,
                self.cpu_id == old(self).cpu_id,
                self.large_allocations@ == old(self).large_allocations@,
                self.stats.allocation_count == old(self).stats.allocation_count.wrapping_add(1),
                self.stats.total_allocated == old(self).stats.total_allocated,
                self.stats.current_usage == old(self).stats.current_usage,
                self.stats.peak_usage == old(self).stats.peak_usage,
                self.stats.total_freed == old(self).stats.total_freed,
                self.stats.free_count == old(self).stats.free_count,
                forall|m: int| 0 <= m < i ==> !spec_fits(s0, m, size),
            decreases n - i,
        {
            let suitable = !self.small_free_list[i].is_allocated()
                && self.small_free_list[i].size >= size;
            if suitable {
                let region = self.small_free_list.remove(i);
                self.stats.total_allocated = self.stats.total_allocated.wrapping_add(size);
                self.stats.current_usage = self.stats.current_usage.wrapping_add(size);
                if self.stats.current_usage > self.stats.peak_usage {
                    self.stats.peak_usage = self.stats.current_usage;
                }
                proof {
                    assert(spec_fits(s0, i as int, size));
                    assert(exists|k: int| spec_fits(s0, k, size));
                }
                return Ok(region.virt_start);
            }
            i = i + 1;
        }
        proof {
            assert forall|k: int| !spec_fits(s0, k, size) by {
                if 0 <= k < s0.len() {
                    assert(!spec_fits(s0, k, size));
                }
            }
        }
        Err(KernelError::Memory(AllocError::OutOfMemory))
    }

    /// Return a small region to the local free list; the counters record
    /// the release.
    pub fn free(&mut self, addr: u64, size: usize) -> (r: KernelResult<()>)
        ensures
            r == Ok::<(), KernelError>(()),
            final(self).cpu_id == old(self).cpu_id,
            final(self).large_allocations@ == old(self).large_allocations@,
            final(self).stats.free_count == old(self).stats.free_count.wrapping_add(1),
            final(self).stats.total_freed == old(self).stats.total_freed.wrapping_add(size),
            ({
                if size <= SMALL_ALLOC_THRESHOLD {
                    final(self).small_free_list@ == old(self).small_free_list@.push(MemoryRegion {
                        virt_start: addr,
                        phys_start: None::<u64>,
                        size,
                        mem_type: MemoryType::Kernel,
                        allocated: false,
                        ref_count: 0,
                    })
                } else {
                    final(self).small_free_list@ == old(self).small_free_list@
                }
            }),
    {
        self.stats.free_count = self.stats.free_count.wrapping_add(1);
        self.stats.total_freed = self.stats.total_freed.wrapping_add(size);
        self.stats.current_usage = self.stats.current_usage.wrapping_sub(size);
        if size <= SMALL_ALLOC_THRESHOLD {
            self.small_free_list.push(MemoryRegion::new(addr, size, MemoryType::Kernel));
        }
        Ok(())
    }

    /// This allocator's counters.
    pub fn get_stats(&self) -> (r: AllocatorStats)
        ensures
            r == self.stats,
    {
        self.stats
    }
}

/// Statistics aggregated over every CPU's allocator.
#[derive(Debug, Clone, Copy, PartialEq, Eq, Structural)]
pub struct GlobalMemoryStats {
    pub total_allocated: usize,
    pub total_freed: usize,
    pub current_usage: usize,
    pub peak_usage: usize,
    pub allocation_count: usize,
    pub free_count: usize,
    pub cpu_count: usize,
}

/// The aggregated statistics of a prefix of the allocators, each counter
/// the wrapping sum of the per-CPU counters.
pub open spec fn spec_stats_sum(s: Seq<PerCpuAllocator>, n: int) -> GlobalMemoryStats
    decreases n,
{
    if n <= 0 {
        GlobalMemoryStats {
            total_allocated: 0,
            total_freed: 0,
            current_usage: 0,
            peak_usage: 0,
            allocation_count: 0,
            free_count: 0,
            cpu_count: 0,
        }
    } else {
        let prev = spec_stats_sum(s, n - 1);
        let st = s[n - 1].stats;
        GlobalMemoryStats {
            total_allocated: prev.total_allocated.wrapping_add(st.total_allocated),
            total_freed: prev.total_freed.wrapping_add(st.total_freed),
            current_usage: prev.current_usage.wrapping_add(st.current_usage),
            peak_usage: prev.peak_usage.wrapping_add(st.peak_usage),
            allocation_count: prev.allocation_count.wrapping_add(st.allocation_count),
            free_count: prev.free_count.wrapping_add(st.free_count),
            cpu_count: (n - 1 + 1) as usize,
        }
    }
}

/// Aggregate the counters of every CPU's allocator.
pub fn get_memory_stats(allocators: &Vec<PerCpuAllocator>) -> (r: GlobalMemoryStats)
    ensures
        r == spec_stats_sum(allocators@, allocators@.len() as int),
{
    let n = allocators.len();
    let mut acc = GlobalMemoryStats {
        total_allocated: 0,
        total_freed: 0,
        current_usage: 0,
        peak_usage: 0,
        allocation_count: 0,
        free_count: 0,
        cpu_count: 0,
    };
    let mut i: usize = 0;
    while i < n
        invariant
            i <= n,
            n == allocators@.len(),
            acc == spec_stats_sum(allocators@, i as int),
        decreases n - i,
    {
        let st = allocators[i].get_stats();
        acc = GlobalMemoryStats {
            total_allocated: acc.total_allocated.wrapping_add(st.total_allocated),
            total_freed: acc.total_freed.wrapping_add(st.total_freed),
            current_usage: acc.current_usage.wrapping_add(st.current_usage),
            peak_usage: acc.peak_usage.wrapping_add(st.peak_usage),
            allocation_count: acc.allocation_count.wrapping_add(st.allocation_count),
            free_count: acc.free_count.wrapping_add(st.free_count),
            cpu_count: i + 1,
        };
        i = i + 1;
    }
    acc
}


/// A frame allocator that owns no frames: every request fails.  It stands
/// in wherever an allocator is required before the real one exists.
#[derive(Debug, Clone, Copy, PartialEq, Eq, Structural)]
pub struct EmptyFrameAllocator;

impl EmptyFrameAllocator {
    /// No frame is ever available.
    pub fn allocate_frame(&mut self) -> (r: Option<u64>)
        ensures
            r is None,
    {
        None
    }
}

} // verus!
