//! A model of the per-process page mappings: which 4 KiB page of which
//! process maps to which physical frame, under which access flags.
//!
//! The real page-table walk, the parent-level user bits and the hardware TLB
//! live below this model, outside the library; the IPC layer and the tests
//! reason against this table, whose operations mirror the mapping interface
//! the memory subsystem offers (map, unmap, translate, flush, verify).

use vstd::prelude::*;
use crate::error::{AllocError, KernelError};

verus! {

/// Leaf entry flag: the page is present.
pub const PAGE_PRESENT: u64 = 0x1;

/// Leaf entry flag: the page is writable.
pub const PAGE_WRITABLE: u64 = 0x2;

/// Leaf entry flag: ring 3 may access the page.
pub const PAGE_USER_ACCESSIBLE: u64 = 0x4;

/// Leaf entry flag: the page may not be executed.
pub const PAGE_NO_EXECUTE: u64 = 0x8000_0000_0000_0000;

/// One installed mapping: a page of a process, its frame and its flags.
#[derive(Debug, Clone, Copy, PartialEq, Eq, Structural)]
pub struct Mapping {
    /// Owning process.
    pub pid: u64,
    /// Page-aligned virtual address.
    pub page: u64,
    /// Physical frame address backing the page.
    pub frame: u64,
    /// Leaf entry flags.
    pub flags: u64,
}

/// Whether `s` installs a mapping for `page` in process `pid`.
pub open spec fn spec_maps(s: Seq<Mapping>, pid: u64, page: u64) -> bool {
    exists|i: int| 0 <= i < s.len() && (#[trigger] s[i]).pid == pid && s[i].page == page
}

/// The index of that mapping (unique under `PageTables::wf`).
pub open spec fn spec_index_of_mapping(s: Seq<Mapping>, pid: u64, page: u64) -> int {
    choose|i: int| 0 <= i < s.len() && (#[trigger] s[i]).pid == pid && s[i].page == page
}

/// The installed mapping for `(pid, page)`.
pub open spec fn spec_mapping_at(s: Seq<Mapping>, pid: u64, page: u64) -> Mapping {
    s[spec_index_of_mapping(s, pid, page)]
}

/// The page containing a virtual address.
pub open spec fn spec_page_of(virt: u64) -> u64 {
    (virt - (virt % 4096)) as u64
}

/// The mappings `map_memory` installs: one page per frame, at consecutive
/// page addresses from `virt_addr` on, all under the same flags.
pub open spec fn spec_new_mappings(pid: u64, virt_addr: u64, frames: Seq<u64>, flags: u64)
    -> Seq<Mapping> {
    Seq::new(frames.len(), |q: int| Mapping {
        pid,
        page: (virt_addr + q * 4096) as u64,
        frame: frames[q],
        flags,
    })
}

/// Every page of the `count`-page range at `start` is mapped for `pid`.
pub open spec fn spec_all_mapped(s: Seq<Mapping>, pid: u64, start: u64, count: int) -> bool {
    forall|q: int| 0 <= q < count ==> spec_maps(s, pid, #[trigger] ((start + q * 4096) as u64))
}

/// No page of the `count`-page range at `start` is mapped for `pid`.
pub open spec fn spec_none_mapped(s: Seq<Mapping>, pid: u64, start: u64, count: int) -> bool {
    forall|q: int| 0 <= q < count ==> !spec_maps(s, pid, #[trigger] ((start + q * 4096) as u64))
}

/// The page-mapping table of the whole machine, with a log of the TLB
/// flushes that were requested.
pub struct PageTables {
    /// All installed mappings.
    pub entries: Vec<Mapping>,
    /// Page addresses whose TLB entries were flushed, in order.
    pub tlb_flushes: Vec<u64>,
}

impl PageTables {
    /// No page is mapped twice: the `(pid, page)` keys are pairwise
    /// distinct, and every page address is page-aligned.
    pub open spec fn wf(self) -> bool {
        &&& forall|i: int, j: int|
                0 <= i < j < self.entries@.len()
                ==> !(self.entries@[i].pid == self.entries@[j].pid
                      && self.entries@[i].page == self.entries@[j].page)
        &&& forall|i: int| 0 <= i < self.entries@.len()
                ==> (#[trigger] self.entries@[i]).page % 4096 == 0
        &&& forall|i: int| 0 <= i < self.entries@.len()
                ==> (#[trigger] self.entries@[i]).frame % 4096 == 0
    }

    /// An empty table.
    pub fn new() -> (r: PageTables)
        ensures
            r.wf(),
            r.entries@.len() == 0,
            r.tlb_flushes@.len() == 0,
    {
        PageTables { entries: Vec::new(), tlb_flushes: Vec::new() }
    }

    /// In a well-formed table the chosen index of a key is the index where
    /// it stands.
    pub proof fn lemma_index_of_mapping(s: Seq<Mapping>, pid: u64, page: u64, i: int)
        requires
            forall|a: int, b: int|
                0 <= a < b < s.len() ==> !(s[a].pid == s[b].pid && s[a].page == s[b].page),
            0 <= i < s.len(),
            s[i].pid == pid,
            s[i].page == page,
        ensures
            spec_maps(s, pid, page),
            spec_index_of_mapping(s, pid, page) == i,
            spec_mapping_at(s, pid, page) == s[i],
    {
        assert(spec_maps(s, pid, page));
        let j = spec_index_of_mapping(s, pid, page);
        if j < i {
            assert(!(s[j].pid == s[i].pid && s[j].page == s[i].page));
        }
        if i < j {
            assert(!(s[i].pid == s[j].pid && s[i].page == s[j].page));
        }
    }

    /// Find the position of the mapping for `(pid, page)`.
    pub fn find_mapping(&self, pid: u64, page: u64) -> (r: Option<usize>)
        ensures
            match r {
                Some(i) => {
                    &&& i < self.entries@.len()
                    &&& self.entries@[i as int].pid == pid
                    &&& self.entries@[i as int].page == page
                },
                None => !spec_maps(self.entries@, pid, page),
            },
    {
        let n = self.entries.len();
        let mut i: usize = 0;
        while i < n
            invariant
                i <= n,
                n == self.entries@.len(),
                forall|j: int| 0 <= j < i
                    ==> !((#[trigger] self.entries@[j]).pid == pid
                          && self.entries@[j].page == page),
            decreases n - i,
        {
            if self.entries[i].pid == pid && self.entries[i].page == page {
                return Some(i);
            }
            i = i + 1;
        }
        None
    }

    /// Walk the table for a virtual address of a process: the physical
    /// address behind it, or nothing when the page is not mapped.
    pub fn translate_addr(&self, pid: u64, virt: u64) -> (r: Option<u64>)
        requires
            self.wf(),
        ensures
            match r {
                Some(pa) => {
                    &&& spec_maps(self.entries@, pid, spec_page_of(virt))
                    &&& pa == spec_mapping_at(self.entries@, pid, spec_page_of(virt)).frame
                            + (virt % 4096)
                },
                None => !spec_maps(self.entries@, pid, spec_page_of(virt)),
            },
    {
        let offset = virt % 4096;
        let page = virt - offset;
        match self.find_mapping(pid, page) {
            Some(i) => {
                proof {
                    Self::lemma_index_of_mapping(self.entries@, pid, page, i as int);
                }
                let frame = self.entries[i].frame;
                proof {
                    assert(frame + offset <= u64::MAX) by (nonlinear_arith)
                        requires
                            frame % 4096 == 0,
                            frame <= 0xFFFF_FFFF_FFFF_FFFFu64,
                            offset < 4096;
                }
                Some(frame + offset)
            },
            None => None,
        }
    }

    /// Verify that `pid` owns (has mapped) the page behind `virt` and return
    /// the physical address, as the IPC layer requires before moving pages.
    pub fn verify_ownership(&self, pid: u64, virt: u64) -> (r: Result<u64, KernelError>)
        requires
            self.wf(),
        ensures
            match r {
                Ok(pa) => {
                    &&& spec_maps(self.entries@, pid, spec_page_of(virt))
                    &&& pa == spec_mapping_at(self.entries@, pid, spec_page_of(virt)).frame
                            + (virt % 4096)
                },
                Err(e) => {
                    &&& e == KernelError::Memory(AllocError::InvalidAddress)
                    &&& !spec_maps(self.entries@, pid, spec_page_of(virt))
                },
            },
    {
        match self.translate_addr(pid, virt) {
            Some(pa) => Ok(pa),
            None => Err(KernelError::Memory(AllocError::InvalidAddress)),
        }
    }

    /// Record a TLB flush request for the page behind `virt`.
    pub fn flush_tlb_entry(&mut self, virt: u64)
        ensures
            final(self).entries@ == old(self).entries@,
            final(self).tlb_flushes@ == old(self).tlb_flushes@.push(virt),
    {
        self.tlb_flushes.push(virt);
    }

    /// Install a user page: present, writable, user-accessible.  Fails with
    /// `BadAlignment` when page or frame sit off a page boundary, and
    /// `AlreadyInUse` when the page is mapped.
    pub fn map_user_page(&mut self, pid: u64, page: u64, frame: u64) -> (r: Result<(), KernelError>)
        requires
            old(self).wf(),
        ensures
            final(self).wf(),
            final(self).tlb_flushes@ == old(self).tlb_flushes@,
            ({
                if page % 4096 != 0 || frame % 4096 != 0 {
                    &&& r == Err::<(), KernelError>(KernelError::Memory(AllocError::BadAlignment))
                    &&& *final(self) == *old(self)
                } else if spec_maps(old(self).entries@, pid, page) {
                    &&& r == Err::<(), KernelError>(KernelError::Memory(AllocError::AlreadyInUse))
                    &&& *final(self) == *old(self)
                } else {
                    &&& r == Ok::<(), KernelError>(())
                    &&& final(self).entries@ == old(self).entries@.push(Mapping {
                            pid,
                            page,
                            frame,
                            flags: PAGE_PRESENT | PAGE_WRITABLE | PAGE_USER_ACCESSIBLE,
                        })
                }
            }),
    {
        if page % 4096 != 0 || frame % 4096 != 0 {
            return Err(KernelError::Memory(AllocError::BadAlignment));
        }
        match self.find_mapping(pid, page) {
            Some(_) => Err(KernelError::Memory(AllocError::AlreadyInUse)),
            None => {
                self.entries.push(Mapping {
                    pid,
                    page,
                    frame,
                    flags: PAGE_PRESENT | PAGE_WRITABLE | PAGE_USER_ACCESSIBLE,
                });
                proof {
                    let sf = self.entries@;
                    let s0 = old(self).entries@;
                    assert forall|i: int, j: int| 0 <= i < j < sf.len()
                        implies !(sf[i].pid == sf[j].pid && sf[i].page == sf[j].page) by {
                        if j < s0.len() {
                            assert(sf[i] == s0[i]);
                            assert(sf[j] == s0[j]);
                        } else {
                            assert(sf[i] == s0[i]);
                        }
                    }
                    assert forall|i: int| 0 <= i < sf.len()
                        implies (#[trigger] sf[i]).page % 4096 == 0
                            && sf[i].frame % 4096 == 0 by {
                        if i < s0.len() {
                            assert(sf[i] == s0[i]);
                        }
                    }
                }
                Ok(())
            },
        }
    }

    /// Install one mapping per frame at consecutive pages from `virt_addr`,
    /// all under `flags`, for process `target_pid` — transactionally: if any
    /// target page is already mapped, nothing changes and `AlreadyInUse`
    /// comes back.
    pub fn map_memory(
        &mut self,
        target_pid: u64,
        virt_addr: u64,
        frames: &Vec<u64>,
        flags: u64,
    ) -> (r: Result<(), KernelError>)
        requires
            old(self).wf(),
            virt_addr % 4096 == 0,
            virt_addr + frames@.len() * 4096 <= u64::MAX,
            forall|q: int| 0 <= q < frames@.len() ==> #[trigger] frames@[q] % 4096 == 0,
        ensures
            final(self).wf(),
            final(self).tlb_flushes@ == old(self).tlb_flushes@,
            ({
                if forall|q: int| 0 <= q < frames@.len()
                        ==> !spec_maps(old(self).entries@, target_pid,
                                       #[trigger] ((virt_addr + q * 4096) as u64)) {
                    &&& r == Ok::<(), KernelError>(())
                    &&& final(self).entries@ == old(self).entries@
                        + spec_new_mappings(target_pid, virt_addr, frames@, flags)
                } else {
                    &&& r == Err::<(), KernelError>(KernelError::Memory(AllocError::AlreadyInUse))
                    &&& *final(self) == *old(self)
                }
            }),
    {
        let count = frames.len();
        let mut q: usize = 0;
        while q < count
            invariant
                old(self).wf(),
                q <= count,
                count == frames@.len(),
                *self == *old(self),
                virt_addr + count * 4096 <= u64::MAX,
                forall|p: int| 0 <= p < q
                    ==> !spec_maps(old(self).entries@, target_pid,
                                   #[trigger] ((virt_addr + p * 4096) as u64)),
            decreases count - q,
        {
            let page = virt_addr + (q as u64) * 4096;
            if self.find_mapping(target_pid, page).is_some() {
                proof {
                    assert(self.wf());
                    assert(spec_maps(old(self).entries@, target_pid,
                        ((virt_addr + (q as int) * 4096) as u64)));
                }
                return Err(KernelError::Memory(AllocError::AlreadyInUse));
            }
            q = q + 1;
        }
        let ghost s0 = self.entries@;
        let ghost want = spec_new_mappings(target_pid, virt_addr, frames@, flags);
        let mut k: usize = 0;
        proof {
            assert(self.entries@ =~= s0 + want.take(0int));
        }
        while k < count
            invariant
                k <= count,
                count == frames@.len(),
                old(self).wf(),
                s0 == old(self).entries@,
                want == spec_new_mappings(target_pid, virt_addr, frames@, flags),
                virt_addr % 4096 == 0,
                virt_addr + count * 4096 <= u64::MAX,
                self.tlb_flushes@ == old(self).tlb_flushes@,
                self.entries@ == s0 + want.take(k as int),
                forall|p: int| 0 <= p < count
                    ==> !spec_maps(s0, target_pid, #[trigger] ((virt_addr + p * 4096) as u64)),
            decreases count - k,
        {
            let page = virt_addr + (k as u64) * 4096;
            self.entries.push(Mapping { pid: target_pid, page, frame: frames[k], flags });
            proof {
                assert(want[k as int] == Mapping { pid: target_pid, page, frame: frames@[k as int], flags });
                assert(self.entries@ =~= s0 + want.take(k + 1));
            }
            k = k + 1;
        }
        proof {
            assert(want.take(count as int) =~= want);
            let sf = self.entries@;
            assert forall|i: int, j: int| 0 <= i < j < sf.len()
                implies !(sf[i].pid == sf[j].pid && sf[i].page == sf[j].page) by {
                if j < s0.len() {
                    assert(sf[i] == s0[i]);
                    assert(sf[j] == s0[j]);
                } else if i < s0.len() {
                    assert(sf[i] == s0[i]);
                    assert(sf[j] == want[j - s0.len()]);
                    if sf[i].pid == target_pid && sf[i].page == sf[j].page {
                        assert(spec_maps(s0, target_pid, ((virt_addr + (j - s0.len()) * 4096) as u64)));
                    }
                } else {
                    assert(sf[i] == want[i - s0.len()]);
                    assert(sf[j] == want[j - s0.len()]);
                    assert(virt_addr + (i - s0.len()) * 4096 != virt_addr + (j - s0.len()) * 4096);
                }
            }
            assert forall|i: int| 0 <= i < sf.len()
                implies (#[trigger] sf[i]).page % 4096 == 0
                    && sf[i].frame % 4096 == 0 by {
                if i < s0.len() {
                    assert(sf[i] == s0[i]);
                } else {
                    assert(sf[i] == want[i - s0.len()]);
                    assert(frames@[i - s0.len()] % 4096 == 0);
                    assert((virt_addr + (i - s0.len()) * 4096) % 4096 == 0) by (nonlinear_arith)
                        requires virt_addr % 4096 == 0, 0 <= i - s0.len(),
                                 virt_addr + (i - s0.len()) * 4096 <= u64::MAX;
                }
            }
        }
        Ok(())
    }

    /// Remove the mappings of `page_count` consecutive pages from
    /// `virt_addr` in process `target_pid` — transactionally: if any page of
    /// the range is not mapped, nothing changes and `InvalidAddress` comes
    /// back.  No other process or page is touched.
    pub fn unmap_memory(
        &mut self,
        target_pid: u64,
        virt_addr: u64,
        page_count: usize,
    ) -> (r: Result<(), KernelError>)
        requires
            old(self).wf(),
            virt_addr % 4096 == 0,
            virt_addr + page_count * 4096 <= u64::MAX,
        ensures
            final(self).wf(),
            final(self).tlb_flushes@ == old(self).tlb_flushes@,
            ({
                if forall|q: int| 0 <= q < page_count
                        ==> spec_maps(old(self).entries@, target_pid,
                                      #[trigger] ((virt_addr + q * 4096) as u64)) {
                    &&& r == Ok::<(), KernelError>(())
                    &&& forall|q: int| 0 <= q < page_count
                            ==> !spec_maps(final(self).entries@, target_pid,
                                           #[trigger] ((virt_addr + q * 4096) as u64))
                    &&& forall|p2: u64, g2: u64|
                            !(p2 == target_pid
                              && virt_addr <= g2 < virt_addr + page_count * 4096)
                            ==> (#[trigger] spec_maps(final(self).entries@, p2, g2)
                                 <==> spec_maps(old(self).entries@, p2, g2))
                                && (spec_maps(old(self).entries@, p2, g2)
                                    ==> spec_mapping_at(final(self).entries@, p2, g2)
                                        == spec_mapping_at(old(self).entries@, p2, g2))
                } else {
                    &&& r == Err::<(), KernelError>(KernelError::Memory(AllocError::InvalidAddress))
                    &&& *final(self) == *old(self)
                }
            }),
    {
        let count = page_count;
        let mut q: usize = 0;
        while q < count
            invariant
                old(self).wf(),
                q <= count,
                count == page_count,
                *self == *old(self),
                virt_addr + count * 4096 <= u64::MAX,
                forall|p: int| 0 <= p < q
                    ==> spec_maps(old(self).entries@, target_pid,
                                  #[trigger] ((virt_addr + p * 4096) as u64)),
            decreases count - q,
        {
            let page = virt_addr + (q as u64) * 4096;
            if self.find_mapping(target_pid, page).is_none() {
                proof {
                    assert(self.wf());
                    assert(!spec_maps(old(self).entries@, target_pid,
                        ((virt_addr + (q as int) * 4096) as u64)));
                }
                return Err(KernelError::Memory(AllocError::InvalidAddress));
            }
            q = q + 1;
        }
        let ghost s0 = self.entries@;
        let mut k: usize = 0;
        while k < count
            invariant
                k <= count,
                count == page_count,
                old(self).wf(),
                s0 == old(self).entries@,
                self.wf(),
                virt_addr % 4096 == 0,
                virt_addr + count * 4096 <= u64::MAX,
                self.tlb_flushes@ == old(self).tlb_flushes@,
                forall|p: int| 0 <= p < count
                    ==> spec_maps(s0, target_pid, #[trigger] ((virt_addr + p * 4096) as u64)),
                forall|p: int| 0 <= p < k
                    ==> !spec_maps(self.entries@, target_pid,
                                   #[trigger] ((virt_addr + p * 4096) as u64)),
                forall|p: int| k <= p < count
                    ==> spec_maps(self.entries@, target_pid,
                                  #[trigger] ((virt_addr + p * 4096) as u64)),
                forall|p2: u64, g2: u64|
                    !(p2 == target_pid && virt_addr <= g2 < virt_addr + count * 4096)
                    ==> (#[trigger] spec_maps(self.entries@, p2, g2)
                         <==> spec_maps(s0, p2, g2))
                        && (spec_maps(s0, p2, g2)
                            ==> spec_mapping_at(self.entries@, p2, g2)
                                == spec_mapping_at(s0, p2, g2)),
            decreases count - k,
        {
            let page = virt_addr + (k as u64) * 4096;
            let ghost pre = self.entries@;
            match self.find_mapping(target_pid, page) {
                Some(i) => {
                    self.entries.remove(i);
                    proof {
                        Self::lemma_unmap_step(pre, self.entries@, i as int, target_pid, page);
                        assert forall|p: int| 0 <= p < k + 1
                            implies !spec_maps(self.entries@, target_pid,
                                               #[trigger] ((virt_addr + p * 4096) as u64)) by {
                            let g = (virt_addr + p * 4096) as u64;
                            if p < k {
                                assert(!spec_maps(pre, target_pid, g));
                                if spec_maps(self.entries@, target_pid, g) {
                                    let w = spec_index_of_mapping(self.entries@, target_pid, g);
                                    let ow = if w < i { w } else { w + 1 };
                                    assert(self.entries@[w] == pre[ow]);
                                }
                            } else {
                                assert(g == page);
                            }
                        }
                        assert forall|p: int| k + 1 <= p < count
                            implies spec_maps(self.entries@, target_pid,
                                              #[trigger] ((virt_addr + p * 4096) as u64)) by {
                            let g = (virt_addr + p * 4096) as u64;
                            assert(spec_maps(pre, target_pid, g));
                            let w = spec_index_of_mapping(pre, target_pid, g);
                            assert(g != page) by (nonlinear_arith)
                                requires virt_addr + count * 4096 <= u64::MAX, 0 <= k < p < count,
                                         g == virt_addr + p * 4096, page == virt_addr + k * 4096;
                            assert(w != i);
                            let nw = if w < i { w } else { w - 1 };
                            assert(self.entries@[nw] == pre[w]);
                        }
                    }
                },
                None => {
                    proof {
                        assert(false);
                    }
                },
            }
            k = k + 1;
        }
        Ok(())
    }

    /// Removing one entry keeps the table well formed and leaves every other
    /// key's mapping in place.
    proof fn lemma_unmap_step(pre: Seq<Mapping>, post: Seq<Mapping>, i: int, pid: u64, page: u64)
        requires
            forall|a: int, b: int|
                0 <= a < b < pre.len() ==> !(pre[a].pid == pre[b].pid && pre[a].page == pre[b].page),
            forall|a: int| 0 <= a < pre.len()
                ==> (#[trigger] pre[a]).page % 4096 == 0 && pre[a].frame % 4096 == 0,
            0 <= i < pre.len(),
            pre[i].pid == pid,
            pre[i].page == page,
            post == pre.remove(i),
        ensures
            forall|a: int, b: int|
                0 <= a < b < post.len() ==> !(post[a].pid == post[b].pid && post[a].page == post[b].page),
            forall|a: int| 0 <= a < post.len()
                ==> (#[trigger] post[a]).page % 4096 == 0 && post[a].frame % 4096 == 0,
            !spec_maps(post, pid, page),
            forall|p2: u64, g2: u64|
                !(p2 == pid && g2 == page)
                ==> (#[trigger] spec_maps(post, p2, g2) <==> spec_maps(pre, p2, g2))
                    && (spec_maps(pre, p2, g2)
                        ==> spec_mapping_at(post, p2, g2) == spec_mapping_at(pre, p2, g2)),
    {
        assert forall|a: int, b: int| 0 <= a < b < post.len()
            implies !(post[a].pid == post[b].pid && post[a].page == post[b].page) by {
            let oa = if a < i { a } else { a + 1 };
            let ob = if b < i { b } else { b + 1 };
            assert(post[a] == pre[oa]);
            assert(post[b] == pre[ob]);
        }
        assert forall|a: int| 0 <= a < post.len()
            implies (#[trigger] post[a]).page % 4096 == 0 && post[a].frame % 4096 == 0 by {
            let oa = if a < i { a } else { a + 1 };
            assert(post[a] == pre[oa]);
        }
        if spec_maps(post, pid, page) {
            let w = spec_index_of_mapping(post, pid, page);
            let ow = if w < i { w } else { w + 1 };
            assert(post[w] == pre[ow]);
            assert(ow != i);
            if ow < i {
                assert(!(pre[ow].pid == pre[i].pid && pre[ow].page == pre[i].page));
            } else {
                assert(!(pre[i].pid == pre[ow].pid && pre[i].page == pre[ow].page));
            }
        }
        assert forall|p2: u64, g2: u64| !(p2 == pid && g2 == page)
            implies (#[trigger] spec_maps(post, p2, g2) <==> spec_maps(pre, p2, g2))
                && (spec_maps(pre, p2, g2)
                    ==> spec_mapping_at(post, p2, g2) == spec_mapping_at(pre, p2, g2)) by {
            if spec_maps(post, p2, g2) {
                let w = spec_index_of_mapping(post, p2, g2);
                let ow = if w < i { w } else { w + 1 };
                assert(post[w] == pre[ow]);
            }
            if spec_maps(pre, p2, g2) {
                let w = spec_index_of_mapping(pre, p2, g2);
                assert(pre[w].pid == p2 && pre[w].page == g2);
                assert(w != i);
                let nw = if w < i { w } else { w - 1 };
                assert(post[nw] == pre[w]);
                Self::lemma_index_of_mapping(post, p2, g2, nw);
                Self::lemma_index_of_mapping(pre, p2, g2, w);
            }
        }
    }
}


/// A key is mapped in a concatenation exactly when it is mapped in one of
/// the parts.
pub proof fn lemma_maps_append(s: Seq<Mapping>, t: Seq<Mapping>, pid: u64, page: u64)
    ensures
        spec_maps(s + t, pid, page) <==> (spec_maps(s, pid, page) || spec_maps(t, pid, page)),
{
    if spec_maps(s + t, pid, page) {
        let w = choose|w: int| 0 <= w < (s + t).len()
            && ((s + t)[w]).pid == pid && (s + t)[w].page == page;
        if w < s.len() {
            assert(s[w] == (s + t)[w]);
            assert(spec_maps(s, pid, page));
        } else {
            assert(t[w - s.len()] == (s + t)[w]);
            assert(spec_maps(t, pid, page));
        }
    }
    if spec_maps(s, pid, page) {
        let w = choose|w: int| 0 <= w < s.len() && (#[trigger] s[w]).pid == pid && s[w].page == page;
        assert((s + t)[w] == s[w]);
        assert(spec_maps(s + t, pid, page));
    }
    if spec_maps(t, pid, page) {
        let w = choose|w: int| 0 <= w < t.len() && (#[trigger] t[w]).pid == pid && t[w].page == page;
        assert((s + t)[s.len() + w] == t[w]);
        assert(spec_maps(s + t, pid, page));
    }
}

/// Concatenating further mappings with fresh keys leaves the installed
/// mapping of an existing key unchanged.
pub proof fn lemma_mapping_at_append_left(s: Seq<Mapping>, t: Seq<Mapping>, pid: u64, page: u64)
    requires
        forall|a: int, b: int|
            0 <= a < b < (s + t).len()
            ==> !((s + t)[a].pid == (s + t)[b].pid && (s + t)[a].page == (s + t)[b].page),
        spec_maps(s, pid, page),
    ensures
        spec_mapping_at(s + t, pid, page) == spec_mapping_at(s, pid, page),
{
    let w = choose|w: int| 0 <= w < s.len() && (#[trigger] s[w]).pid == pid && s[w].page == page;
    assert((s + t)[w] == s[w]);
    assert forall|a: int, b: int| 0 <= a < b < s.len()
        implies !(s[a].pid == s[b].pid && s[a].page == s[b].page) by {
        assert(s[a] == (s + t)[a]);
        assert(s[b] == (s + t)[b]);
    }
    PageTables::lemma_index_of_mapping(s + t, pid, page, w);
    PageTables::lemma_index_of_mapping(s, pid, page, w);
}

} // verus!
