//! Zero-copy IPC: memory handles that transfer access to page ranges
//! between processes instead of copying data, and the handle registry with
//! the syscall-level entry points.

use vstd::prelude::*;
use crate::aspace::{
    lemma_maps_append, lemma_mapping_at_append_left, spec_all_mapped, spec_index_of_mapping,
    spec_maps, spec_mapping_at, spec_new_mappings, spec_none_mapped, spec_page_of, Mapping,
    PageTables,
};
use crate::error::IpcError;

verus! {

/// Access granted to the holder of a memory handle.
#[derive(Debug, Clone, Copy, PartialEq, Eq, Structural)]
pub enum AccessRights {
    /// Read-only access.
    ReadOnly,
    /// Read and write access.
    ReadWrite,
    /// Execute access.
    Execute,
    /// No access: the handle has been revoked.
    NoAccess,
}

/// A page range covered by a memory handle.
#[derive(Debug, Clone, Copy, PartialEq, Eq, Structural)]
pub struct PageRange {
    /// Starting virtual address; must be page-aligned.
    pub start_addr: u64,
    /// Size in bytes; must be page-aligned and nonzero.
    pub size: usize,
}

impl PageRange {
    /// Build a page range.
    pub fn new(start_addr: u64, size: usize) -> (r: PageRange)
        ensures
            r.start_addr == start_addr,
            r.size == size,
    {
        PageRange { start_addr, size }
    }

    /// Both bounds sit on page boundaries and the range is not empty.
    pub open spec fn spec_is_valid(self) -> bool {
        &&& self.start_addr % 4096 == 0
        &&& self.size % 4096 == 0
        &&& self.size > 0
    }

    /// The number of pages the range covers, rounding up.
    pub open spec fn spec_page_count(self) -> int {
        (self.size + 4095) / 4096
    }

    /// The number of pages in the range; the round-up sum `size + 4095` is
    /// checked, and its overflow reports `InvalidRange`.
    pub fn page_count(&self) -> (r: Result<usize, IpcError>)
        ensures
            if self.size + 4095 <= usize::MAX {
                r == Ok::<usize, IpcError>((((self.size + 4095) / 4096) as usize))
            } else {
                r == Err::<usize, IpcError>(IpcError::InvalidRange)
            },
    {
        match self.size.checked_add(4095) {
            Some(padded) => Ok(padded / 4096),
            None => Err(IpcError::InvalidRange),
        }
    }

    /// Whether an address falls inside the range.
    pub fn contains(&self, addr: u64) -> (r: bool)
        requires
            self.start_addr + self.size <= u64::MAX,
        ensures
            r == (self.start_addr <= addr < self.start_addr + self.size),
    {
        addr >= self.start_addr && addr < self.start_addr + (self.size as u64)
    }

    /// Whether the range is page-aligned on both bounds and nonzero.
    pub fn is_valid(&self) -> (r: bool)
        ensures
            r == self.spec_is_valid(),
    {
        self.start_addr % 4096 == 0 && self.size % 4096 == 0 && self.size > 0
    }
}

/// The semantics of handing a handle to another process.
#[derive(Debug, Clone, Copy, PartialEq, Eq, Structural)]
pub enum TransferMode {
    /// The sender loses access; the receiver gains it.
    Ownership,
    /// The sender keeps its mapping; the receiver also gains access.
    Shared,
    /// The sender loses access until the holder hands the range back.
    Exclusive,
}

/// The leaf flags a holder's pages are mapped with, as a function of the
/// granted rights: present and user-accessible, writable only for
/// `ReadWrite`, nothing at all for a revoked handle.
pub open spec fn spec_access_flags(rights: AccessRights) -> u64 {
    match rights {
        AccessRights::ReadOnly => crate::aspace::PAGE_PRESENT | crate::aspace::PAGE_USER_ACCESSIBLE,
        AccessRights::ReadWrite => crate::aspace::PAGE_PRESENT | crate::aspace::PAGE_WRITABLE
            | crate::aspace::PAGE_USER_ACCESSIBLE,
        AccessRights::Execute => crate::aspace::PAGE_PRESENT | crate::aspace::PAGE_USER_ACCESSIBLE,
        AccessRights::NoAccess => 0,
    }
}

/// The flags a transfer installs the receiver's pages with: the granted
/// rights, except that under `Shared` the writable bit is cleared — both
/// sides may read, the sender keeps its own mapping and rights, and the
/// receiver's copy of the access is read-only.
pub open spec fn spec_holder_flags(rights: AccessRights, mode: TransferMode) -> u64 {
    if mode is Shared {
        spec_access_flags(rights) & !crate::aspace::PAGE_WRITABLE
    } else {
        spec_access_flags(rights)
    }
}

/// A memory handle: a capability naming a page range and the rights its
/// current holder has over it.
#[derive(Debug, Clone, Copy, PartialEq, Eq, Structural)]
pub struct MemoryHandle {
    /// Unique handle id, never zero.
    pub id: u64,
    /// The creator: the only process that may revoke the handle.
    pub owner_pid: u64,
    /// The current grantee; initially the owner.
    pub holder_pid: u64,
    /// The covered page range.
    pub range: PageRange,
    /// Rights granted to the holder.
    pub rights: AccessRights,
    /// Transfer semantics.
    pub mode: TransferMode,
    /// Whether the handle is live.
    pub active: bool,
    /// Whether the holder's address space has the range mapped.
    pub is_mapped: bool,
    /// Where the range is mapped in the holder's address space, if mapped.
    pub holder_virt_addr: Option<u64>,
}

impl MemoryHandle {
    /// The invariant of a live handle: rights granted, a valid range whose
    /// end fits the address space, and a nonzero id.
    pub open spec fn wf(self) -> bool {
        &&& self.id >= 1
        &&& self.active ==> {
            &&& !(self.rights is NoAccess)
            &&& self.range.spec_is_valid()
            &&& self.range.start_addr + self.range.size <= u64::MAX
        }
    }

    /// A fresh handle: the creator is both owner and holder, nothing is
    /// mapped yet.
    pub fn new(id: u64, owner_pid: u64, range: PageRange, rights: AccessRights, mode: TransferMode)
        -> (h: MemoryHandle)
        ensures
            h == (MemoryHandle {
                id,
                owner_pid,
                holder_pid: owner_pid,
                range,
                rights,
                mode,
                active: true,
                is_mapped: false,
                holder_virt_addr: None,
            }),
    {
        MemoryHandle {
            id,
            owner_pid,
            holder_pid: owner_pid,
            range,
            rights,
            mode,
            active: true,
            is_mapped: false,
            holder_virt_addr: None,
        }
    }

    /// Whether `pid` may touch this handle: it is live and `pid` is owner or
    /// holder.
    pub fn has_access(&self, pid: u64) -> (r: bool)
        ensures
            r == (self.active && (pid == self.owner_pid || pid == self.holder_pid)),
    {
        self.active && (pid == self.owner_pid || pid == self.holder_pid)
    }

    /// The page-table flags for the holder's mapping of this range.
    pub fn access_to_flags(&self) -> (r: u64)
        ensures
            r == spec_access_flags(self.rights),
    {
        match self.rights {
            AccessRights::ReadOnly => crate::aspace::PAGE_PRESENT
                | crate::aspace::PAGE_USER_ACCESSIBLE,
            AccessRights::ReadWrite => crate::aspace::PAGE_PRESENT
                | crate::aspace::PAGE_WRITABLE | crate::aspace::PAGE_USER_ACCESSIBLE,
            AccessRights::Execute => crate::aspace::PAGE_PRESENT
                | crate::aspace::PAGE_USER_ACCESSIBLE,
            AccessRights::NoAccess => 0,
        }
    }

    /// Kill the handle: no longer active, no rights granted.
    pub fn revoke(&mut self)
        ensures
            *final(self) == (MemoryHandle {
                active: false,
                rights: AccessRights::NoAccess,
                ..*old(self)
            }),
    {
        self.active = false;
        self.rights = AccessRights::NoAccess;
    }

    /// Whether the handle is live, covers a valid range and has a real id.
    pub fn validate(&self) -> (r: bool)
        ensures
            r == (self.active && self.range.spec_is_valid() && self.id != 0),
    {
        self.active && self.range.is_valid() && self.id != 0
    }

    /// Record that the holder's address space has the range mapped at
    /// `virt_addr`.
    pub fn mark_mapped(&mut self, virt_addr: u64)
        ensures
            *final(self) == (MemoryHandle {
                is_mapped: true,
                holder_virt_addr: Some(virt_addr),
                ..*old(self)
            }),
    {
        self.is_mapped = true;
        self.holder_virt_addr = Some(virt_addr);
    }

    /// Record that the range is no longer mapped anywhere for the holder.
    pub fn mark_unmapped(&mut self)
        ensures
            *final(self) == (MemoryHandle {
                is_mapped: false,
                holder_virt_addr: None::<u64>,
                ..*old(self)
            }),
    {
        self.is_mapped = false;
        self.holder_virt_addr = None;
    }
}

/// Whether some handle in `s` carries id `id`.
pub open spec fn spec_has_handle(s: Seq<MemoryHandle>, id: u64) -> bool {
    exists|i: int| 0 <= i < s.len() && (#[trigger] s[i]).id == id
}

/// The index of the handle carrying `id` (unique under `HandleRegistry::wf`).
pub open spec fn spec_index_of_handle(s: Seq<MemoryHandle>, id: u64) -> int {
    choose|i: int| 0 <= i < s.len() && (#[trigger] s[i]).id == id
}

/// The ids of the handles in `s` owned by `pid`, in registry order.
pub open spec fn spec_owned_handle_ids(s: Seq<MemoryHandle>, pid: u64) -> Seq<u64> {
    s.filter(|h: MemoryHandle| h.owner_pid == pid).map_values(|h: MemoryHandle| h.id)
}

/// The ids of the live handles in `s` held by `pid`, in registry order.
pub open spec fn spec_held_handle_ids(s: Seq<MemoryHandle>, pid: u64) -> Seq<u64> {
    s.filter(|h: MemoryHandle| h.holder_pid == pid && h.active)
        .map_values(|h: MemoryHandle| h.id)
}

/// `entry` records the holder and range of some handle in `s` that `pid`
/// owned or held and whose range was mapped.
pub open spec fn spec_dropped_mapping_of(s: Seq<MemoryHandle>, pid: u64, entry: (u64, PageRange)) -> bool {
    exists|j: int| 0 <= j < s.len()
        && entry == ((#[trigger] s[j]).holder_pid, s[j].range)
        && (s[j].owner_pid == pid || s[j].holder_pid == pid)
        && s[j].is_mapped
}

/// The registry of all memory handles.
pub struct HandleRegistry {
    /// All handles, live and revoked, until their processes exit.
    pub handles: Vec<MemoryHandle>,
    /// Next handle id to allocate; ids start at 1.
    pub next_handle_id: u64,
}

impl HandleRegistry {
    /// Every handle is well formed, ids are unique and below the allocation
    /// counter.
    pub open spec fn wf(self) -> bool {
        &&& forall|i: int| 0 <= i < self.handles@.len() ==> (#[trigger] self.handles@[i]).wf()
        &&& forall|i: int, j: int|
                0 <= i < j < self.handles@.len()
                ==> self.handles@[i].id != self.handles@[j].id
        &&& forall|i: int| 0 <= i < self.handles@.len()
                ==> (#[trigger] self.handles@[i]).id < self.next_handle_id
        &&& 1 <= self.next_handle_id
    }

    /// An empty registry; the first id to allocate is 1.
    pub fn new() -> (r: HandleRegistry)
        ensures
            r.wf(),
            r.handles@.len() == 0,
            r.next_handle_id == 1,
    {
        HandleRegistry { handles: Vec::new(), next_handle_id: 1 }
    }

    /// In a registry with unique ids, the chosen index of an id is the index
    /// where it stands.
    pub proof fn lemma_index_of_handle(s: Seq<MemoryHandle>, id: u64, i: int)
        requires
            forall|a: int, b: int| 0 <= a < b < s.len() ==> s[a].id != s[b].id,
            0 <= i < s.len(),
            s[i].id == id,
        ensures
            spec_has_handle(s, id),
            spec_index_of_handle(s, id) == i,
    {
        assert(spec_has_handle(s, id));
        let j = spec_index_of_handle(s, id);
        if j < i {
            assert(s[j].id != s[i].id);
        }
        if i < j {
            assert(s[i].id != s[j].id);
        }
    }

    /// Law: a live handle always grants rights and covers a valid range:
    /// nonzero page-aligned size, page-aligned start.
    pub proof fn lemma_active_handle_valid(self, i: int)
        requires
            self.wf(),
            0 <= i < self.handles@.len(),
            self.handles@[i].active,
        ensures
            !(self.handles@[i].rights is NoAccess),
            self.handles@[i].range.size > 0,
            self.handles@[i].range.size % 4096 == 0,
            self.handles@[i].range.start_addr % 4096 == 0,
    {
    }

    /// Hand out the next handle id.
    pub fn allocate_handle_id(&mut self) -> (r: u64)
        requires
            old(self).next_handle_id < u64::MAX,
        ensures
            r == old(self).next_handle_id,
            *final(self) == (HandleRegistry {
                next_handle_id: (old(self).next_handle_id + 1) as u64,
                ..*old(self)
            }),
    {
        let id = self.next_handle_id;
        self.next_handle_id = self.next_handle_id + 1;
        id
    }

    /// Create a live handle over a page range for `owner_pid`.  The range
    /// must be page-aligned, nonzero, and free of arithmetic overflow in its
    /// page math, else `InvalidRange`; revoked rights cannot be granted,
    /// else `AccessDenied`.
    pub fn create_handle(
        &mut self,
        owner_pid: u64,
        range: PageRange,
        rights: AccessRights,
        mode: TransferMode,
    ) -> (r: Result<u64, IpcError>)
        requires
            old(self).wf(),
        ensures
            final(self).wf(),
            ({
                if !range.spec_is_valid() || range.start_addr + range.size > u64::MAX
                    || old(self).next_handle_id == u64::MAX {
                    &&& r == Err::<u64, IpcError>(IpcError::InvalidRange)
                    &&& *final(self) == *old(self)
                } else if rights is NoAccess {
                    &&& r == Err::<u64, IpcError>(IpcError::AccessDenied)
                    &&& *final(self) == *old(self)
                } else {
                    &&& r == Ok::<u64, IpcError>(old(self).next_handle_id)
                    &&& final(self).next_handle_id == old(self).next_handle_id + 1
                    &&& final(self).handles@ == old(self).handles@.push(MemoryHandle {
                            id: old(self).next_handle_id,
                            owner_pid,
                            holder_pid: owner_pid,
                            range,
                            rights,
                            mode,
                            active: true,
                            is_mapped: false,
                            holder_virt_addr: None,
                        })
                }
            }),
    {
        if !range.is_valid() {
            return Err(IpcError::InvalidRange);
        }
        if range.size as u64 > u64::MAX - range.start_addr {
            return Err(IpcError::InvalidRange);
        }
        if self.next_handle_id == u64::MAX {
            return Err(IpcError::InvalidRange);
        }
        let is_no_access = match rights {
            AccessRights::NoAccess => true,
            _ => false,
        };
        if is_no_access {
            return Err(IpcError::AccessDenied);
        }
        let handle_id = self.allocate_handle_id();
        let handle = MemoryHandle::new(handle_id, owner_pid, range, rights, mode);
        self.handles.push(handle);
        proof {
            assert forall|i: int| 0 <= i < self.handles@.len()
                implies (#[trigger] self.handles@[i]).id < self.next_handle_id by {
                if i < old(self).handles@.len() {
                    assert(self.handles@[i] == old(self).handles@[i]);
                }
            }
        }
        Ok(handle_id)
    }

    /// Find the position of a handle id.
    pub fn find_handle(&self, handle_id: u64) -> (r: Option<usize>)
        ensures
            match r {
                Some(i) => i < self.handles@.len() && self.handles@[i as int].id == handle_id,
                None => !spec_has_handle(self.handles@, handle_id),
            },
    {
        let n = self.handles.len();
        let mut i: usize = 0;
        while i < n
            invariant
                i <= n,
                n == self.handles@.len(),
                forall|j: int| 0 <= j < i ==> (#[trigger] self.handles@[j]).id != handle_id,
            decreases n - i,
        {
            if self.handles[i].id == handle_id {
                return Some(i);
            }
            i = i + 1;
        }
        None
    }

    /// Borrow the handle with the given id.
    pub fn get_handle(&self, handle_id: u64) -> (r: Option<&MemoryHandle>)
        requires
            self.wf(),
        ensures
            match r {
                Some(h) => {
                    &&& spec_has_handle(self.handles@, handle_id)
                    &&& *h == self.handles@[spec_index_of_handle(self.handles@, handle_id)]
                    &&& h.id == handle_id
                },
                None => !spec_has_handle(self.handles@, handle_id),
            },
    {
        match self.find_handle(handle_id) {
            Some(i) => {
                proof {
                    Self::lemma_index_of_handle(self.handles@, handle_id, i as int);
                }
                Some(&self.handles[i])
            },
            None => None,
        }
    }

    /// Kill the handle with the given id, leaving it in the registry.
    pub fn revoke_handle(&mut self, handle_id: u64) -> (r: Result<(), IpcError>)
        requires
            old(self).wf(),
        ensures
            final(self).wf(),
            final(self).next_handle_id == old(self).next_handle_id,
            ({
                let s0 = old(self).handles@;
                if spec_has_handle(s0, handle_id) {
                    let i = spec_index_of_handle(s0, handle_id);
                    &&& r == Ok::<(), IpcError>(())
                    &&& final(self).handles@ == s0.update(i, MemoryHandle {
                            active: false,
                            rights: AccessRights::NoAccess,
                            ..s0[i]
                        })
                } else {
                    &&& r == Err::<(), IpcError>(IpcError::HandleNotFound)
                    &&& *final(self) == *old(self)
                }
            }),
    {
        let ghost s0 = self.handles@;
        match self.find_handle(handle_id) {
            Some(i) => {
                proof {
                    Self::lemma_index_of_handle(s0, handle_id, i as int);
                }
                let mut h = self.handles.remove(i);
                h.revoke();
                self.handles.insert(i, h);
                proof {
                    assert(self.handles@ =~= s0.update(i as int, h));
                }
                Ok(())
            },
            None => Err(IpcError::HandleNotFound),
        }
    }

    /// The ids of all handles owned by `pid`, exactly the matching entries
    /// in registry order.
    pub fn get_handles_for_process(&self, pid: u64) -> (r: Vec<u64>)
        ensures
            r@ == spec_owned_handle_ids(self.handles@, pid),
    {
        let ghost s = self.handles@;
        let n = self.handles.len();
        let mut out: Vec<u64> = Vec::new();
        let mut i: usize = 0;
        proof {
            reveal(Seq::filter);
            assert(out@ =~= spec_owned_handle_ids(s.take(0int), pid));
        }
        while i < n
            invariant
                i <= n,
                n == s.len(),
                s == self.handles@,
                out@ == spec_owned_handle_ids(s.take(i as int), pid),
            decreases n - i,
        {
            if self.handles[i].owner_pid == pid {
                let id = self.handles[i].id;
                out.push(id);
            }
            proof {
                reveal(Seq::filter);
                assert(s.take(i + 1).drop_last() =~= s.take(i as int));
                assert(s.take(i + 1).last() == s[i as int]);
                assert(out@ =~= spec_owned_handle_ids(s.take(i + 1), pid));
            }
            i = i + 1;
        }
        proof {
            assert(s.take(n as int) =~= s);
        }
        out
    }

    /// The ids of all live handles currently held by `pid`, exactly the
    /// matching entries in registry order.
    pub fn get_held_handles_for_process(&self, pid: u64) -> (r: Vec<u64>)
        ensures
            r@ == spec_held_handle_ids(self.handles@, pid),
    {
        let ghost s = self.handles@;
        let n = self.handles.len();
        let mut out: Vec<u64> = Vec::new();
        let mut i: usize = 0;
        proof {
            reveal(Seq::filter);
            assert(out@ =~= spec_held_handle_ids(s.take(0int), pid));
        }
        while i < n
            invariant
                i <= n,
                n == s.len(),
                s == self.handles@,
                out@ == spec_held_handle_ids(s.take(i as int), pid),
            decreases n - i,
        {
            if self.handles[i].holder_pid == pid && self.handles[i].active {
                let id = self.handles[i].id;
                out.push(id);
            }
            proof {
                reveal(Seq::filter);
                assert(s.take(i + 1).drop_last() =~= s.take(i as int));
                assert(s.take(i + 1).last() == s[i as int]);
                assert(out@ =~= spec_held_handle_ids(s.take(i + 1), pid));
            }
            i = i + 1;
        }
        proof {
            assert(s.take(n as int) =~= s);
        }
        out
    }

    /// Drop every handle owned by or held by `pid`, called when the process
    /// exits.  Returns the holder and range of each dropped handle that had
    /// its range mapped, so the caller can tear the mappings down.
    pub fn cleanup_process_handles(&mut self, pid: u64) -> (dropped: Vec<(u64, PageRange)>)
        requires
            old(self).wf(),
        ensures
            final(self).wf(),
            final(self).next_handle_id == old(self).next_handle_id,
            final(self).handles@ == old(self).handles@.filter(
                |h: MemoryHandle| !(h.owner_pid == pid || h.holder_pid == pid)),
            forall|i: int| 0 <= i < dropped@.len()
                ==> spec_dropped_mapping_of(old(self).handles@, pid, #[trigger] dropped@[i]),
    {
        let ghost s0 = old(self).handles@;
        let ghost pred = |h: MemoryHandle| !(h.owner_pid == pid || h.holder_pid == pid);
        let mut kept: Vec<MemoryHandle> = Vec::new();
        let mut dropped: Vec<(u64, PageRange)> = Vec::new();
        let ghost mut srcs: Seq<int> = Seq::empty();
        proof {
            assert(s0.take(0int).filter(pred) =~= Seq::<MemoryHandle>::empty());
        }
        while self.handles.len() > 0
            invariant
                self.next_handle_id == old(self).next_handle_id,
                self.handles@.len() <= s0.len(),
                self.handles@ == s0.skip(s0.len() - self.handles@.len()),
                kept@ == s0.take(s0.len() - self.handles@.len()).filter(pred),
                pred == (|h: MemoryHandle| !(h.owner_pid == pid || h.holder_pid == pid)),
                srcs.len() == dropped@.len(),
                forall|a: int| 0 <= a < dropped@.len()
                    ==> 0 <= #[trigger] srcs[a] < s0.len()
                        && dropped@[a] == (s0[srcs[a]].holder_pid, s0[srcs[a]].range)
                        && (s0[srcs[a]].owner_pid == pid || s0[srcs[a]].holder_pid == pid)
                        && s0[srcs[a]].is_mapped,
            decreases self.handles@.len(),
        {
            let ghost k = s0.len() - self.handles@.len();
            let h = self.handles.remove(0);
            proof {
                reveal(Seq::filter);
                assert(h == s0[k as int]);
                assert(self.handles@ =~= s0.skip(k + 1));
                assert(s0.take(k + 1).drop_last() =~= s0.take(k as int));
                assert(s0.take(k + 1).last() == s0[k as int]);
            }
            if h.owner_pid == pid || h.holder_pid == pid {
                if h.is_mapped {
                    dropped.push((h.holder_pid, h.range));
                    proof {
                        srcs = srcs.push(k as int);
                    }
                }
            } else {
                kept.push(h);
            }
            proof {
                reveal(Seq::filter);
                assert(kept@ == s0.take(k + 1).filter(pred));
            }
        }
        proof {
            assert(s0.take(s0.len() as int) =~= s0);
        }
        self.handles = kept;
        proof {
            let sf = self.handles@;
            assert(sf == s0.filter(pred));
            assert forall|i: int| 0 <= i < sf.len() implies (#[trigger] sf[i]).wf()
                && sf[i].id < self.next_handle_id by {
                let w = Self::lemma_filter_element_from_source(s0, pred, i);
                assert(s0[w].wf());
                assert(s0[w].id < old(self).next_handle_id);
            }
            Self::lemma_filter_distinct_ids(s0, pred);
            assert forall|a: int| 0 <= a < dropped@.len()
                implies spec_dropped_mapping_of(s0, pid, #[trigger] dropped@[a]) by {
                assert(0 <= srcs[a] < s0.len()
                    && dropped@[a] == (s0[srcs[a]].holder_pid, s0[srcs[a]].range)
                    && (s0[srcs[a]].owner_pid == pid || s0[srcs[a]].holder_pid == pid)
                    && s0[srcs[a]].is_mapped);
            }
        }
        dropped
    }

    /// Every element of a filtered sequence stands somewhere in the source;
    /// the returned value is such a source index.
    proof fn lemma_filter_element_from_source(
        s: Seq<MemoryHandle>,
        pred: spec_fn(MemoryHandle) -> bool,
        i: int,
    ) -> (w: int)
        requires
            0 <= i < s.filter(pred).len(),
        ensures
            0 <= w < s.len(),
            s[w] == s.filter(pred)[i],
        decreases s.len(),
    {
        reveal(Seq::filter);
        if s.len() > 0 {
            let d = s.drop_last();
            let df = d.filter(pred);
            if i < df.len() {
                let w = Self::lemma_filter_element_from_source(d, pred, i);
                assert(s[w] == d[w]);
                assert(s.filter(pred)[i] == df[i]);
                w
            } else {
                assert(pred(s.last()));
                assert(s.filter(pred)[i] == s.last());
                s.len() - 1
            }
        } else {
            0
        }
    }

    /// A filtered sequence of handles with pairwise distinct ids keeps its
    /// ids pairwise distinct.
    proof fn lemma_filter_distinct_ids(s: Seq<MemoryHandle>, pred: spec_fn(MemoryHandle) -> bool)
        requires
            forall|a: int, b: int| 0 <= a < b < s.len() ==> s[a].id != s[b].id,
        ensures
            forall|a: int, b: int|
                0 <= a < b < s.filter(pred).len()
                ==> s.filter(pred)[a].id != s.filter(pred)[b].id,
        decreases s.len(),
    {
        reveal(Seq::filter);
        if s.len() > 0 {
            let d = s.drop_last();
            assert forall|a: int, b: int| 0 <= a < b < d.len()
                implies d[a].id != d[b].id by {
                assert(d[a] == s[a]);
                assert(d[b] == s[b]);
            }
            Self::lemma_filter_distinct_ids(d, pred);
            let df = d.filter(pred);
            let sf = s.filter(pred);
            if pred(s.last()) {
                assert(sf == df.push(s.last()));
                assert forall|a: int, b: int| 0 <= a < b < sf.len()
                    implies sf[a].id != sf[b].id by {
                    if b < df.len() {
                        assert(sf[a] == df[a]);
                        assert(sf[b] == df[b]);
                    } else {
                        assert(sf[b] == s.last());
                        assert(sf[a] == df[a]);
                        let w = Self::lemma_filter_element_from_source(d, pred, a);
                        assert(s[w] == d[w]);
                        assert(s[w].id != s[s.len() - 1].id);
                    }
                }
            } else {
                assert(sf == df);
            }
        }
    }
}


/// Create a memory handle over `[start_addr, start_addr + size)` for the
/// calling process: the first step of a zero-copy transfer.  The bounds must
/// be page-aligned and nonzero, and the page math must not overflow, else
/// `InvalidRange`.
pub fn create_memory_handle(
    registry: &mut HandleRegistry,
    current_pid: u64,
    start_addr: u64,
    size: usize,
    rights: AccessRights,
    mode: TransferMode,
) -> (r: Result<u64, IpcError>)
    requires
        old(registry).wf(),
    ensures
        final(registry).wf(),
        ({
            let range = PageRange { start_addr, size };
            if !range.spec_is_valid() || start_addr + size > u64::MAX
                || old(registry).next_handle_id == u64::MAX {
                &&& r == Err::<u64, IpcError>(IpcError::InvalidRange)
                &&& *final(registry) == *old(registry)
            } else if rights is NoAccess {
                &&& r == Err::<u64, IpcError>(IpcError::AccessDenied)
                &&& *final(registry) == *old(registry)
            } else {
                &&& r == Ok::<u64, IpcError>(old(registry).next_handle_id)
                &&& final(registry).next_handle_id == old(registry).next_handle_id + 1
                &&& final(registry).handles@ == old(registry).handles@.push(MemoryHandle {
                        id: old(registry).next_handle_id,
                        owner_pid: current_pid,
                        holder_pid: current_pid,
                        range,
                        rights,
                        mode,
                        active: true,
                        is_mapped: false,
                        holder_virt_addr: None,
                    })
            }
        }),
{
    registry.create_handle(current_pid, PageRange::new(start_addr, size), rights, mode)
}


/// The state after a successful transfer of `handle_id` from `current_pid`
/// to `target_pid`: `hs1`/`pt1` are the handle table and mapping table
/// afterwards, `hs`/`pts` before.  The holder becomes the target and the
/// handle records the installed mapping; the same frames that backed the
/// owner's range now back the target's, under `spec_holder_flags`; a
/// non-`Shared` transfer removes the owner's mapping of the range, a
/// `Shared` one keeps it; every other mapping is untouched.
pub open spec fn spec_transfer_applied(
    hs: Seq<MemoryHandle>,
    pts: Seq<Mapping>,
    hs1: Seq<MemoryHandle>,
    pt1: Seq<Mapping>,
    current_pid: u64,
    target_pid: u64,
    handle_id: u64,
) -> bool {
    let hi = spec_index_of_handle(hs, handle_id);
    let h = hs[hi];
    let start = h.range.start_addr;
    let count = h.range.size as int / 4096;
    &&& hs1 == hs.update(hi, MemoryHandle {
            holder_pid: target_pid,
            is_mapped: true,
            holder_virt_addr: Some(h.range.start_addr),
            ..h
        })
    &&& forall|q: int| #![trigger ((start + q * 4096) as u64)] 0 <= q < count
            ==> {
                let page = ((start + q * 4096) as u64);
                &&& spec_maps(pt1, target_pid, page)
                &&& spec_mapping_at(pt1, target_pid, page).frame
                    == spec_mapping_at(pts, current_pid, page).frame
                &&& spec_mapping_at(pt1, target_pid, page).flags
                    == spec_holder_flags(h.rights, h.mode)
            }
    &&& if h.mode is Shared {
            forall|q: int| #![trigger ((start + q * 4096) as u64)] 0 <= q < count
                ==> {
                    let page = ((start + q * 4096) as u64);
                    &&& spec_maps(pt1, current_pid, page)
                    &&& spec_mapping_at(pt1, current_pid, page)
                        == spec_mapping_at(pts, current_pid, page)
                }
        } else {
            spec_none_mapped(pt1, current_pid, start, count)
        }
    &&& forall|p2: u64, g2: u64|
            !(p2 == current_pid && start <= g2 < start + h.range.size)
            && !(p2 == target_pid && start <= g2 < start + h.range.size)
            ==> (#[trigger] spec_maps(pt1, p2, g2) <==> spec_maps(pts, p2, g2))
                && (spec_maps(pts, p2, g2)
                    ==> spec_mapping_at(pt1, p2, g2) == spec_mapping_at(pts, p2, g2))
}

/// Hand a memory handle to `target_pid`.  Only the owner may transfer, and
/// never to itself.  The whole operation is transactional: the owner must
/// have every page of the range mapped and the target none, else
/// `InvalidRange` and nothing changes.  On success the same physical frames
/// back the range in the target's address space — writable only outside
/// `Shared` mode — the target becomes the holder with the mapping recorded,
/// and under `Ownership` or `Exclusive` the owner's own mapping of the
/// range is torn down, while `Shared` leaves it untouched.  No other
/// process or page is affected.
#[verifier::rlimit(100)]
#[verifier::spinoff_prover]
pub fn transfer_memory(
    registry: &mut HandleRegistry,
    pt: &mut PageTables,
    current_pid: u64,
    handle_id: u64,
    target_pid: u64,
) -> (r: Result<(), IpcError>)
    requires
        old(registry).wf(),
        old(pt).wf(),
    ensures
        final(registry).wf(),
        final(pt).wf(),
        final(registry).next_handle_id == old(registry).next_handle_id,
        final(pt).tlb_flushes@ == old(pt).tlb_flushes@,
        ({
            let hs = old(registry).handles@;
            let pts = old(pt).entries@;
            if current_pid == target_pid {
                &&& r == Err::<(), IpcError>(IpcError::CircularTransfer)
                &&& final(registry).handles@ == hs
                &&& final(pt).entries@ == pts
            } else if !spec_has_handle(hs, handle_id) {
                &&& r == Err::<(), IpcError>(IpcError::HandleNotFound)
                &&& final(registry).handles@ == hs
                &&& final(pt).entries@ == pts
            } else {
                let hi = spec_index_of_handle(hs, handle_id);
                let h = hs[hi];
                let start = h.range.start_addr;
                let count = h.range.size as int / 4096;
                if h.owner_pid != current_pid {
                    &&& r == Err::<(), IpcError>(IpcError::AccessDenied)
                    &&& final(registry).handles@ == hs
                    &&& final(pt).entries@ == pts
                } else if !(h.active && h.range.spec_is_valid() && h.id != 0) {
                    &&& r == Err::<(), IpcError>(IpcError::InvalidRange)
                    &&& final(registry).handles@ == hs
                    &&& final(pt).entries@ == pts
                } else if !spec_all_mapped(pts, current_pid, start, count)
                    || !spec_none_mapped(pts, target_pid, start, count) {
                    &&& r == Err::<(), IpcError>(IpcError::InvalidRange)
                    &&& final(registry).handles@ == hs
                    &&& final(pt).entries@ == pts
                } else {
                    &&& r == Ok::<(), IpcError>(())
                    &&& spec_transfer_applied(hs, pts, final(registry).handles@,
                            final(pt).entries@, current_pid, target_pid, handle_id)
                }
            }
        }),
{
    let ghost hs = registry.handles@;
    let ghost pts = pt.entries@;
    if current_pid == target_pid {
        return Err(IpcError::CircularTransfer);
    }
    let hi = match registry.find_handle(handle_id) {
        None => {
            return Err(IpcError::HandleNotFound);
        },
        Some(x) => x,
    };
    proof {
        HandleRegistry::lemma_index_of_handle(hs, handle_id, hi as int);
    }
    let h = registry.handles[hi];
    if h.owner_pid != current_pid {
        return Err(IpcError::AccessDenied);
    }
    if !h.validate() {
        return Err(IpcError::InvalidRange);
    }
    let start = h.range.start_addr;
    let size = h.range.size;
    let count: usize = size / 4096;
    let ghost cnt = count as int;
    proof {
        assert(h.wf());
        assert(count * 4096 == size);
        assert(cnt >= 1);
    }

    // Collect the physical frames backing the owner's mapping of the range.
    let mut frames: Vec<u64> = Vec::new();
    let mut q: usize = 0;
    while q < count
        invariant
            old(registry).wf(),
            hs == old(registry).handles@,
            spec_has_handle(hs, handle_id),
            hi < hs.len(),
            hi as int == spec_index_of_handle(hs, handle_id),
            h == hs[hi as int],
            h.owner_pid == current_pid,
            current_pid != target_pid,
            h.active && h.range.spec_is_valid() && h.id != 0,
            start == h.range.start_addr,
            size == h.range.size,
            cnt == h.range.size as int / 4096,
            q <= count,
            cnt == count as int,
            old(pt).wf(),
            pts == old(pt).entries@,
            *pt == *old(pt),
            *registry == *old(registry),
            frames@.len() == q,
            start % 4096 == 0,
            start + count * 4096 <= u64::MAX,
            forall|w: int| 0 <= w < q
                ==> spec_maps(pts, current_pid, #[trigger] ((start + w * 4096) as u64)),
            forall|w: int| 0 <= w < q
                ==> #[trigger] frames@[w]
                    == spec_mapping_at(pts, current_pid, ((start + w * 4096) as u64)).frame,
            forall|w: int| 0 <= w < q ==> #[trigger] frames@[w] % 4096 == 0,
        decreases count - q,
    {
        proof {
            assert((q as int) * 4096 + 4096 <= cnt * 4096) by (nonlinear_arith)
                requires 0 <= q as int, (q as int) < cnt;
        }
        let page = start + (q as u64) * 4096;
        proof {
            assert(page % 4096 == 0) by (nonlinear_arith)
                requires start % 4096 == 0, page == start + (q as int) * 4096,
                         0 <= q as int, start + (q as int) * 4096 + 4096 <= u64::MAX;
            assert(spec_page_of(page) == page);
        }
        match pt.verify_ownership(current_pid, page) {
            Ok(pa) => {
                proof {
                    let idx = spec_index_of_mapping(pt.entries@, current_pid, page);
                    assert(0 <= idx < pts.len() && pts[idx].pid == current_pid
                        && pts[idx].page == page);
                    assert(pts[idx].frame % 4096 == 0);
                    assert(pa == spec_mapping_at(pts, current_pid, page).frame);
                }
                frames.push(pa);
            },
            Err(_) => {
                proof {
                    assert(!spec_maps(pts, current_pid, ((start + (q as int) * 4096) as u64)));
                }
                return Err(IpcError::InvalidRange);
            },
        }
        q = q + 1;
    }

    // The target must have the whole range free.
    let mut q2: usize = 0;
    while q2 < count
        invariant
            old(registry).wf(),
            hs == old(registry).handles@,
            spec_has_handle(hs, handle_id),
            hi < hs.len(),
            hi as int == spec_index_of_handle(hs, handle_id),
            h == hs[hi as int],
            h.owner_pid == current_pid,
            current_pid != target_pid,
            h.active && h.range.spec_is_valid() && h.id != 0,
            start == h.range.start_addr,
            size == h.range.size,
            cnt == h.range.size as int / 4096,
            q2 <= count,
            cnt == count as int,
            old(pt).wf(),
            pts == old(pt).entries@,
            *pt == *old(pt),
            *registry == *old(registry),
            start % 4096 == 0,
            start + count * 4096 <= u64::MAX,
            forall|w: int| 0 <= w < q2
                ==> !spec_maps(pts, target_pid, #[trigger] ((start + w * 4096) as u64)),
        decreases count - q2,
    {
        proof {
            assert((q2 as int) * 4096 + 4096 <= cnt * 4096) by (nonlinear_arith)
                requires 0 <= q2 as int, (q2 as int) < cnt;
        }
        let page = start + (q2 as u64) * 4096;
        if pt.find_mapping(target_pid, page).is_some() {
            proof {
                assert(spec_maps(pts, target_pid, ((start + (q2 as int) * 4096) as u64)));
            }
            return Err(IpcError::InvalidRange);
        }
        q2 = q2 + 1;
    }
    proof {
        assert(spec_all_mapped(pts, current_pid, start, cnt));
        assert(spec_none_mapped(pts, target_pid, start, cnt));
    }

    // Tear down the owner's mapping unless the handle is shared.
    let shared = match h.mode {
        TransferMode::Shared => true,
        _ => false,
    };
    if !shared {
        match pt.unmap_memory(current_pid, start, count) {
            Ok(_) => {},
            Err(_) => {
                proof {
                    assert(false);
                }
                return Err(IpcError::InvalidRange);
            },
        }
    }
    let ghost s1 = pt.entries@;
    proof {
        if shared {
            assert(s1 == pts);
        } else {
            assert(spec_none_mapped(s1, current_pid, start, cnt));
        }
        assert forall|w: int| 0 <= w < cnt
            implies !spec_maps(s1, target_pid, #[trigger] ((start + w * 4096) as u64)) by {
            let g = ((start + w * 4096) as u64);
            if !shared {
                assert(start <= g < start + h.range.size ==> true);
                assert(!(target_pid == current_pid));
            }
            assert(!spec_maps(pts, target_pid, g));
        }
    }

    // Install the range for the target: the granted rights, read-only under
    // Shared mode.
    let base_flags = h.access_to_flags();
    let flags = if shared {
        base_flags & !crate::aspace::PAGE_WRITABLE
    } else {
        base_flags
    };
    proof {
        assert(flags == spec_holder_flags(h.rights, h.mode));
    }
    match pt.map_memory(target_pid, start, &frames, flags) {
        Ok(_) => {},
        Err(_) => {
            proof {
                assert(false);
            }
            return Err(IpcError::InvalidRange);
        },
    }
    let ghost neu = spec_new_mappings(target_pid, start, frames@, flags);
    proof {
        assert(pt.entries@ == s1 + neu);
    }

    // The target becomes the holder, with the installed mapping recorded.
    let mut hh = registry.handles.remove(hi);
    hh.holder_pid = target_pid;
    hh.mark_mapped(start);
    registry.handles.insert(hi, hh);
    proof {
        assert(registry.handles@ =~= hs.update(hi as int, MemoryHandle {
            holder_pid: target_pid,
            is_mapped: true,
            holder_virt_addr: Some(start),
            ..h
        }));
        let sfh = registry.handles@;
        assert forall|i: int| 0 <= i < sfh.len() implies (#[trigger] sfh[i]).wf()
            && sfh[i].id < registry.next_handle_id by {
            if i != hi {
                assert(sfh[i] == hs[i]);
            }
        }
        assert forall|i: int, j: int| 0 <= i < j < sfh.len()
            implies sfh[i].id != sfh[j].id by {
            assert(sfh[i].id == hs[i].id);
            assert(sfh[j].id == hs[j].id);
        }

        let sf = pt.entries@;
        // Every new entry sits in the transferred range.
        assert forall|w: int| #![trigger neu[w]] 0 <= w < cnt implies {
            let page = ((start + w * 4096) as u64);
            neu[w] == (Mapping { pid: target_pid, page, frame: frames@[w], flags })
            && start <= page < start + h.range.size
        } by {
            assert(0 * 4096 <= w * 4096 < cnt * 4096) by (nonlinear_arith)
                requires 0 <= w < cnt;
        }
        // Target-side facts.
        assert forall|w: int| #![trigger ((start + w * 4096) as u64)] 0 <= w < cnt
            implies {
                let page = ((start + w * 4096) as u64);
                &&& spec_maps(sf, target_pid, page)
                &&& spec_mapping_at(sf, target_pid, page).frame
                    == spec_mapping_at(pts, current_pid, page).frame
                &&& spec_mapping_at(sf, target_pid, page).flags
                    == spec_holder_flags(h.rights, h.mode)
            } by {
            let page = ((start + w * 4096) as u64);
            assert(sf[s1.len() + w] == neu[w]);
            assert(sf[s1.len() + w].pid == target_pid && sf[s1.len() + w].page == page);
            assert(spec_maps(sf, target_pid, page));
            PageTables::lemma_index_of_mapping(sf, target_pid, page, s1.len() + w);
            assert(spec_mapping_at(sf, target_pid, page) == neu[w]);
            assert(frames@[w] == spec_mapping_at(pts, current_pid, page).frame);
        }
        // Owner-side facts.
        if shared {
            assert forall|w: int| #![trigger ((start + w * 4096) as u64)] 0 <= w < cnt
                implies {
                    let page = ((start + w * 4096) as u64);
                    &&& spec_maps(sf, current_pid, page)
                    &&& spec_mapping_at(sf, current_pid, page)
                        == spec_mapping_at(pts, current_pid, page)
                } by {
                let page = ((start + w * 4096) as u64);
                assert(spec_maps(s1, current_pid, page));
                lemma_maps_append(s1, neu, current_pid, page);
                lemma_mapping_at_append_left(s1, neu, current_pid, page);
            }
        } else {
            assert forall|w: int| 0 <= w < cnt
                implies !spec_maps(sf, current_pid, #[trigger] ((start + w * 4096) as u64)) by {
                let page = ((start + w * 4096) as u64);
                lemma_maps_append(s1, neu, current_pid, page);
                if spec_maps(neu, current_pid, page) {
                    let v = choose|v: int| 0 <= v < neu.len()
                        && (#[trigger] neu[v]).pid == current_pid && neu[v].page == page;
                    assert(neu[v].pid == target_pid);
                }
            }
        }
        // Everything outside the range for other principals is untouched.
        assert forall|p2: u64, g2: u64|
            !(p2 == current_pid && start <= g2 < start + h.range.size)
            && !(p2 == target_pid && start <= g2 < start + h.range.size)
            implies (#[trigger] spec_maps(sf, p2, g2) <==> spec_maps(pts, p2, g2))
                && (spec_maps(pts, p2, g2)
                    ==> spec_mapping_at(sf, p2, g2) == spec_mapping_at(pts, p2, g2)) by {
            lemma_maps_append(s1, neu, p2, g2);
            if spec_maps(neu, p2, g2) {
                let v = choose|v: int| 0 <= v < neu.len()
                    && (#[trigger] neu[v]).pid == p2 && neu[v].page == g2;
                assert(neu[v] == (Mapping {
                    pid: target_pid,
                    page: ((start + v * 4096) as u64),
                    frame: frames@[v],
                    flags,
                }));
                assert(start <= g2 < start + h.range.size);
            }
            assert(spec_maps(s1, p2, g2) <==> spec_maps(pts, p2, g2));
            if spec_maps(pts, p2, g2) {
                assert(spec_maps(s1, p2, g2));
                lemma_mapping_at_append_left(s1, neu, p2, g2);
                assert(spec_mapping_at(s1, p2, g2) == spec_mapping_at(pts, p2, g2));
            }
        }
        let ghost hig = spec_index_of_handle(hs, handle_id);
        let ghost hg = hs[hig];
        let ghost startg = hg.range.start_addr;
        let ghost countg = hg.range.size as int / 4096;
        assert(hig == hi as int && hg == h && startg == start && countg == cnt);
        assert(registry.handles@ == hs.update(hig, MemoryHandle {
            holder_pid: target_pid,
            is_mapped: true,
            holder_virt_addr: Some(startg),
            ..hg
        }));
        assert(forall|q: int| #![trigger ((startg + q * 4096) as u64)] 0 <= q < countg
            ==> {
                let page = ((startg + q * 4096) as u64);
                &&& spec_maps(pt.entries@, target_pid, page)
                &&& spec_mapping_at(pt.entries@, target_pid, page).frame
                    == spec_mapping_at(pts, current_pid, page).frame
                &&& spec_mapping_at(pt.entries@, target_pid, page).flags
                    == spec_holder_flags(hg.rights, hg.mode)
            });
        if hg.mode is Shared {
            assert(forall|q: int| #![trigger ((startg + q * 4096) as u64)] 0 <= q < countg
                ==> {
                    let page = ((startg + q * 4096) as u64);
                    &&& spec_maps(pt.entries@, current_pid, page)
                    &&& spec_mapping_at(pt.entries@, current_pid, page)
                        == spec_mapping_at(pts, current_pid, page)
                });
        } else {
            assert(spec_none_mapped(pt.entries@, current_pid, startg, countg));
        }
        assert(forall|p2: u64, g2: u64|
            !(p2 == current_pid && startg <= g2 < startg + hg.range.size)
            && !(p2 == target_pid && startg <= g2 < startg + hg.range.size)
            ==> (#[trigger] spec_maps(pt.entries@, p2, g2) <==> spec_maps(pts, p2, g2))
                && (spec_maps(pts, p2, g2)
                    ==> spec_mapping_at(pt.entries@, p2, g2) == spec_mapping_at(pts, p2, g2)));
        assert(spec_transfer_applied(hs, pts, registry.handles@, pt.entries@,
            current_pid, target_pid, handle_id));
    }
    Ok(())
}

/// Accept a transferred handle: the caller must be the current holder of a
/// live handle, and every page of the range must already be installed in
/// its address space (the explicit check before the mapping is committed).
/// On success the handle records the mapping and the range comes back.
pub fn receive_memory_handle(
    registry: &mut HandleRegistry,
    pt: &PageTables,
    current_pid: u64,
    handle_id: u64,
) -> (r: Result<PageRange, IpcError>)
    requires
        old(registry).wf(),
        pt.wf(),
    ensures
        final(registry).wf(),
        final(registry).next_handle_id == old(registry).next_handle_id,
        ({
            let hs = old(registry).handles@;
            if !spec_has_handle(hs, handle_id) {
                &&& r == Err::<PageRange, IpcError>(IpcError::HandleNotFound)
                &&& *final(registry) == *old(registry)
            } else {
                let hi = spec_index_of_handle(hs, handle_id);
                let h = hs[hi];
                let count = h.range.size as int / 4096;
                if h.holder_pid != current_pid {
                    &&& r == Err::<PageRange, IpcError>(IpcError::AccessDenied)
                    &&& *final(registry) == *old(registry)
                } else if !(h.active && h.range.spec_is_valid() && h.id != 0) {
                    &&& r == Err::<PageRange, IpcError>(IpcError::InvalidRange)
                    &&& *final(registry) == *old(registry)
                } else if !spec_all_mapped(pt.entries@, current_pid, h.range.start_addr, count) {
                    &&& r == Err::<PageRange, IpcError>(IpcError::InvalidRange)
                    &&& *final(registry) == *old(registry)
                } else {
                    &&& r == Ok::<PageRange, IpcError>(h.range)
                    &&& final(registry).handles@ == hs.update(hi, MemoryHandle {
                            is_mapped: true,
                            holder_virt_addr: Some(h.range.start_addr),
                            ..h
                        })
                }
            }
        }),
{
    let ghost hs = registry.handles@;
    let hi = match registry.find_handle(handle_id) {
        None => {
            return Err(IpcError::HandleNotFound);
        },
        Some(x) => x,
    };
    proof {
        HandleRegistry::lemma_index_of_handle(hs, handle_id, hi as int);
    }
    let h = registry.handles[hi];
    if h.holder_pid != current_pid {
        return Err(IpcError::AccessDenied);
    }
    if !h.validate() {
        return Err(IpcError::InvalidRange);
    }
    let start = h.range.start_addr;
    let size = h.range.size;
    let count: usize = size / 4096;
    let ghost cnt = count as int;
    proof {
        assert(h.wf());
        assert(count * 4096 == size);
    }
    let mut q: usize = 0;
    while q < count
        invariant
            old(registry).wf(),
            hs == old(registry).handles@,
            spec_has_handle(hs, handle_id),
            hi < hs.len(),
            hi as int == spec_index_of_handle(hs, handle_id),
            h == hs[hi as int],
            h.holder_pid == current_pid,
            h.active && h.range.spec_is_valid() && h.id != 0,
            start == h.range.start_addr,
            size == h.range.size,
            cnt == h.range.size as int / 4096,
            q <= count,
            cnt == count as int,
            pt.wf(),
            *registry == *old(registry),
            start % 4096 == 0,
            start + count * 4096 <= u64::MAX,
            forall|w: int| 0 <= w < q
                ==> spec_maps(pt.entries@, current_pid, #[trigger] ((start + w * 4096) as u64)),
        decreases count - q,
    {
        proof {
            assert((q as int) * 4096 + 4096 <= cnt * 4096) by (nonlinear_arith)
                requires 0 <= q as int, (q as int) < cnt;
        }
        let page = start + (q as u64) * 4096;
        if pt.find_mapping(current_pid, page).is_none() {
            proof {
                assert(!spec_maps(pt.entries@, current_pid, ((start + (q as int) * 4096) as u64)));
            }
            return Err(IpcError::InvalidRange);
        }
        q = q + 1;
    }
    proof {
        assert(spec_all_mapped(pt.entries@, current_pid, start, cnt));
    }
    let mut hh = registry.handles.remove(hi);
    hh.mark_mapped(start);
    registry.handles.insert(hi, hh);
    proof {
        assert(registry.handles@ =~= hs.update(hi as int, MemoryHandle {
            is_mapped: true,
            holder_virt_addr: Some(start),
            ..h
        }));
        let sfh = registry.handles@;
        assert forall|i: int| 0 <= i < sfh.len() implies (#[trigger] sfh[i]).wf()
            && sfh[i].id < registry.next_handle_id by {
            if i != hi {
                assert(sfh[i] == hs[i]);
            }
        }
        assert forall|i: int, j: int| 0 <= i < j < sfh.len()
            implies sfh[i].id != sfh[j].id by {
            assert(sfh[i].id == hs[i].id);
            assert(sfh[j].id == hs[j].id);
        }
    }
    Ok(h.range)
}

/// Revoke a handle: only the owner may.  The handle dies (no rights, not
/// mapped); if the holder had the range mapped and every page of it is
/// installed, the holder's mapping is torn down and a TLB flush is recorded
/// for each page of the range.
pub fn revoke_memory_handle(
    registry: &mut HandleRegistry,
    pt: &mut PageTables,
    current_pid: u64,
    handle_id: u64,
) -> (r: Result<(), IpcError>)
    requires
        old(registry).wf(),
        old(pt).wf(),
    ensures
        final(registry).wf(),
        final(pt).wf(),
        final(registry).next_handle_id == old(registry).next_handle_id,
        ({
            let hs = old(registry).handles@;
            let pts = old(pt).entries@;
            if !spec_has_handle(hs, handle_id) {
                &&& r == Err::<(), IpcError>(IpcError::HandleNotFound)
                &&& *final(registry) == *old(registry)
                &&& *final(pt) == *old(pt)
            } else {
                let hi = spec_index_of_handle(hs, handle_id);
                let h = hs[hi];
                let start = h.range.start_addr;
                let count = h.range.size as int / 4096;
                if h.owner_pid != current_pid {
                    &&& r == Err::<(), IpcError>(IpcError::AccessDenied)
                    &&& *final(registry) == *old(registry)
                    &&& *final(pt) == *old(pt)
                } else {
                    &&& r == Ok::<(), IpcError>(())
                    &&& final(registry).handles@ == hs.update(hi, MemoryHandle {
                            active: false,
                            rights: AccessRights::NoAccess,
                            is_mapped: false,
                            holder_virt_addr: None,
                            ..h
                        })
                    &&& if h.is_mapped && h.range.spec_is_valid()
                            && start + h.range.size <= u64::MAX
                            && spec_all_mapped(pts, h.holder_pid, start, count) {
                        &&& spec_none_mapped(final(pt).entries@, h.holder_pid, start, count)
                        &&& forall|p2: u64, g2: u64|
                                !(p2 == h.holder_pid && start <= g2 < start + h.range.size)
                                ==> (#[trigger] spec_maps(final(pt).entries@, p2, g2)
                                     <==> spec_maps(pts, p2, g2))
                                    && (spec_maps(pts, p2, g2)
                                        ==> spec_mapping_at(final(pt).entries@, p2, g2)
                                            == spec_mapping_at(pts, p2, g2))
                        &&& final(pt).tlb_flushes@ == old(pt).tlb_flushes@
                            + Seq::new(count as nat, |q: int| ((start + q * 4096) as u64))
                    } else {
                        *final(pt) == *old(pt)
                    }
                }
            }
        }),
{
    let ghost hs = registry.handles@;
    let ghost pts = pt.entries@;
    let hi = match registry.find_handle(handle_id) {
        None => {
            return Err(IpcError::HandleNotFound);
        },
        Some(x) => x,
    };
    proof {
        HandleRegistry::lemma_index_of_handle(hs, handle_id, hi as int);
    }
    let h = registry.handles[hi];
    if h.owner_pid != current_pid {
        return Err(IpcError::AccessDenied);
    }
    let start = h.range.start_addr;
    let size = h.range.size;

    // Tear down the holder's mapping where it exists in full.
    if h.is_mapped && h.range.is_valid() && size as u64 <= u64::MAX - start {
        let count: usize = size / 4096;
        let ghost cnt = count as int;
        proof {
            assert(count * 4096 == size);
        }
        match pt.unmap_memory(h.holder_pid, start, count) {
            Ok(_) => {
                let ghost s1 = pt.entries@;
                let ghost f0 = pt.tlb_flushes@;
                let mut q: usize = 0;
                proof {
                    assert(pt.tlb_flushes@ =~= f0
                        + Seq::new(0nat, |w: int| ((start + w * 4096) as u64)));
                }
                while q < count
                    invariant
                        q <= count,
                        cnt == count as int,
                        pt.wf(),
                        pt.entries@ == s1,
                        start % 4096 == 0,
                        start + count * 4096 <= u64::MAX,
                        pt.tlb_flushes@ == f0
                            + Seq::new(q as nat, |w: int| ((start + w * 4096) as u64)),
                    decreases count - q,
                {
                    proof {
                        assert((q as int) * 4096 + 4096 <= cnt * 4096) by (nonlinear_arith)
                            requires 0 <= q as int, (q as int) < cnt;
                    }
                    let page = start + (q as u64) * 4096;
                    pt.flush_tlb_entry(page);
                    proof {
                        assert(pt.tlb_flushes@ =~= f0
                            + Seq::new((q + 1) as nat, |w: int| ((start + w * 4096) as u64)));
                    }
                    q = q + 1;
                }
            },
            Err(_) => {},
        }
    }

    // Kill the handle.
    let mut hh = registry.handles.remove(hi);
    hh.revoke();
    hh.mark_unmapped();
    registry.handles.insert(hi, hh);
    proof {
        assert(registry.handles@ =~= hs.update(hi as int, MemoryHandle {
            active: false,
            rights: AccessRights::NoAccess,
            is_mapped: false,
            holder_virt_addr: None,
            ..h
        }));
        let sfh = registry.handles@;
        assert forall|i: int| 0 <= i < sfh.len() implies (#[trigger] sfh[i]).wf()
            && sfh[i].id < registry.next_handle_id by {
            if i != hi {
                assert(sfh[i] == hs[i]);
            }
        }
        assert forall|i: int, j: int| 0 <= i < j < sfh.len()
            implies sfh[i].id != sfh[j].id by {
            assert(sfh[i].id == hs[i].id);
            assert(sfh[j].id == hs[j].id);
        }
    }
    Ok(())
}


/// Law: an `Ownership` or `Exclusive` transfer is exclusive.  After it, no
/// page of the range is mapped for the previous owner — a read by the owner
/// faults — while every page is mapped for the target, backed by the very
/// frames that backed the owner's mapping.
pub proof fn lemma_ownership_transfer_excludes_owner(
    hs: Seq<MemoryHandle>,
    pts: Seq<Mapping>,
    hs1: Seq<MemoryHandle>,
    pt1: Seq<Mapping>,
    current_pid: u64,
    target_pid: u64,
    handle_id: u64,
    q: int,
)
    requires
        spec_has_handle(hs, handle_id),
        spec_transfer_applied(hs, pts, hs1, pt1, current_pid, target_pid, handle_id),
        !(hs[spec_index_of_handle(hs, handle_id)].mode is Shared),
        0 <= q < hs[spec_index_of_handle(hs, handle_id)].range.size as int / 4096,
    ensures
        ({
            let h = hs[spec_index_of_handle(hs, handle_id)];
            let page = ((h.range.start_addr + q * 4096) as u64);
            &&& !spec_maps(pt1, current_pid, page)
            &&& spec_maps(pt1, target_pid, page)
            &&& spec_mapping_at(pt1, target_pid, page).frame
                == spec_mapping_at(pts, current_pid, page).frame
            &&& hs1[spec_index_of_handle(hs, handle_id)].holder_pid == target_pid
        }),
{
    let h = hs[spec_index_of_handle(hs, handle_id)];
    assert(spec_none_mapped(pt1, current_pid, h.range.start_addr,
        h.range.size as int / 4096));
    assert(!spec_maps(pt1, current_pid, ((h.range.start_addr + q * 4096) as u64)));
}

/// Law: a `Shared` transfer leaves the owner's own mapping of the range in
/// place — owner and target both reach the pages — and a later revoke both
/// kills the handle and (when the holder's mapping was committed in full)
/// removes the holder's mapping of every page.
pub proof fn lemma_shared_transfer_keeps_owner(
    hs: Seq<MemoryHandle>,
    pts: Seq<Mapping>,
    hs1: Seq<MemoryHandle>,
    pt1: Seq<Mapping>,
    current_pid: u64,
    target_pid: u64,
    handle_id: u64,
    q: int,
)
    requires
        spec_has_handle(hs, handle_id),
        spec_transfer_applied(hs, pts, hs1, pt1, current_pid, target_pid, handle_id),
        hs[spec_index_of_handle(hs, handle_id)].mode is Shared,
        0 <= q < hs[spec_index_of_handle(hs, handle_id)].range.size as int / 4096,
    ensures
        ({
            let h = hs[spec_index_of_handle(hs, handle_id)];
            let page = ((h.range.start_addr + q * 4096) as u64);
            &&& spec_maps(pt1, current_pid, page)
            &&& spec_mapping_at(pt1, current_pid, page) == spec_mapping_at(pts, current_pid, page)
            &&& spec_maps(pt1, target_pid, page)
        }),
{
    let h = hs[spec_index_of_handle(hs, handle_id)];
    assert(spec_maps(pt1, current_pid, ((h.range.start_addr + q * 4096) as u64)));
}

} // verus!
