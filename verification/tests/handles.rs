//! Zero-copy memory handles: creation bounds, the three transfer modes over
//! the page-mapping model, revocation and cleanup.

use ruix::aspace::PageTables;
use ruix::error::IpcError;
use ruix::handle::{
    create_memory_handle, receive_memory_handle, revoke_memory_handle, transfer_memory,
    AccessRights, HandleRegistry, PageRange, TransferMode,
};

/// A registry and a page table where pid 2 has one page mapped at
/// 0x401000, backed by frame 0x100000.
fn owner_with_page() -> (HandleRegistry, PageTables) {
    let mut pt = PageTables::new();
    pt.map_user_page(2, 0x401000, 0x100000).unwrap();
    (HandleRegistry::new(), pt)
}

#[test]
fn create_handle_misaligned_start_is_invalid_range() {
    let mut reg = HandleRegistry::new();
    let r = create_memory_handle(&mut reg, 2, 0x401010, 4096, AccessRights::ReadWrite,
        TransferMode::Ownership);
    assert_eq!(r, Err(IpcError::InvalidRange));
}

#[test]
fn create_handle_zero_size_is_invalid_range() {
    let mut reg = HandleRegistry::new();
    let r = create_memory_handle(&mut reg, 2, 0x401000, 0, AccessRights::ReadWrite,
        TransferMode::Ownership);
    assert_eq!(r, Err(IpcError::InvalidRange));
}

#[test]
fn create_handle_overflowing_page_math_is_invalid_range() {
    // The rounded size would overflow the checked sum in the page math.
    let mut reg = HandleRegistry::new();
    let r = create_memory_handle(&mut reg, 2, 0x7FFF_F000, usize::MAX - 4094,
        AccessRights::ReadWrite, TransferMode::Ownership);
    assert_eq!(r, Err(IpcError::InvalidRange));
}

#[test]
fn page_count_checks_the_rounding_sum() {
    let r = PageRange::new(0x7FFF_F000, usize::MAX - 4094);
    assert_eq!(r.page_count(), Err(IpcError::InvalidRange));
    let ok = PageRange::new(0x401000, 8192);
    assert_eq!(ok.page_count(), Ok(2));
}

#[test]
fn active_handle_is_valid_and_grants_access() {
    let mut reg = HandleRegistry::new();
    let hid = create_memory_handle(&mut reg, 2, 0x401000, 4096, AccessRights::ReadWrite,
        TransferMode::Ownership).unwrap();
    let h = reg.get_handle(hid).unwrap();
    assert!(h.validate());
    assert!(h.has_access(2));
    assert!(!h.has_access(3));
    assert_eq!(h.owner_pid, 2);
    assert_eq!(h.holder_pid, 2);
    assert!(h.active);
}

#[test]
fn ownership_transfer_moves_the_page() {
    let (mut reg, mut pt) = owner_with_page();
    // The owner writes through its mapping before the transfer; afterwards
    // its own read faults while the receiver reaches the same frame.
    assert_eq!(pt.translate_addr(2, 0x401000), Some(0x100000));
    let hid = create_memory_handle(&mut reg, 2, 0x401000, 4096, AccessRights::ReadWrite,
        TransferMode::Ownership).unwrap();
    assert_eq!(transfer_memory(&mut reg, &mut pt, 2, hid, 3), Ok(()));
    // The owner's next read of the range faults: the page is gone.
    assert_eq!(pt.translate_addr(2, 0x401000), None);
    // The receiver commits the mapping and gets the range back.
    let range = receive_memory_handle(&mut reg, &pt, 3, hid).unwrap();
    assert_eq!(range.start_addr, 0x401000);
    assert_eq!(range.size, 4096);
    // Zero copy: the very same frame backs the receiver's page, so the byte
    // the owner wrote is what the receiver reads.
    assert_eq!(pt.translate_addr(3, 0x401000), Some(0x100000));
    assert_eq!(pt.translate_addr(3, 0x401007), Some(0x100007));
    let h = reg.get_handle(hid).unwrap();
    assert_eq!(h.holder_pid, 3);
    assert!(h.is_mapped);
}

#[test]
fn shared_transfer_keeps_the_owner_mapping() {
    let (mut reg, mut pt) = owner_with_page();
    let hid = create_memory_handle(&mut reg, 2, 0x401000, 4096, AccessRights::ReadOnly,
        TransferMode::Shared).unwrap();
    assert_eq!(transfer_memory(&mut reg, &mut pt, 2, hid, 3), Ok(()));
    // The owner retains its mapping; the holder has one too.
    assert_eq!(pt.translate_addr(2, 0x401000), Some(0x100000));
    assert_eq!(pt.translate_addr(3, 0x401000), Some(0x100000));
    receive_memory_handle(&mut reg, &pt, 3, hid).unwrap();
    // Revoking removes the holder's mapping and kills the handle.
    let flushes_before = pt.tlb_flushes.len();
    assert_eq!(revoke_memory_handle(&mut reg, &mut pt, 2, hid), Ok(()));
    assert_eq!(pt.translate_addr(3, 0x401000), None);
    assert_eq!(pt.translate_addr(2, 0x401000), Some(0x100000));
    assert_eq!(pt.tlb_flushes.len(), flushes_before + 1);
    let h = reg.get_handle(hid).unwrap();
    assert!(!h.active);
    assert_eq!(h.rights, AccessRights::NoAccess);
    assert!(!h.is_mapped);
}

#[test]
fn exclusive_transfer_unmaps_the_owner() {
    let (mut reg, mut pt) = owner_with_page();
    let hid = create_memory_handle(&mut reg, 2, 0x401000, 4096, AccessRights::ReadWrite,
        TransferMode::Exclusive).unwrap();
    assert_eq!(transfer_memory(&mut reg, &mut pt, 2, hid, 3), Ok(()));
    assert_eq!(pt.translate_addr(2, 0x401000), None);
    assert_eq!(pt.translate_addr(3, 0x401000), Some(0x100000));
}

#[test]
fn revoke_between_transfer_and_receive_unmaps_the_holder() {
    let (mut reg, mut pt) = owner_with_page();
    let hid = create_memory_handle(&mut reg, 2, 0x401000, 4096, AccessRights::ReadWrite,
        TransferMode::Ownership).unwrap();
    transfer_memory(&mut reg, &mut pt, 2, hid, 3).unwrap();
    // The target has the range installed even before it calls receive, so a
    // revoke in this window must tear that mapping down.
    assert_eq!(pt.translate_addr(3, 0x401000), Some(0x100000));
    assert_eq!(revoke_memory_handle(&mut reg, &mut pt, 2, hid), Ok(()));
    assert_eq!(pt.translate_addr(3, 0x401000), None);
    let h = reg.get_handle(hid).unwrap();
    assert!(!h.active);
}

#[test]
fn shared_transfer_masks_the_writable_bit() {
    let (mut reg, mut pt) = owner_with_page();
    let hid = create_memory_handle(&mut reg, 2, 0x401000, 4096, AccessRights::ReadWrite,
        TransferMode::Shared).unwrap();
    transfer_memory(&mut reg, &mut pt, 2, hid, 3).unwrap();
    // The receiver's copy of the access is read-only: present and
    // user-accessible, writable cleared.
    let holder_entry = pt
        .entries
        .iter()
        .find(|m| m.pid == 3 && m.page == 0x401000)
        .unwrap();
    assert_eq!(holder_entry.flags, 0x5);
    // An Ownership transfer of the same rights keeps the writable bit.
    let (mut reg2, mut pt2) = owner_with_page();
    let hid2 = create_memory_handle(&mut reg2, 2, 0x401000, 4096, AccessRights::ReadWrite,
        TransferMode::Ownership).unwrap();
    transfer_memory(&mut reg2, &mut pt2, 2, hid2, 3).unwrap();
    let moved_entry = pt2
        .entries
        .iter()
        .find(|m| m.pid == 3 && m.page == 0x401000)
        .unwrap();
    assert_eq!(moved_entry.flags, 0x7);
}

#[test]
fn transfer_to_self_is_circular() {
    let (mut reg, mut pt) = owner_with_page();
    let hid = create_memory_handle(&mut reg, 2, 0x401000, 4096, AccessRights::ReadWrite,
        TransferMode::Ownership).unwrap();
    assert_eq!(transfer_memory(&mut reg, &mut pt, 2, hid, 2), Err(IpcError::CircularTransfer));
}

#[test]
fn transfer_by_non_owner_is_access_denied() {
    let (mut reg, mut pt) = owner_with_page();
    let hid = create_memory_handle(&mut reg, 2, 0x401000, 4096, AccessRights::ReadWrite,
        TransferMode::Ownership).unwrap();
    assert_eq!(transfer_memory(&mut reg, &mut pt, 5, hid, 3), Err(IpcError::AccessDenied));
}

#[test]
fn transfer_of_unmapped_range_is_invalid_range() {
    let mut reg = HandleRegistry::new();
    let mut pt = PageTables::new();
    let hid = create_memory_handle(&mut reg, 2, 0x401000, 4096, AccessRights::ReadWrite,
        TransferMode::Ownership).unwrap();
    assert_eq!(transfer_memory(&mut reg, &mut pt, 2, hid, 3), Err(IpcError::InvalidRange));
}

#[test]
fn transfer_of_unknown_handle_is_not_found() {
    let mut reg = HandleRegistry::new();
    let mut pt = PageTables::new();
    assert_eq!(transfer_memory(&mut reg, &mut pt, 2, 99, 3), Err(IpcError::HandleNotFound));
}

#[test]
fn receive_by_non_holder_is_access_denied() {
    let (mut reg, mut pt) = owner_with_page();
    let hid = create_memory_handle(&mut reg, 2, 0x401000, 4096, AccessRights::ReadWrite,
        TransferMode::Ownership).unwrap();
    transfer_memory(&mut reg, &mut pt, 2, hid, 3).unwrap();
    assert_eq!(receive_memory_handle(&mut reg, &pt, 5, hid), Err(IpcError::AccessDenied));
}

#[test]
fn revoke_by_non_owner_is_access_denied() {
    let (mut reg, mut pt) = owner_with_page();
    let hid = create_memory_handle(&mut reg, 2, 0x401000, 4096, AccessRights::ReadWrite,
        TransferMode::Ownership).unwrap();
    assert_eq!(revoke_memory_handle(&mut reg, &mut pt, 3, hid), Err(IpcError::AccessDenied));
}

#[test]
fn cleanup_drops_owned_and_held_handles() {
    let mut reg = HandleRegistry::new();
    let a = create_memory_handle(&mut reg, 2, 0x401000, 4096, AccessRights::ReadWrite,
        TransferMode::Ownership).unwrap();
    let b = create_memory_handle(&mut reg, 3, 0x402000, 4096, AccessRights::ReadWrite,
        TransferMode::Ownership).unwrap();
    let c = create_memory_handle(&mut reg, 4, 0x403000, 4096, AccessRights::ReadWrite,
        TransferMode::Ownership).unwrap();
    reg.cleanup_process_handles(2);
    assert!(reg.get_handle(a).is_none());
    assert!(reg.get_handle(b).is_some());
    assert!(reg.get_handle(c).is_some());
    let owned = reg.get_handles_for_process(3);
    assert_eq!(owned, vec![b]);
    let held = reg.get_held_handles_for_process(4);
    assert_eq!(held, vec![c]);
}

#[test]
fn access_flags_follow_rights() {
    let mut reg = HandleRegistry::new();
    let hid = create_memory_handle(&mut reg, 2, 0x401000, 4096, AccessRights::ReadWrite,
        TransferMode::Shared).unwrap();
    let h = reg.get_handle(hid).unwrap();
    // Present, writable, user-accessible.
    assert_eq!(h.access_to_flags(), 0x7);
}
