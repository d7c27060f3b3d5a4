//! The smaller components: error recovery policy, per-CPU data, interrupt
//! vectors, allocation bookkeeping and the page-table model.

use ruix::aspace::PageTables;
use ruix::cpu::{cpu_count, CpuData, CpuManager, PerfMonitor};
use ruix::error::{
    get_recovery_strategy, AllocError, GeneralError, HardwareError, IpcError, KernelError,
    ProcessError, RecoveryStrategy, SyscallError,
};
use ruix::interrupts::InterruptIndex;
use ruix::memory::{
    get_memory_stats, AllocFlags, MemoryRegion, MemoryType, PerCpuAllocator,
};

#[test]
fn recovery_policy_by_error_kind() {
    assert_eq!(
        get_recovery_strategy(&KernelError::Memory(AllocError::OutOfMemory)),
        RecoveryStrategy::Abort
    );
    assert_eq!(
        get_recovery_strategy(&KernelError::Memory(AllocError::BadAlignment)),
        RecoveryStrategy::Retry
    );
    assert_eq!(
        get_recovery_strategy(&KernelError::Process(ProcessError::NotFound)),
        RecoveryStrategy::Abort
    );
    assert_eq!(
        get_recovery_strategy(&KernelError::Syscall(SyscallError::InvalidNumber)),
        RecoveryStrategy::Skip
    );
    assert_eq!(
        get_recovery_strategy(&KernelError::Ipc(IpcError::ChannelFull)),
        RecoveryStrategy::Retry
    );
    assert_eq!(
        get_recovery_strategy(&KernelError::Hardware(HardwareError::DeviceNotFound)),
        RecoveryStrategy::Abort
    );
    assert_eq!(
        get_recovery_strategy(&KernelError::Hardware(HardwareError::Timeout)),
        RecoveryStrategy::Retry
    );
    assert_eq!(
        get_recovery_strategy(&KernelError::General(GeneralError::Internal)),
        RecoveryStrategy::Panic
    );
    assert_eq!(
        get_recovery_strategy(&KernelError::General(GeneralError::NotImplemented)),
        RecoveryStrategy::Abort
    );
}

#[test]
fn kernel_error_wraps_each_subsystem() {
    assert_eq!(KernelError::from(AllocError::OutOfMemory), KernelError::Memory(AllocError::OutOfMemory));
    assert_eq!(KernelError::from(ProcessError::NotFound), KernelError::Process(ProcessError::NotFound));
    assert_eq!(KernelError::from(SyscallError::InvalidArgs), KernelError::Syscall(SyscallError::InvalidArgs));
    assert_eq!(KernelError::from(IpcError::NoMessage), KernelError::Ipc(IpcError::NoMessage));
    assert_eq!(KernelError::from(HardwareError::DeviceBusy), KernelError::Hardware(HardwareError::DeviceBusy));
    assert_eq!(KernelError::from(GeneralError::Internal), KernelError::General(GeneralError::Internal));
}

#[test]
fn interrupt_vectors_follow_the_pic_offset() {
    assert_eq!(InterruptIndex::Timer.as_u8(), 32);
    assert_eq!(InterruptIndex::Keyboard.as_u8(), 33);
    assert_eq!(InterruptIndex::Timer.as_usize(), 32);
    assert_eq!(InterruptIndex::Keyboard.as_usize(), 33);
}

#[test]
fn cpu_data_tracks_the_scratch_fields() {
    let mut c = CpuData::new(0, 0xFFFF_8000);
    assert_eq!(c.get_current_process_id(), 0);
    c.set_current_process_id(7);
    assert_eq!(c.get_current_process_id(), 7);
    c.set_user_rsp(0x601000);
    assert_eq!(c.get_user_rsp(), 0x601000);
    assert!(!c.in_interrupt());
    c.enter_interrupt();
    assert!(c.in_interrupt());
    c.exit_interrupt();
    assert!(!c.in_interrupt());
    c.exit_interrupt();
    assert!(!c.in_interrupt());
    c.set_last_error(KernelError::General(GeneralError::Internal));
    assert_eq!(c.take_last_error(), Some(KernelError::General(GeneralError::Internal)));
    assert_eq!(c.take_last_error(), None);
}

#[test]
fn cpu_manager_claims_slots_once() {
    let mut m = CpuManager::new();
    assert_eq!(cpu_count(&m), 0);
    assert!(m.init_cpu(0, 0xFFFF_8000).is_ok());
    assert_eq!(cpu_count(&m), 1);
    assert!(m.init_cpu(0, 0xFFFF_9000).is_err());
    assert!(m.init_cpu(64, 0xFFFF_9000).is_err());
    let c = m.get_cpu(0).unwrap();
    assert_eq!(c.kernel_stack_top, 0xFFFF_8000);
    assert!(m.get_cpu(1).is_err());
    let cur = m.get_current_cpu().unwrap();
    assert_eq!(cur.cpu_id, 0);
}

#[test]
fn perf_monitor_counts_events() {
    let mut p = PerfMonitor::new();
    p.increment_context_switches();
    p.increment_context_switches();
    p.increment_interrupts();
    p.increment_syscalls();
    assert_eq!(p.get_stats(), (2, 1, 1));
}

#[test]
fn memory_region_bookkeeping() {
    let mut r = MemoryRegion::new(0x500000, 8192, MemoryType::User);
    assert!(!r.is_allocated());
    assert!(r.allocate());
    assert!(!r.allocate());
    r.deallocate();
    assert!(!r.is_allocated());
    assert_eq!(r.inc_ref(), 1);
    assert_eq!(r.inc_ref(), 2);
    assert_eq!(r.dec_ref(), 1);
    assert_eq!(r.ref_count(), 1);
    let other = MemoryRegion::new(0x501000, 4096, MemoryType::User);
    assert!(r.overlaps(&other));
    let far = MemoryRegion::new(0x600000, 4096, MemoryType::User);
    assert!(!r.overlaps(&far));
}

#[test]
fn allocator_serves_first_fitting_region() {
    let mut a = PerCpuAllocator::new(0);
    a.free(0x500000, 4096).unwrap();
    a.free(0x600000, 1024).unwrap();
    // The first region large enough wins, not the tightest.
    let got = a.allocate(2048, AllocFlags::default()).unwrap();
    assert_eq!(got, 0x500000);
    let got2 = a.allocate(1024, AllocFlags::default()).unwrap();
    assert_eq!(got2, 0x600000);
    assert!(a.allocate(64, AllocFlags::default()).is_err());
    let stats = a.get_stats();
    assert_eq!(stats.allocation_count, 3);
    assert_eq!(stats.free_count, 2);
    assert_eq!(stats.total_allocated, 3072);
}

#[test]
fn memory_stats_aggregate_over_cpus() {
    let mut a0 = PerCpuAllocator::new(0);
    let mut a1 = PerCpuAllocator::new(1);
    a0.free(0x500000, 4096).unwrap();
    a1.free(0x600000, 4096).unwrap();
    let _ = a0.allocate(100, AllocFlags::default());
    let v = vec![a0, a1];
    let g = get_memory_stats(&v);
    assert_eq!(g.cpu_count, 2);
    assert_eq!(g.free_count, 2);
    assert_eq!(g.allocation_count, 1);
    assert_eq!(g.total_allocated, 100);
}

#[test]
fn page_tables_map_translate_unmap() {
    let mut pt = PageTables::new();
    assert_eq!(pt.translate_addr(1, 0x401000), None);
    pt.map_user_page(1, 0x401000, 0x200000).unwrap();
    assert_eq!(pt.translate_addr(1, 0x401000), Some(0x200000));
    assert_eq!(pt.translate_addr(1, 0x401123), Some(0x200123));
    // Another process does not see the mapping.
    assert_eq!(pt.translate_addr(2, 0x401000), None);
    // Double mapping is already in use; misalignment is a bad alignment.
    assert!(pt.map_user_page(1, 0x401000, 0x300000).is_err());
    assert!(pt.map_user_page(1, 0x401001, 0x300000).is_err());
    assert_eq!(pt.verify_ownership(1, 0x401000), Ok(0x200000));
    pt.unmap_memory(1, 0x401000, 1).unwrap();
    assert_eq!(pt.translate_addr(1, 0x401000), None);
}
