//! Kernel-wide error taxonomy and the recovery policy that maps each error
//! kind to what the kernel does about it.

use vstd::prelude::*;

verus! {

/// Kernel-wide error type that encompasses all error conditions.
#[derive(Debug, Clone, Copy, PartialEq, Eq, Structural)]
pub enum KernelError {
    /// Memory allocation errors
    Memory(AllocError),
    /// Process management errors
    Process(ProcessError),
    /// System call errors
    Syscall(SyscallError),
    /// IPC communication errors
    Ipc(IpcError),
    /// Hardware/IO errors
    Hardware(HardwareError),
    /// General kernel errors
    General(GeneralError),
}

/// Memory allocation and management errors.
#[derive(Debug, Clone, Copy, PartialEq, Eq, Structural)]
pub enum AllocError {
    OutOfMemory,
    BadAlignment,
    AlreadyInUse,
    InvalidAddress,
    PermissionDenied,
}

/// Process management errors.
#[derive(Debug, Clone, Copy, PartialEq, Eq, Structural)]
pub enum ProcessError {
    InvalidPid,
    NotFound,
    AlreadyExists,
    InvalidState,
    StackAllocationFailed,
    ContextSwitchFailed,
}

/// System call errors.
#[derive(Debug, Clone, Copy, PartialEq, Eq, Structural)]
pub enum SyscallError {
    InvalidNumber,
    InvalidArgs,
    PermissionDenied,
    ResourceUnavailable,
    NotSupported,
    BufferTooSmall,
}

/// IPC communication errors.
#[derive(Debug, Clone, Copy, PartialEq, Eq, Structural)]
pub enum IpcError {
    ChannelNotFound,
    ChannelExists,
    ChannelFull,
    InvalidSender,
    NoMessage,
    InvalidChannelId,
    HandleNotFound,
    InvalidRange,
    AccessDenied,
    CircularTransfer,
}

/// Hardware and IO errors.
#[derive(Debug, Clone, Copy, PartialEq, Eq, Structural)]
pub enum HardwareError {
    DeviceNotFound,
    DeviceBusy,
    IoFailed,
    InvalidPort,
    Timeout,
}

/// General kernel errors.
#[derive(Debug, Clone, Copy, PartialEq, Eq, Structural)]
pub enum GeneralError {
    InvalidOperation,
    NotImplemented,
    Internal,
    InvalidState,
}

/// Result type alias for kernel operations.
pub type KernelResult<T> = Result<T, KernelError>;

/// What the kernel does when it meets an error of a given kind.
#[derive(Debug, Clone, Copy, PartialEq, Eq, Structural)]
pub enum RecoveryStrategy {
    /// Retry the operation
    Retry,
    /// Skip the operation
    Skip,
    /// Abort the current operation
    Abort,
    /// Reboot the system
    Reboot,
    /// Enter panic mode
    Panic,
}

/// The recovery policy, as a function of the error alone.
pub open spec fn spec_recovery_strategy(err: KernelError) -> RecoveryStrategy {
    match err {
        KernelError::Memory(AllocError::OutOfMemory) => RecoveryStrategy::Abort,
        KernelError::Memory(_) => RecoveryStrategy::Retry,
        KernelError::Process(_) => RecoveryStrategy::Abort,
        KernelError::Syscall(_) => RecoveryStrategy::Skip,
        KernelError::Ipc(_) => RecoveryStrategy::Retry,
        KernelError::Hardware(HardwareError::DeviceNotFound) => RecoveryStrategy::Abort,
        KernelError::Hardware(_) => RecoveryStrategy::Retry,
        KernelError::General(GeneralError::Internal) => RecoveryStrategy::Panic,
        KernelError::General(_) => RecoveryStrategy::Abort,
    }
}

/// Determine the recovery strategy for an error: memory and IPC failures are
/// retried, out-of-memory and process failures abort the operation, syscall
/// failures are skipped (the caller sees a negative return), and an internal
/// error panics.
pub fn get_recovery_strategy(err: &KernelError) -> (r: RecoveryStrategy)
    ensures
        r == spec_recovery_strategy(*err),
{
    match err {
        KernelError::Memory(AllocError::OutOfMemory) => RecoveryStrategy::Abort,
        KernelError::Memory(_) => RecoveryStrategy::Retry,
        KernelError::Process(_) => RecoveryStrategy::Abort,
        KernelError::Syscall(_) => RecoveryStrategy::Skip,
        KernelError::Ipc(_) => RecoveryStrategy::Retry,
        KernelError::Hardware(HardwareError::DeviceNotFound) => RecoveryStrategy::Abort,
        KernelError::Hardware(_) => RecoveryStrategy::Retry,
        KernelError::General(GeneralError::Internal) => RecoveryStrategy::Panic,
        KernelError::General(_) => RecoveryStrategy::Abort,
    }
}


impl From<AllocError> for KernelError {
    fn from(err: AllocError) -> (r: KernelError)
        ensures
            r == KernelError::Memory(err),
    {
        KernelError::Memory(err)
    }
}

impl vstd::std_specs::convert::FromSpecImpl<AllocError> for KernelError {
    open spec fn obeys_from_spec() -> bool {
        true
    }

    open spec fn from_spec(err: AllocError) -> KernelError {
        KernelError::Memory(err)
    }
}

impl From<ProcessError> for KernelError {
    fn from(err: ProcessError) -> (r: KernelError)
        ensures
            r == KernelError::Process(err),
    {
        KernelError::Process(err)
    }
}

impl vstd::std_specs::convert::FromSpecImpl<ProcessError> for KernelError {
    open spec fn obeys_from_spec() -> bool {
        true
    }

    open spec fn from_spec(err: ProcessError) -> KernelError {
        KernelError::Process(err)
    }
}

impl From<SyscallError> for KernelError {
    fn from(err: SyscallError) -> (r: KernelError)
        ensures
            r == KernelError::Syscall(err),
    {
        KernelError::Syscall(err)
    }
}

impl vstd::std_specs::convert::FromSpecImpl<SyscallError> for KernelError {
    open spec fn obeys_from_spec() -> bool {
        true
    }

    open spec fn from_spec(err: SyscallError) -> KernelError {
        KernelError::Syscall(err)
    }
}

impl From<IpcError> for KernelError {
    fn from(err: IpcError) -> (r: KernelError)
        ensures
            r == KernelError::Ipc(err),
    {
        KernelError::Ipc(err)
    }
}

impl vstd::std_specs::convert::FromSpecImpl<IpcError> for KernelError {
    open spec fn obeys_from_spec() -> bool {
        true
    }

    open spec fn from_spec(err: IpcError) -> KernelError {
        KernelError::Ipc(err)
    }
}

impl From<HardwareError> for KernelError {
    fn from(err: HardwareError) -> (r: KernelError)
        ensures
            r == KernelError::Hardware(err),
    {
        KernelError::Hardware(err)
    }
}

impl vstd::std_specs::convert::FromSpecImpl<HardwareError> for KernelError {
    open spec fn obeys_from_spec() -> bool {
        true
    }

    open spec fn from_spec(err: HardwareError) -> KernelError {
        KernelError::Hardware(err)
    }
}

impl From<GeneralError> for KernelError {
    fn from(err: GeneralError) -> (r: KernelError)
        ensures
            r == KernelError::General(err),
    {
        KernelError::General(err)
    }
}

impl vstd::std_specs::convert::FromSpecImpl<GeneralError> for KernelError {
    open spec fn obeys_from_spec() -> bool {
        true
    }

    open spec fn from_spec(err: GeneralError) -> KernelError {
        KernelError::General(err)
    }
}

} // verus!
