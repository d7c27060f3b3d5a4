//! The interrupt vector numbers the kernel programs: CPU exceptions, the
//! remapped PIC lines for the timer and the keyboard, and the legacy
//! software-interrupt vector kept for compatibility.  Installing the
//! descriptor table and the assembly prologues is hardware work outside the
//! library.

use vstd::prelude::*;

verus! {

/// Vector of the breakpoint exception.
pub const BREAKPOINT_VECTOR: u8 = 0x03;

/// Vector of the double-fault exception, served on its own interrupt stack.
pub const DOUBLE_FAULT_VECTOR: u8 = 0x08;

/// Vector of the page-fault exception.
pub const PAGE_FAULT_VECTOR: u8 = 0x0E;

/// First vector of the primary PIC after remapping.
pub const PIC_1_OFFSET: u8 = 32;

/// First vector of the secondary PIC after remapping.
pub const PIC_2_OFFSET: u8 = 40;

/// Vector of the legacy software-interrupt syscall entry; the primary
/// syscall path is the fast-syscall instruction.
pub const SYSCALL_VECTOR: u8 = 0x80;

/// The PIC interrupt lines the kernel services.
#[derive(Debug, Clone, Copy, PartialEq, Eq, Structural)]
pub enum InterruptIndex {
    /// The programmable interval timer, on the first remapped line.
    Timer,
    /// The keyboard, on the line after the timer.
    Keyboard,
}

impl InterruptIndex {
    /// The vector number of this line: the timer sits at the PIC offset,
    /// the keyboard one above it.
    pub fn as_u8(self) -> (r: u8)
        ensures
            self is Timer ==> r == PIC_1_OFFSET,
            self is Keyboard ==> r == PIC_1_OFFSET + 1,
    {
        match self {
            InterruptIndex::Timer => PIC_1_OFFSET,
            InterruptIndex::Keyboard => 33,
        }
    }

    /// The vector number, widened for table indexing.
    pub fn as_usize(self) -> (r: usize)
        ensures
            self is Timer ==> r == PIC_1_OFFSET,
            self is Keyboard ==> r == PIC_1_OFFSET + 1,
    {
        self.as_u8() as usize
    }
}

} // verus!
