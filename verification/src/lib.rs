//! Core of a small single-CPU x86_64 microkernel, modelled and verified.
//!
//! The crate covers the machine-independent heart of the kernel: the process
//! table and scheduler, the system-call dispatcher with its argument
//! validation, the IPC layer (bounded message channels and zero-copy memory
//! handles over a page-mapping model), and the watchdog that bounds the time a
//! user process may hold the CPU.  Hardware concerns (descriptor tables,
//! interrupt prologues, port I/O, the real page tables) live outside the
//! library; everything here works on plain values and is verified.

pub mod aspace;
pub mod cpu;
pub mod error;
pub mod handle;
pub mod interrupts;
pub mod ipc;
pub mod kernel;
pub mod memory;
pub mod process;
pub mod scheduler;
pub mod syscall;
pub mod watchdog;
