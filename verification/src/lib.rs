//! Emulation of the ARMv7-M processor state: the core and special-purpose
//! registers, the system control space (register layouts, the nested
//! vectored interrupt controller, the system timer, exception priorities
//! and exception state), the memory map, and exception entry and return.
use vstd::prelude::*;

pub mod backend;
pub mod bits;
pub mod dcb;
pub mod error;
pub mod events;
pub mod exception;
pub mod faults;
pub mod mmap;
pub mod mpu;
pub mod nvic;
pub mod regs;
pub mod scs;
pub mod system;
pub mod systick;

verus! {
} // verus!
