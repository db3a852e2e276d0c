//! Errors of the ARMv7-M system control space, and access alignment checks.
use vstd::prelude::*;

use crate::regs::SCRegType;

verus! {

/// Base address of the system control space.
pub const BASE: u32 = 0xe000e000;

/// Alignment that an access must have.
#[derive(Clone, Copy, Debug, PartialEq, Eq, Structural)]
pub enum Alignment {
    /// a byte, halfword or word access, naturally aligned
    Any,
    /// a word access on a word boundary
    Word,
}

/// ARMv7-M errors.
#[derive(Clone, Copy, Debug, PartialEq, Eq)]
pub enum Error {
    UnpredictableBehavior(&'static str),
    System(&'static str),
    InvalidUserOp(usize),
    InvalidAddress(u64),
    InvalidSysCtrlReg(u32),
    UnimplementedSysCtrlReg(SCRegType),
    WriteAccessViolation(u32),
    ReadAccessViolation(u32),
    AlignmentViolation(u32, usize, Alignment),
}

/// Errors of the emulator backend: of the architecture, or of memory.
#[derive(Clone, Copy, Debug, PartialEq, Eq)]
pub enum BackendError {
    /// an error of the architecture
    Arch(Error),
    /// an address in no mapped region
    Unmapped(u64),
    /// two mapped regions overlap (their address ranges)
    MapConflict((u64, u64), (u64, u64)),
    /// a read beyond the end of a region (offset, size)
    ReadOutOfBounds(usize, usize),
    /// a write beyond the end of a region (offset, size)
    WriteOutOfBounds(usize, usize),
}

/// Whether an access of `size` bytes at `address` has the alignment `align`.
pub open spec fn is_aligned(address: u32, size: usize, align: Alignment) -> bool {
    match align {
        Alignment::Word => size == 4 && address % 4 == 0,
        Alignment::Any => (size == 1 || size == 2 || size == 4) && address % (size as u32) == 0,
    }
}

/// Checks that an access of `size` bytes at `address` has the alignment
/// `align`; otherwise returns the access and the expected alignment.
pub fn check_alignment(address: u32, size: usize, align: Alignment) -> (r: Result<
    (),
    (u32, usize, Alignment),
>)
    ensures
        r == (if is_aligned(address, size, align) {
            Ok::<(), (u32, usize, Alignment)>(())
        } else {
            Err((address, size, align))
        }),
{
    let ok = match align {
        Alignment::Word => size == 4 && address % 4 == 0,
        Alignment::Any => (size == 1 || size == 2 || size == 4) && address % (size as u32) == 0,
    };
    if ok {
        Ok(())
    } else {
        Err((address, size, align))
    }
}

/// The alignment error of an access.
pub fn alignment_error(address: u32, size: usize, align: Alignment) -> (r: Result<(), Error>)
    requires
        !is_aligned(address, size, align),
    ensures
        r == Err::<(), Error>(Error::AlignmentViolation(address, size, align)),
{
    Err(Error::AlignmentViolation(address, size, align))
}

} // verus!
