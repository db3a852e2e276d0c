//! Architecture-defined faults.
use vstd::prelude::*;

verus! {

/// A fault, by the fault status register that records it.
#[derive(Clone, Copy, Debug, PartialEq, Eq, Structural)]
pub enum Fault {
    Mem(MemFault),
    Bus(BusFault),
    Usg(UsgFault),
    Hard(HardFault),
}

/// Memory management faults (MMFSR).
#[derive(Clone, Copy, Debug, PartialEq, Eq, Structural)]
pub enum MemFault {
    /// MMFSR.IACCVIOL
    InsnAccessViolation,
    /// MMFSR.DACCVIOL
    DataAccessViolation,
    /// MMFSR.MUNSTKERR
    OnExceptionReturn,
    /// MMFSR.MSTKERR
    OnExceptionEntry,
    /// MMFSR.MLSPERR
    LazyStatePreservation,
}

/// Bus faults (BFSR).
#[derive(Clone, Copy, Debug, PartialEq, Eq, Structural)]
pub enum BusFault {
    /// BFSR.IBUSERR
    InsnPrefetch,
    /// BFSR.PRECISERR
    PreciseDataAccess,
    /// BFSR.IMPRECISERR
    ImprciseDataAccess,
    /// BFSR.UNSTKERR
    OnExceptionReturn,
    /// BFSR.STKERR
    OnExceptionEntry,
    /// BFSR.LSPERR
    LazyStatePreservation,
}

/// Usage faults (UFSR).
#[derive(Clone, Copy, Debug, PartialEq, Eq, Structural)]
pub enum UsgFault {
    /// UFSR.UNDEFINSTR
    UndefinedInsn,
    /// UFSR.INVSTATE: invalid EPSR.T or EPSR.IT field
    InvalidState,
    /// UFSR.INVPC: integrity check error on EXC_RETURN
    IntegrityCheck,
    /// UFSR.NOCP: coprocessor disabled or absent
    CoprocessorAccess,
    /// UFSR.UNALIGNED
    UnalignedAccess,
    /// UFSR.DIVBYZERO on sdiv or udiv
    DivideByZero,
}

/// Hard faults (HFSR).
#[derive(Clone, Copy, Debug, PartialEq, Eq, Structural)]
pub enum HardFault {
    /// HFSR.VECTTBL: vector table read error on exception processing
    VectorTableRead,
    /// HFSR.FORCED: escalated from a configurable-priority exception
    EscalatedException,
    /// HFSR.DEBUGEVT
    DebugEvent,
}

impl From<MemFault> for Fault {
    fn from(value: MemFault) -> (r: Self) {
        Fault::Mem(value)
    }
}

impl vstd::std_specs::convert::FromSpecImpl<MemFault> for Fault {
    open spec fn obeys_from_spec() -> bool {
        true
    }

    open spec fn from_spec(value: MemFault) -> Fault {
        Fault::Mem(value)
    }
}

impl From<BusFault> for Fault {
    fn from(value: BusFault) -> (r: Self) {
        Fault::Bus(value)
    }
}

impl vstd::std_specs::convert::FromSpecImpl<BusFault> for Fault {
    open spec fn obeys_from_spec() -> bool {
        true
    }

    open spec fn from_spec(value: BusFault) -> Fault {
        Fault::Bus(value)
    }
}

impl From<UsgFault> for Fault {
    fn from(value: UsgFault) -> (r: Self) {
        Fault::Usg(value)
    }
}

impl vstd::std_specs::convert::FromSpecImpl<UsgFault> for Fault {
    open spec fn obeys_from_spec() -> bool {
        true
    }

    open spec fn from_spec(value: UsgFault) -> Fault {
        Fault::Usg(value)
    }
}

impl From<HardFault> for Fault {
    fn from(value: HardFault) -> (r: Self) {
        Fault::Hard(value)
    }
}

impl vstd::std_specs::convert::FromSpecImpl<HardFault> for Fault {
    open spec fn obeys_from_spec() -> bool {
        true
    }

    open spec fn from_spec(value: HardFault) -> Fault {
        Fault::Hard(value)
    }
}

} // verus!
