//! Architectural events: what a write to the system control space, or a
//! peripheral, asks of the processor.
use vstd::prelude::*;

use crate::exception::ExceptionType;
use crate::faults::Fault;

verus! {

/// Processor execution status.
#[derive(Clone, Copy, Debug, PartialEq, Eq, Structural)]
pub enum Status {
    Alive,
    WaitingForEvent,
    WaitingForInterrupt,
    Halted,
    Killed,
}

/// Debug events. The library raises none; the one variant stands for a
/// debug event of any kind.
#[derive(Clone, Copy, Debug, PartialEq, Eq, Structural)]
pub enum DebugEvent {
    Unspecified,
}

/// What a memory-mapped peripheral asks of the interrupt controller, by
/// external interrupt line.
#[derive(Clone, Copy, Debug, PartialEq, Eq, Structural)]
pub enum PeripheralEvent {
    EnableInterrupt { int_num: u32 },
    DisableInterrupt { int_num: u32 },
    FireInterrupt { int_num: u32 },
}

/// ARMv7-M architecture event. Writes to the system control space raise
/// these; they must be dealt with at once by updating the processor state.
#[derive(Clone, Copy, Debug, PartialEq, Eq, Structural)]
pub enum Event {
    SetProcessorStatus(Status),
    // ICSR, SHCSR, SHPR
    ExceptionSetActive(ExceptionType, bool),
    ExceptionSetPending(ExceptionType, bool),
    ExceptionSetPriority(ExceptionType, u8),
    ExceptionEnabled(ExceptionType, bool),
    // VTOR
    VectorTableOffsetWrite(u32),
    // AIRCR
    /// (SYSRESETREQ) external system reset request
    ExternSysResetRequest,
    /// (VECTRESET) local system reset
    LocalSysResetRequest,
    /// (VECTCLRACTIVE) clear all active state of fixed and configurable exceptions
    ExceptionClrAllActive,
    /// (VECTKEY) 0x05fa written to the vector key
    VectorKeyWrite,
    /// (PRIGROUP) set the priority grouping
    SetPriorityGrouping(u8),
    // SCR
    /// transitions from inactive to pending are or are not wakeup events
    SetTransitionWakupEvent(bool),
    /// the selected sleep state is or is not deep sleep
    SetDeepSleep(bool),
    /// enter or do not enter the sleep state on exit
    SetSleepOnExit(bool),
    // CCR
    /// (NONBASETHRDENA)
    ThreadModeExceptionsEnabled(bool),
    /// (USERSETMPEND)
    STIRUnprivilegedAccessAllowed(bool),
    /// (UNALIGN_TRP)
    UnalignedAccessTrapEnabled(bool),
    /// (DIV_0_TRP)
    DivideByZeroTrapEnabled(bool),
    /// (BFHFNMIGN)
    PreciseDataAccessFaultIgnored(bool),
    /// (STKALIGN)
    Stack8ByteAligned(bool),
    /// (DC)
    DataCacheEnabled(bool),
    /// (IC)
    InsnCacheEnabled(bool),
    /// (BP)
    BranchPredictionEnabled(bool),
    // CFSR, MMFSR, BFSR, UFSR, HFSR
    FaultStatusClr(Fault),
    /// execution of a SEV instruction on any processor of the system
    SEVInstructionExecuted,
    Debug(DebugEvent),
    Peripheral(PeripheralEvent),
}

impl From<PeripheralEvent> for Event {
    fn from(value: PeripheralEvent) -> (r: Self) {
        Event::Peripheral(value)
    }
}

impl vstd::std_specs::convert::FromSpecImpl<PeripheralEvent> for Event {
    open spec fn obeys_from_spec() -> bool {
        true
    }

    open spec fn from_spec(value: PeripheralEvent) -> Event {
        Event::Peripheral(value)
    }
}

} // verus!
