//! Byte reads and writes of the system control space, by register.
use vstd::prelude::*;

use std::collections::VecDeque;

use crate::bits::{bit, byte_of, field, get_bit, get_byte, put_byte, word_bytes, with_bit, with_field, write_value, write_value_len, write_value_of};
use crate::dcb::{DebugRegs, DHCSR_WORD};
use crate::nvic::NVICRegs;
use crate::error::{check_alignment, is_aligned, Alignment, Error, BASE};
use crate::events::Event;
use crate::exception::{exception_type_of, ExceptionType};
use crate::nvic::{copy_fits, copy_word_tail, nvic_read, nvic_write, word_with_bytes, NVICRegType, NVICRegsMut};
use crate::regs::{sc_lookup, sc_lookup_ok, SCRegType, AIRCR, CCR, ICSR, SCR, SHCSR};
use crate::systick::{copy_word, systick_read, systick_write, SysTickRegs};

use super::{scs_wf, SysCtrlSpace, SysCtrlSpaceView, AIRCR_WORD, CCR_WORD, ICSR_WORD, SCR_WORD, SHCSR_WORD, VTOR_WORD};

verus! {

/// One event `e` when `b`, else none.
pub open spec fn event_if(b: bool, e: Event) -> Seq<Event> {
    if b {
        seq![e]
    } else {
        Seq::empty()
    }
}

/// Appends `e` to `events` when `b`.
fn push_event_if(b: bool, e: Event, events: &mut VecDeque<Event>)
    ensures
        final(events)@ == old(events)@ + event_if(b, e),
{
    if b {
        events.push_back(e);
    } else {
        assert(old(events)@ + event_if(b, e) =~= old(events)@);
    }
    proof {
        if b {
            assert(old(events)@.push(e) =~= old(events)@ + event_if(b, e));
        }
    }
}

/// What a write of `v` to the ICSR holding `cur` gives: the result and the
/// events. Setting both the set and clear bits of SysTick or PendSV is
/// unpredictable; a clear bit clears the pending state; a set bit that was
/// not set pends SysTick or PendSV, or makes NMI active. The register
/// itself follows the exception state.
pub open spec fn icsr_write(cur: u32, evs: Seq<Event>, v: u32) -> (Result<(), Error>, Seq<Event>) {
    let m = v & 0x9e00_0000u32;
    if bit(m, 25) && bit(m, 26) {
        (Err(Error::UnpredictableBehavior("PENDSTSET and PENDSTCLR both set to 1")), evs)
    } else if bit(m, 27) && bit(m, 28) {
        (Err(Error::UnpredictableBehavior("PENDSVSET and PENDSVCLR both set to 1")), evs)
    } else {
        (
            Ok(()),
            evs + event_if(bit(m, 25), Event::ExceptionSetPending(ExceptionType::SysTick, false))
                + event_if(
                bit(m, 26) && !bit(cur, 26),
                Event::ExceptionSetPending(ExceptionType::SysTick, true),
            ) + event_if(bit(m, 27), Event::ExceptionSetPending(ExceptionType::PendSV, false))
                + event_if(
                bit(m, 28) && !bit(cur, 28),
                Event::ExceptionSetPending(ExceptionType::PendSV, true),
            ) + event_if(bit(m, 31) && !bit(cur, 31), Event::ExceptionSetActive(ExceptionType::NMI, true)),
        )
    }
}

/// An event occurs in a concatenation exactly when it occurs in a part.
proof fn lemma_events_contains_add(a: Seq<Event>, b: Seq<Event>, x: Event)
    ensures
        (a + b).contains(x) <==> a.contains(x) || b.contains(x),
{
    if a.contains(x) {
        let i = choose|i: int| 0 <= i < a.len() && a[i] == x;
        assert((a + b)[i] == x);
    }
    if b.contains(x) {
        let j = choose|j: int| 0 <= j < b.len() && b[j] == x;
        assert((a + b)[a.len() + j] == x);
    }
    if (a + b).contains(x) {
        let k = choose|k: int| 0 <= k < (a + b).len() && (a + b)[k] == x;
        if k < a.len() {
            assert(a[k] == x);
        } else {
            assert(b[k - a.len()] == x);
        }
    }
}

/// An event occurs in `event_if(b, e)` exactly when `b` holds and it is `e`.
proof fn lemma_event_if_contains(b: bool, e: Event, x: Event)
    ensures
        event_if(b, e).contains(x) <==> b && x == e,
{
    if b {
        assert(event_if(b, e)[0] == e);
    }
}

/// A write of `v` to the ICSR holding `cur` (B3.2.4) fails, raising nothing,
/// exactly when it sets both PENDSTSET and PENDSTCLR (bits 26, 25) or both
/// PENDSVSET and PENDSVCLR (bits 28, 27). Otherwise it succeeds and appends
/// at most one event per bit: PendSV becomes pending exactly when PENDSVSET
/// is written as 1 while not already set, SysTick exactly when PENDSTSET
/// is; PENDSVCLR and PENDSTCLR withdraw the pending state of PendSV and
/// SysTick; NMIPENDSET (bit 31) makes NMI active when it was not.
pub proof fn lemma_icsr_write_events(cur: u32, evs: Seq<Event>, v: u32)
    ensures
        ({
            let (r, e) = icsr_write(cur, evs, v);
            let new = e.subrange(evs.len() as int, e.len() as int);
            &&& r is Err <==> (bit(v, 25) && bit(v, 26)) || (bit(v, 27) && bit(v, 28))
            &&& r is Err ==> e == evs
            &&& r is Ok ==> {
                &&& evs.len() <= e.len() <= evs.len() + 5
                &&& e.subrange(0, evs.len() as int) == evs
                &&& new.contains(Event::ExceptionSetPending(ExceptionType::PendSV, true)) <==> bit(v, 28)
                    && !bit(cur, 28)
                &&& new.contains(Event::ExceptionSetPending(ExceptionType::SysTick, true)) <==> bit(v, 26)
                    && !bit(cur, 26)
                &&& new.contains(Event::ExceptionSetPending(ExceptionType::PendSV, false)) <==> bit(v, 27)
                &&& new.contains(Event::ExceptionSetPending(ExceptionType::SysTick, false)) <==> bit(v, 25)
                &&& new.contains(Event::ExceptionSetActive(ExceptionType::NMI, true)) <==> bit(v, 31)
                    && !bit(cur, 31)
                &&& forall|x: Event| #[trigger] new.contains(x) ==> x == Event::ExceptionSetPending(
                    ExceptionType::PendSV,
                    true,
                ) || x == Event::ExceptionSetPending(ExceptionType::SysTick, true) || x
                    == Event::ExceptionSetPending(ExceptionType::PendSV, false) || x == Event::ExceptionSetPending(
                    ExceptionType::SysTick,
                    false,
                ) || x == Event::ExceptionSetActive(ExceptionType::NMI, true)
            }
        }),
{
    let m = v & 0x9e00_0000u32;
    assert(((m >> 25u32) & 1u32 == 1u32) == ((v >> 25u32) & 1u32 == 1u32)) by (bit_vector)
        requires
            m == v & 0x9e00_0000u32,
    ;
    assert(((m >> 26u32) & 1u32 == 1u32) == ((v >> 26u32) & 1u32 == 1u32)) by (bit_vector)
        requires
            m == v & 0x9e00_0000u32,
    ;
    assert(((m >> 27u32) & 1u32 == 1u32) == ((v >> 27u32) & 1u32 == 1u32)) by (bit_vector)
        requires
            m == v & 0x9e00_0000u32,
    ;
    assert(((m >> 28u32) & 1u32 == 1u32) == ((v >> 28u32) & 1u32 == 1u32)) by (bit_vector)
        requires
            m == v & 0x9e00_0000u32,
    ;
    assert(((m >> 31u32) & 1u32 == 1u32) == ((v >> 31u32) & 1u32 == 1u32)) by (bit_vector)
        requires
            m == v & 0x9e00_0000u32,
    ;
    assert(bit(m, 25) == bit(v, 25) && bit(m, 26) == bit(v, 26) && bit(m, 27) == bit(v, 27));
    assert(bit(m, 28) == bit(v, 28) && bit(m, 31) == bit(v, 31));
    let (r, e) = icsr_write(cur, evs, v);
    if r is Ok {
        let e1 = event_if(bit(m, 25), Event::ExceptionSetPending(ExceptionType::SysTick, false));
        let e2 = event_if(bit(m, 26) && !bit(cur, 26), Event::ExceptionSetPending(ExceptionType::SysTick, true));
        let e3 = event_if(bit(m, 27), Event::ExceptionSetPending(ExceptionType::PendSV, false));
        let e4 = event_if(bit(m, 28) && !bit(cur, 28), Event::ExceptionSetPending(ExceptionType::PendSV, true));
        let e5 = event_if(bit(m, 31) && !bit(cur, 31), Event::ExceptionSetActive(ExceptionType::NMI, true));
        let new = e.subrange(evs.len() as int, e.len() as int);
        assert(e == evs + e1 + e2 + e3 + e4 + e5);
        assert(new =~= e1 + e2 + e3 + e4 + e5);
        assert(e.subrange(0, evs.len() as int) =~= evs);
        assert forall|x: Event| #[trigger] new.contains(x) <==> ((bit(m, 25) && x == Event::ExceptionSetPending(
            ExceptionType::SysTick,
            false,
        )) || (bit(m, 26) && !bit(cur, 26) && x == Event::ExceptionSetPending(ExceptionType::SysTick, true)) || (bit(
            m,
            27,
        ) && x == Event::ExceptionSetPending(ExceptionType::PendSV, false)) || (bit(m, 28) && !bit(cur, 28) && x
            == Event::ExceptionSetPending(ExceptionType::PendSV, true)) || (bit(m, 31) && !bit(cur, 31) && x
            == Event::ExceptionSetActive(ExceptionType::NMI, true))) by {
            lemma_events_contains_add(e1, e2, x);
            lemma_events_contains_add(e1 + e2, e3, x);
            lemma_events_contains_add(e1 + e2 + e3, e4, x);
            lemma_events_contains_add(e1 + e2 + e3 + e4, e5, x);
            lemma_event_if_contains(bit(m, 25), Event::ExceptionSetPending(ExceptionType::SysTick, false), x);
            let systick_set = bit(m, 26) && !bit(cur, 26);
            lemma_event_if_contains(systick_set, Event::ExceptionSetPending(ExceptionType::SysTick, true), x);
            lemma_event_if_contains(bit(m, 27), Event::ExceptionSetPending(ExceptionType::PendSV, false), x);
            let pendsv_set = bit(m, 28) && !bit(cur, 28);
            lemma_event_if_contains(pendsv_set, Event::ExceptionSetPending(ExceptionType::PendSV, true), x);
            lemma_event_if_contains(
                bit(m, 31) && !bit(cur, 31),
                Event::ExceptionSetActive(ExceptionType::NMI, true),
                x,
            );
        }
        assert(new.contains(Event::ExceptionSetPending(ExceptionType::PendSV, true)) <==> bit(v, 28) && !bit(cur, 28));
        assert(new.contains(Event::ExceptionSetPending(ExceptionType::SysTick, true)) <==> bit(v, 26) && !bit(cur, 26));
        assert(new.contains(Event::ExceptionSetPending(ExceptionType::PendSV, false)) <==> bit(v, 27));
        assert(new.contains(Event::ExceptionSetPending(ExceptionType::SysTick, false)) <==> bit(v, 25));
        assert(new.contains(Event::ExceptionSetActive(ExceptionType::NMI, true)) <==> bit(v, 31) && !bit(cur, 31));
    }
}

/// Index of the first `e` in `s`, or the length of `s` when there is none.
pub open spec fn event_index(s: Seq<Event>, e: Event) -> int
    decreases s.len(),
{
    if s.len() == 0 {
        0
    } else if s[0] == e {
        0
    } else {
        1 + event_index(s.drop_first(), e)
    }
}

/// `s` without its first `e`, if it has one.
pub open spec fn remove_first_event(s: Seq<Event>, e: Event) -> Seq<Event> {
    let i = event_index(s, e);
    if i < s.len() {
        s.remove(i)
    } else {
        s
    }
}

/// What a write of `v` to the AIRCR gives in the words `w`: the result, the
/// words and the events. VECTRESET and VECTCLRACTIVE are unpredictable
/// unless the processor is halted in debug state; they request a local
/// reset and clear all active state. A change of SYSRESETREQ requests a
/// local reset, or withdraws the first request still queued; a change of
/// PRIGROUP sets the priority grouping; the key 0x05fa is reported.
pub open spec fn aircr_write(w: Seq<u32>, evs: Seq<Event>, v: u32) -> (
    Result<(), Error>,
    Seq<u32>,
    Seq<Event>,
) {
    let cur = w[AIRCR_WORD as int];
    let m = v & 0xffff_0707u32;
    let dbg = bit(w[DHCSR_WORD as int], 17);
    if bit(m, 0) && !dbg {
        (Err(Error::UnpredictableBehavior("Write to VECTRESET while not halted in Debug state")), w, evs)
    } else if bit(m, 1) && !dbg {
        (
            Err(Error::UnpredictableBehavior("Write to VECTCLRACTIVE while not halted in Debug state")),
            w,
            evs,
        )
    } else {
        let e1 = evs + event_if(bit(m, 0), Event::LocalSysResetRequest) + event_if(
            bit(m, 1),
            Event::ExceptionClrAllActive,
        );
        let e2 = if bit(m, 2) == bit(cur, 2) {
            e1
        } else if bit(m, 2) {
            e1.push(Event::LocalSysResetRequest)
        } else {
            remove_first_event(e1, Event::LocalSysResetRequest)
        };
        let pg = field(m, 8, 3);
        let e3 = e2 + event_if(pg != field(cur, 8, 3), Event::SetPriorityGrouping(pg as u8));
        let e4 = e3 + event_if(field(m, 16, 16) == 0x05fa, Event::VectorKeyWrite);
        (Ok(()), w.update(AIRCR_WORD as int, with_field(with_bit(cur, 2, bit(m, 2)), 8, 3, pg)), e4)
    }
}

/// The events of a write of `v` to the SCR holding `cur`: one per bit of
/// SLEEPONEXIT, SLEEPDEEP and SEVONPEND that changes.
pub open spec fn scr_write_events(evs: Seq<Event>, cur: u32, v: u32) -> Seq<Event> {
    let m = v & 0x16u32;
    evs + event_if(bit(m, 1) != bit(cur, 1), Event::SetSleepOnExit(bit(m, 1))) + event_if(
        bit(m, 2) != bit(cur, 2),
        Event::SetDeepSleep(bit(m, 2)),
    ) + event_if(bit(m, 4) != bit(cur, 4), Event::SetTransitionWakupEvent(bit(m, 4)))
}

/// The events of a write of `v` to the CCR holding `cur`: one per writable
/// bit that changes.
pub open spec fn ccr_write_events(evs: Seq<Event>, cur: u32, v: u32) -> Seq<Event> {
    let m = v & 0x0007_031bu32;
    evs + event_if(bit(m, 0) != bit(cur, 0), Event::ThreadModeExceptionsEnabled(bit(m, 0)))
        + event_if(bit(m, 1) != bit(cur, 1), Event::STIRUnprivilegedAccessAllowed(bit(m, 1)))
        + event_if(bit(m, 3) != bit(cur, 3), Event::UnalignedAccessTrapEnabled(bit(m, 3)))
        + event_if(bit(m, 4) != bit(cur, 4), Event::DivideByZeroTrapEnabled(bit(m, 4)))
        + event_if(bit(m, 8) != bit(cur, 8), Event::PreciseDataAccessFaultIgnored(bit(m, 8)))
        + event_if(bit(m, 9) != bit(cur, 9), Event::Stack8ByteAligned(bit(m, 9)))
        + event_if(bit(m, 16) != bit(cur, 16), Event::DataCacheEnabled(bit(m, 16)))
        + event_if(bit(m, 17) != bit(cur, 17), Event::InsnCacheEnabled(bit(m, 17)))
        + event_if(bit(m, 18) != bit(cur, 18), Event::BranchPredictionEnabled(bit(m, 18)))
}

/// The events of a write of `v` to the SHCSR holding `cur`: one per
/// active, pended or enable bit that changes. The register itself follows
/// the exception state.
pub open spec fn shcsr_write_events(evs: Seq<Event>, cur: u32, v: u32) -> Seq<Event> {
    shcsr_enable_events(shcsr_pended_events(shcsr_active_events(evs, cur, v), cur, v), cur, v)
}

/// The events of the SHCSR active bits that a write of `v` changes.
pub open spec fn shcsr_active_events(evs: Seq<Event>, cur: u32, v: u32) -> Seq<Event> {
    let m = v & 0x0007_ff8fu32;
    let c = m ^ cur;
    evs + event_if(bit(c, 0), Event::ExceptionSetActive(ExceptionType::MemFault, bit(m, 0)))
        + event_if(bit(c, 1), Event::ExceptionSetActive(ExceptionType::BusFault, bit(m, 1)))
        + event_if(bit(c, 3), Event::ExceptionSetActive(ExceptionType::UsageFault, bit(m, 3)))
        + event_if(bit(c, 7), Event::ExceptionSetActive(ExceptionType::SVCall, bit(m, 7)))
        + event_if(bit(c, 8), Event::ExceptionSetActive(ExceptionType::DebugMonitor, bit(m, 8)))
        + event_if(bit(c, 10), Event::ExceptionSetActive(ExceptionType::PendSV, bit(m, 10)))
        + event_if(bit(c, 11), Event::ExceptionSetActive(ExceptionType::SysTick, bit(m, 11)))
}

/// The events of the SHCSR pended bits that a write of `v` changes.
pub open spec fn shcsr_pended_events(evs: Seq<Event>, cur: u32, v: u32) -> Seq<Event> {
    let m = v & 0x0007_ff8fu32;
    let c = m ^ cur;
    evs + event_if(bit(c, 12), Event::ExceptionSetPending(ExceptionType::UsageFault, bit(m, 12)))
        + event_if(bit(c, 13), Event::ExceptionSetPending(ExceptionType::MemFault, bit(m, 13)))
        + event_if(bit(c, 14), Event::ExceptionSetPending(ExceptionType::BusFault, bit(m, 14)))
        + event_if(bit(c, 15), Event::ExceptionSetPending(ExceptionType::SVCall, bit(m, 15)))
}

/// The events of the SHCSR enable bits that a write of `v` changes.
pub open spec fn shcsr_enable_events(evs: Seq<Event>, cur: u32, v: u32) -> Seq<Event> {
    let m = v & 0x0007_ff8fu32;
    let c = m ^ cur;
    evs + event_if(bit(c, 16), Event::ExceptionEnabled(ExceptionType::MemFault, bit(m, 16)))
        + event_if(bit(c, 17), Event::ExceptionEnabled(ExceptionType::BusFault, bit(m, 17)))
        + event_if(bit(c, 18), Event::ExceptionEnabled(ExceptionType::UsageFault, bit(m, 18)))
}

/// The priority events of a write of `src` from byte `bo` of a handler
/// priority register holding `cur`, whose byte `bo` is the priority of
/// handler `id`: one per byte that changes.
pub open spec fn shpr_write_events(cur: u32, bo: u32, id: u8, src: Seq<u8>) -> Seq<Event>
    decreases src.len(),
{
    if src.len() == 0 {
        Seq::empty()
    } else {
        let k = src.len() - 1;
        shpr_write_events(cur, bo, id, src.subrange(0, k)) + event_if(
            byte_of(cur, (bo + k) as u32) != src[k],
            Event::ExceptionSetPriority(exception_type_of((id + k) as u32), src[k]),
        )
    }
}

/// Whether a write of `len` bytes at `offset` is one that the space
/// handles: inside the space, not to a register whose write is not
/// implemented (the fault status and address registers, the ICTR, the
/// STIR and the MPU), and with lengths that the copies fit.
pub open spec fn scs_write_defined(offset: usize, len: nat) -> bool {
    let address = (BASE + offset) as u32;
    &&& sc_lookup_ok(offset)
    &&& match sc_lookup(offset) {
        None => copy_fits(offset, len),
        Some(SCRegType::CFSR) | Some(SCRegType::HFSR) | Some(SCRegType::DFSR) | Some(
            SCRegType::MMFAR,
        ) | Some(SCRegType::BFAR) | Some(SCRegType::AFSR) | Some(SCRegType::ICTR) | Some(
            SCRegType::STIR,
        ) | Some(SCRegType::MPU(_)) => false,
        Some(SCRegType::SysTick(_)) => len == 4,
        Some(SCRegType::NVIC(_)) => true,
        Some(SCRegType::ICSR) | Some(SCRegType::VTOR) | Some(SCRegType::AIRCR) | Some(SCRegType::SCR)
        | Some(SCRegType::CCR) | Some(SCRegType::SHCSR) | Some(SCRegType::SHPR1(_)) | Some(
            SCRegType::SHPR2(_),
        ) | Some(SCRegType::SHPR3(_)) => true,
        Some(_) => is_aligned(address, len as usize, Alignment::Any) ==> copy_fits(offset, len),
    }
}

/// What a write of `src` at byte `offset` of the space gives in the words
/// `w` with the events `evs`: the result, the words and the events.
pub open spec fn scs_write(w: Seq<u32>, evs: Seq<Event>, offset: usize, src: Seq<u8>) -> (
    Result<(), Error>,
    Seq<u32>,
    Seq<Event>,
) {
    let address = (BASE + offset) as u32;
    let wo = (offset / 4) as int;
    let bo = (offset % 4) as u32;
    let len = src.len() as usize;
    let v = write_value_of(src, write_value_len(src));
    let bytes_written = w.update(wo, word_with_bytes(w[wo], bo, src));
    match sc_lookup(offset) {
        None => (Err(Error::InvalidSysCtrlReg(address)), bytes_written, evs),
        Some(SCRegType::ICSR) => if !is_aligned(address, len, Alignment::Word) {
            (Err(Error::AlignmentViolation(address, len, Alignment::Word)), w, evs)
        } else {
            let (r, e) = icsr_write(w[ICSR_WORD as int], evs, v);
            (r, w, e)
        },
        Some(SCRegType::VTOR) => (
            Ok(()),
            w.update(VTOR_WORD as int, v & 0xffff_ff80u32),
            evs.push(Event::VectorTableOffsetWrite(v & 0xffff_ff80u32)),
        ),
        Some(SCRegType::AIRCR) => aircr_write(w, evs, v),
        Some(SCRegType::SCR) => (
            Ok(()),
            w.update(SCR_WORD as int, (w[SCR_WORD as int] & !0x16u32) | (v & 0x16u32)),
            scr_write_events(evs, w[SCR_WORD as int], v),
        ),
        Some(SCRegType::CCR) => (
            Ok(()),
            w.update(CCR_WORD as int, (w[CCR_WORD as int] & !0x0007_031bu32) | (v & 0x0007_031bu32)),
            ccr_write_events(evs, w[CCR_WORD as int], v),
        ),
        Some(SCRegType::SHPR1(id)) | Some(SCRegType::SHPR2(id)) | Some(SCRegType::SHPR3(id)) => if !is_aligned(
            address,
            len,
            Alignment::Any,
        ) {
            (Err(Error::AlignmentViolation(address, len, Alignment::Any)), w, evs)
        } else {
            (Ok(()), bytes_written, evs + shpr_write_events(w[wo], bo, id, src))
        },
        Some(SCRegType::SHCSR) => if !is_aligned(address, len, Alignment::Word) {
            (Err(Error::AlignmentViolation(address, len, Alignment::Word)), w, evs)
        } else {
            (Ok(()), w, shcsr_write_events(evs, w[SHCSR_WORD as int], v))
        },
        Some(SCRegType::SysTick(_)) => systick_write(w, evs, offset, src),
        Some(SCRegType::NVIC(_)) => nvic_write(w, evs, offset, src),
        Some(_) => if !is_aligned(address, len, Alignment::Any) {
            (Err(Error::AlignmentViolation(address, len, Alignment::Any)), w, evs)
        } else {
            (Ok(()), bytes_written, evs)
        },
    }
}


/// Raises the events of a write of `v` to the ICSR holding `cur`.
fn icsr_write_exec(cur: u32, v: u32, events: &mut VecDeque<Event>) -> (r: Result<(), Error>)
    ensures
        (r, final(events)@) == icsr_write(cur, old(events)@, v),
{
    let new_icsr = ICSR::from_bits(v & 0x9e00_0000);
    let icsr = ICSR::from_bits(cur);
    let new_pendstclr = new_icsr.pendstclr();
    let new_pendstset = new_icsr.pendstset();
    let new_pendsvclr = new_icsr.pendsvclr();
    let new_pendsvset = new_icsr.pendsvset();
    let new_nmipendset = new_icsr.nmipendset();
    if new_pendstclr && new_pendstset {
        return Err(Error::UnpredictableBehavior("PENDSTSET and PENDSTCLR both set to 1"));
    }
    if new_pendsvclr && new_pendsvset {
        return Err(Error::UnpredictableBehavior("PENDSVSET and PENDSVCLR both set to 1"));
    }
    push_event_if(new_pendstclr, Event::ExceptionSetPending(ExceptionType::SysTick, false), events);
    push_event_if(
        new_pendstset && !icsr.pendstset(),
        Event::ExceptionSetPending(ExceptionType::SysTick, true),
        events,
    );
    push_event_if(new_pendsvclr, Event::ExceptionSetPending(ExceptionType::PendSV, false), events);
    push_event_if(
        new_pendsvset && !icsr.pendsvset(),
        Event::ExceptionSetPending(ExceptionType::PendSV, true),
        events,
    );
    push_event_if(
        new_nmipendset && !icsr.nmipendset(),
        Event::ExceptionSetActive(ExceptionType::NMI, true),
        events,
    );
    Ok(())
}

/// Removes the first `LocalSysResetRequest` from `events`, if there is one.
fn withdraw_reset_request(events: &mut VecDeque<Event>)
    ensures
        final(events)@ == remove_first_event(old(events)@, Event::LocalSysResetRequest),
{
    let ghost e = Event::LocalSysResetRequest;
    let mut idx: usize = 0;
    assert(events@.subrange(0, events@.len() as int) =~= events@);
    while idx < events.len()
        invariant
            e == Event::LocalSysResetRequest,
            idx <= events@.len(),
            events@ == old(events)@,
            forall|j: int| 0 <= j < idx ==> #[trigger] events@[j] != e,
            event_index(events@, e) == idx + event_index(events@.subrange(idx as int, events@.len() as int), e),
        decreases events@.len() - idx,
    {
        let ev = events[idx];
        assert(ev == events@[idx as int]);
        let is_request = match ev {
            Event::LocalSysResetRequest => true,
            _ => false,
        };
        if is_request {
            proof {
                let rest = events@.subrange(idx as int, events@.len() as int);
                assert(events@[idx as int] == e);
                assert(rest[0] == e);
            }
            events.remove(idx);
            return;
        }
        proof {
            let rest = events@.subrange(idx as int, events@.len() as int);
            assert(events@[idx as int] != e);
            assert(rest[0] != e);
            assert(rest.drop_first() =~= events@.subrange(idx + 1, events@.len() as int));
        }
        idx = idx + 1;
    }
    proof {
        assert(events@.subrange(idx as int, events@.len() as int).len() == 0);
    }
}

/// The events of a write of `v` to the SCR holding `cur`.
fn scr_write_exec(cur: u32, v: u32, events: &mut VecDeque<Event>)
    ensures
        final(events)@ == scr_write_events(old(events)@, cur, v),
{
    let new_scr = SCR::from_bits(v & 0x16);
    let scr = SCR::from_bits(cur);
    push_event_if(new_scr.sleeponexit() != scr.sleeponexit(), Event::SetSleepOnExit(new_scr.sleeponexit()), events);
    push_event_if(new_scr.sleepdeep() != scr.sleepdeep(), Event::SetDeepSleep(new_scr.sleepdeep()), events);
    push_event_if(
        new_scr.sevonpend() != scr.sevonpend(),
        Event::SetTransitionWakupEvent(new_scr.sevonpend()),
        events,
    );
}

/// The events of a write of `v` to the CCR holding `cur`.
fn ccr_write_exec(cur: u32, v: u32, events: &mut VecDeque<Event>)
    ensures
        final(events)@ == ccr_write_events(old(events)@, cur, v),
{
    let n = CCR::from_bits(v & 0x0007_031b);
    let c = CCR::from_bits(cur);
    push_event_if(
        n.nonbasethrdena() != c.nonbasethrdena(),
        Event::ThreadModeExceptionsEnabled(n.nonbasethrdena()),
        events,
    );
    push_event_if(
        n.usersetmpend() != c.usersetmpend(),
        Event::STIRUnprivilegedAccessAllowed(n.usersetmpend()),
        events,
    );
    push_event_if(n.unalign_trp() != c.unalign_trp(), Event::UnalignedAccessTrapEnabled(n.unalign_trp()), events);
    push_event_if(n.div_0_trp() != c.div_0_trp(), Event::DivideByZeroTrapEnabled(n.div_0_trp()), events);
    push_event_if(n.bfhfnmign() != c.bfhfnmign(), Event::PreciseDataAccessFaultIgnored(n.bfhfnmign()), events);
    push_event_if(n.stkalign() != c.stkalign(), Event::Stack8ByteAligned(n.stkalign()), events);
    push_event_if(n.dc() != c.dc(), Event::DataCacheEnabled(n.dc()), events);
    push_event_if(n.ic() != c.ic(), Event::InsnCacheEnabled(n.ic()), events);
    push_event_if(n.bp() != c.bp(), Event::BranchPredictionEnabled(n.bp()), events);
}

/// The events of a write of `v` to the SHCSR holding `cur`.
fn shcsr_write_exec(cur: u32, v: u32, events: &mut VecDeque<Event>)
    ensures
        final(events)@ == shcsr_write_events(old(events)@, cur, v),
{
    shcsr_active_exec(cur, v, events);
    shcsr_pended_exec(cur, v, events);
    shcsr_enable_exec(cur, v, events);
}

fn shcsr_active_exec(cur: u32, v: u32, events: &mut VecDeque<Event>)
    ensures
        final(events)@ == shcsr_active_events(old(events)@, cur, v),
{
    let masked = v & 0x0007_ff8f;
    let n = SHCSR::from_bits(masked);
    let c = SHCSR::from_bits(masked ^ cur);
    push_event_if(c.memfaultact(), Event::ExceptionSetActive(ExceptionType::MemFault, n.memfaultact()), events);
    push_event_if(c.busfaultact(), Event::ExceptionSetActive(ExceptionType::BusFault, n.busfaultact()), events);
    push_event_if(c.usgfaultact(), Event::ExceptionSetActive(ExceptionType::UsageFault, n.usgfaultact()), events);
    push_event_if(c.svcallact(), Event::ExceptionSetActive(ExceptionType::SVCall, n.svcallact()), events);
    push_event_if(c.monitoract(), Event::ExceptionSetActive(ExceptionType::DebugMonitor, n.monitoract()), events);
    push_event_if(c.pendsvact(), Event::ExceptionSetActive(ExceptionType::PendSV, n.pendsvact()), events);
    push_event_if(c.systickact(), Event::ExceptionSetActive(ExceptionType::SysTick, n.systickact()), events);
}

fn shcsr_pended_exec(cur: u32, v: u32, events: &mut VecDeque<Event>)
    ensures
        final(events)@ == shcsr_pended_events(old(events)@, cur, v),
{
    let masked = v & 0x0007_ff8f;
    let n = SHCSR::from_bits(masked);
    let c = SHCSR::from_bits(masked ^ cur);
    push_event_if(
        c.usgfaultpended(),
        Event::ExceptionSetPending(ExceptionType::UsageFault, n.usgfaultpended()),
        events,
    );
    push_event_if(
        c.memfaultpended(),
        Event::ExceptionSetPending(ExceptionType::MemFault, n.memfaultpended()),
        events,
    );
    push_event_if(
        c.busfaultpended(),
        Event::ExceptionSetPending(ExceptionType::BusFault, n.busfaultpended()),
        events,
    );
    push_event_if(c.svcallpended(), Event::ExceptionSetPending(ExceptionType::SVCall, n.svcallpended()), events);
}

fn shcsr_enable_exec(cur: u32, v: u32, events: &mut VecDeque<Event>)
    ensures
        final(events)@ == shcsr_enable_events(old(events)@, cur, v),
{
    let masked = v & 0x0007_ff8f;
    let n = SHCSR::from_bits(masked);
    let c = SHCSR::from_bits(masked ^ cur);
    push_event_if(c.memfaultena(), Event::ExceptionEnabled(ExceptionType::MemFault, n.memfaultena()), events);
    push_event_if(c.busfaultena(), Event::ExceptionEnabled(ExceptionType::BusFault, n.busfaultena()), events);
    push_event_if(c.usgfaultena(), Event::ExceptionEnabled(ExceptionType::UsageFault, n.usgfaultena()), events);
}


/// Writes the bytes of `src` into `w` from byte `bo` onwards.
fn put_bytes(w: u32, bo: usize, src: &[u8]) -> (r: u32)
    requires
        bo + src@.len() <= 4,
    ensures
        r == word_with_bytes(w, bo as u32, src@),
{
    let mut r = w;
    let mut i: usize = 0;
    while i < src.len()
        invariant
            bo + src@.len() <= 4,
            i <= src@.len(),
            r == word_with_bytes(w, bo as u32, src@.subrange(0, i as int)),
        decreases src@.len() - i,
    {
        r = put_byte(r, (bo + i) as u32, src[i]);
        i = i + 1;
        proof {
            let s = src@.subrange(0, i as int);
            assert(s.subrange(0, (i - 1) as int) =~= src@.subrange(0, (i - 1) as int));
        }
    }
    assert(src@.subrange(0, src@.len() as int) =~= src@);
    r
}

/// Whether a read of `len` bytes at `offset` is one that the space
/// handles: inside the space, not in the MPU block, and with lengths that
/// the copies fit.
pub open spec fn scs_read_defined(offset: usize, len: nat) -> bool {
    let address = (BASE + offset) as u32;
    &&& sc_lookup_ok(offset)
    &&& match sc_lookup(offset) {
        None => len == 4,
        Some(SCRegType::MPU(_)) => false,
        Some(SCRegType::SysTick(_)) => len == 4,
        Some(SCRegType::NVIC(NVICRegType::IPR(_))) => is_aligned(address, len as usize, Alignment::Any)
            ==> copy_fits(offset, len),
        Some(SCRegType::NVIC(_)) => true,
        Some(t) => !word_register(t) && t != SCRegType::STIR ==> (is_aligned(
            address,
            len as usize,
            Alignment::Any,
        ) ==> copy_fits(offset, len)),
    }
}

/// The registers that only word reads reach.
pub open spec fn word_register(t: SCRegType) -> bool {
    match t {
        SCRegType::ICSR | SCRegType::VTOR | SCRegType::AIRCR | SCRegType::SCR | SCRegType::CCR
        | SCRegType::SHCSR | SCRegType::HFSR | SCRegType::DFSR | SCRegType::MMFAR | SCRegType::BFAR
        | SCRegType::AFSR | SCRegType::ICTR => true,
        _ => false,
    }
}

/// What a read at byte `offset` of the space into `d` gives in the words
/// `w`: the result, the words after it and the bytes read. An offset with
/// no register reads the word and reports it; the STIR is write-only.
pub open spec fn scs_read(w: Seq<u32>, offset: usize, d: Seq<u8>) -> (Result<(), Error>, Seq<u32>, Seq<u8>) {
    let address = (BASE + offset) as u32;
    let wo = (offset / 4) as int;
    let len = d.len() as usize;
    match sc_lookup(offset) {
        None => (Err(Error::InvalidSysCtrlReg(address)), w, word_bytes(w[wo])),
        Some(SCRegType::STIR) => (Err(Error::WriteAccessViolation(address)), w, d),
        Some(SCRegType::SysTick(_)) => systick_read(w, offset, d),
        Some(SCRegType::NVIC(_)) => {
            let (r, d2) = nvic_read(w, offset, d);
            (r, w, d2)
        },
        Some(t) => if word_register(t) {
            if !is_aligned(address, len, Alignment::Word) {
                (Err(Error::AlignmentViolation(address, len, Alignment::Word)), w, d)
            } else {
                (Ok(()), w, word_bytes(w[wo]))
            }
        } else if !is_aligned(address, len, Alignment::Any) {
            (Err(Error::AlignmentViolation(address, len, Alignment::Any)), w, d)
        } else {
            (Ok(()), w, word_bytes(w[wo]).subrange((offset % 4) as int, 4))
        },
    }
}

impl SysCtrlSpace {
    /// The debug registers of the space, for reading.
    pub fn debug_regs(&self) -> (r: DebugRegs<'_>)
        requires
            scs_wf(self@),
        ensures
            r@ == self@.words,
    {
        DebugRegs::new(self.backing.as_slice())
    }

    /// The NVIC registers of the space, for reading.
    pub fn nvic_regs(&self) -> (r: NVICRegs<'_>)
        requires
            scs_wf(self@),
        ensures
            r@ == self@.words,
    {
        NVICRegs::new(self.backing.as_slice())
    }

    /// A copy of the SysTick registers of the space.
    pub fn systick_regs(&self) -> (r: SysTickRegs)
        requires
            scs_wf(self@),
        ensures
            r@ == self@.words,
    {
        SysTickRegs::new(self.backing.clone())
    }

    /// Writes `v` to the AIRCR.
    fn write_aircr(&mut self, v: u32, events: &mut VecDeque<Event>) -> (r: Result<(), Error>)
        requires
            scs_wf(old(self)@),
        ensures
            (r, final(self)@.words, final(events)@) == aircr_write(old(self)@.words, old(events)@, v),
            final(self)@ == (SysCtrlSpaceView { words: final(self)@.words, ..old(self)@ }),
    {
        let new_aircr = AIRCR::from_bits(v & 0xffff_0707);
        let new_vectreset = new_aircr.vectreset();
        let new_vectclractive = new_aircr.vectclractive();
        let new_sysresetreq = new_aircr.sysresetreq();
        let new_prigroup = new_aircr.prigroup();
        let new_vectkey = new_aircr.vectkey_stat();
        let dbg_state = self.debug_regs().get_debug_state();
        let mut aircr = self.get_aircr();
        if new_vectreset {
            if !dbg_state {
                return Err(Error::UnpredictableBehavior("Write to VECTRESET while not halted in Debug state"));
            }
            events.push_back(Event::LocalSysResetRequest);
        }
        if new_vectclractive {
            if !dbg_state {
                return Err(
                    Error::UnpredictableBehavior("Write to VECTCLRACTIVE while not halted in Debug state"),
                );
            }
            events.push_back(Event::ExceptionClrAllActive);
        }
        proof {
            let ghost m = v & 0xffff_0707u32;
            assert(old(events)@ + event_if(bit(m, 0), Event::LocalSysResetRequest) + event_if(
                bit(m, 1),
                Event::ExceptionClrAllActive,
            ) =~= events@);
        }
        let cur_prigroup = aircr.prigroup();
        if new_sysresetreq != aircr.sysresetreq() {
            if new_sysresetreq {
                // a local system reset request
                events.push_back(Event::LocalSysResetRequest);
            } else {
                // withdraw the request, if it has not been dealt with yet
                withdraw_reset_request(events);
            }
        }
        aircr.set_sysresetreq(new_sysresetreq);
        proof {
            crate::bits::lemma_low_mask_values();
            crate::bits::lemma_field_bound(v & 0xffff_0707u32, 8, 3);
        }
        push_event_if(new_prigroup != cur_prigroup, Event::SetPriorityGrouping(new_prigroup), events);
        aircr.set_prigroup(new_prigroup);
        push_event_if(new_vectkey == 0x05fa, Event::VectorKeyWrite, events);
        self.set_word(AIRCR_WORD, aircr.0);
        Ok(())
    }

    /// Writes the bytes of `src` to the handler priority register word at
    /// `offset`, whose byte `offset % 4` is the priority of handler `id`.
    fn write_shpr(&mut self, offset: usize, id: u8, src: &[u8], events: &mut VecDeque<Event>)
        requires
            scs_wf(old(self)@),
            offset / 4 < 0x400,
            offset % 4 + src@.len() <= 4,
            4 <= id,
            id + src@.len() <= 16,
        ensures
            ({
                let wo = (offset / 4) as int;
                let cur = old(self)@.words[wo];
                &&& final(self)@ == (SysCtrlSpaceView {
                    words: old(self)@.words.update(wo, word_with_bytes(cur, (offset % 4) as u32, src@)),
                    ..old(self)@
                })
                &&& final(events)@ == old(events)@ + shpr_write_events(cur, (offset % 4) as u32, id, src@)
            }),
    {
        let word_offset = offset / 4;
        let byte_offset = offset % 4;
        let cur = self.word(word_offset);
        let mut i: usize = 0;
        while i < src.len()
            invariant
                byte_offset == offset % 4,
                byte_offset + src@.len() <= 4,
                4 <= id,
                id + src@.len() <= 16,
                i <= src@.len(),
                events@ == old(events)@ + shpr_write_events(cur, byte_offset as u32, id, src@.subrange(0, i as int)),
            decreases src@.len() - i,
        {
            let b = get_byte(cur, (byte_offset + i) as u32);
            let typ = ExceptionType::from((id as usize + i) as u32);
            proof {
                crate::exception::lemma_number_of_type_of((id + i) as u32);
            }
            let ghost before = events@;
            push_event_if(b != src[i], Event::ExceptionSetPriority(typ, src[i]), events);
            i = i + 1;
            proof {
                let s = src@.subrange(0, i as int);
                assert(s.subrange(0, (i - 1) as int) =~= src@.subrange(0, (i - 1) as int));
                assert(s[(i - 1) as int] == src@[(i - 1) as int]);
                assert(before + event_if(b != src@[(i - 1) as int], Event::ExceptionSetPriority(typ, src@[(i - 1) as int])) =~= events@);
            }
        }
        assert(src@.subrange(0, src@.len() as int) =~= src@);
        let w = put_bytes(cur, byte_offset, src);
        self.set_word(word_offset, w);
    }
}


/// An aligned access in the space stays within its word.
proof fn lemma_aligned_in_word(offset: usize, len: usize)
    requires
        offset < 0x1000,
    ensures
        is_aligned((BASE + offset) as u32, len, Alignment::Any) ==> offset % 4 + len <= 4 && len > 0,
        is_aligned((BASE + offset) as u32, len, Alignment::Word) ==> offset % 4 == 0 && len == 4,
{
    let a = (BASE + offset) as u32;
    assert(a == 0xe000e000 + offset);
    assert(a % 4 == offset % 4);
    assert(a % 2 == offset % 2);
    assert(offset % 2 == 0 ==> offset % 4 == 0 || offset % 4 == 2);
}

impl SysCtrlSpace {
    /// Writes the bytes of `src` at byte `offset` of the space. Each
    /// register handles the write its own way (see [`scs_write`]) and raises
    /// the events that it implies; an offset with no register is written as
    /// memory and reported.
    pub fn write_bytes(&mut self, offset: usize, src: &[u8], events: &mut VecDeque<Event>) -> (r: Result<(), Error>)
        requires
            scs_wf(old(self)@),
            scs_write_defined(offset, src@.len()),
        ensures
            (r, final(self)@.words, final(events)@) == scs_write(old(self)@.words, old(events)@, offset, src@),
            final(self)@ == (SysCtrlSpaceView { words: final(self)@.words, ..old(self)@ }),
            scs_wf(final(self)@),
    {
        let address = BASE + offset as u32;
        let word_offset = offset / 4;
        let byte_offset = offset % 4;
        proof {
            lemma_aligned_in_word(offset, src@.len() as usize);
        }
        let reg_type = match SCRegType::lookup_offset(offset) {
            Some(t) => t,
            None => {
                // not a register: written as memory, and reported
                let w = put_bytes(self.word(word_offset), byte_offset, src);
                self.set_word(word_offset, w);
                return Err(Error::InvalidSysCtrlReg(address));
            },
        };
        let write_val = write_value(src);
        match reg_type {
            SCRegType::ICSR => {
                match check_alignment(address, src.len(), Alignment::Word) {
                    Ok(()) => {},
                    Err((a, s, e)) => {
                        return Err(Error::AlignmentViolation(a, s, e));
                    },
                }
                icsr_write_exec(self.word(ICSR_WORD), write_val, events)
            },
            SCRegType::VTOR => {
                let val = write_val & 0xffff_ff80;
                self.set_word(VTOR_WORD, val);
                events.push_back(Event::VectorTableOffsetWrite(val));
                Ok(())
            },
            SCRegType::AIRCR => self.write_aircr(write_val, events),
            SCRegType::SCR => {
                let cur = self.word(SCR_WORD);
                scr_write_exec(cur, write_val, events);
                self.set_word(SCR_WORD, (cur & !0x16u32) | (write_val & 0x16u32));
                Ok(())
            },
            SCRegType::CCR => {
                let cur = self.word(CCR_WORD);
                ccr_write_exec(cur, write_val, events);
                self.set_word(CCR_WORD, (cur & !0x0007_031bu32) | (write_val & 0x0007_031bu32));
                Ok(())
            },
            SCRegType::SHPR1(id) | SCRegType::SHPR2(id) | SCRegType::SHPR3(id) => {
                match check_alignment(address, src.len(), Alignment::Any) {
                    Ok(()) => {},
                    Err((a, s, e)) => {
                        return Err(Error::AlignmentViolation(a, s, e));
                    },
                }
                self.write_shpr(offset, id, src, events);
                Ok(())
            },
            SCRegType::SHCSR => {
                match check_alignment(address, src.len(), Alignment::Word) {
                    Ok(()) => {},
                    Err((a, s, e)) => {
                        return Err(Error::AlignmentViolation(a, s, e));
                    },
                }
                // the register follows the exception state that the events change
                shcsr_write_exec(self.word(SHCSR_WORD), write_val, events);
                Ok(())
            },
            SCRegType::SysTick(_) => {
                let mut backing: Vec<u32> = Vec::new();
                std::mem::swap(&mut backing, &mut self.backing);
                let mut regs = SysTickRegs::new(backing);
                let r = regs.write_bytes(offset, src, events);
                self.backing = regs.into_backing();
                r
            },
            SCRegType::NVIC(_) => {
                let mut backing: Vec<u32> = Vec::new();
                std::mem::swap(&mut backing, &mut self.backing);
                let mut regs = NVICRegsMut::new(backing);
                let r = regs.write_bytes(offset, src, events);
                self.backing = regs.into_backing();
                r
            },
            SCRegType::CFSR | SCRegType::HFSR | SCRegType::DFSR | SCRegType::MMFAR | SCRegType::BFAR
            | SCRegType::AFSR | SCRegType::ICTR | SCRegType::STIR | SCRegType::MPU(_) => {
                // writes to these registers are not implemented; the
                // precondition leaves them out
                proof {
                    assert(false);
                }
                Err(Error::UnimplementedSysCtrlReg(reg_type))
            },
            _ => {
                match check_alignment(address, src.len(), Alignment::Any) {
                    Ok(()) => {},
                    Err((a, s, e)) => {
                        return Err(Error::AlignmentViolation(a, s, e));
                    },
                }
                let w = put_bytes(self.word(word_offset), byte_offset, src);
                self.set_word(word_offset, w);
                Ok(())
            },
        }
    }
}


impl SysCtrlSpace {
    /// Reads the bytes at byte `offset` of the space into `dst`. An offset
    /// with no register reads the word and reports it; the registers of
    /// the control block take word reads, or any aligned read for the
    /// others; the STIR is write-only.
    pub fn read_bytes(&mut self, offset: usize, dst: &mut [u8], events: &mut VecDeque<Event>) -> (r: Result<(), Error>)
        requires
            scs_wf(old(self)@),
            scs_read_defined(offset, old(dst)@.len()),
        ensures
            (r, final(self)@.words, final(dst)@) == scs_read(old(self)@.words, offset, old(dst)@),
            final(self)@ == (SysCtrlSpaceView { words: final(self)@.words, ..old(self)@ }),
            final(events)@ == old(events)@,
            scs_wf(final(self)@),
    {
        let address = BASE + offset as u32;
        let word_offset = offset / 4;
        let byte_offset = offset % 4;
        proof {
            lemma_aligned_in_word(offset, dst@.len() as usize);
        }
        let reg_type = match SCRegType::lookup_offset(offset) {
            Some(t) => t,
            None => {
                // not a register: read as memory, and reported
                copy_word(self.word(word_offset), dst);
                return Err(Error::InvalidSysCtrlReg(address));
            },
        };
        match reg_type {
            SCRegType::ICSR | SCRegType::VTOR | SCRegType::AIRCR | SCRegType::SCR | SCRegType::CCR
            | SCRegType::SHCSR | SCRegType::HFSR | SCRegType::DFSR | SCRegType::MMFAR | SCRegType::BFAR
            | SCRegType::AFSR | SCRegType::ICTR => {
                match check_alignment(address, dst.len(), Alignment::Word) {
                    Ok(()) => {},
                    Err((a, s, e)) => {
                        return Err(Error::AlignmentViolation(a, s, e));
                    },
                }
                copy_word(self.word(word_offset), dst);
                Ok(())
            },
            SCRegType::STIR => {
                // write-only
                Err(Error::WriteAccessViolation(address))
            },
            SCRegType::SysTick(_) => {
                let mut backing: Vec<u32> = Vec::new();
                std::mem::swap(&mut backing, &mut self.backing);
                let mut regs = SysTickRegs::new(backing);
                let r = regs.read_bytes(offset, dst, events);
                self.backing = regs.into_backing();
                r
            },
            SCRegType::NVIC(_) => {
                let mut backing: Vec<u32> = Vec::new();
                std::mem::swap(&mut backing, &mut self.backing);
                let mut regs = NVICRegsMut::new(backing);
                let r = regs.read_bytes(offset, dst, events);
                self.backing = regs.into_backing();
                r
            },
            SCRegType::MPU(_) => {
                // the MPU block is left out by the precondition
                proof {
                    assert(false);
                }
                Err(Error::UnimplementedSysCtrlReg(reg_type))
            },
            _ => {
                match check_alignment(address, dst.len(), Alignment::Any) {
                    Ok(()) => {},
                    Err((a, s, e)) => {
                        return Err(Error::AlignmentViolation(a, s, e));
                    },
                }
                copy_word_tail(self.word(word_offset), byte_offset, dst);
                Ok(())
            },
        }
    }
}

} // verus!
