//! The Cortex-M3 processor core: operation mode, special-purpose registers,
//! banked stack pointers, the system control space and the memory map,
//! with exception entry and return (B1.5).
use vstd::prelude::*;

use std::collections::VecDeque;

use crate::bits::{bit, field, get_byte, with_bit, with_field, word_bytes};
use crate::regs::UFSR;
use crate::dcb::DHCSR_WORD;
use crate::events::{Event, PeripheralEvent, Status};
use crate::exception::{exception_number, exception_type_of, le_word, ExceptionType};
use crate::error::{BackendError, Error};
use crate::mmap::{lemma_read_after_write, lemma_write_frame, lemma_write_keeps_regions, mem_read, mem_view, mem_write, region_at, regions_wf, MemoryMap};
use crate::scs::access::{scs_read, scs_read_defined, scs_write, scs_write_defined};
use crate::nvic::ipr_pri;
use crate::scs::{raw_priority, enabled_in, pending_defined, pow2_exec, pow2_small, scs_wf, SysCtrlConfig, SysCtrlSpace, SysCtrlSpaceView, AIRCR_WORD, CCR_WORD, CFSR_WORD, ICSR_WORD, SCR_WORD, VTOR_WORD, exception_priority, priority_defined, clr_active_view, clr_pending_view, config_placeable, disable_view, enable_view, set_active_view, set_pending_view, set_priority_view, valid_exception};
use crate::system::{with_it_bits, BASEPRI, CONTROL, EVENT, FAULTMASK, PRIMASK, XPSR};

verus! {

/// Index of register r12 among the core registers.
pub const R12: usize = 12;

/// Index of the stack pointer among the core registers.
pub const SP: usize = 13;

/// Index of the link register among the core registers.
pub const LR: usize = 14;

/// Index of the program counter among the core registers.
pub const PC: usize = 15;

/// Number of core registers.
pub const NUM_REGS: usize = 16;

/// The process stack pointer before it is first set; its value is UNKNOWN
/// in the architecture.
pub const DEFAULT_PROC_SP: u32 = 0;

/// Operation mode (B1.3.1); privileged execution state is part of it.
#[derive(Clone, Copy, Debug, PartialEq, Eq, Hash, Structural)]
pub enum Mode {
    /// entered on reset, and on some exception returns
    Thread,
    /// entered on exception; an exception return is issued from it
    Handler(ExceptionType),
    /// entered when halting on a debug event
    Debug,
}

/// A thread of execution: the main program or an exception handler.
#[derive(Clone, Copy, Debug, PartialEq, Eq, Hash, Structural)]
pub enum EmuThread {
    Main,
    ISR { num: u32 },
}

/// The thread that the mode `m` runs: thread mode runs the main program,
/// handler mode the handler of its exception.
pub open spec fn thread_of(m: Mode) -> EmuThread {
    match m {
        Mode::Handler(t) => EmuThread::ISR { num: exception_number(t) },
        _ => EmuThread::Main,
    }
}

impl Mode {
    /// The thread that the mode runs. Debug mode runs none.
    pub fn thread(&self) -> (r: EmuThread)
        requires
            *self != Mode::Debug,
        ensures
            r == thread_of(*self),
    {
        match self {
            Mode::Thread => EmuThread::Main,
            Mode::Handler(t) => EmuThread::ISR { num: t.number() },
            Mode::Debug => EmuThread::Main,
        }
    }
}

/// What a switch between threads on exception entry or return changes.
#[derive(Clone, Copy, Debug, PartialEq, Eq, Structural)]
pub struct ThreadSwitch {
    /// number of the exception taken, or 0 on a return
    pub typ: u32,
    pub old_thread: EmuThread,
    pub new_thread: EmuThread,
    pub old_frame_address: u32,
    pub new_frame_address: u32,
    /// the program counter when the switch happened
    pub switch_address: u32,
    /// where execution goes on
    pub target_address: u32,
    /// where execution returns to after the handler, on entry
    pub return_address: Option<u32>,
    /// the vector table base, on entry
    pub vtor: Option<u32>,
}

/// Exception return value written to the PC (B1.5.8): bits 31:28 are all
/// ones, bits 27:5 should be one, bit 4 tells whether no floating-point
/// state was stacked, and bits 3:0 select the return mode and stack.
#[allow(non_camel_case_types)]
#[derive(Clone, Copy, Debug, PartialEq, Eq, Structural)]
pub struct EXC_RETURN(pub u32);

impl EXC_RETURN {
    /// Bits 3:0: 0b0001 returns to handler mode, 0b1001 to thread mode on
    /// the main stack, 0b1101 to thread mode on the process stack.
    pub fn modebits(&self) -> (r: u32)
        ensures
            r == field(self.0, 0, 4),
    {
        crate::bits::get_field(self.0, 0, 4)
    }

    /// Bit 4: no floating-point state was stacked.
    pub fn nofpext(&self) -> (r: bool)
        ensures
            r == bit(self.0, 4),
    {
        crate::bits::get_bit(self.0, 4)
    }

    /// Bits 27:5, which should be one.
    pub fn sbop(&self) -> (r: u32)
        ensures
            r == field(self.0, 5, 23),
    {
        crate::bits::get_field(self.0, 5, 23)
    }

    /// Bits 31:28, all ones in an exception return value.
    pub fn exc_value(&self) -> (r: u32)
        ensures
            r == field(self.0, 28, 4),
    {
        crate::bits::get_field(self.0, 28, 4)
    }

    /// The raw word.
    pub fn into_bits(self) -> (r: u32)
        ensures
            r == self.0,
    {
        self.0
    }
}

/// Abstract state of the core.
#[verifier::ext_equal]
pub struct BackendView {
    pub status: Status,
    pub mode: Mode,
    pub event: bool,
    pub xpsr: u32,
    pub main_sp: Option<u32>,
    pub proc_sp: Option<u32>,
    pub control: u32,
    pub primask: u32,
    pub faultmask: u32,
    pub basepri: u32,
    /// the core registers r0 to r15
    pub regs: Seq<u32>,
    pub scs: SysCtrlSpaceView,
    /// the mapped memory regions, by address range
    pub mem: Map<(u64, u64), Seq<u8>>,
    /// the events raised and not yet handled
    pub events: Seq<Event>,
}

/// The Cortex-M3 core.
pub struct Backend {
    id: usize,
    status: Status,
    mode: Mode,
    event: EVENT,
    xpsr: XPSR,
    main_sp: Option<u32>,
    proc_sp: Option<u32>,
    control: CONTROL,
    primask: PRIMASK,
    faultmask: FAULTMASK,
    basepri: BASEPRI,
    regs: Vec<u32>,
    scs: SysCtrlSpace,
    mmap: MemoryMap,
    events: VecDeque<Event>,
}

impl View for Backend {
    type V = BackendView;

    closed spec fn view(&self) -> BackendView {
        BackendView {
            status: self.status,
            mode: self.mode,
            event: self.event.0,
            xpsr: self.xpsr.0,
            main_sp: self.main_sp,
            proc_sp: self.proc_sp,
            control: self.control.0,
            primask: self.primask.0,
            faultmask: self.faultmask.0,
            basepri: self.basepri.0,
            regs: self.regs@,
            scs: self.scs@,
            mem: self.mmap@,
            events: self.events@,
        }
    }
}

/// Whether the state is well formed: sixteen core registers, a well
/// formed system control space with readable pending priorities, and
/// regions that do not overlap.
pub open spec fn backend_wf(v: BackendView) -> bool {
    &&& v.regs.len() == NUM_REGS
    &&& scs_wf(v.scs)
    &&& pending_defined(v.scs)
    &&& regions_wf(v.mem)
}

/// Whether CONTROL.SPSEL selects the process stack.
pub open spec fn spsel(v: BackendView) -> bool {
    bit(v.control, 1)
}

/// Whether the stack in use is defined: the process stack is only
/// selected in thread mode.
pub open spec fn sp_defined(v: BackendView) -> bool {
    spsel(v) ==> v.mode == Mode::Thread
}

/// The main stack pointer: the stack pointer register while it is in use,
/// else the banked value.
pub open spec fn main_sp_of(v: BackendView) -> u32 {
    if !spsel(v) {
        v.regs[SP as int]
    } else {
        v.main_sp.unwrap()
    }
}

/// The process stack pointer: the stack pointer register while it is in
/// use, else the banked value (0 before it is first set).
pub open spec fn proc_sp_of(v: BackendView) -> u32 {
    if spsel(v) {
        v.regs[SP as int]
    } else {
        match v.proc_sp {
            Some(sp) => sp,
            None => DEFAULT_PROC_SP,
        }
    }
}

/// The state after CONTROL.SPSEL was set to `b` (B1.4.4): on a change the
/// stack pointer register is banked as the stack that it stood for, and
/// takes the value of the stack now selected (0 for a main stack never
/// banked).
pub open spec fn set_spsel_view(v: BackendView, b: bool) -> BackendView {
    if spsel(v) == b {
        v
    } else if b {
        BackendView {
            main_sp: Some(v.regs[SP as int]),
            regs: v.regs.update(SP as int, proc_sp_of(v)),
            control: with_bit(v.control, 1, true),
            ..v
        }
    } else {
        BackendView {
            proc_sp: Some(v.regs[SP as int]),
            regs: v.regs.update(
                SP as int,
                match v.main_sp {
                    Some(m) => m,
                    None => 0,
                },
            ),
            control: with_bit(v.control, 1, false),
            ..v
        }
    }
}

/// The priority of the highest-priority active exception (256 with none)
/// (B1.5.4): reset, NMI and HardFault have their fixed priorities -3, -2
/// and -1; the configurable priorities are reduced to their group.
pub open spec fn highest_active(w: Seq<u32>, s: Seq<ExceptionType>, gv: int) -> int
    decreases s.len(),
{
    if s.len() == 0 {
        256
    } else {
        let h = highest_active(w, s.drop_last(), gv);
        let pri = raw_priority(w, exception_number(s.last()));
        if pri < h {
            if pri < 0 {
                pri
            } else {
                pri - pri % gv
            }
        } else {
            h
        }
    }
}

/// The group value of the priority grouping: 2 << PRIGROUP.
pub open spec fn group_value(w: Seq<u32>) -> int {
    2 * pow2_small(field(w[AIRCR_WORD as int], 8, 3))
}

/// The current execution priority (B1.5.4): the highest active priority,
/// or the boost of BASEPRI, PRIMASK or FAULTMASK if it is higher.
pub open spec fn current_priority_of(v: BackendView) -> int {
    let gv = group_value(v.scs.words);
    let highest = highest_active(v.scs.words, v.scs.active, gv);
    let bp = field(v.basepri, 0, 8) as int;
    let boosted = if bit(v.faultmask, 0) {
        -1
    } else if bit(v.primask, 0) {
        0
    } else if bp != 0 {
        bp - bp % gv
    } else {
        256
    };
    if boosted < highest {
        boosted
    } else {
        highest
    }
}

impl Backend {
    /// Whether the state is well formed.
    pub closed spec fn wf(&self) -> bool {
        &&& backend_wf(self@)
        &&& self.mmap.wf()
    }

    /// What well-formedness says of the view: sixteen core registers, a
    /// system control space of `SCS_WORDS` words that is well formed and
    /// whose pending priorities can be read, and regions that do not
    /// overlap.
    pub proof fn lemma_wf_view(&self)
        requires
            self.wf(),
        ensures
            backend_wf(self@),
            self@.regs.len() == NUM_REGS,
            self@.scs.words.len() == crate::scs::SCS_WORDS,
    {
    }

    /// A core in thread mode with every register 0, the system control
    /// space made from `scs_config` (the empty configuration if none) and
    /// no memory mapped.
    pub fn new_with(scs_config: Option<SysCtrlConfig>) -> (r: Self)
        requires
            scs_config matches Some(c) ==> config_placeable(c@),
        ensures
            r.wf(),
            r@.status == Status::Alive,
            r@.mode == Mode::Thread,
            !r@.event,
            r@.xpsr == 0,
            r@.main_sp is None,
            r@.proc_sp is None,
            r@.control == 0 && r@.primask == 0 && r@.faultmask == 0 && r@.basepri == 0,
            r@.regs == Seq::new(NUM_REGS as nat, |i: int| 0u32),
            crate::scs::config_holds(
                match scs_config {
                    Some(c) => c@,
                    None => Map::empty(),
                },
                r@.scs.words,
            ),
            r@.scs.enabled.len() == 0 && r@.scs.pending.len() == 0 && r@.scs.active.len() == 0,
            r@.mem.dom() == Set::<(u64, u64)>::empty(),
            r@.events.len() == 0,
    {
        let config = match scs_config {
            Some(c) => c,
            None => SysCtrlConfig::default(),
        };
        proof {
            if scs_config is None {
                assert(config@ =~= Map::empty());
            }
        }
        let scs = SysCtrlSpace::new_from(config);
        let mut regs: Vec<u32> = Vec::new();
        let mut i: usize = 0;
        while i < NUM_REGS
            invariant
                i <= NUM_REGS,
                regs@ == Seq::new(i as nat, |j: int| 0u32),
            decreases NUM_REGS - i,
        {
            regs.push(0);
            i = i + 1;
            assert(regs@ =~= Seq::new(i as nat, |j: int| 0u32));
        }
        let r = Backend {
            id: 0,
            status: Status::Alive,
            mode: Mode::Thread,
            event: EVENT(false),
            xpsr: XPSR(0),
            main_sp: None,
            proc_sp: None,
            control: CONTROL::new(),
            primask: PRIMASK::new(),
            faultmask: FAULTMASK::new(),
            basepri: BASEPRI::new(),
            regs,
            scs,
            mmap: MemoryMap::default(),
            events: VecDeque::new(),
        };
        assert(pending_defined(r@.scs));
        r
    }

    /// The thread that runs now.
    pub fn current_thread(&self) -> (r: EmuThread)
        requires
            self@.mode != Mode::Debug,
        ensures
            r == thread_of(self@.mode),
    {
        self.mode.thread()
    }

    /// Whether the current mode is privileged (B1.3.1): handler mode, or
    /// thread mode with CONTROL.nPRIV clear.
    pub fn current_mode_is_privileged(&self) -> (r: bool)
        ensures
            r == (self@.mode is Handler || !bit(self@.control, 0)),
    {
        match self.mode {
            Mode::Handler(_) => true,
            _ => !self.control.npriv(),
        }
    }

    /// Whether the stack pointer in use is the main one (B1.4.7).
    pub fn is_sp_main(&self) -> (r: bool)
        requires
            sp_defined(self@),
        ensures
            r == !spsel(self@),
    {
        !self.control.spsel()
    }

    /// The program counter.
    pub fn read_pc(&self) -> (r: u32)
        requires
            self.wf(),
        ensures
            r == self@.regs[PC as int],
    {
        self.regs[PC]
    }

    /// Sets the program counter.
    pub fn write_pc(&mut self, address: u32)
        requires
            old(self).wf(),
        ensures
            final(self).wf(),
            final(self)@ == (BackendView { regs: old(self)@.regs.update(PC as int, address), ..old(self)@ }),
    {
        self.regs.set(PC, address);
    }

    /// The stack pointer in use.
    pub fn read_sp(&self) -> (r: u32)
        requires
            self.wf(),
        ensures
            r == self@.regs[SP as int],
    {
        self.regs[SP]
    }

    /// Sets the stack pointer in use.
    pub fn write_sp(&mut self, address: u32)
        requires
            old(self).wf(),
        ensures
            final(self).wf(),
            final(self)@ == (BackendView { regs: old(self)@.regs.update(SP as int, address), ..old(self)@ }),
    {
        self.regs.set(SP, address);
    }

    /// The main stack pointer.
    pub fn get_main_sp(&self) -> (r: u32)
        requires
            self.wf(),
            sp_defined(self@),
            spsel(self@) ==> self@.main_sp is Some,
        ensures
            r == main_sp_of(self@),
    {
        if self.is_sp_main() {
            self.read_sp()
        } else {
            match self.main_sp {
                Some(sp) => sp,
                None => 0,
            }
        }
    }

    /// Sets the main stack pointer: the stack pointer register while it is
    /// in use, else the banked value.
    pub fn set_main_sp(&mut self, address: u32)
        requires
            old(self).wf(),
            sp_defined(old(self)@),
        ensures
            final(self).wf(),
            !spsel(old(self)@) ==> final(self)@ == (BackendView {
                regs: old(self)@.regs.update(SP as int, address),
                ..old(self)@
            }),
            spsel(old(self)@) ==> final(self)@ == (BackendView { main_sp: Some(address), ..old(self)@ }),
    {
        if self.is_sp_main() {
            self.write_sp(address);
        } else {
            self.main_sp = Some(address);
        }
    }

    /// The process stack pointer.
    pub fn get_proc_sp(&self) -> (r: u32)
        requires
            self.wf(),
            sp_defined(self@),
        ensures
            r == proc_sp_of(self@),
    {
        if !self.is_sp_main() {
            self.read_sp()
        } else {
            match self.proc_sp {
                Some(sp) => sp,
                None => DEFAULT_PROC_SP,
            }
        }
    }

    /// Sets the process stack pointer: the stack pointer register while it
    /// is in use, else the banked value.
    pub fn set_proc_sp(&mut self, address: u32)
        requires
            old(self).wf(),
            sp_defined(old(self)@),
        ensures
            final(self).wf(),
            spsel(old(self)@) ==> final(self)@ == (BackendView {
                regs: old(self)@.regs.update(SP as int, address),
                ..old(self)@
            }),
            !spsel(old(self)@) ==> final(self)@ == (BackendView { proc_sp: Some(address), ..old(self)@ }),
    {
        if !self.is_sp_main() {
            self.write_sp(address);
        } else {
            self.proc_sp = Some(address);
        }
    }

    /// Selects the process stack (`b`) or the main stack; see
    /// `set_spsel_view`.
    fn _set_spsel(&mut self, b: bool)
        requires
            old(self).wf(),
        ensures
            final(self).wf(),
            final(self)@ == set_spsel_view(old(self)@, b),
    {
        if self.control.spsel() != b {
            let sp = self.regs[SP];
            if b {
                let p = match self.proc_sp {
                    Some(p) => p,
                    None => DEFAULT_PROC_SP,
                };
                self.main_sp = Some(sp);
                self.regs.set(SP, p);
            } else {
                let m = match self.main_sp {
                    Some(m) => m,
                    None => 0,
                };
                self.proc_sp = Some(sp);
                self.regs.set(SP, m);
            }
            self.control.set_spsel(b);
        }
    }

    /// The current execution priority (B1.5.4).
    pub fn current_priority(&self) -> (r: i16)
        requires
            self.wf(),
        ensures
            r == current_priority_of(self@),
    {
        let ghost w = self@.scs.words;
        let subgroupshift = self.scs.get_aircr().prigroup();
        proof {
            crate::bits::lemma_low_mask_values();
            crate::bits::lemma_field_bound(w[AIRCR_WORD as int], 8, 3);
        }
        let groupvalue: i16 = pow2_exec(subgroupshift as i16) * 2;
        let mut highestpri: i16 = 256;
        let mut boostedpri: i16 = 256;
        let active = self.scs.active_exceptions();
        let nvic = self.scs.nvic_regs();
        let mut i: usize = 0;
        while i < active.len()
            invariant
                w == self@.scs.words,
                w.len() == crate::scs::SCS_WORDS,
                nvic@ == w,
                active@ == self@.scs.active,
                groupvalue == group_value(w),
                2 <= groupvalue <= 256,
                i <= active@.len(),
                highestpri == highest_active(w, active@.take(i as int), groupvalue as int),
                -3 <= highestpri <= 256,
                scs_wf(self@.scs),
            decreases active@.len() - i,
        {
            let typ = active[i];
            proof {
                assert(valid_exception(self@.scs.active[i as int]));
            }
            let (group, sub) = self.scs.get_exception_priority(typ);
            proof {
                crate::scs::lemma_raw_priority_bounds(w, exception_number(typ));
                let rp = raw_priority(w, exception_number(typ));
                if rp >= 0 {
                    assert(0 <= rp % (groupvalue as int) < groupvalue);
                }
            }
            let pri = group + sub;
            assert(pri as int == raw_priority(w, exception_number(typ)));
            proof {
                if pri >= 0 {
                    assert(pri % groupvalue <= pri) by (nonlinear_arith)
                        requires
                            pri >= 0,
                            groupvalue > 0,
                    ;
                }
            }
            if pri < highestpri {
                highestpri = if pri < 0 {
                    pri
                } else {
                    pri - pri % groupvalue
                };
            }
            proof {
                let s = active@.take(i + 1);
                assert(s.drop_last() =~= active@.take(i as int));
                assert(s.last() == active@[i as int]);
                assert(highestpri == highest_active(w, s, groupvalue as int));
            }
            i = i + 1;
        }
        assert(active@.take(active@.len() as int) =~= active@);
        let bp = self.basepri.basepri();
        if bp != 0 {
            boostedpri = bp as i16;
            boostedpri = boostedpri - boostedpri % groupvalue;
        }
        if self.primask.pm() {
            boostedpri = 0;
        }
        if self.faultmask.fm() {
            boostedpri = -1;
        }
        if boostedpri < highestpri {
            boostedpri
        } else {
            highestpri
        }
    }
}


/// The four bytes of `w`, least significant first.
fn word_to_bytes(w: u32) -> (r: Vec<u8>)
    ensures
        r@ == word_bytes(w),
{
    let mut v: Vec<u8> = Vec::new();
    v.push(get_byte(w, 0));
    v.push(get_byte(w, 1));
    v.push(get_byte(w, 2));
    v.push(get_byte(w, 3));
    assert(v@ =~= word_bytes(w));
    v
}

/// Stores the words `ws` one after another from address `a` into the
/// regions `m`, stopping at the first store that fails: the regions after
/// it, and whether every store succeeded.
pub open spec fn store_words(m: Map<(u64, u64), Seq<u8>>, a: u64, ws: Seq<u32>) -> (Map<(u64, u64), Seq<u8>>, bool)
    decreases ws.len(),
{
    if ws.len() == 0 {
        (m, true)
    } else {
        match mem_write(m, a, word_bytes(ws[0])) {
            Ok(m1) => store_words(m1, (a + 4) as u64, ws.drop_first()),
            Err(_) => (m, false),
        }
    }
}

/// The address of the instruction after the one at the PC, given the
/// length of the instruction that the lifter decoded there (none if it
/// decoded none): the bytes at the PC must be mapped.
pub open spec fn next_insn_address(v: BackendView, insn_len: Option<u32>) -> Result<u32, Error> {
    let pc = v.regs[PC as int];
    match mem_view(v.mem, (pc & 0xffff_fffeu32) as u64, None) {
        Err(_) => Err(Error::System("failed to read bytes at current pc")),
        Ok(_) => match insn_len {
            None => Err(Error::UnpredictableBehavior("pc at invalid instruction")),
            Some(n) => Ok(((pc as int + n as int) % 0x1_0000_0000) as u32),
        },
    }
}

/// Whether exception `typ` has a return address: every type but reset and
/// the reserved numbers.
pub open spec fn has_return_address(typ: ExceptionType) -> bool {
    !(typ is Reset || typ is Reserved)
}

/// The return address of exception `typ` (B1.5.6), halfword aligned: the
/// next instruction for NMI, SVCall, PendSV, SysTick and interrupts; the
/// current one for the faults and DebugMonitor, which are taken as
/// synchronous.
pub open spec fn return_address_of(v: BackendView, typ: ExceptionType, insn_len: Option<u32>) -> Result<u32, Error> {
    let r = match typ {
        ExceptionType::NMI | ExceptionType::SVCall | ExceptionType::PendSV | ExceptionType::SysTick
        | ExceptionType::ExternalInterrupt(_) => next_insn_address(v, insn_len),
        _ => Ok(v.regs[PC as int]),
    };
    match r {
        Ok(a) => Ok(a & 0xffff_fffeu32),
        Err(e) => Err(e),
    }
}

/// The CCR.STKALIGN bit of the core's control space.
pub open spec fn stkalign(v: BackendView) -> bool {
    bit(v.scs.words[CCR_WORD as int], 9)
}

/// The stack pointer of the frame that an exception entry pushes: the
/// process stack in thread mode with SPSEL set, else the main stack.
pub open spec fn entry_sp(v: BackendView) -> u32 {
    if spsel(v) && v.mode == Mode::Thread {
        proc_sp_of(v)
    } else {
        main_sp_of(v)
    }
}

/// The frame pointer of an exception entry: eight words below the stack
/// pointer, 8-byte aligned when STKALIGN is set.
pub open spec fn frame_ptr(v: BackendView) -> u32 {
    let fa: u32 = if stkalign(v) { 1 } else { 0 };
    ((entry_sp(v) - 0x20) as u32) & !(fa << 2u32)
}

/// Whether the stack pointer had to be realigned: bit 2 of the stack
/// pointer when STKALIGN is set.
pub open spec fn frame_realigned(v: BackendView) -> u32 {
    let fa: u32 = if stkalign(v) { 1 } else { 0 };
    (entry_sp(v) >> 2u32) & fa
}

/// The registers that an exception entry stacks: r0 to r3, r12 and lr.
pub open spec fn stacked_regs(v: BackendView) -> Seq<u32> {
    seq![v.regs[0], v.regs[1], v.regs[2], v.regs[3], v.regs[R12 as int], v.regs[LR as int]]
}

/// The xPSR value that exception entry stacks: bit 9 tells whether the
/// stack pointer was realigned.
pub open spec fn stacked_xpsr(v: BackendView) -> u32 {
    (v.xpsr & !(1u32 << 9u32)) | (frame_realigned(v) << 9u32)
}

/// The EXC_RETURN value that exception entry writes to lr (B1.5.6): to
/// handler mode (0xFFFFFFF1), or to thread mode on the main stack
/// (0xFFFFFFF9) or the process stack (0xFFFFFFFD) as SPSEL selects.
pub open spec fn entry_lr(v: BackendView) -> u32 {
    if v.mode is Handler {
        0xffff_fff1u32
    } else if spsel(v) {
        0xffff_fffdu32
    } else {
        0xffff_fff9u32
    }
}

/// What pushing the exception frame of `typ` gives (B1.5.6): the result
/// (the return address and the frame pointer) and the state after it. The
/// stack pointer moves to the frame; r0 to r3, r12 and lr, the return
/// address and xPSR (with bit 9 telling whether the stack was realigned)
/// are stored there; lr takes the EXC_RETURN value. A failed store ends the
/// push with the stores before it done.
pub open spec fn push_stack_of(v: BackendView, typ: ExceptionType, insn_len: Option<u32>) -> (Result<(u32, u32), Error>, BackendView) {
    let fp = frame_ptr(v);
    let v1 = BackendView { regs: v.regs.update(SP as int, fp), ..v };
    let (m1, ok) = store_words(v.mem, fp as u64, stacked_regs(v));
    let v2 = BackendView { mem: m1, ..v1 };
    if !ok {
        (Err(Error::System("failed to push register to stack")), v2)
    } else {
        push_tail_of(v2, fp, stacked_xpsr(v), entry_lr(v), typ, insn_len)
    }
}

/// The end of an exception frame push, once the registers are stacked at
/// `fp`: the return address and the xPSR value `xp` are stored, and lr
/// takes the EXC_RETURN value `lr`.
pub open spec fn push_tail_of(v: BackendView, fp: u32, xp: u32, lr: u32, typ: ExceptionType, insn_len: Option<u32>) -> (Result<(u32, u32), Error>, BackendView) {
    match return_address_of(v, typ, insn_len) {
        Err(e) => (Err(e), v),
        Ok(ra) => match mem_write(v.mem, (fp + 0x18) as u64, word_bytes(ra)) {
            Err(_) => (Err(Error::System("failed to push return address to stack")), v),
            Ok(m2) => match mem_write(m2, (fp + 0x1c) as u64, word_bytes(xp)) {
                Err(_) => (Err(Error::System("failed to push xpsr to stack")), BackendView { mem: m2, ..v }),
                Ok(m3) => (Ok((ra, fp)), BackendView { mem: m3, regs: v.regs.update(LR as int, lr), ..v }),
            },
        },
    }
}

/// Whether an exception entry of `typ` can push its frame: the stack in
/// use is defined, the exception has a return address, and the stack
/// pointer leaves room for the frame.
pub open spec fn push_stack_ok(v: BackendView, typ: ExceptionType) -> bool {
    &&& sp_defined(v)
    &&& has_return_address(typ)
    &&& entry_sp(v) >= 0x20
}

impl Backend {
    /// The address of the instruction at the PC.
    fn _this_insn_address(&self) -> (r: u32)
        requires
            self.wf(),
        ensures
            r == self@.regs[PC as int],
    {
        self.read_pc()
    }

    /// The address of the next instruction, given the length of the
    /// instruction that the lifter decoded at the PC (none if it decoded
    /// none).
    fn _next_insn_address(&self, insn_len: Option<u32>) -> (r: Result<u32, Error>)
        requires
            self.wf(),
        ensures
            r == next_insn_address(self@, insn_len),
    {
        let pc_address = self.read_pc();
        let address = (pc_address & 0xffff_fffe) as u64;
        match self.mmap.mem_view_bytes(address, None) {
            Ok(_) => {},
            Err(_) => {
                return Err(Error::System("failed to read bytes at current pc"));
            },
        }
        match insn_len {
            None => Err(Error::UnpredictableBehavior("pc at invalid instruction")),
            Some(n) => Ok(((pc_address as u64 + n as u64) % 0x1_0000_0000) as u32),
        }
    }

    /// Whether exception `typ` is synchronous, that is caused by the
    /// instruction that executes: hard faults, bus faults and debug
    /// monitor exceptions are taken as synchronous.
    fn _is_exception_synchronous(&self, typ: ExceptionType) -> (r: bool)
        ensures
            r,
    {
        true
    }

    /// The return address of exception `typ` (B1.5.6), halfword aligned.
    pub fn return_address(&self, excp_typ: ExceptionType, insn_len: Option<u32>) -> (r: Result<u32, Error>)
        requires
            self.wf(),
            has_return_address(excp_typ),
        ensures
            r == return_address_of(self@, excp_typ, insn_len),
    {
        let result = match excp_typ {
            ExceptionType::NMI | ExceptionType::SVCall | ExceptionType::PendSV | ExceptionType::SysTick
            | ExceptionType::ExternalInterrupt(_) => self._next_insn_address(insn_len),
            ExceptionType::MemFault | ExceptionType::UsageFault => Ok(self._this_insn_address()),
            _ => {
                if self._is_exception_synchronous(excp_typ) {
                    Ok(self._this_insn_address())
                } else {
                    self._next_insn_address(insn_len)
                }
            },
        };
        match result {
            Ok(a) => Ok(a & 0xffff_fffe),
            Err(e) => Err(e),
        }
    }

    /// Stores the words `ws` one after another from `base`, stopping at the
    /// first store that fails.
    fn store_words(&mut self, base: u32, ws: &Vec<u32>) -> (r: bool)
        requires
            old(self).wf(),
            ws@.len() <= 8,
        ensures
            final(self).wf(),
            (final(self)@.mem, r) == store_words(old(self)@.mem, base as u64, ws@),
            final(self)@ == (BackendView { mem: final(self)@.mem, ..old(self)@ }),
    {
        let ghost m0 = self@.mem;
        let mut i: usize = 0;
        assert(ws@.subrange(0, ws@.len() as int) =~= ws@);
        while i < ws.len()
            invariant
                self.wf(),
                self@ == (BackendView { mem: self@.mem, ..old(self)@ }),
                ws@.len() <= 8,
                m0 == old(self)@.mem,
                i <= ws@.len(),
                store_words(m0, base as u64, ws@) == store_words(self@.mem, (base + 4 * i) as u64, ws@.subrange(i as int, ws@.len() as int)),
            decreases ws@.len() - i,
        {
            let bytes = word_to_bytes(ws[i]);
            let address = base as u64 + 4 * (i as u64);
            let ghost before = self@.mem;
            proof {
                let rest = ws@.subrange(i as int, ws@.len() as int);
                assert(rest[0] == ws@[i as int]);
                assert(rest.drop_first() =~= ws@.subrange(i + 1, ws@.len() as int));
            }
            proof {
                let rest = ws@.subrange(i as int, ws@.len() as int);
                assert(address == (base + 4 * i) as u64);
                assert(store_words(before, address, rest) == match mem_write(before, address, word_bytes(rest[0])) {
                    Ok(m1) => store_words(m1, (address + 4) as u64, rest.drop_first()),
                    Err(_) => (before, false),
                });
            }
            match self.mmap.store_bytes(address, bytes.as_slice()) {
                Ok(()) => {},
                Err(_) => {
                    proof {
                        let rest = ws@.subrange(i as int, ws@.len() as int);
                        assert(bytes@ == word_bytes(rest[0]));
                        assert(mem_write(before, address, bytes@) is Err);
                        assert(self@.mem == before);
                        assert(store_words(before, address, rest) == (before, false));
                    }
                    return false;
                },
            }
            assert((address + 4) as u64 == (base + 4 * (i + 1)) as u64);
            i = i + 1;
        }
        true
    }
}


impl Backend {
    /// Pushes the exception frame of `excp_typ` (B1.5.6); returns the
    /// return address and the frame pointer. `insn_len` is the length of
    /// the instruction that the lifter decoded at the PC, if any.
    pub fn push_stack(&mut self, excp_typ: ExceptionType, insn_len: Option<u32>) -> (r: Result<(u32, u32), Error>)
        requires
            old(self).wf(),
            push_stack_ok(old(self)@, excp_typ),
        ensures
            final(self).wf(),
            (r, final(self)@) == push_stack_of(old(self)@, excp_typ, insn_len),
    {
        let ghost v = self@;
        let framesize = 0x20u32;
        let forcealign = self.scs.get_ccr().stkalign();
        let fa: u32 = if forcealign { 1 } else { 0 };
        let spmask = !(fa << 2u32);
        let sp0 = if self.control.spsel() && self.mode == Mode::Thread {
            self.get_proc_sp()
        } else {
            self.get_main_sp()
        };
        let frameptralign = (sp0 >> 2u32) & fa;
        let frameptr = (sp0 - framesize) & spmask;
        let mut ws: Vec<u32> = Vec::new();
        ws.push(self.regs[0]);
        ws.push(self.regs[1]);
        ws.push(self.regs[2]);
        ws.push(self.regs[3]);
        ws.push(self.regs[R12]);
        ws.push(self.regs[LR]);
        assert(ws@ =~= stacked_regs(v));
        // the stack pointer moves to the frame
        self.write_sp(frameptr);
        if !self.store_words(frameptr, &ws) {
            return Err(Error::System("failed to push register to stack"));
        }
        let xpsr = (self.xpsr.0 & !(1u32 << 9u32)) | (frameptralign << 9u32);
        let lr: u32 = match self.mode {
            Mode::Handler(_) => 0xffff_fff1,
            _ => {
                if self.control.spsel() {
                    0xffff_fffd
                } else {
                    0xffff_fff9
                }
            },
        };
        self.push_tail(frameptr, xpsr, lr, excp_typ, insn_len)
    }

    /// Stores the return address and the xPSR value `xpsr` in the frame at
    /// `frameptr`, and sets lr to `lr`.
    fn push_tail(&mut self, frameptr: u32, xpsr: u32, lr: u32, excp_typ: ExceptionType, insn_len: Option<u32>) -> (r: Result<(u32, u32), Error>)
        requires
            old(self).wf(),
            has_return_address(excp_typ),
        ensures
            final(self).wf(),
            (r, final(self)@) == push_tail_of(old(self)@, frameptr, xpsr, lr, excp_typ, insn_len),
    {
        let return_address = match self.return_address(excp_typ, insn_len) {
            Ok(a) => a,
            Err(e) => {
                return Err(e);
            },
        };
        let bytes = word_to_bytes(return_address);
        match self.mmap.store_bytes(frameptr as u64 + 0x18, bytes.as_slice()) {
            Ok(()) => {},
            Err(_) => {
                return Err(Error::System("failed to push return address to stack"));
            },
        }
        let bytes = word_to_bytes(xpsr);
        match self.mmap.store_bytes(frameptr as u64 + 0x1c, bytes.as_slice()) {
            Ok(()) => {},
            Err(_) => {
                return Err(Error::System("failed to push xpsr to stack"));
            },
        }
        self.regs.set(LR, lr);
        Ok((return_address, frameptr))
    }
}


/// The vector table base: VTOR.TBLOFF.
pub open spec fn vtor_of(v: BackendView) -> u32 {
    field(v.scs.words[VTOR_WORD as int], 7, 25) << 7u32
}

/// Whether the vector table, if it can be viewed, holds the entry of
/// exception `typ`.
pub open spec fn vector_entry_ok(v: BackendView, typ: ExceptionType) -> bool {
    mem_view(v.mem, vtor_of(v) as u64, None) matches Ok(vt) ==> exception_number(typ) * 4 + 4 <= vt.len()
}

/// The core registers after r0 to r3 and r12 were cleared.
pub open spec fn cleared_regs(r: Seq<u32>) -> Seq<u32> {
    r.update(0, 0).update(1, 0).update(2, 0).update(3, 0).update(R12 as int, 0)
}

/// What taking exception `typ` gives (B1.5.6): the target address and the
/// state after it. r0 to r3 and r12 are cleared; the target is the entry
/// of the exception in the vector table; the core goes to handler mode
/// with xPSR holding the exception number and the Thumb bit of the target;
/// CONTROL.FPCA is cleared and the main stack selected; the exception
/// becomes active and the event register is set.
pub open spec fn exception_taken_of(v: BackendView, typ: ExceptionType) -> (Result<u32, Error>, BackendView) {
    let regs1 = cleared_regs(v.regs);
    let v1 = BackendView { regs: regs1, ..v };
    match mem_view(v.mem, vtor_of(v) as u64, None) {
        Err(_) => (Err(Error::System("failed to view vector table")), v1),
        Ok(vt) => {
            let off = exception_number(typ) * 4;
            let target = le_word(vt.subrange(off as int, off + 4));
            let tbit = target & 1 == 1;
            let xp = with_it_bits(with_bit(with_field(0, 0, 9, exception_number(typ)), 24, tbit), 0);
            (
                Ok(target),
                set_spsel_view(
                    BackendView {
                        regs: regs1.update(PC as int, target),
                        mode: Mode::Handler(typ),
                        xpsr: xp,
                        control: with_bit(v.control, 2, false),
                        scs: set_active_view(v.scs, typ),
                        event: true,
                        ..v1
                    },
                    false,
                ),
            )
        },
    }
}

/// What an exception entry of `typ` gives (B1.5.6): the thread switch and
/// the state after it. The frame is pushed, then the exception is taken.
pub open spec fn exception_entry_of(v: BackendView, typ: ExceptionType, insn_len: Option<u32>) -> (Result<ThreadSwitch, Error>, BackendView) {
    let (r1, v1) = push_stack_of(v, typ, insn_len);
    match r1 {
        Err(e) => (Err(e), v1),
        Ok(p) => {
            let (r2, v2) = exception_taken_of(v1, typ);
            match r2 {
                Err(e) => (Err(e), v2),
                Ok(target) => (
                    Ok(
                        ThreadSwitch {
                            typ: exception_number(typ),
                            old_thread: thread_of(v.mode),
                            new_thread: thread_of(v2.mode),
                            old_frame_address: entry_sp(v),
                            new_frame_address: p.1,
                            switch_address: v.regs[PC as int],
                            target_address: target,
                            return_address: Some(p.0),
                            vtor: Some(vtor_of(v1)),
                        },
                    ),
                    v2,
                ),
            }
        },
    }
}

/// The little-endian word at `off` in `b`.
fn le_word_at(b: &Vec<u8>, off: usize) -> (r: u32)
    requires
        off + 4 <= b@.len(),
    ensures
        r == le_word(b@.subrange(off as int, off + 4)),
{
    assert(off + 4 <= b.len());
    (b[off] as u32) | ((b[off + 1] as u32) << 8) | ((b[off + 2] as u32) << 16) | ((b[off + 3] as u32) << 24)
}

impl Backend {
    /// Sets the program counter to `target`.
    fn _branch_to(&mut self, target: u32)
        requires
            old(self).wf(),
        ensures
            final(self).wf(),
            final(self)@ == (BackendView { regs: old(self)@.regs.update(PC as int, target), ..old(self)@ }),
    {
        self.write_pc(target);
    }

    /// Takes exception `typ` (B1.5.6); returns the target address.
    pub fn exception_taken(&mut self, typ: ExceptionType) -> (r: Result<u32, Error>)
        requires
            old(self).wf(),
            valid_exception(typ),
            vector_entry_ok(old(self)@, typ),
        ensures
            final(self).wf(),
            (r, final(self)@) == exception_taken_of(old(self)@, typ),
    {
        self.regs.set(0, 0);
        self.regs.set(1, 0);
        self.regs.set(2, 0);
        self.regs.set(3, 0);
        self.regs.set(R12, 0);
        let vtor = self.scs.get_vtor().tbloff() << 7u32;
        let vt = match self.mmap.mem_view_bytes(vtor as u64, None) {
            Ok(vt) => vt,
            Err(_) => {
                return Err(Error::System("failed to view vector table"));
            },
        };
        let offset = (typ.number() * 4) as usize;
        let target = le_word_at(&vt, offset);
        let tbit = (target & 1) == 1;
        self._branch_to(target);
        self.mode = Mode::Handler(typ);
        // the APSR flags are UNKNOWN after exception entry (B1.5.6): cleared
        self.xpsr = XPSR(0);
        let mut ipsr = self.xpsr.ipsr();
        ipsr.set_exception_number(typ.number());
        self.xpsr.set_ipsr(ipsr);
        let mut epsr = self.xpsr.epsr();
        epsr.set_t(tbit);
        let mut it = epsr.itstate();
        it.set(0);
        epsr.set_itstate(it);
        self.xpsr.set_epsr(epsr);
        self.control.set_fpca(false);
        self.scs.set_exception_active(typ);
        self.event = EVENT(true);
        self._set_spsel(false);
        Ok(target)
    }

    /// Enters exception `typ` (B1.5.6): pushes the frame and takes the
    /// exception. `insn_len` is the length of the instruction that the
    /// lifter decoded at the PC, if any.
    pub fn exception_entry(&mut self, excp_typ: ExceptionType, insn_len: Option<u32>) -> (r: Result<ThreadSwitch, Error>)
        requires
            old(self).wf(),
            old(self)@.mode != Mode::Debug,
            push_stack_ok(old(self)@, excp_typ),
            valid_exception(excp_typ),
            vector_entry_ok(push_stack_of(old(self)@, excp_typ, insn_len).1, excp_typ),
        ensures
            final(self).wf(),
            (r, final(self)@) == exception_entry_of(old(self)@, excp_typ, insn_len),
    {
        let old_thread = self.current_thread();
        let switch_address = self.read_pc();
        let old_frame_address = if self.control.spsel() && self.mode == Mode::Thread {
            self.get_proc_sp()
        } else {
            self.get_main_sp()
        };
        let (return_address, new_frame_address) = match self.push_stack(excp_typ, insn_len) {
            Ok(p) => p,
            Err(e) => {
                return Err(e);
            },
        };
        let vtor = self.scs.get_vtor().tbloff() << 7u32;
        let target_address = match self.exception_taken(excp_typ) {
            Ok(t) => t,
            Err(e) => {
                return Err(e);
            },
        };
        let new_thread = self.current_thread();
        Ok(
            ThreadSwitch {
                typ: excp_typ.number(),
                old_thread,
                new_thread,
                old_frame_address,
                new_frame_address,
                switch_address,
                target_address,
                return_address: Some(return_address),
                vtor: Some(vtor),
            },
        )
    }
}


/// The state after the main stack pointer was set to `a`.
pub open spec fn set_main_sp_view(v: BackendView, a: u32) -> BackendView {
    if !spsel(v) {
        BackendView { regs: v.regs.update(SP as int, a), ..v }
    } else {
        BackendView { main_sp: Some(a), ..v }
    }
}

/// The state after the process stack pointer was set to `a`.
pub open spec fn set_proc_sp_view(v: BackendView, a: u32) -> BackendView {
    if spsel(v) {
        BackendView { regs: v.regs.update(SP as int, a), ..v }
    } else {
        BackendView { proc_sp: Some(a), ..v }
    }
}

/// The register that pop number `j` of an exception frame restores: r0 to
/// r3, r12, lr.
pub open spec fn popped_reg(j: int) -> int {
    if j < 4 {
        j
    } else if j == 4 {
        R12 as int
    } else {
        LR as int
    }
}

/// Restores the registers from the frame at `fp`, from pop `j` on,
/// stopping at the first word that cannot be read: the registers after
/// it, and whether every word was read.
pub open spec fn pop_regs(regs: Seq<u32>, m: Map<(u64, u64), Seq<u8>>, fp: u32, j: nat) -> (Seq<u32>, bool)
    decreases 6 - j,
{
    if j >= 6 {
        (regs, true)
    } else {
        match mem_view(m, (fp + 4 * j) as u64, Some(4)) {
            Err(_) => (regs, false),
            Ok(b) => pop_regs(regs.update(popped_reg(j as int), le_word(b)), m, fp, j + 1),
        }
    }
}

/// What popping the exception frame at `fp` gives (B1.5.8): the new frame
/// address and the target address, and the state after it. r0 to r3, r12
/// and lr are restored; the stack of the return mode moves past the frame
/// (realigned when the stacked xPSR says so and STKALIGN is set); xPSR
/// takes the stacked value.
pub open spec fn pop_stack_of(v: BackendView, fp: u32, er: u32) -> (Result<(u32, u32), Error>, BackendView) {
    let (regs1, ok) = pop_regs(v.regs, v.mem, fp, 0);
    let v1 = BackendView { regs: regs1, ..v };
    if !ok {
        (Err(Error::System("failed to read from stack frame")), v1)
    } else {
        match mem_view(v.mem, (fp + 0x18) as u64, Some(8)) {
            Err(_) => (Err(Error::System("failed to read from stack frame")), v1),
            Ok(b) => {
                let target = le_word(b.subrange(0, 4));
                let psr = le_word(b.subrange(4, 8));
                let fa: u32 = if stkalign(v) { 1 } else { 0 };
                let spmask = (((psr >> 9u32) & 1) & fa) << 2u32;
                let mb = field(er, 0, 4);
                if mb == 1 || mb == 9 {
                    let a = ((main_sp_of(v1) + 0x20) as u32) | spmask;
                    (Ok((a, target)), BackendView { xpsr: psr, ..set_main_sp_view(v1, a) })
                } else {
                    let a = ((proc_sp_of(v1) + 0x20) as u32) | spmask;
                    (Ok((a, target)), BackendView { xpsr: psr, ..set_proc_sp_view(v1, a) })
                }
            },
        }
    }
}

/// Whether the frame at `fp` can be popped for the return value `er`: a
/// known return mode, and a stack pointer that can move past the frame.
pub open spec fn pop_stack_ok(v: BackendView, er: u32) -> bool {
    let mb = field(er, 0, 4);
    &&& sp_defined(v)
    &&& (mb == 1 || mb == 9 || mb == 13)
    &&& (mb == 1 || mb == 9) ==> (spsel(v) ==> v.main_sp is Some) && main_sp_of(v) + 0x20 <= u32::MAX
    &&& mb == 13 ==> proc_sp_of(v) + 0x20 <= u32::MAX
}

/// Whether register `r` is one that an exception frame holds: r0 to r3,
/// r12 or lr.
pub open spec fn is_stacked_reg(r: int) -> bool {
    0 <= r < 4 || r == R12 || r == LR
}

/// Storing words one after another: each reads back as stored, the bytes
/// outside them read as before, and the regions stay as they were.
#[verifier::spinoff_prover]
#[verifier::rlimit(40)]
proof fn lemma_store_words(m: Map<(u64, u64), Seq<u8>>, a: u64, ws: Seq<u32>)
    requires
        regions_wf(m),
        store_words(m, a, ws).1,
        a + 4 * ws.len() <= u64::MAX,
    ensures
        regions_wf(store_words(m, a, ws).0),
        forall|b: u64| #[trigger] region_at(store_words(m, a, ws).0, b) == region_at(m, b),
        forall|j: int| 0 <= j < ws.len() ==> #[trigger] mem_read(store_words(m, a, ws).0, (a + 4 * j) as u64, 4)
            == Ok::<Seq<u8>, BackendError>(word_bytes(ws[j])),
        forall|b: u64, n: nat| (b + n <= a || a + 4 * ws.len() <= b) ==> #[trigger] mem_read(store_words(m, a, ws).0, b, n)
            == mem_read(m, b, n),
    decreases ws.len(),
{
    if ws.len() > 0 {
        let src = word_bytes(ws[0]);
        let m1 = mem_write(m, a, src)->Ok_0;
        let a1 = (a + 4) as u64;
        let rest = ws.drop_first();
        lemma_write_keeps_regions(m, a, src);
        lemma_read_after_write(m, a, src);
        lemma_store_words(m1, a1, rest);
        let m2 = store_words(m, a, ws).0;
        assert(m2 == store_words(m1, a1, rest).0);
        assert forall|j: int| 0 <= j < ws.len() implies #[trigger] mem_read(m2, (a + 4 * j) as u64, 4)
            == Ok::<Seq<u8>, BackendError>(word_bytes(ws[j])) by {
            if j == 0 {
                assert(mem_read(m2, a, 4) == mem_read(m1, a, 4));
            } else {
                assert(rest[j - 1] == ws[j]);
                assert((a1 + 4 * (j - 1)) as u64 == (a + 4 * j) as u64);
            }
        }
        assert forall|b: u64, n: nat| (b + n <= a || a + 4 * ws.len() <= b) implies #[trigger] mem_read(m2, b, n)
            == mem_read(m, b, n) by {
            lemma_write_frame(m, a, src, b, n);
            assert(mem_read(m2, b, n) == mem_read(m1, b, n));
        }
    }
}

/// Popping the words of a frame whose words `j` to 5 read as `ws`: every
/// read succeeds, and the registers they restore take them, the others
/// keeping their values.
proof fn lemma_pop_regs(regs: Seq<u32>, m: Map<(u64, u64), Seq<u8>>, fp: u32, j: nat, ws: Seq<u32>)
    requires
        j <= 6,
        ws.len() == 6,
        regs.len() == NUM_REGS,
        forall|i: int| j <= i < 6 ==> #[trigger] mem_view(m, (fp + 4 * i) as u64, Some(4))
            == Ok::<Seq<u8>, BackendError>(word_bytes(ws[i])),
    ensures
        pop_regs(regs, m, fp, j).1,
        pop_regs(regs, m, fp, j).0.len() == NUM_REGS,
        forall|i: int| j <= i < 6 ==> #[trigger] pop_regs(regs, m, fp, j).0[popped_reg(i)] == ws[i],
        forall|r: int| 0 <= r < NUM_REGS && !(is_stacked_reg(r) && ((j <= r < 4) || (j <= 4 && r == R12) || (j <= 5 && r == LR))) ==> #[trigger] pop_regs(regs, m, fp, j).0[r] == regs[r],
    decreases 6 - j,
{
    if j < 6 {
        assert(mem_view(m, (fp + 4 * j) as u64, Some(4)) == Ok::<Seq<u8>, BackendError>(word_bytes(ws[j as int])));
        crate::exception::lemma_le_word_of_bytes(ws[j as int]);
        let regs1 = regs.update(popped_reg(j as int), ws[j as int]);
        lemma_pop_regs(regs1, m, fp, j + 1, ws);
    }
}

/// The bytes that a successful exception frame push leaves at the frame:
/// the stacked registers word by word, then the return address and the
/// stacked xPSR, read together when they lie in one region.
proof fn lemma_push_frame_bytes(v: BackendView, typ: ExceptionType, insn_len: Option<u32>)
    requires
        regions_wf(v.mem),
        push_stack_ok(v, typ),
        push_stack_of(v, typ, insn_len).0 is Ok,
        region_at(v.mem, (frame_ptr(v) + 0x18) as u64) == region_at(v.mem, (frame_ptr(v) + 0x1c) as u64),
    ensures
        ({
            let (pushed, v3) = push_stack_of(v, typ, insn_len);
            let fp = frame_ptr(v);
            &&& pushed->Ok_0.1 == fp
            &&& fp + 0x20 <= entry_sp(v)
            &&& forall|i: int| 0 <= i < 6 ==> #[trigger] mem_view(v3.mem, (fp + 4 * i) as u64, Some(4))
                == Ok::<Seq<u8>, BackendError>(word_bytes(stacked_regs(v)[i]))
            &&& mem_view(v3.mem, (fp + 0x18) as u64, Some(8))
                == Ok::<Seq<u8>, BackendError>(word_bytes(pushed->Ok_0.0) + word_bytes(stacked_xpsr(v)))
        }),
{
    let fp = frame_ptr(v);
    let sp = entry_sp(v);
    let fa: u32 = if stkalign(v) { 1 } else { 0 };
    assert(fp == ((sp - 0x20) as u32) & !(fa << 2u32));
    assert(fp <= sp - 0x20) by (bit_vector)
        requires
            fp == ((sp - 0x20) as u32) & !(fa << 2u32),
            sp >= 0x20,
    ;
    let v1 = BackendView { regs: v.regs.update(SP as int, fp), ..v };
    let ws = stacked_regs(v);
    let (m1, ok) = store_words(v.mem, fp as u64, ws);
    lemma_store_words(v.mem, fp as u64, ws);
    let v2 = BackendView { mem: m1, ..v1 };
    let xp = stacked_xpsr(v);
    let ra = return_address_of(v2, typ, insn_len)->Ok_0;
    let a18 = (fp + 0x18) as u64;
    let a1c = (fp + 0x1c) as u64;
    let rb = word_bytes(ra);
    let xb = word_bytes(xp);
    let m2 = mem_write(m1, a18, rb)->Ok_0;
    let m3 = mem_write(m2, a1c, xb)->Ok_0;
    assert(push_stack_of(v, typ, insn_len).1.mem == m3);
    assert(push_stack_of(v, typ, insn_len).0->Ok_0 == (ra, fp));
    lemma_write_keeps_regions(m1, a18, rb);
    lemma_write_keeps_regions(m2, a1c, xb);
    lemma_read_after_write(m1, a18, rb);
    lemma_read_after_write(m2, a1c, xb);
    assert forall|i: int| 0 <= i < 6 implies #[trigger] mem_view(m3, (fp + 4 * i) as u64, Some(4))
        == Ok::<Seq<u8>, BackendError>(word_bytes(ws[i])) by {
        let b = (fp + 4 * i) as u64;
        assert(b == (fp as u64 + 4 * i) as u64);
        assert(mem_read(m1, b, 4) == Ok::<Seq<u8>, BackendError>(word_bytes(ws[i])));
        lemma_write_frame(m1, a18, rb, b, 4);
        lemma_write_frame(m2, a1c, xb, b, 4);
        assert(region_at(m3, b) == region_at(v.mem, b));
    }
    lemma_write_frame(m2, a1c, xb, a18, 4);
    assert(region_at(m3, a18) == region_at(v.mem, a18));
    assert(region_at(m3, a1c) == region_at(v.mem, a1c));
    assert(mem_read(m3, a18, 8) is Ok);
    crate::mmap::lemma_read_split(m3, a18, 4, 4);
    assert((a18 + 4) as u64 == a1c);
}

/// Popping a frame whose six register words read as `ws` and whose last
/// two words read as `ra` and `xp`: it succeeds with target `ra`; the
/// registers of the frame take `ws`, xPSR takes `xp`, and only the stack
/// pointer of the return mode changes besides, moving past the frame.
proof fn lemma_pop_frame(w: BackendView, fp: u32, er: u32, ws: Seq<u32>, ra: u32, xp: u32)
    requires
        w.regs.len() == NUM_REGS,
        ws.len() == 6,
        forall|i: int| 0 <= i < 6 ==> #[trigger] mem_view(w.mem, (fp + 4 * i) as u64, Some(4))
            == Ok::<Seq<u8>, BackendError>(word_bytes(ws[i])),
        mem_view(w.mem, (fp + 0x18) as u64, Some(8)) == Ok::<Seq<u8>, BackendError>(word_bytes(ra) + word_bytes(xp)),
    ensures
        ({
            let (popped, w2) = pop_stack_of(w, fp, er);
            let mb = field(er, 0, 4);
            let fa: u32 = if stkalign(w) { 1 } else { 0 };
            let spmask = (((xp >> 9u32) & 1) & fa) << 2u32;
            &&& popped is Ok
            &&& popped->Ok_0.1 == ra
            &&& w2.xpsr == xp
            &&& w2.regs.len() == NUM_REGS
            &&& w2.mode == w.mode
            &&& w2.control == w.control
            &&& w2.scs == w.scs
            &&& forall|i: int| 0 <= i < 6 ==> #[trigger] w2.regs[popped_reg(i)] == ws[i]
            &&& forall|r: int| 0 <= r < NUM_REGS && !is_stacked_reg(r) && r != SP ==> #[trigger] w2.regs[r] == w.regs[r]
            &&& (mb == 1 || mb == 9) ==> main_sp_of(w2) == ((main_sp_of(w) + 0x20) as u32) | spmask
            &&& !(mb == 1 || mb == 9) ==> proc_sp_of(w2) == ((proc_sp_of(w) + 0x20) as u32) | spmask
            &&& (mb == 1 || mb == 9) ==> proc_sp_of(w2) == proc_sp_of(w) && w2.proc_sp == w.proc_sp
            &&& !(mb == 1 || mb == 9) ==> main_sp_of(w2) == main_sp_of(w) && w2.main_sp == w.main_sp
        }),
{
    lemma_pop_regs(w.regs, w.mem, fp, 0, ws);
    let (regs1, ok) = pop_regs(w.regs, w.mem, fp, 0);
    let v1 = BackendView { regs: regs1, ..w };
    assert(regs1[SP as int] == w.regs[SP as int]);
    assert(main_sp_of(v1) == main_sp_of(w));
    assert(proc_sp_of(v1) == proc_sp_of(w));
    let b = word_bytes(ra) + word_bytes(xp);
    assert(b.subrange(0, 4) =~= word_bytes(ra));
    assert(b.subrange(4, 8) =~= word_bytes(xp));
    crate::exception::lemma_le_word_of_bytes(ra);
    crate::exception::lemma_le_word_of_bytes(xp);
}

/// The stack pointer that an exception return computes from the frame
/// pointer of an entry is the one before the entry: the frame pointer
/// rounds the stack pointer down, and bit 9 of the stacked xPSR records
/// the rounding.
proof fn lemma_frame_sp_round_trip(sp: u32, fa: u32, x: u32)
    requires
        sp >= 0x20,
        fa == 0 || fa == 1,
    ensures
        ({
            let fp = ((sp - 0x20) as u32) & !(fa << 2u32);
            let xp = (x & !(1u32 << 9u32)) | (((sp >> 2u32) & fa) << 9u32);
            ((fp + 0x20) as u32) | ((((xp >> 9u32) & 1) & fa) << 2u32) == sp
        }),
{
    let fp = ((sp - 0x20) as u32) & !(fa << 2u32);
    let xp = (x & !(1u32 << 9u32)) | (((sp >> 2u32) & fa) << 9u32);
    assert(((fp + 0x20) as u32) | ((((xp >> 9u32) & 1) & fa) << 2u32) == sp) by (bit_vector)
        requires
            fp == ((sp - 0x20) as u32) & !(fa << 2u32),
            xp == (x & !(1u32 << 9u32)) | (((sp >> 2u32) & fa) << 9u32),
            sp >= 0x20,
            fa == 0 || fa == 1,
    ;
}

/// What an exception entry pushes, an exception return pops (B1.5.6,
/// B1.5.8). Whatever the handler did to the registers and the system
/// state in between, as long as the memory is as the push left it,
/// popping the frame at the pushed frame pointer succeeds, returns to the
/// stacked return address, restores r0 to r3, r12 and lr as they were
/// before the entry and xPSR as stacked (bit 9 telling whether the stack
/// was realigned), and leaves the other registers but the stack pointer
/// as the handler left them. When the stack of the return mode is at the
/// frame, under the same STKALIGN setting, it moves back to where it was
/// before the entry. The last two words of the frame must lie in one
/// region, as they are read together.
pub proof fn lemma_pop_restores_push(v: BackendView, typ: ExceptionType, insn_len: Option<u32>, w: BackendView, er: u32)
    requires
        regions_wf(v.mem),
        w.regs.len() == NUM_REGS,
        push_stack_ok(v, typ),
        push_stack_of(v, typ, insn_len).0 is Ok,
        region_at(v.mem, (frame_ptr(v) + 0x18) as u64) == region_at(v.mem, (frame_ptr(v) + 0x1c) as u64),
        w.mem == push_stack_of(v, typ, insn_len).1.mem,
    ensures
        ({
            let (pushed, _) = push_stack_of(v, typ, insn_len);
            let (ra, fp) = pushed->Ok_0;
            let (popped, w2) = pop_stack_of(w, fp, er);
            let mb = field(er, 0, 4);
            &&& fp == frame_ptr(v)
            &&& popped is Ok
            &&& popped->Ok_0.1 == ra
            &&& w2.xpsr == stacked_xpsr(v)
            &&& forall|i: int| 0 <= i < 6 ==> #[trigger] w2.regs[popped_reg(i)] == stacked_regs(v)[i]
            &&& forall|r: int| 0 <= r < NUM_REGS && !is_stacked_reg(r) && r != SP ==> #[trigger] w2.regs[r] == w.regs[r]
            &&& ((mb == 1 || mb == 9) && main_sp_of(w) == fp && stkalign(w) == stkalign(v)) ==> main_sp_of(w2) == entry_sp(v)
            &&& (!(mb == 1 || mb == 9) && proc_sp_of(w) == fp && stkalign(w) == stkalign(v)) ==> proc_sp_of(w2) == entry_sp(v)
        }),
{
    lemma_push_frame_bytes(v, typ, insn_len);
    let (pushed, v3) = push_stack_of(v, typ, insn_len);
    let (ra, fp) = pushed->Ok_0;
    lemma_pop_frame(w, fp, er, stacked_regs(v), ra, stacked_xpsr(v));
    let fa: u32 = if stkalign(v) { 1 } else { 0 };
    lemma_frame_sp_round_trip(entry_sp(v), fa, v.xpsr);
}

/// The state after the returning exception `typ` was deactivated: it
/// leaves the active exceptions, and FAULTMASK is cleared unless the
/// return is from NMI.
pub open spec fn deactivate_view(v: BackendView, typ: ExceptionType) -> BackendView {
    BackendView {
        scs: clr_active_view(v.scs, typ),
        faultmask: if field(v.xpsr, 0, 9) != 2 {
            with_bit(v.faultmask, 0, false)
        } else {
            v.faultmask
        },
        ..v
    }
}

/// The UsageFault status with INVPC set, from the CFSR of the words `w`.
pub open spec fn ufsr_invpc(w: Seq<u32>) -> u16 {
    with_bit(field(w[CFSR_WORD as int], 16, 16) as u16 as u32, 2, true) as u16
}

/// The message of a failed read of the stacked return address.
pub open spec fn stacked_return_unreadable() -> &'static str {
    "failed to read stack frame while triggeringusagefault during exception return"
}

/// What raising a UsageFault on an exception return gives: the thread
/// switch and the state after it. The return address stacked at entry is
/// read; the returning exception is deactivated; the UsageFault status
/// takes `ufsr`; lr takes the return value; the UsageFault is taken.
pub open spec fn return_usagefault_of(v: BackendView, returning: ExceptionType, er: u32, ufsr: u16) -> (Result<ThreadSwitch, Error>, BackendView) {
    let pushed = if field(er, 0, 4) == 0xd {
        proc_sp_of(v)
    } else {
        main_sp_of(v)
    };
    match mem_view(v.mem, (pushed + 0x18) as u64, Some(4)) {
        Err(_) => (Err(Error::System(stacked_return_unreadable())), v),
        Ok(b) => {
            let ra = le_word(b);
            let v1 = deactivate_view(v, returning);
            let w1 = v1.scs.words;
            let v2 = BackendView {
                scs: SysCtrlSpaceView {
                    words: w1.update(CFSR_WORD as int, with_field(w1[CFSR_WORD as int], 16, 16, ufsr as u32)),
                    ..v1.scs
                },
                regs: v1.regs.update(LR as int, er),
                ..v1
            };
            let (r3, v3) = exception_taken_of(v2, ExceptionType::UsageFault);
            match r3 {
                Err(e) => (Err(e), v3),
                Ok(t) => (
                    Ok(
                        ThreadSwitch {
                            typ: 6,
                            old_thread: thread_of(v.mode),
                            new_thread: thread_of(v3.mode),
                            old_frame_address: pushed,
                            new_frame_address: pushed,
                            switch_address: v.regs[PC as int],
                            target_address: t,
                            return_address: Some(ra),
                            vtor: Some(vtor_of(v2)),
                        },
                    ),
                    v3,
                ),
            }
        },
    }
}

/// Whether a UsageFault can be raised on an exception return: the stack
/// in use is defined, the main stack pointer is known when it is banked,
/// and the vector table holds the UsageFault entry.
pub open spec fn return_usagefault_ok(v: BackendView, er: u32) -> bool {
    &&& v.mode != Mode::Debug
    &&& sp_defined(v)
    &&& field(er, 0, 4) != 0xd ==> (spsel(v) ==> v.main_sp is Some)
    &&& vector_entry_ok(v, ExceptionType::UsageFault)
}

impl Backend {
    /// Deactivates the returning exception `typ`.
    fn _deactivate_exception(&mut self, typ: ExceptionType)
        requires
            old(self).wf(),
        ensures
            final(self).wf(),
            final(self)@ == deactivate_view(old(self)@, typ),
    {
        self.scs.clr_exception_active(typ);
        // PRIMASK and BASEPRI stay on exception exit
        if self.xpsr.ipsr().exception_number() != 2 {
            // FAULTMASK is cleared on any return but from NMI
            self.faultmask.set_fm(false);
        }
    }

    /// Raises a UsageFault on the exception return `exc_return` from
    /// `returning_excp`, with the UsageFault status `ufsr`.
    fn _return_usagefault(&mut self, returning_excp: ExceptionType, exc_return: EXC_RETURN, ufsr: UFSR) -> (r: Result<ThreadSwitch, Error>)
        requires
            old(self).wf(),
            return_usagefault_ok(old(self)@, exc_return.0),
        ensures
            final(self).wf(),
            (r, final(self)@) == return_usagefault_of(old(self)@, returning_excp, exc_return.0, ufsr.0),
    {
        let old_thread = self.current_thread();
        let switch_address = self.read_pc();
        let pushed_frame_address = if exc_return.modebits() == 0xd {
            self.get_proc_sp()
        } else {
            self.get_main_sp()
        };
        let b = match self.mmap.mem_view_bytes(pushed_frame_address as u64 + 0x18, Some(4)) {
            Ok(b) => b,
            Err(_) => {
                return Err(Error::System("failed to read stack frame while triggeringusagefault during exception return"));
            },
        };
        let pushed_return_address = le_word_at(&b, 0);
        assert(b@.subrange(0, 4) =~= b@);
        self._deactivate_exception(returning_excp);
        let mut cfsr = self.scs.get_cfsr();
        cfsr.set_usagefault(ufsr);
        self.scs.set_cfsr(cfsr);
        self.regs.set(LR, exc_return.into_bits());
        let vtor = self.scs.get_vtor().tbloff() << 7u32;
        let target_address = match self.exception_taken(ExceptionType::UsageFault) {
            Ok(t) => t,
            Err(e) => {
                return Err(e);
            },
        };
        let new_thread = self.current_thread();
        Ok(
            ThreadSwitch {
                typ: 6,
                old_thread,
                new_thread,
                old_frame_address: pushed_frame_address,
                new_frame_address: pushed_frame_address,
                switch_address,
                target_address,
                return_address: Some(pushed_return_address),
                vtor: Some(vtor),
            },
        )
    }
}


/// The register that pop number `j` restores.
fn popped_reg_exec(j: usize) -> (r: usize)
    requires
        j < 6,
    ensures
        r == popped_reg(j as int),
        r < NUM_REGS,
{
    if j < 4 {
        j
    } else if j == 4 {
        R12
    } else {
        LR
    }
}

impl Backend {
    /// Pops the exception frame at `frameptr` (B1.5.8); returns the new
    /// frame address and the target address.
    pub fn pop_stack(&mut self, frameptr: u32, exc_return: EXC_RETURN) -> (r: Result<(u32, u32), Error>)
        requires
            old(self).wf(),
            pop_stack_ok(old(self)@, exc_return.0),
        ensures
            final(self).wf(),
            (r, final(self)@) == pop_stack_of(old(self)@, frameptr, exc_return.0),
    {
        let ghost v = self@;
        let framesize = 0x20u32;
        let forcealign: u32 = if self.scs.get_ccr().stkalign() { 1 } else { 0 };
        let mut j: usize = 0;
        while j < 6
            invariant
                self.wf(),
                self@ == (BackendView { regs: self@.regs, ..v }),
                v == old(self)@,
                j <= 6,
                self@.regs[SP as int] == v.regs[SP as int],
                pop_regs(v.regs, v.mem, frameptr, 0) == pop_regs(self@.regs, v.mem, frameptr, j as nat),
            decreases 6 - j,
        {
            let b = match self.mmap.mem_view_bytes(frameptr as u64 + 4 * (j as u64), Some(4)) {
                Ok(b) => b,
                Err(_) => {
                    return Err(Error::System("failed to read from stack frame"));
                },
            };
            let w = le_word_at(&b, 0);
            assert(b@.subrange(0, 4) =~= b@);
            self.regs.set(popped_reg_exec(j), w);
            j = j + 1;
        }
        let b = match self.mmap.mem_view_bytes(frameptr as u64 + 0x18, Some(8)) {
            Ok(b) => b,
            Err(_) => {
                return Err(Error::System("failed to read from stack frame"));
            },
        };
        let target_address = le_word_at(&b, 0);
        let psr = le_word_at(&b, 4);
        assert(b@.subrange(4, 8) =~= b@.subrange(4, 8));
        let spmask = (((psr >> 9u32) & 1) & forcealign) << 2u32;
        let mb = exc_return.modebits();
        let frame_address = if mb == 1 || mb == 9 {
            // returning on the main stack
            let main_sp = self.get_main_sp();
            let a = (main_sp + framesize) | spmask;
            self.set_main_sp(a);
            a
        } else {
            // returning on the process stack
            let proc_sp = self.get_proc_sp();
            let a = (proc_sp + framesize) | spmask;
            self.set_proc_sp(a);
            a
        };
        self.xpsr = XPSR(psr);
        Ok((frame_address, target_address))
    }
}


/// Whether an exception return may go to thread mode: the returning
/// exception is the only active one, or CCR.NONBASETHRDENA is set.
pub open spec fn thread_return_ok(v: BackendView) -> bool {
    v.scs.active.len() == 1 || bit(v.scs.words[CCR_WORD as int], 0)
}

/// The exception that an exception return leaves: the one that IPSR
/// names.
pub open spec fn returning_exception(v: BackendView) -> ExceptionType {
    exception_type_of(field(v.xpsr, 0, 9))
}

/// The state after an exception return with the value `er` reached its
/// return mode: the process stack is selected for a return to thread mode
/// on the process stack.
pub open spec fn return_mode_view(v: BackendView, er: u32) -> BackendView {
    if field(er, 0, 4) == 13 {
        set_spsel_view(v, true)
    } else {
        v
    }
}

/// What an exception return with the value `er` gives (B1.5.8): the
/// thread switch and the state after it.
///
/// A value whose should-be-one bits are not all one is unpredictable. A
/// return from an exception that is not active, a return to thread mode
/// that is not allowed, or an unknown return mode raises a UsageFault
/// (INVPC). Otherwise the exception is deactivated and the frame popped
/// from the stack of the return mode (the process stack for 0b1101, else
/// the main stack); a stacked IPSR that does not agree with the return
/// mode pushes the frame again and raises a UsageFault; else the core goes
/// to the return mode at the stacked return address, the event register
/// is set, and a return to thread mode on the process stack selects that
/// stack.
pub open spec fn exception_return_of(v: BackendView, er: u32) -> (Result<ThreadSwitch, Error>, BackendView) {
    if field(er, 5, 23) != 0x7f_ffff {
        (Err(Error::UnpredictableBehavior("unexpected SBOP reserved field value")), v)
    } else {
        let returning = returning_exception(v);
        let mb = field(er, 0, 4);
        if !v.scs.active.contains(returning) || !(mb == 1 || ((mb == 9 || mb == 13) && thread_return_ok(v))) {
            return_usagefault_of(v, returning, er, ufsr_invpc(v.scs.words))
        } else {
            let v1 = BackendView { control: with_bit(v.control, 1, false), ..v };
            let fp = if mb == 13 {
                proc_sp_of(v1)
            } else {
                main_sp_of(v1)
            };
            let v2 = deactivate_view(v1, returning);
            let (r3, v3) = pop_stack_of(v2, fp, er);
            match r3 {
                Err(e) => (Err(e), v3),
                Ok(p) => {
                    let n = field(v3.xpsr, 0, 9);
                    if (mb == 1) == (n == 0) {
                        // the stacked IPSR does not agree with the return mode
                        let (r4, v4) = push_stack_of(v3, ExceptionType::UsageFault, None);
                        match r4 {
                            Err(e) => (Err(e), v4),
                            Ok(_) => return_usagefault_of(v4, returning, er, ufsr_invpc(v4.scs.words)),
                        }
                    } else {
                        let mode = if mb == 1 {
                            Mode::Handler(exception_type_of(n))
                        } else {
                            Mode::Thread
                        };
                        (
                            Ok(
                                ThreadSwitch {
                                    typ: 0,
                                    old_thread: thread_of(v2.mode),
                                    new_thread: thread_of(mode),
                                    old_frame_address: fp,
                                    new_frame_address: p.0,
                                    switch_address: v2.regs[PC as int],
                                    target_address: p.1,
                                    return_address: None,
                                    vtor: None,
                                },
                            ),
                            return_mode_view(
                                BackendView { mode, regs: v3.regs.update(PC as int, p.1), event: true, ..v3 },
                                er,
                            ),
                        )
                    }
                },
            }
        }
    }
}

/// Whether an exception return with the value `er` is one that the core
/// handles: from handler mode, with bits 31:28 of the value all ones; and,
/// when its reserved bits are all ones (else the return is unpredictable
/// and changes nothing), an IPSR that names an exception, a defined stack,
/// and room on the stacks and a UsageFault entry wherever a path needs
/// them.
pub open spec fn exception_return_ok(v: BackendView, er: u32) -> bool {
    let returning = returning_exception(v);
    let mb = field(er, 0, 4);
    &&& v.mode is Handler
    &&& field(er, 28, 4) == 0xf
    &&& field(er, 5, 23) == 0x7f_ffff ==> field(v.xpsr, 0, 9) != 0 && sp_defined(v)
    &&& field(er, 5, 23) == 0x7f_ffff ==> if !v.scs.active.contains(returning) || !(mb == 1 || ((mb == 9
        || mb == 13) && thread_return_ok(v))) {
        return_usagefault_ok(v, er)
    } else {
        let v1 = BackendView { control: with_bit(v.control, 1, false), ..v };
        let v2 = deactivate_view(v1, returning);
        let fp = if mb == 13 {
            proc_sp_of(v1)
        } else {
            main_sp_of(v1)
        };
        let (r3, v3) = pop_stack_of(v2, fp, er);
        &&& pop_stack_ok(v2, er)
        &&& r3 is Ok ==> {
            let n = field(v3.xpsr, 0, 9);
            (mb == 1) == (n == 0) ==> push_stack_ok(v3, ExceptionType::UsageFault) && (push_stack_of(
                v3,
                ExceptionType::UsageFault,
                None,
            ).0 is Ok ==> return_usagefault_ok(push_stack_of(v3, ExceptionType::UsageFault, None).1, er))
        }
    }
}

/// A successful exception frame push changes only the memory, the stack
/// pointer (to the frame) and lr (to the EXC_RETURN value).
proof fn lemma_push_state(v: BackendView, typ: ExceptionType, insn_len: Option<u32>)
    requires
        push_stack_of(v, typ, insn_len).0 is Ok,
    ensures
        push_stack_of(v, typ, insn_len).1 == (BackendView {
            mem: push_stack_of(v, typ, insn_len).1.mem,
            regs: v.regs.update(SP as int, frame_ptr(v)).update(LR as int, entry_lr(v)),
            ..v
        }),
{
}

/// The exception number field of the xPSR that taking exception number
/// `n` writes is `n`.
proof fn lemma_taken_xpsr(n: u32, tbit: bool)
    requires
        n < 512,
    ensures
        field(with_it_bits(with_bit(with_field(0, 0, 9, n), 24, tbit), 0), 0, 9) == n,
{
    crate::bits::lemma_low_mask_values();
    let y = with_field(0, 0, 9, n);
    assert(y == (0u32 & !(0x1ffu32 << 0u32)) | ((n & 0x1ffu32) << 0u32));
    let x = with_bit(y, 24, tbit);
    let z = with_it_bits(x, 0);
    assert(z == (x & !0x0600fc00u32) | ((((0u8 as u32) & 0x03u32) << 25u32) | (((0u8 as u32) & 0xfcu32) << 8u32)));
    if tbit {
        assert(x == y | (1u32 << 24u32));
        assert(((z >> 0u32) & 0x1ffu32) == n) by (bit_vector)
            requires
                n < 512,
                y == (0u32 & !(0x1ffu32 << 0u32)) | ((n & 0x1ffu32) << 0u32),
                x == y | (1u32 << 24u32),
                z == (x & !0x0600fc00u32) | ((((0u8 as u32) & 0x03u32) << 25u32) | (((0u8 as u32) & 0xfcu32) << 8u32)),
        ;
    } else {
        assert(x == y & !(1u32 << 24u32));
        assert(((z >> 0u32) & 0x1ffu32) == n) by (bit_vector)
            requires
                n < 512,
                y == (0u32 & !(0x1ffu32 << 0u32)) | ((n & 0x1ffu32) << 0u32),
                x == y & !(1u32 << 24u32),
                z == (x & !0x0600fc00u32) | ((((0u8 as u32) & 0x03u32) << 25u32) | (((0u8 as u32) & 0xfcu32) << 8u32)),
        ;
    }
}

/// Setting bit 9 of a word leaves its low nine bits.
proof fn lemma_stacked_xpsr_number(v: BackendView)
    ensures
        field(stacked_xpsr(v), 0, 9) == field(v.xpsr, 0, 9),
{
    crate::bits::lemma_low_mask_values();
    let x = v.xpsr;
    let r = frame_realigned(v);
    assert((((x & !(1u32 << 9u32)) | (r << 9u32)) >> 0u32) & 0x1ffu32 == (x >> 0u32) & 0x1ffu32) by (bit_vector);
}

/// What a successful exception entry leaves: the frame in memory; handler
/// mode with the exception number in xPSR and the main stack selected; the
/// stack that was in use at the frame and the other one untouched; lr
/// holding the EXC_RETURN value of the entry; r4 to r11 untouched; and the
/// exception active in front of those that were.
proof fn lemma_entry_state(v: BackendView, typ: ExceptionType, insn_len: Option<u32>)
    requires
        backend_wf(v),
        v.mode != Mode::Debug,
        sp_defined(v),
        spsel(v) ==> v.main_sp is Some,
        valid_exception(typ),
        enabled_in(v.scs.enabled, typ),
        exception_entry_of(v, typ, insn_len).0 is Ok,
    ensures
        ({
            let (entered, v2) = exception_entry_of(v, typ, insn_len);
            let (pushed, v1) = push_stack_of(v, typ, insn_len);
            &&& pushed is Ok
            &&& entered->Ok_0.return_address == Some(pushed->Ok_0.0)
            &&& v2.mem == v1.mem
            &&& v2.mode == Mode::Handler(typ)
            &&& returning_exception(v2) == typ
            &&& !spsel(v2)
            &&& v2.main_sp == v.main_sp
            &&& main_sp_of(v2) == if spsel(v) {
                main_sp_of(v)
            } else {
                frame_ptr(v)
            }
            &&& proc_sp_of(v2) == if spsel(v) {
                frame_ptr(v)
            } else {
                proc_sp_of(v)
            }
            &&& v2.scs.active == seq![typ] + v.scs.active
            &&& stkalign(v2) == stkalign(v)
            &&& v2.scs.words.len() == crate::scs::SCS_WORDS
            &&& v2.regs.len() == NUM_REGS
            &&& v2.regs[LR as int] == entry_lr(v)
            &&& forall|r: int| 4 <= r < 12 ==> #[trigger] v2.regs[r] == v.regs[r]
        }),
{
    lemma_push_state(v, typ, insn_len);
    let (pushed, v1) = push_stack_of(v, typ, insn_len);
    let (taken, v2) = exception_taken_of(v1, typ);
    let n = exception_number(typ);
    let vt = mem_view(v1.mem, vtor_of(v1) as u64, None)->Ok_0;
    let target = le_word(vt.subrange((n * 4) as int, n * 4 + 4));
    lemma_taken_xpsr(n, target & 1 == 1);
    crate::exception::lemma_type_of_number(typ);
    crate::bits::lemma_bit_frame(v1.control, 2, false, 1);
    crate::bits::lemma_bit_read_after_write(with_bit(v1.control, 2, false), 1, false);
    assert(v2.scs.active =~= seq![typ] + v.scs.active);
    assert(v2.scs.words[CCR_WORD as int] == v.scs.words[CCR_WORD as int]);
}

/// A successful exception entry leaves in lr the EXC_RETURN value that
/// names the mode it was taken from (B1.5.6): 0xFFFFFFF1 (handler mode,
/// main stack) from handler mode, 0xFFFFFFFD from thread mode on the
/// process stack, 0xFFFFFFF9 from thread mode on the main stack.
pub proof fn lemma_entry_lr(v: BackendView, typ: ExceptionType, insn_len: Option<u32>)
    requires
        v.regs.len() == NUM_REGS,
        exception_entry_of(v, typ, insn_len).0 is Ok,
    ensures
        ({
            let v2 = exception_entry_of(v, typ, insn_len).1;
            let lr = v2.regs[LR as int];
            &&& v.mode is Handler ==> lr == 0xffff_fff1u32
            &&& v.mode == Mode::Thread && spsel(v) ==> lr == 0xffff_fffdu32
            &&& v.mode == Mode::Thread && !spsel(v) ==> lr == 0xffff_fff9u32
        }),
{
    lemma_push_state(v, typ, insn_len);
}

/// An exception return undoes an exception entry (B1.5.6, B1.5.8). Take
/// an exception from thread mode (on the main or the process stack, with
/// no exception active) or from the handler mode that xPSR names, and
/// return at once through the EXC_RETURN value that the entry left in lr:
/// 0xFFFFFFF1 from handler mode, 0xFFFFFFFD from thread mode on the
/// process stack, 0xFFFFFFF9 from thread mode on the main stack. The
/// return succeeds and goes back to the stacked return address in the mode
/// the entry was taken from, on the stack that was in use; r0 to r3, r12
/// and lr are restored, r4 to r11 keep their values, both stack pointers
/// are back where they were, xPSR holds the stacked value (bit 9 telling
/// whether the stack was realigned), and the active exceptions are those
/// before the entry. The last two words of the frame must lie in one
/// region, as they are read together.
pub proof fn lemma_return_undoes_entry(v: BackendView, typ: ExceptionType, insn_len: Option<u32>)
    requires
        backend_wf(v),
        v.mode != Mode::Debug,
        v.mode is Handler ==> field(v.xpsr, 0, 9) != 0 && v.mode == Mode::Handler(returning_exception(v)),
        v.mode == Mode::Thread ==> field(v.xpsr, 0, 9) == 0 && v.scs.active.len() == 0,
        spsel(v) ==> v.main_sp is Some,
        valid_exception(typ),
        enabled_in(v.scs.enabled, typ),
        push_stack_ok(v, typ),
        exception_entry_of(v, typ, insn_len).0 is Ok,
        region_at(v.mem, (frame_ptr(v) + 0x18) as u64) == region_at(v.mem, (frame_ptr(v) + 0x1c) as u64),
    ensures
        ({
            let (entered, v2) = exception_entry_of(v, typ, insn_len);
            let (returned, v3) = exception_return_of(v2, v2.regs[LR as int]);
            &&& v2.regs[LR as int] == if v.mode is Handler {
                0xffff_fff1u32
            } else if spsel(v) {
                0xffff_fffdu32
            } else {
                0xffff_fff9u32
            }
            &&& returned is Ok
            &&& returned->Ok_0.target_address == entered->Ok_0.return_address->Some_0
            &&& returned->Ok_0.new_thread == entered->Ok_0.old_thread
            &&& v3.mode == v.mode
            &&& v3.regs[PC as int] == entered->Ok_0.return_address->Some_0
            &&& forall|i: int| 0 <= i < 6 ==> #[trigger] v3.regs[popped_reg(i)] == stacked_regs(v)[i]
            &&& forall|r: int| 4 <= r < 12 ==> #[trigger] v3.regs[r] == v.regs[r]
            &&& v3.regs[SP as int] == v.regs[SP as int]
            &&& spsel(v3) == spsel(v)
            &&& main_sp_of(v3) == main_sp_of(v)
            &&& proc_sp_of(v3) == proc_sp_of(v)
            &&& v3.xpsr == stacked_xpsr(v)
            &&& v3.scs.active == v.scs.active
        }),
{
    let er = entry_lr(v);
    assert(((0xffff_fff9u32 >> 5u32) & 0x7f_ffffu32) == 0x7f_ffffu32 && ((0xffff_fff9u32 >> 0u32) & 0xfu32)
        == 9u32) by (bit_vector);
    assert(((0xffff_fffdu32 >> 5u32) & 0x7f_ffffu32) == 0x7f_ffffu32 && ((0xffff_fffdu32 >> 0u32) & 0xfu32)
        == 13u32) by (bit_vector);
    assert(((0xffff_fff1u32 >> 5u32) & 0x7f_ffffu32) == 0x7f_ffffu32 && ((0xffff_fff1u32 >> 0u32) & 0xfu32)
        == 1u32) by (bit_vector);
    crate::bits::lemma_low_mask_values();
    let mb = field(er, 0, 4);
    assert(field(er, 5, 23) == 0x7f_ffff);
    assert(v.mode is Handler ==> mb == 1);
    assert(v.mode == Mode::Thread && spsel(v) ==> mb == 13);
    assert(v.mode == Mode::Thread && !spsel(v) ==> mb == 9);
    lemma_entry_state(v, typ, insn_len);
    lemma_push_frame_bytes(v, typ, insn_len);
    let (entered, v2) = exception_entry_of(v, typ, insn_len);
    let (pushed, v1) = push_stack_of(v, typ, insn_len);
    let (ra, fp) = pushed->Ok_0;
    assert(v.mode == Mode::Thread ==> thread_return_ok(v2));
    assert(v2.scs.active[0] == typ);
    assert(v2.scs.active.contains(typ));
    let w1 = BackendView { control: with_bit(v2.control, 1, false), ..v2 };
    crate::bits::lemma_bit_read_after_write(v2.control, 1, false);
    assert(main_sp_of(w1) == main_sp_of(v2));
    assert(proc_sp_of(w1) == proc_sp_of(v2));
    let wfp = if mb == 13 {
        proc_sp_of(w1)
    } else {
        main_sp_of(w1)
    };
    assert(wfp == fp);
    let w2 = deactivate_view(w1, typ);
    crate::nvic::lemma_first_index_bounds(v2.scs.active, typ);
    assert(crate::nvic::first_index(v2.scs.active, typ) == 0);
    assert(w2.scs.active =~= v.scs.active);
    assert(w2.scs.words[CCR_WORD as int] == v2.scs.words[CCR_WORD as int]);
    assert(stkalign(w2) == stkalign(v));
    lemma_pop_frame(w2, fp, er, stacked_regs(v), ra, stacked_xpsr(v));
    let fa: u32 = if stkalign(v) { 1 } else { 0 };
    lemma_frame_sp_round_trip(entry_sp(v), fa, v.xpsr);
    lemma_stacked_xpsr_number(v);
    let (popped, w3) = pop_stack_of(w2, fp, er);
    assert(field(w3.xpsr, 0, 9) == field(v.xpsr, 0, 9));
    assert(!spsel(w3));
    let mode = if mb == 1 {
        Mode::Handler(exception_type_of(field(w3.xpsr, 0, 9)))
    } else {
        Mode::Thread
    };
    assert(mode == v.mode);
    let (returned, v3) = exception_return_of(v2, er);
    assert(returned == Ok::<ThreadSwitch, Error>(ThreadSwitch {
        typ: 0,
        old_thread: thread_of(w2.mode),
        new_thread: thread_of(mode),
        old_frame_address: fp,
        new_frame_address: popped->Ok_0.0,
        switch_address: w2.regs[PC as int],
        target_address: ra,
        return_address: None,
        vtor: None,
    }));
    let v4 = BackendView { mode, regs: w3.regs.update(PC as int, ra), event: true, ..w3 };
    assert(v3 == return_mode_view(v4, er));
    if v.mode == Mode::Thread && spsel(v) {
        crate::bits::lemma_bit_read_after_write(v4.control, 1, true);
        assert(proc_sp_of(w3) == proc_sp_of(v));
        assert(v3.main_sp == Some(main_sp_of(v)));
    } else {
        assert(main_sp_of(w3) == main_sp_of(v));
    }
}

/// An exception return that goes back (its thread switch names no
/// exception taken on the way) ends in the mode that the popped xPSR
/// names: for the mode bits 0b0001, handler mode of the nonzero exception
/// number in its IPSR field; for any other mode bits, thread mode with a
/// zero IPSR field. A return that raises a UsageFault instead ends in the
/// UsageFault handler.
pub proof fn lemma_return_mode_from_stacked_ipsr(v: BackendView, er: u32)
    ensures
        ({
            let (returned, v3) = exception_return_of(v, er);
            let n = field(v3.xpsr, 0, 9);
            returned matches Ok(sw) ==> {
                &&& sw.typ == 0 ==> {
                    &&& field(er, 0, 4) == 1 ==> n != 0 && v3.mode == Mode::Handler(exception_type_of(n))
                    &&& field(er, 0, 4) != 1 ==> n == 0 && v3.mode == Mode::Thread
                    &&& sw.new_thread == thread_of(v3.mode)
                }
                &&& sw.typ != 0 ==> sw.typ == 6 && v3.mode == Mode::Handler(ExceptionType::UsageFault)
            }
        }),
{
}

impl Backend {
    /// Returns from the current exception with the return value
    /// `exc_return` (B1.5.8).
    pub fn exception_return(&mut self, exc_return: EXC_RETURN) -> (r: Result<ThreadSwitch, Error>)
        requires
            old(self).wf(),
            exception_return_ok(old(self)@, exc_return.0),
        ensures
            final(self).wf(),
            (r, final(self)@) == exception_return_of(old(self)@, exc_return.0),
    {
        if exc_return.sbop() != 0x7f_ffff {
            return Err(Error::UnpredictableBehavior("unexpected SBOP reserved field value"));
        }
        let returning_excp = ExceptionType::from(self.xpsr.ipsr().exception_number());
        // used for the check of a return to thread mode
        let nested_activation = self.scs.active_exceptions().len();
        if !contains_type_slice(self.scs.active_exceptions(), returning_excp) {
            // a return from an inactive handler is a UsageFault
            let ufsr = self.scs.get_cfsr().usagefault().with_invpc(true);
            return self._return_usagefault(returning_excp, exc_return, ufsr);
        }
        let mb = exc_return.modebits();
        let thread_ok = nested_activation == 1 || self.scs.get_ccr().nonbasethrdena();
        if !(mb == 1 || ((mb == 9 || mb == 13) && thread_ok)) {
            // a return to thread mode that is not allowed, or an illegal
            // return value
            let ufsr = self.scs.get_cfsr().usagefault().with_invpc(true);
            return self._return_usagefault(returning_excp, exc_return, ufsr);
        }
        // the frame lies on the stack of the return mode
        self.control.set_spsel(false);
        let frameptr = if mb == 13 {
            self.get_proc_sp()
        } else {
            self.get_main_sp()
        };
        self._deactivate_exception(returning_excp);
        let old_thread = self.current_thread();
        let switch_address = self.read_pc();
        let old_frame_address = frameptr;
        let (new_frame_address, target_address) = match self.pop_stack(frameptr, exc_return) {
            Ok(p) => p,
            Err(e) => {
                return Err(e);
            },
        };
        let excp_num = self.xpsr.ipsr().exception_number();
        if (mb == 1) == (excp_num == 0) {
            // the stacked IPSR does not agree with the return mode: push the
            // frame again and raise a UsageFault
            let ufsr = self.scs.get_cfsr().usagefault().with_invpc(true);
            match self.push_stack(ExceptionType::UsageFault, None) {
                Ok(_) => {},
                Err(e) => {
                    return Err(e);
                },
            }
            return self._return_usagefault(returning_excp, exc_return, ufsr);
        }
        self.mode = if mb == 1 {
            Mode::Handler(ExceptionType::from(excp_num))
        } else {
            Mode::Thread
        };
        self._branch_to(target_address);
        let new_thread = self.current_thread();
        self.event = EVENT(true);
        if mb == 13 {
            // return to thread mode on the process stack
            self._set_spsel(true);
        }
        Ok(
            ThreadSwitch {
                typ: 0,
                old_thread,
                new_thread,
                old_frame_address,
                new_frame_address,
                switch_address,
                target_address,
                return_address: None,
                vtor: None,
            },
        )
    }
}

/// Whether `s` holds `typ`.
fn contains_type_slice(s: &[ExceptionType], typ: ExceptionType) -> (r: bool)
    ensures
        r == s@.contains(typ),
{
    let mut i: usize = 0;
    while i < s.len()
        invariant
            i <= s@.len(),
            forall|j: int| 0 <= j < i ==> #[trigger] s@[j] != typ,
        decreases s@.len() - i,
    {
        if s[i] == typ {
            return true;
        }
        i = i + 1;
    }
    false
}


/// Whether the processor is halted in debug state (DHCSR.S_HALT).
pub open spec fn debug_halted(v: BackendView) -> bool {
    bit(v.scs.words[DHCSR_WORD as int], 17)
}

/// Whether priority `a` is below priority `b` as a pair: by group, then
/// subgroup.
pub open spec fn priority_lt(a: (i16, i16), b: (i16, i16)) -> bool {
    a.0 < b.0 || (a.0 == b.0 && a.1 < b.1)
}

/// Whether the event wakes the core from a WFE (B1.5.18): a SEV; an
/// exception becoming pending while SCR.SEVONPEND is set; an exception
/// becoming active or pending whose group priority is above the current
/// execution priority; a debug event while halted in debug state.
pub open spec fn is_wfe_wakeup(v: BackendView, evt: Event) -> bool {
    match evt {
        Event::SEVInstructionExecuted => true,
        Event::ExceptionSetPending(_, true) if bit(v.scs.words[SCR_WORD as int], 4) => true,
        Event::ExceptionSetActive(t, true) | Event::ExceptionSetPending(t, true) => exception_priority(
            v.scs.words,
            exception_number(t),
        ).0 < current_priority_of(v),
        Event::Debug(_) => debug_halted(v),
        _ => false,
    }
}

/// With SCR.SEVONPEND (bit 4) set, every exception that becomes pending
/// wakes the core from a WFE, whatever its priority; with it clear, only
/// one whose group priority is above the current execution priority does.
/// An exception that leaves the pending state never wakes it.
pub proof fn lemma_wfe_wakeup_on_pending(v: BackendView, t: ExceptionType)
    ensures
        bit(v.scs.words[SCR_WORD as int], 4) ==> is_wfe_wakeup(v, Event::ExceptionSetPending(t, true)),
        !bit(v.scs.words[SCR_WORD as int], 4) ==> (is_wfe_wakeup(v, Event::ExceptionSetPending(t, true))
            <==> exception_priority(v.scs.words, exception_number(t)).0 < current_priority_of(v)),
        !is_wfe_wakeup(v, Event::ExceptionSetPending(t, false)),
{
}

/// Whether a WFE wakeup test of the event can be made: the priority of an
/// exception that becomes active or pending can be read.
pub open spec fn wakeup_evt_ok(evt: Event) -> bool {
    match evt {
        Event::ExceptionSetActive(t, true) | Event::ExceptionSetPending(t, true) => priority_defined(
            exception_number(t),
        ),
        _ => true,
    }
}

/// Whether the event wakes the core from a WFI (B1.5.19): a reset
/// request; an exception becoming active or pending with a priority above
/// that of the active exception that ICSR.VECTACTIVE names (PRIMASK
/// ignored); a debug event while halted in debug state.
pub open spec fn is_wfi_wakeup(v: BackendView, evt: Event) -> bool {
    match evt {
        Event::ExternSysResetRequest | Event::LocalSysResetRequest => true,
        Event::ExceptionSetActive(t, true) | Event::ExceptionSetPending(t, true) => priority_lt(
            exception_priority(v.scs.words, exception_number(t)),
            exception_priority(v.scs.words, field(v.scs.words[ICSR_WORD as int], 0, 9)),
        ),
        Event::Debug(_) => debug_halted(v),
        _ => false,
    }
}

/// Whether a WFI wakeup test of the event can be made: the priorities of
/// the exception and of the active one that ICSR.VECTACTIVE names can be
/// read.
pub open spec fn wfi_wakeup_evt_ok(v: BackendView, evt: Event) -> bool {
    match evt {
        Event::ExceptionSetActive(t, true) | Event::ExceptionSetPending(t, true) => priority_defined(
            exception_number(t),
        ) && priority_defined(field(v.scs.words[ICSR_WORD as int], 0, 9)),
        _ => true,
    }
}

impl Backend {
    /// Whether the event wakes the core from a WFE (B1.5.18).
    pub fn is_wfe_wakeup_evt(&self, evt: &Event) -> (r: bool)
        requires
            self.wf(),
            wakeup_evt_ok(*evt),
        ensures
            r == is_wfe_wakeup(self@, *evt),
    {
        match evt {
            Event::SEVInstructionExecuted => true,
            Event::ExceptionSetPending(_, true) if self.scs.get_scr().sevonpend() => true,
            Event::ExceptionSetActive(typ, true) | Event::ExceptionSetPending(typ, true) => {
                let priority = self.scs.get_exception_priority(*typ);
                priority.0 < self.current_priority()
            },
            Event::Debug(_) => self.scs.debug_regs().get_dhcsr().s_halt(),
            _ => false,
        }
    }

    /// Whether the event wakes the core from a WFI (B1.5.19).
    pub fn is_wfi_wakeup_evt(&self, evt: &Event) -> (r: bool)
        requires
            self.wf(),
            wfi_wakeup_evt_ok(self@, *evt),
        ensures
            r == is_wfi_wakeup(self@, *evt),
    {
        match evt {
            Event::ExternSysResetRequest | Event::LocalSysResetRequest => true,
            Event::ExceptionSetActive(typ, true) | Event::ExceptionSetPending(typ, true) => {
                let priority = self.scs.get_exception_priority(*typ);
                let vecactive = self.scs.get_icsr().vectactive();
                let current_typ = ExceptionType::from(vecactive);
                proof {
                    crate::exception::lemma_number_of_type_of(vecactive);
                }
                let unmasked_current_priority = self.scs.get_exception_priority(current_typ);
                priority.0 < unmasked_current_priority.0 || (priority.0 == unmasked_current_priority.0
                    && priority.1 < unmasked_current_priority.1)
            },
            Event::Debug(_) => self.scs.debug_regs().get_dhcsr().s_halt(),
            _ => false,
        }
    }
}


/// The words after the bit of interrupt `int_num` (bit `int_num % 32` of
/// the words `set_base + n` and `clr_base + n`, with `n = int_num / 32`)
/// was set, or cleared.
pub open spec fn line_bits(w: Seq<u32>, int_num: u32, set_base: int, clr_base: int, value: bool) -> Seq<u32> {
    let n = (int_num / 32) as int;
    let i = (int_num % 32) as u32;
    let b = 1u32 << i;
    if value {
        w.update(set_base + n, w[set_base + n] | b).update(clr_base + n, w[clr_base + n] | b)
    } else {
        w.update(set_base + n, w[set_base + n] & !b).update(clr_base + n, w[clr_base + n] & !b)
    }
}

/// The control space after the NVIC words were changed to `w`.
pub open spec fn with_words(s: SysCtrlSpaceView, w: Seq<u32>) -> SysCtrlSpaceView {
    SysCtrlSpaceView { words: w, ..s }
}

/// What handling the event gives: the state after it. A status event sets
/// the status; exception events change the exception state; a
/// peripheral's interrupt line events set or clear the line's enable or
/// pending bits and enable, disable or pend its interrupt; the others
/// change nothing.
pub open spec fn handle_event_of(v: BackendView, evt: Event) -> BackendView {
    match evt {
        Event::SetProcessorStatus(st) => BackendView { status: st, ..v },
        Event::ExceptionSetActive(t, b) => BackendView {
            scs: if b {
                set_active_view(v.scs, t)
            } else {
                clr_active_view(v.scs, t)
            },
            ..v
        },
        Event::ExceptionSetPending(t, b) => BackendView {
            scs: if b {
                set_pending_view(v.scs, t)
            } else {
                clr_pending_view(v.scs, t)
            },
            ..v
        },
        Event::ExceptionSetPriority(t, p) => BackendView { scs: set_priority_view(v.scs, t, p), ..v },
        Event::ExceptionEnabled(t, b) => BackendView {
            scs: if b {
                enable_view(v.scs, t)
            } else {
                disable_view(v.scs, t)
            },
            ..v
        },
        Event::Peripheral(PeripheralEvent::EnableInterrupt { int_num }) => BackendView {
            scs: enable_view(
                with_words(v.scs, line_bits(v.scs.words, int_num, 0x40, 0x60, true)),
                ExceptionType::ExternalInterrupt((int_num + 16) as u32),
            ),
            ..v
        },
        Event::Peripheral(PeripheralEvent::DisableInterrupt { int_num }) => BackendView {
            scs: disable_view(
                with_words(v.scs, line_bits(v.scs.words, int_num, 0x40, 0x60, false)),
                ExceptionType::ExternalInterrupt((int_num + 16) as u32),
            ),
            ..v
        },
        Event::Peripheral(PeripheralEvent::FireInterrupt { int_num }) => BackendView {
            scs: set_pending_view(
                with_words(v.scs, line_bits(v.scs.words, int_num, 0x80, 0xa0, true)),
                ExceptionType::ExternalInterrupt((int_num + 16) as u32),
            ),
            ..v
        },
        _ => v,
    }
}

/// Whether the event is one that the core handles: not a reset request,
/// a clear of all active state, a vector key write, a change of the sleep
/// or trap configuration, a fault status clear or a debug event, which are
/// not implemented; and with exceptions that the control space can hold
/// and priorities that can be read where they are needed.
pub open spec fn handle_event_ok(evt: Event) -> bool {
    match evt {
        Event::SetProcessorStatus(_) | Event::VectorTableOffsetWrite(_) | Event::SetPriorityGrouping(_)
        | Event::SEVInstructionExecuted => true,
        Event::ExceptionSetActive(t, b) => b ==> valid_exception(t),
        Event::ExceptionSetPending(t, b) => b ==> valid_exception(t) && priority_defined(exception_number(t)),
        Event::ExceptionSetPriority(t, _) => 4 <= exception_number(t) && priority_defined(exception_number(t)),
        Event::ExceptionEnabled(t, b) => b ==> valid_exception(t),
        Event::Peripheral(PeripheralEvent::EnableInterrupt { int_num }) => int_num + 16 <= 511,
        Event::Peripheral(PeripheralEvent::DisableInterrupt { int_num }) => int_num + 16 <= 511,
        Event::Peripheral(PeripheralEvent::FireInterrupt { int_num }) => int_num + 16 <= 511
            && priority_defined((int_num + 16) as u32),
        _ => false,
    }
}

/// Handling an event of the exception state applies it, and the opposite
/// event undoes it: after enabling `t` it is enabled, and disabling it
/// then restores the enabled exceptions when enabling added it; after
/// making `t` pending it is pending, and clearing it then leaves the same
/// pending exceptions, each as many times; after making an enabled `t`
/// active it is active, and deactivating it then restores the active
/// exceptions. Only the system control space changes.
#[verifier::rlimit(40)]
pub proof fn lemma_handle_event_applies(v: BackendView, t: ExceptionType)
    ensures
        ({
            let en = handle_event_of(v, Event::ExceptionEnabled(t, true));
            let pe = handle_event_of(v, Event::ExceptionSetPending(t, true));
            let ac = handle_event_of(v, Event::ExceptionSetActive(t, true));
            &&& en == (BackendView { scs: en.scs, ..v })
            &&& pe == (BackendView { scs: pe.scs, ..v })
            &&& ac == (BackendView { scs: ac.scs, ..v })
            &&& enabled_in(en.scs.enabled, t)
            &&& !v.scs.enabled.contains(t) ==> handle_event_of(en, Event::ExceptionEnabled(t, false)).scs.enabled
                == v.scs.enabled
            &&& pe.scs.pending.contains(t)
            &&& handle_event_of(pe, Event::ExceptionSetPending(t, false)).scs.pending.to_multiset()
                == v.scs.pending.to_multiset()
            &&& enabled_in(v.scs.enabled, t) ==> ac.scs.active.contains(t)
            &&& enabled_in(v.scs.enabled, t) ==> handle_event_of(ac, Event::ExceptionSetActive(t, false)).scs.active
                == v.scs.active
        }),
{
    crate::scs::lemma_exception_state_undo(v.scs, t);
}

impl Backend {
    /// Sets or clears the bit of a peripheral's interrupt line in the NVIC
    /// word pair at `set_base`, `clr_base`.
    fn set_line_bits(&mut self, int_num: u32, set_base: usize, clr_base: usize, value: bool)
        requires
            old(self).wf(),
            int_num + 16 <= 511,
            set_base + 16 <= crate::scs::SCS_WORDS,
            clr_base + 16 <= crate::scs::SCS_WORDS,
            set_base != clr_base,
        ensures
            final(self).wf(),
            final(self)@ == (BackendView {
                scs: with_words(old(self)@.scs, line_bits(old(self)@.scs.words, int_num, set_base as int, clr_base as int, value)),
                ..old(self)@
            }),
    {
        let n = (int_num / 32) as usize;
        let i = int_num % 32;
        let b = 1u32 << i;
        let set_word = self.scs.words()[set_base + n];
        let clr_word = self.scs.words()[clr_base + n];
        if value {
            self.scs.set_word(set_base + n, set_word | b);
            self.scs.set_word(clr_base + n, clr_word | b);
        } else {
            self.scs.set_word(set_base + n, set_word & !b);
            self.scs.set_word(clr_base + n, clr_word & !b);
        }
        assert(pending_defined(self@.scs));
    }

    /// Handles an event raised by a write to the control space or by a
    /// peripheral.
    pub fn handle_event(&mut self, evt: Event) -> (r: Result<(), Error>)
        requires
            old(self).wf(),
            handle_event_ok(evt),
        ensures
            final(self).wf(),
            r is Ok,
            final(self)@ == handle_event_of(old(self)@, evt),
    {
        match evt {
            Event::SetProcessorStatus(status) => {
                self.status = status;
            },
            Event::ExceptionSetActive(exception_type, val) => {
                if val {
                    self.scs.set_exception_active(exception_type);
                } else {
                    self.scs.clr_exception_active(exception_type);
                }
            },
            Event::ExceptionSetPending(exception_type, val) => {
                if val {
                    self.scs.set_exception_pending(exception_type);
                } else {
                    self.scs.clr_exception_pending(exception_type);
                }
            },
            Event::ExceptionSetPriority(typ, pri) => {
                self.scs.set_exception_priority(typ, pri);
            },
            Event::ExceptionEnabled(exception_type, val) => {
                if val {
                    self.scs.enable_exception(exception_type);
                } else {
                    self.scs.disable_exception(exception_type);
                }
            },
            Event::Peripheral(PeripheralEvent::EnableInterrupt { int_num }) => {
                self.set_line_bits(int_num, 0x40, 0x60, true);
                let typ = ExceptionType::from(int_num + 16);
                self.scs.enable_exception(typ);
            },
            Event::Peripheral(PeripheralEvent::DisableInterrupt { int_num }) => {
                self.set_line_bits(int_num, 0x40, 0x60, false);
                let typ = ExceptionType::from(int_num + 16);
                self.scs.disable_exception(typ);
            },
            Event::Peripheral(PeripheralEvent::FireInterrupt { int_num }) => {
                self.set_line_bits(int_num, 0x80, 0xa0, true);
                let typ = ExceptionType::from(int_num + 16);
                self.scs.set_exception_pending(typ);
            },
            // the vector table offset and the priority grouping are read from
            // their registers when needed; a SEV changes nothing here
            _ => {},
        }
        Ok(())
    }
}


/// Whether an access of `size` bytes at `address` falls in the system
/// control space.
pub open spec fn in_scs_region(v: BackendView, address: u64, size: nat) -> bool {
    address + size < v.scs.end && address >= v.scs.start
}

/// An error of the architecture as a backend error.
pub open spec fn arch_err(r: Result<(), Error>) -> Result<(), BackendError> {
    match r {
        Ok(()) => Ok(()),
        Err(e) => Err(BackendError::Arch(e)),
    }
}

impl Backend {
    /// Whether an access of `size` bytes at `address` falls in the system
    /// control space.
    fn _is_scs_region(&self, address: u64, size: usize) -> (r: bool)
        requires
            self.wf(),
        ensures
            r == in_scs_region(self@, address, size as nat),
    {
        let end = address as u128 + size as u128;
        end < self.scs.range_end() as u128 && address >= self.scs.range_start()
    }

    /// A copy of `size` bytes of mapped memory at `address` (the rest of
    /// the region from `address` when no size is given). Views of the
    /// system control space are not provided.
    fn _mem_view_bytes(&self, address: u64, size: Option<usize>) -> (r: Result<Vec<u8>, BackendError>)
        requires
            self.wf(),
            !in_scs_region(self@, address, match size {
                Some(n) => n as nat,
                None => 0,
            }),
        ensures
            match mem_view(self@.mem, address, size) {
                Ok(b) => r matches Ok(v) && v@ == b,
                Err(e) => r == Err::<Vec<u8>, BackendError>(e),
            },
    {
        self.mmap.mem_view_bytes(address, size)
    }

    /// Maps a region of `size` bytes of zeros at `base`. Mapping memory
    /// into the system control space is refused: the backend asserts
    /// against it (and panics), so the region must lie outside it.
    pub fn map_mem(&mut self, base: u64, size: usize) -> (r: Result<(), BackendError>)
        requires
            old(self).wf(),
            base + size < old(self)@.scs.start || base >= old(self)@.scs.end,
            base % 4 == 0,
            size % 4 == 0,
            0 < size,
            base + size <= u64::MAX,
            old(self)@.mem.dom().len() < 0xffff_ffff,
        ensures
            final(self).wf(),
            r is Ok <==> !(exists|k: (u64, u64)| #[trigger] old(self)@.mem.dom().contains(k) && k.0 < base + size && base < k.1),
            r is Ok ==> final(self)@ == (BackendView {
                mem: old(self)@.mem.insert((base, (base + size) as u64), Seq::new(size as nat, |i: int| 0u8)),
                ..old(self)@
            }),
            r matches Err(e) ==> final(self)@ == old(self)@ && (e matches BackendError::MapConflict(a, k) && a == (base, (base + size) as u64)
                && old(self)@.mem.dom().contains(k) && k.0 < base + size && base < k.1
                && forall|k2: (u64, u64)| #[trigger] old(self)@.mem.dom().contains(k2) && k2.0 < base + size && base < k2.1 ==> k.0 <= k2.0),
    {
        self.mmap.map_mem(base, size)
    }

    /// Reads the bytes at `address` into `dst`: from the system control
    /// space, whose reads may raise events, or from mapped memory.
    pub fn load_bytes(&mut self, address: u64, dst: &mut [u8]) -> (r: Result<(), BackendError>)
        requires
            old(self).wf(),
            in_scs_region(old(self)@, address, old(dst)@.len()) ==> scs_read_defined(
                (address - old(self)@.scs.start) as usize,
                old(dst)@.len(),
            ),
        ensures
            final(self).wf(),
            in_scs_region(old(self)@, address, old(dst)@.len()) ==> ({
                let (r0, w, d) = scs_read(old(self)@.scs.words, (address - old(self)@.scs.start) as usize, old(dst)@);
                &&& r == arch_err(r0)
                &&& final(dst)@ == d
                &&& final(self)@ == (BackendView { scs: SysCtrlSpaceView { words: w, ..old(self)@.scs }, ..old(self)@ })
            }),
            !in_scs_region(old(self)@, address, old(dst)@.len()) ==> final(self)@ == old(self)@ && match mem_read(old(self)@.mem, address, old(dst)@.len()) {
                Ok(b) => r is Ok && final(dst)@ == b,
                Err(e) => r == Err::<(), BackendError>(e) && final(dst)@ == old(dst)@,
            },
    {
        if self._is_scs_region(address, dst.len()) {
            let offset = (address - self.scs.range_start()) as usize;
            match self.scs.read_bytes(offset, dst, &mut self.events) {
                Ok(()) => Ok(()),
                Err(e) => Err(BackendError::Arch(e)),
            }
        } else {
            self.mmap.load_bytes(address, dst)
        }
    }

    /// Writes the bytes of `src` at `address`: to the system control
    /// space, whose writes may raise events, or to mapped memory.
    pub fn store_bytes(&mut self, address: u64, src: &[u8]) -> (r: Result<(), BackendError>)
        requires
            old(self).wf(),
            in_scs_region(old(self)@, address, src@.len()) ==> scs_write_defined(
                (address - old(self)@.scs.start) as usize,
                src@.len(),
            ),
        ensures
            final(self).wf(),
            in_scs_region(old(self)@, address, src@.len()) ==> ({
                let (r0, w, e) = scs_write(old(self)@.scs.words, old(self)@.events, (address - old(self)@.scs.start) as usize, src@);
                &&& r == arch_err(r0)
                &&& final(self)@ == (BackendView { scs: SysCtrlSpaceView { words: w, ..old(self)@.scs }, events: e, ..old(self)@ })
            }),
            !in_scs_region(old(self)@, address, src@.len()) ==> match mem_write(old(self)@.mem, address, src@) {
                Ok(m) => r is Ok && final(self)@ == (BackendView { mem: m, ..old(self)@ }),
                Err(e) => r == Err::<(), BackendError>(e) && final(self)@ == old(self)@,
            },
    {
        if self._is_scs_region(address, src.len()) {
            let offset = (address - self.scs.range_start()) as usize;
            match self.scs.write_bytes(offset, src, &mut self.events) {
                Ok(()) => Ok(()),
                Err(e) => Err(BackendError::Arch(e)),
            }
        } else {
            self.mmap.store_bytes(address, src)
        }
    }
}


impl Backend {
    /// The events raised and not yet handled.
    pub fn events(&self) -> (r: &VecDeque<Event>)
        ensures
            r@ == self@.events,
    {
        &self.events
    }

    /// The system control space.
    pub fn scs(&self) -> (r: &SysCtrlSpace)
        ensures
            r@ == self@.scs,
    {
        &self.scs
    }
}


impl Backend {
    /// Core register `n` (r0 to r15).
    pub fn read_reg(&self, n: usize) -> (r: u32)
        requires
            self.wf(),
            n < NUM_REGS,
        ensures
            r == self@.regs[n as int],
    {
        self.regs[n]
    }

    /// Sets core register `n` (r0 to r15).
    pub fn write_reg(&mut self, n: usize, value: u32)
        requires
            old(self).wf(),
            n < NUM_REGS,
        ensures
            final(self).wf(),
            final(self)@ == (BackendView { regs: old(self)@.regs.update(n as int, value), ..old(self)@ }),
    {
        self.regs.set(n, value);
    }

    /// The execution status.
    pub fn status(&self) -> (r: Status)
        ensures
            r == self@.status,
    {
        self.status
    }

    /// The operation mode.
    pub fn mode(&self) -> (r: Mode)
        ensures
            r == self@.mode,
    {
        self.mode
    }

    /// The program status register.
    pub fn xpsr(&self) -> (r: XPSR)
        ensures
            r.0 == self@.xpsr,
    {
        self.xpsr
    }
}

} // verus!
