//! The system timer (SysTick) registers of the system control space.
use vstd::prelude::*;

use std::collections::VecDeque;

use crate::bits::{
    bit, byte_of, field, lemma_bit_frame, lemma_bit_read_after_write, get_bit, get_byte, get_field, lemma_low_mask_values, put_bit, put_field,
    with_bit, with_field, word_bytes, write_value, write_value_len, write_value_of,
};
use crate::error::{Error, BASE};
use crate::events::Event;
use crate::exception::ExceptionType;
use crate::regs::RegInfo;

verus! {

/// SysTick register enumeration.
#[derive(Clone, Copy, Debug, PartialEq, Eq, Hash, Structural)]
pub enum SysTickRegType {
    /// control and status register
    CSR,
    /// reload value register
    RVR,
    /// current value register
    CVR,
    /// calibration value register
    CALIB,
}

/// The SysTick register at byte offset `offset` of the system control space.
pub open spec fn systick_lookup(offset: usize) -> Option<SysTickRegType> {
    if offset == 0x10 {
        Some(SysTickRegType::CSR)
    } else if offset == 0x14 {
        Some(SysTickRegType::RVR)
    } else if offset == 0x18 {
        Some(SysTickRegType::CVR)
    } else if offset == 0x1c {
        Some(SysTickRegType::CALIB)
    } else {
        None
    }
}

/// Byte offset of a SysTick register in the system control space.
pub open spec fn systick_offset(t: SysTickRegType) -> usize {
    match t {
        SysTickRegType::CSR => 0x10,
        SysTickRegType::RVR => 0x14,
        SysTickRegType::CVR => 0x18,
        SysTickRegType::CALIB => 0x1c,
    }
}

impl SysTickRegType {
    /// The register at byte offset `offset`, if any.
    pub fn lookup_offset(offset: usize) -> (r: Option<SysTickRegType>)
        ensures
            r == systick_lookup(offset),
    {
        match offset {
            0x010 => Some(SysTickRegType::CSR),
            0x014 => Some(SysTickRegType::RVR),
            0x018 => Some(SysTickRegType::CVR),
            0x01C => Some(SysTickRegType::CALIB),
            _ => None,
        }
    }

    /// The register's address.
    pub fn address(&self) -> (r: u32)
        ensures
            r == BASE + systick_offset(*self),
    {
        BASE + self.offset() as u32
    }

    /// The register's byte offset in the system control space.
    pub fn offset(&self) -> (r: usize)
        ensures
            r == systick_offset(*self),
    {
        self._data().offset
    }

    /// Access permissions (read, write, execute bits): the calibration
    /// register is read-only (B3.3.6), the others read-write.
    pub fn permissions(&self) -> (r: u8)
        ensures
            r == (if *self == SysTickRegType::CALIB { 0b100u8 } else { 0b110u8 }),
    {
        self._data().perms
    }

    /// Reset value: none is defined.
    pub fn reset_value(&self) -> (r: Option<u32>)
        ensures
            r == None::<u32>,
    {
        self._data().reset
    }

    fn _data(&self) -> (r: RegInfo)
        ensures
            r.offset == systick_offset(*self),
            r.perms == (if *self == SysTickRegType::CALIB { 0b100u8 } else { 0b110u8 }),
            r.reset == None::<u32>,
    {
        match self {
            SysTickRegType::CSR => RegInfo { offset: 0x010, perms: 0b110, reset: None },
            SysTickRegType::RVR => RegInfo { offset: 0x014, perms: 0b110, reset: None },
            SysTickRegType::CVR => RegInfo { offset: 0x018, perms: 0b110, reset: None },
            SysTickRegType::CALIB => RegInfo { offset: 0x01C, perms: 0b100, reset: None },
        }
    }
}

/// A SysTick register's offset finds it again, and an offset finds only the
/// register that lies there.
pub proof fn lemma_systick_lookup_offset(t: SysTickRegType, offset: usize)
    ensures
        systick_lookup(systick_offset(t)) == Some(t),
        systick_lookup(offset) matches Some(u) ==> systick_offset(u) == offset,
{
}

/// A SysTick register value, with its type.
#[derive(Clone, Copy, Debug, PartialEq, Eq, Structural)]
pub enum SysTickReg {
    CSR(CSR),
    RVR(RVR),
    CVR(CVR),
    CALIB(CALIB),
}

impl SysTickReg {
    /// The SysTick register that lies at byte offset `offset` of the
    /// system control space, if any, named by its type.
    pub fn lookup_offset(offset: usize) -> (r: Option<SysTickRegType>)
        ensures
            r == systick_lookup(offset),
    {
        SysTickRegType::lookup_offset(offset)
    }
}

/// SysTick control and status register (B3.3.3).
#[derive(Clone, Copy, Debug, PartialEq, Eq, Structural)]
pub struct CSR(pub u32);

impl CSR {
    /// The register with every field at its reset default.
    pub fn new() -> (r: Self)
        ensures
            r.0 == 0x0u32,
    {
        CSR(0x0)
    }

    /// The register holding the raw word `bits`.
    pub fn from_bits(bits: u32) -> (r: Self)
        ensures
            r.0 == bits,
    {
        CSR(bits)
    }

    /// The raw word of the register.
    pub fn into_bits(self) -> (r: u32)
        ensures
            r == self.0,
    {
        self.0
    }

    /// Bit 0 (`enable`).
    pub fn enable(&self) -> (r: bool)
        ensures
            r == bit(self.0, 0),
    {
        get_bit(self.0, 0)
    }

    /// Sets bit 0 (`enable`).
    pub fn set_enable(&mut self, value: bool)
        ensures
            final(self).0 == with_bit(old(self).0, 0, value),
    {
        self.0 = put_bit(self.0, 0, value);
    }

    /// Bit 1 (`tickint`).
    pub fn tickint(&self) -> (r: bool)
        ensures
            r == bit(self.0, 1),
    {
        get_bit(self.0, 1)
    }

    /// Sets bit 1 (`tickint`).
    pub fn set_tickint(&mut self, value: bool)
        ensures
            final(self).0 == with_bit(old(self).0, 1, value),
    {
        self.0 = put_bit(self.0, 1, value);
    }

    /// Bit 2 (`clksource`).
    pub fn clksource(&self) -> (r: bool)
        ensures
            r == bit(self.0, 2),
    {
        get_bit(self.0, 2)
    }

    /// Sets bit 2 (`clksource`).
    pub fn set_clksource(&mut self, value: bool)
        ensures
            final(self).0 == with_bit(old(self).0, 2, value),
    {
        self.0 = put_bit(self.0, 2, value);
    }

    /// Bit 16 (`countflag`).
    pub fn countflag(&self) -> (r: bool)
        ensures
            r == bit(self.0, 16),
    {
        get_bit(self.0, 16)
    }

    /// Sets bit 16 (`countflag`).
    pub fn set_countflag(&mut self, value: bool)
        ensures
            final(self).0 == with_bit(old(self).0, 16, value),
    {
        self.0 = put_bit(self.0, 16, value);
    }
}

/// SysTick reload value register (B3.3.4).
#[derive(Clone, Copy, Debug, PartialEq, Eq, Structural)]
pub struct RVR(pub u32);

impl RVR {
    /// The register with every field at its reset default.
    pub fn new() -> (r: Self)
        ensures
            r.0 == 0x0u32,
    {
        RVR(0x0)
    }

    /// The register holding the raw word `bits`.
    pub fn from_bits(bits: u32) -> (r: Self)
        ensures
            r.0 == bits,
    {
        RVR(bits)
    }

    /// The raw word of the register.
    pub fn into_bits(self) -> (r: u32)
        ensures
            r == self.0,
    {
        self.0
    }

    /// Bits 0..24 (`reload`).
    pub fn reload(&self) -> (r: u32)
        ensures
            r == field(self.0, 0, 24),
    {
        get_field(self.0, 0, 24)
    }

    /// Sets bits 0..24 (`reload`) to the low bits of `value`.
    pub fn set_reload(&mut self, value: u32)
        ensures
            final(self).0 == with_field(old(self).0, 0, 24, value as u32),
    {
        self.0 = put_field(self.0, 0, 24, value as u32);
    }
}

/// SysTick current value register (B3.3.5).
#[derive(Clone, Copy, Debug, PartialEq, Eq, Structural)]
pub struct CVR(pub u32);

impl CVR {
    /// The register with every field at its reset default.
    pub fn new() -> (r: Self)
        ensures
            r.0 == 0x0u32,
    {
        CVR(0x0)
    }

    /// The register holding the raw word `bits`.
    pub fn from_bits(bits: u32) -> (r: Self)
        ensures
            r.0 == bits,
    {
        CVR(bits)
    }

    /// The raw word of the register.
    pub fn into_bits(self) -> (r: u32)
        ensures
            r == self.0,
    {
        self.0
    }

    /// Bits 0..24 (`current`).
    pub fn current(&self) -> (r: u32)
        ensures
            r == field(self.0, 0, 24),
    {
        get_field(self.0, 0, 24)
    }

    /// Sets bits 0..24 (`current`) to the low bits of `value`.
    pub fn set_current(&mut self, value: u32)
        ensures
            final(self).0 == with_field(old(self).0, 0, 24, value as u32),
    {
        self.0 = put_field(self.0, 0, 24, value as u32);
    }
}

/// SysTick calibration value register (B3.3.6).
#[derive(Clone, Copy, Debug, PartialEq, Eq, Structural)]
pub struct CALIB(pub u32);

impl CALIB {
    /// The register with every field at its reset default.
    pub fn new() -> (r: Self)
        ensures
            r.0 == 0x0u32,
    {
        CALIB(0x0)
    }

    /// The register holding the raw word `bits`.
    pub fn from_bits(bits: u32) -> (r: Self)
        ensures
            r.0 == bits,
    {
        CALIB(bits)
    }

    /// The raw word of the register.
    pub fn into_bits(self) -> (r: u32)
        ensures
            r == self.0,
    {
        self.0
    }

    /// Bits 0..24 (`tenms`).
    pub fn tenms(&self) -> (r: u32)
        ensures
            r == field(self.0, 0, 24),
    {
        get_field(self.0, 0, 24)
    }

    /// Sets bits 0..24 (`tenms`) to the low bits of `value`.
    pub fn set_tenms(&mut self, value: u32)
        ensures
            final(self).0 == with_field(old(self).0, 0, 24, value as u32),
    {
        self.0 = put_field(self.0, 0, 24, value as u32);
    }

    /// Bit 30 (`skew`).
    pub fn skew(&self) -> (r: bool)
        ensures
            r == bit(self.0, 30),
    {
        get_bit(self.0, 30)
    }

    /// Sets bit 30 (`skew`).
    pub fn set_skew(&mut self, value: bool)
        ensures
            final(self).0 == with_bit(old(self).0, 30, value),
    {
        self.0 = put_bit(self.0, 30, value);
    }

    /// Bit 31 (`noref`).
    pub fn noref(&self) -> (r: bool)
        ensures
            r == bit(self.0, 31),
    {
        get_bit(self.0, 31)
    }

    /// Sets bit 31 (`noref`).
    pub fn set_noref(&mut self, value: bool)
        ensures
            final(self).0 == with_bit(old(self).0, 31, value),
    {
        self.0 = put_bit(self.0, 31, value);
    }
}


/// Word index of the CSR in the system control space.
pub const CSR_WORD: usize = 4;

/// Word index of the RVR in the system control space.
pub const RVR_WORD: usize = 5;

/// Word index of the CVR in the system control space.
pub const CVR_WORD: usize = 6;

/// Word index of the CALIB register in the system control space.
pub const CALIB_WORD: usize = 7;

/// The SysTick registers, within the words of the system control space
/// (indexed by byte offset / 4).
pub struct SysTickRegs {
    backing: Vec<u32>,
}

impl View for SysTickRegs {
    type V = Seq<u32>;

    closed spec fn view(&self) -> Seq<u32> {
        self.backing@
    }
}

/// Word after one SysTick tick: a nonzero CVR counts down; a zero CVR
/// takes the reload value; a count that reaches zero sets COUNTFLAG.
pub open spec fn tick_words(w: Seq<u32>) -> Seq<u32> {
    if w[CVR_WORD as int] >= 1 {
        let current = (w[CVR_WORD as int] - 1) as u32;
        let w1 = w.update(CVR_WORD as int, current);
        if current == 0 {
            w1.update(CSR_WORD as int, with_bit(w[CSR_WORD as int], 16, true))
        } else {
            w1
        }
    } else {
        w.update(CVR_WORD as int, w[RVR_WORD as int])
    }
}

/// Whether a tick raises the SysTick exception: the count reached zero
/// with TICKINT set.
pub open spec fn tick_fires(w: Seq<u32>) -> bool {
    w[CVR_WORD as int] == 1 && bit(w[CSR_WORD as int], 1)
}

/// One SysTick tick (B3.3.1): a nonzero count goes down by one and a zero
/// count takes the reload value; the other registers keep their values,
/// but for COUNTFLAG, which is set when the count reaches zero. The tick
/// requests the SysTick exception exactly when the count reaches zero with
/// CSR.TICKINT (bit 1) set: never with TICKINT clear, and never on a
/// reload.
pub proof fn lemma_tick(w: Seq<u32>)
    requires
        w.len() >= 0x40,
    ensures
        ({
            let w2 = tick_words(w);
            let c = w[CVR_WORD as int];
            &&& w2.len() == w.len()
            &&& c >= 1 ==> w2[CVR_WORD as int] == c - 1
            &&& c == 0 ==> w2[CVR_WORD as int] == w[RVR_WORD as int]
            &&& bit(w2[CSR_WORD as int], 16) == (c == 1 || bit(w[CSR_WORD as int], 16))
            &&& forall|j: u32| j < 32 && j != 16 ==> #[trigger] bit(w2[CSR_WORD as int], j) == bit(w[CSR_WORD as int], j)
            &&& forall|i: int| 0 <= i < w.len() && i != CVR_WORD && i != CSR_WORD ==> #[trigger] w2[i] == w[i]
            &&& tick_fires(w) ==> bit(w[CSR_WORD as int], 1)
            &&& tick_fires(w) <==> (c >= 1 && w2[CVR_WORD as int] == 0 && bit(w[CSR_WORD as int], 1))
        }),
{
    let csr = w[CSR_WORD as int];
    lemma_bit_read_after_write(csr, 16, true);
    assert forall|j: u32| j < 32 && j != 16 implies #[trigger] bit(tick_words(w)[CSR_WORD as int], j) == bit(csr, j) by {
        if w[CVR_WORD as int] == 1 {
            lemma_bit_frame(csr, 16, true, j);
        }
    }
}

/// The CSR word after a write of `v` to a CSR holding `cur`: ENABLE takes
/// the written value; while the write enables the counter, TICKINT takes
/// the written value too.
pub open spec fn csr_after_write(cur: u32, v: u32) -> u32 {
    let c1 = if bit(cur, 0) != bit(v, 0) { with_bit(cur, 0, bit(v, 0)) } else { cur };
    if bit(v, 0) && bit(cur, 1) != bit(v, 1) { with_bit(c1, 1, bit(v, 1)) } else { c1 }
}

/// The events of a write of `v` to a CSR holding `cur`: the SysTick
/// exception is enabled or disabled when an enabling write changes TICKINT.
pub open spec fn csr_write_events(cur: u32, v: u32) -> Seq<Event> {
    if bit(v, 0) && bit(cur, 1) != bit(v, 1) {
        seq![Event::ExceptionEnabled(ExceptionType::SysTick, bit(v, 1))]
    } else {
        Seq::empty()
    }
}

/// What a read of SysTick register bytes at `offset` into `d` gives: the
/// result, the words after it (a read of the CSR clears COUNTFLAG) and
/// the bytes read.
pub open spec fn systick_read(w: Seq<u32>, offset: usize, d: Seq<u8>) -> (Result<(), Error>, Seq<u32>, Seq<u8>) {
    match systick_lookup(offset) {
        None => (Err(Error::InvalidSysCtrlReg((BASE + offset) as u32)), w, d),
        Some(t) => (
            Ok(()),
            if t == SysTickRegType::CSR {
                w.update(CSR_WORD as int, with_bit(w[CSR_WORD as int], 16, false))
            } else {
                w
            },
            word_bytes(w[(offset / 4) as int]),
        ),
    }
}

/// What a write of `src` (a whole word) to the SysTick register at
/// `offset` gives: the result, the words after it and the events after it.
pub open spec fn systick_write(w: Seq<u32>, evs: Seq<Event>, offset: usize, src: Seq<u8>) -> (
    Result<(), Error>,
    Seq<u32>,
    Seq<Event>,
) {
    let v = write_value_of(src, 4);
    match systick_lookup(offset) {
        None => (Err(Error::InvalidSysCtrlReg((BASE + offset) as u32)), w, evs),
        Some(SysTickRegType::CSR) => (
            Ok(()),
            w.update(CSR_WORD as int, csr_after_write(w[CSR_WORD as int], v)),
            evs + csr_write_events(w[CSR_WORD as int], v),
        ),
        Some(SysTickRegType::RVR) => (Ok(()), w.update(RVR_WORD as int, v & 0x00ff_ffff), evs),
        Some(SysTickRegType::CVR) => (Ok(()), w.update(CVR_WORD as int, 0), evs),
        Some(SysTickRegType::CALIB) => (Err(Error::WriteAccessViolation((BASE + offset) as u32)), w, evs),
    }
}

impl SysTickRegs {
    /// The SysTick registers within `backing`.
    pub fn new(backing: Vec<u32>) -> (r: Self)
        requires
            backing@.len() >= 0x40,
        ensures
            r@ == backing@,
    {
        SysTickRegs { backing }
    }

    /// Gives the words back.
    pub fn into_backing(self) -> (r: Vec<u32>)
        ensures
            r@ == self@,
    {
        self.backing
    }

    /// The control and status register.
    pub fn get_csr(&self) -> (r: CSR)
        requires
            self@.len() >= 0x40,
        ensures
            r.0 == self@[CSR_WORD as int],
    {
        CSR(self.backing[CSR_WORD])
    }

    /// The reload value register.
    pub fn get_rvr(&self) -> (r: RVR)
        requires
            self@.len() >= 0x40,
        ensures
            r.0 == self@[RVR_WORD as int],
    {
        RVR(self.backing[RVR_WORD])
    }

    /// The current value register.
    pub fn get_cvr(&self) -> (r: CVR)
        requires
            self@.len() >= 0x40,
        ensures
            r.0 == self@[CVR_WORD as int],
    {
        CVR(self.backing[CVR_WORD])
    }

    /// The calibration value register.
    pub fn get_calib(&self) -> (r: CALIB)
        requires
            self@.len() >= 0x40,
        ensures
            r.0 == self@[CALIB_WORD as int],
    {
        CALIB(self.backing[CALIB_WORD])
    }

    fn set_word(&mut self, idx: usize, v: u32)
        requires
            idx < 0x40,
            old(self)@.len() >= 0x40,
        ensures
            final(self)@ == old(self)@.update(idx as int, v),
    {
        self.backing.set(idx, v);
    }

    /// The value of the register of type `regtype`.
    pub fn get_reg_ref(&self, regtype: SysTickRegType) -> (r: SysTickReg)
        requires
            self@.len() >= 0x40,
        ensures
            r == (match regtype {
                SysTickRegType::CSR => SysTickReg::CSR(CSR(self@[CSR_WORD as int])),
                SysTickRegType::RVR => SysTickReg::RVR(RVR(self@[RVR_WORD as int])),
                SysTickRegType::CVR => SysTickReg::CVR(CVR(self@[CVR_WORD as int])),
                SysTickRegType::CALIB => SysTickReg::CALIB(CALIB(self@[CALIB_WORD as int])),
            }),
    {
        match regtype {
            SysTickRegType::CSR => SysTickReg::CSR(self.get_csr()),
            SysTickRegType::RVR => SysTickReg::RVR(self.get_rvr()),
            SysTickRegType::CVR => SysTickReg::CVR(self.get_cvr()),
            SysTickRegType::CALIB => SysTickReg::CALIB(self.get_calib()),
        }
    }

    /// Writes the value of a SysTick register back to its word.
    pub fn set_reg(&mut self, reg: SysTickReg)
        requires
            old(self)@.len() >= 0x40,
        ensures
            final(self)@ == (match reg {
                SysTickReg::CSR(r) => old(self)@.update(CSR_WORD as int, r.0),
                SysTickReg::RVR(r) => old(self)@.update(RVR_WORD as int, r.0),
                SysTickReg::CVR(r) => old(self)@.update(CVR_WORD as int, r.0),
                SysTickReg::CALIB(r) => old(self)@.update(CALIB_WORD as int, r.0),
            }),
    {
        match reg {
            SysTickReg::CSR(r) => self.backing.set(CSR_WORD, r.0),
            SysTickReg::RVR(r) => self.backing.set(RVR_WORD, r.0),
            SysTickReg::CVR(r) => self.backing.set(CVR_WORD, r.0),
            SysTickReg::CALIB(r) => self.backing.set(CALIB_WORD, r.0),
        }
    }

    /// Advances the timer by one tick. Returns whether the SysTick
    /// exception fires: the count reached zero with TICKINT set.
    pub fn tick(&mut self) -> (r: bool)
        requires
            old(self)@.len() >= 0x40,
        ensures
            final(self)@ == tick_words(old(self)@),
            r == tick_fires(old(self)@),
    {
        let cvr = self.backing[CVR_WORD];
        if cvr >= 1 {
            let current = cvr - 1;
            self.set_word(CVR_WORD, current);
            if current == 0 {
                let mut csr = self.get_csr();
                csr.set_countflag(true);
                self.set_word(CSR_WORD, csr.0);
                proof {
                    lemma_bit_frame(old(self)@[CSR_WORD as int], 16, true, 1);
                }
                return self.get_csr().tickint();
            }
        } else {
            let reload = self.backing[RVR_WORD];
            self.set_word(CVR_WORD, reload);
        }
        false
    }

    /// Reads a SysTick register into `dst` (a whole word). Reading the CSR
    /// clears its COUNTFLAG.
    pub fn read_bytes(&mut self, offset: usize, dst: &mut [u8], events: &mut VecDeque<Event>) -> (r:
        Result<(), Error>)
        requires
            old(self)@.len() >= 0x40,
            offset <= 0xfff,
            systick_lookup(offset) is Some ==> old(dst)@.len() == 4,
        ensures
            final(events)@ == old(events)@,
            (r, final(self)@, final(dst)@) == systick_read(old(self)@, offset, old(dst)@),
    {
        let reg = match SysTickRegType::lookup_offset(offset) {
            Some(reg) => reg,
            None => {
                return Err(Error::InvalidSysCtrlReg(BASE + offset as u32));
            },
        };
        let word_offset = offset / 4;
        let w = self.backing[word_offset];
        copy_word(w, dst);
        match reg {
            SysTickRegType::CSR => {
                // COUNTFLAG is cleared by a read of the register (B3.3.3)
                let mut csr = self.get_csr();
                csr.set_countflag(false);
                self.set_word(CSR_WORD, csr.0);
            },
            _ => {},
        }
        Ok(())
    }

    /// Writes a SysTick register from `src` (a whole word). A write to the
    /// CSR updates ENABLE and, while enabling, TICKINT, and raises an event
    /// when TICKINT changes; a write to the RVR keeps 24 bits; any write to
    /// the CVR clears it; the CALIB register is read-only.
    pub fn write_bytes(&mut self, offset: usize, src: &[u8], events: &mut VecDeque<Event>) -> (r:
        Result<(), Error>)
        requires
            old(self)@.len() >= 0x40,
            offset <= 0xfff,
            src@.len() == 4,
        ensures
            (r, final(self)@, final(events)@) == systick_write(old(self)@, old(events)@, offset, src@),
    {
        let reg = match SysTickRegType::lookup_offset(offset) {
            Some(reg) => reg,
            None => {
                return Err(Error::InvalidSysCtrlReg(BASE + offset as u32));
            },
        };
        let write_val = write_value(src);
        match reg {
            SysTickRegType::CSR => {
                let mut csr = self.get_csr();
                let tickint = csr.tickint();
                let enable = csr.enable();
                // COUNTFLAG and CLKSOURCE are read-only
                let new_csr = CSR::from_bits(write_val);
                let new_tickint = new_csr.tickint();
                let new_enable = new_csr.enable();
                if enable != new_enable {
                    csr.set_enable(new_enable);
                }
                if new_enable && (tickint != new_tickint) {
                    events.push_back(Event::ExceptionEnabled(ExceptionType::SysTick, new_tickint));
                    csr.set_tickint(new_tickint);
                }
                self.set_word(CSR_WORD, csr.0);
            },
            SysTickRegType::RVR => {
                // the RVR holds 24 bits
                self.set_word(RVR_WORD, write_val & 0x00FFFFFF);
            },
            SysTickRegType::CVR => {
                // any write clears the CVR
                self.set_word(CVR_WORD, 0);
            },
            SysTickRegType::CALIB => {
                // CALIB is read-only and implementation-defined
                return Err(Error::WriteAccessViolation(BASE + offset as u32));
            },
        }
        Ok(())
    }
}

/// Copies the four bytes of `w`, least significant first, into `dst`.
pub fn copy_word(w: u32, dst: &mut [u8])
    requires
        old(dst)@.len() == 4,
    ensures
        final(dst)@ == word_bytes(w),
{
    dst[0] = get_byte(w, 0);
    dst[1] = get_byte(w, 1);
    dst[2] = get_byte(w, 2);
    dst[3] = get_byte(w, 3);
    assert(dst@ =~= word_bytes(w));
}

} // verus!
