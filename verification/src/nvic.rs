//! The nested vectored interrupt controller: its registers in the system
//! control space and its record of enabled, pending and active exceptions.
use vstd::prelude::*;

use std::collections::VecDeque;

use crate::bits::{
    bit, byte_of, field, get_bit, get_byte, get_field, lemma_low_mask_values, put_bit, put_byte,
    put_field, with_bit, with_field, word_bytes, write_value, write_value_len, write_value_of,
};
use crate::error::{check_alignment, is_aligned, Alignment, Error, BASE};
use crate::events::Event;
use crate::exception::{exception_type_of, type_lt, ExceptionType};

verus! {

/// NVIC register enumeration, with the register index `n`.
#[derive(Clone, Copy, Debug, PartialEq, Eq, Hash, Structural)]
pub enum NVICRegType {
    /// n in 0 to 15
    ISER(u8),
    /// n in 0 to 15
    ICER(u8),
    /// n in 0 to 15
    ISPR(u8),
    /// n in 0 to 15
    ICPR(u8),
    /// n in 0 to 15
    IABR(u8),
    /// n in 0 to 123
    IPR(u8),
}

/// The NVIC register at byte offset `offset` (in 0x100 to 0xd00).
pub open spec fn nvic_lookup(offset: usize) -> Option<NVICRegType> {
    if 0x100 <= offset <= 0x13f {
        Some(NVICRegType::ISER(((offset - 0x100) / 4) as u8))
    } else if 0x180 <= offset <= 0x1bf {
        Some(NVICRegType::ICER(((offset - 0x180) / 4) as u8))
    } else if 0x200 <= offset <= 0x23f {
        Some(NVICRegType::ISPR(((offset - 0x200) / 4) as u8))
    } else if 0x280 <= offset <= 0x2bf {
        Some(NVICRegType::ICPR(((offset - 0x280) / 4) as u8))
    } else if 0x300 <= offset <= 0x33f {
        Some(NVICRegType::IABR(((offset - 0x300) / 4) as u8))
    } else if 0x400 <= offset <= 0x5ef {
        Some(NVICRegType::IPR(((offset - 0x400) / 4) as u8))
    } else {
        None
    }
}

/// Byte offset of an NVIC register in the system control space.
pub open spec fn nvic_offset(t: NVICRegType) -> usize {
    match t {
        NVICRegType::ISER(n) => (0x100 + 4 * n) as usize,
        NVICRegType::ICER(n) => (0x180 + 4 * n) as usize,
        NVICRegType::ISPR(n) => (0x200 + 4 * n) as usize,
        NVICRegType::ICPR(n) => (0x280 + 4 * n) as usize,
        NVICRegType::IABR(n) => (0x300 + 4 * n) as usize,
        NVICRegType::IPR(n) => (0x400 + 4 * n) as usize,
    }
}

/// Whether the register index is one that the architecture defines.
pub open spec fn nvic_index_valid(t: NVICRegType) -> bool {
    match t {
        NVICRegType::IPR(n) => n <= 123,
        NVICRegType::ISER(n) => n <= 15,
        NVICRegType::ICER(n) => n <= 15,
        NVICRegType::ISPR(n) => n <= 15,
        NVICRegType::ICPR(n) => n <= 15,
        NVICRegType::IABR(n) => n <= 15,
    }
}

impl NVICRegType {
    /// The register at byte offset `offset`, which must lie in the NVIC
    /// block 0x100 to 0xd00.
    pub fn lookup_offset(offset: usize) -> (r: Option<Self>)
        requires
            0x100 <= offset <= 0xd00,
        ensures
            r == nvic_lookup(offset),
    {
        if 0x100 <= offset && offset <= 0x13f {
            Some(NVICRegType::ISER(((offset - 0x100) / 4) as u8))
        } else if 0x180 <= offset && offset <= 0x1bf {
            Some(NVICRegType::ICER(((offset - 0x180) / 4) as u8))
        } else if 0x200 <= offset && offset <= 0x23f {
            Some(NVICRegType::ISPR(((offset - 0x200) / 4) as u8))
        } else if 0x280 <= offset && offset <= 0x2bf {
            Some(NVICRegType::ICPR(((offset - 0x280) / 4) as u8))
        } else if 0x300 <= offset && offset <= 0x33f {
            Some(NVICRegType::IABR(((offset - 0x300) / 4) as u8))
        } else if 0x400 <= offset && offset <= 0x5ef {
            Some(NVICRegType::IPR(((offset - 0x400) / 4) as u8))
        } else {
            None
        }
    }

    /// The register's byte offset in the system control space.
    pub fn offset(&self) -> (r: usize)
        ensures
            r == nvic_offset(*self),
    {
        match self {
            NVICRegType::ISER(n) => 0x100 + (4 * *n as usize),
            NVICRegType::ICER(n) => 0x180 + (4 * *n as usize),
            NVICRegType::ISPR(n) => 0x200 + (4 * *n as usize),
            NVICRegType::ICPR(n) => 0x280 + (4 * *n as usize),
            NVICRegType::IABR(n) => 0x300 + (4 * *n as usize),
            NVICRegType::IPR(n) => 0x400 + (4 * *n as usize),
        }
    }

    /// Access permissions (read, write, execute bits): the active bit
    /// registers are read-only, the others read-write.
    pub fn permissions(&self) -> (r: u8)
        ensures
            r == (if self is IABR { 0b100u8 } else { 0b110u8 }),
    {
        match self {
            NVICRegType::IABR(_) => 0b100,
            _ => 0b110,
        }
    }

    /// Reset value: every NVIC register resets to 0.
    pub fn reset_value(&self) -> (r: Option<u32>)
        ensures
            r == Some(0u32),
    {
        Some(0)
    }

    /// Reset value: every NVIC register resets to 0.
    pub fn reset(&self) -> (r: Option<u32>)
        ensures
            r == Some(0u32),
    {
        Some(0)
    }
}

/// Every byte of a defined NVIC register finds the register again; any
/// offset finds the register of the word that holds it.
pub proof fn lemma_nvic_lookup_offset(t: NVICRegType, offset: usize, k: usize)
    requires
        0x100 <= offset <= 0xd00,
        k < 4,
    ensures
        nvic_index_valid(t) ==> nvic_lookup((nvic_offset(t) + k) as usize) == Some(t),
        nvic_lookup(offset) matches Some(u) ==> nvic_offset(u) == offset - offset % 4,
{
}

/// Interrupt set-enable register (B3.4.4): enables, or shows the enable
/// state of, interrupts 32n to 32n + 31. Word-accessible only.
#[derive(Clone, Copy, Debug, PartialEq, Eq, Structural)]
pub struct ISER(pub u32);

impl ISER {
    /// The register with every field at its reset default.
    pub fn new() -> (r: Self)
        ensures
            r.0 == 0x0u32,
    {
        ISER(0x0)
    }

    /// The register holding the raw word `bits`.
    pub fn from_bits(bits: u32) -> (r: Self)
        ensures
            r.0 == bits,
    {
        ISER(bits)
    }

    /// The raw word of the register.
    pub fn into_bits(self) -> (r: u32)
        ensures
            r == self.0,
    {
        self.0
    }

    /// Bits 0..32 (`setena`).
    pub fn setena(&self) -> (r: u32)
        ensures
            r == field(self.0, 0, 32),
    {
        get_field(self.0, 0, 32)
    }

    /// Sets bits 0..32 (`setena`) to the low bits of `value`.
    pub fn set_setena(&mut self, value: u32)
        ensures
            final(self).0 == with_field(old(self).0, 0, 32, value as u32),
    {
        self.0 = put_field(self.0, 0, 32, value as u32);
    }
}

/// Interrupt clear-enable register (B3.4.5): disables, or shows the enable
/// state of, interrupts 32n to 32n + 31. Word-accessible only.
#[derive(Clone, Copy, Debug, PartialEq, Eq, Structural)]
pub struct ICER(pub u32);

impl ICER {
    /// The register with every field at its reset default.
    pub fn new() -> (r: Self)
        ensures
            r.0 == 0x0u32,
    {
        ICER(0x0)
    }

    /// The register holding the raw word `bits`.
    pub fn from_bits(bits: u32) -> (r: Self)
        ensures
            r.0 == bits,
    {
        ICER(bits)
    }

    /// The raw word of the register.
    pub fn into_bits(self) -> (r: u32)
        ensures
            r == self.0,
    {
        self.0
    }

    /// Bits 0..32 (`clrena`).
    pub fn clrena(&self) -> (r: u32)
        ensures
            r == field(self.0, 0, 32),
    {
        get_field(self.0, 0, 32)
    }

    /// Sets bits 0..32 (`clrena`) to the low bits of `value`.
    pub fn set_clrena(&mut self, value: u32)
        ensures
            final(self).0 == with_field(old(self).0, 0, 32, value as u32),
    {
        self.0 = put_field(self.0, 0, 32, value as u32);
    }
}

/// Interrupt set-pending register (B3.4.6). Word-accessible only.
#[derive(Clone, Copy, Debug, PartialEq, Eq, Structural)]
pub struct ISPR(pub u32);

impl ISPR {
    /// The register with every field at its reset default.
    pub fn new() -> (r: Self)
        ensures
            r.0 == 0x0u32,
    {
        ISPR(0x0)
    }

    /// The register holding the raw word `bits`.
    pub fn from_bits(bits: u32) -> (r: Self)
        ensures
            r.0 == bits,
    {
        ISPR(bits)
    }

    /// The raw word of the register.
    pub fn into_bits(self) -> (r: u32)
        ensures
            r == self.0,
    {
        self.0
    }

    /// Bits 0..32 (`setpend`).
    pub fn setpend(&self) -> (r: u32)
        ensures
            r == field(self.0, 0, 32),
    {
        get_field(self.0, 0, 32)
    }

    /// Sets bits 0..32 (`setpend`) to the low bits of `value`.
    pub fn set_setpend(&mut self, value: u32)
        ensures
            final(self).0 == with_field(old(self).0, 0, 32, value as u32),
    {
        self.0 = put_field(self.0, 0, 32, value as u32);
    }
}

/// Interrupt clear-pending register (B3.4.7). Word-accessible only.
#[derive(Clone, Copy, Debug, PartialEq, Eq, Structural)]
pub struct ICPR(pub u32);

impl ICPR {
    /// The register with every field at its reset default.
    pub fn new() -> (r: Self)
        ensures
            r.0 == 0x0u32,
    {
        ICPR(0x0)
    }

    /// The register holding the raw word `bits`.
    pub fn from_bits(bits: u32) -> (r: Self)
        ensures
            r.0 == bits,
    {
        ICPR(bits)
    }

    /// The raw word of the register.
    pub fn into_bits(self) -> (r: u32)
        ensures
            r == self.0,
    {
        self.0
    }

    /// Bits 0..32 (`clrpend`).
    pub fn clrpend(&self) -> (r: u32)
        ensures
            r == field(self.0, 0, 32),
    {
        get_field(self.0, 0, 32)
    }

    /// Sets bits 0..32 (`clrpend`) to the low bits of `value`.
    pub fn set_clrpend(&mut self, value: u32)
        ensures
            final(self).0 == with_field(old(self).0, 0, 32, value as u32),
    {
        self.0 = put_field(self.0, 0, 32, value as u32);
    }
}

/// Interrupt active bit register (B3.4.8). Read-only.
#[derive(Clone, Copy, Debug, PartialEq, Eq, Structural)]
pub struct IABR(pub u32);

impl IABR {
    /// The register with every field at its reset default.
    pub fn new() -> (r: Self)
        ensures
            r.0 == 0x0u32,
    {
        IABR(0x0)
    }

    /// The register holding the raw word `bits`.
    pub fn from_bits(bits: u32) -> (r: Self)
        ensures
            r.0 == bits,
    {
        IABR(bits)
    }

    /// The raw word of the register.
    pub fn into_bits(self) -> (r: u32)
        ensures
            r == self.0,
    {
        self.0
    }

    /// Bits 0..32 (`active`).
    pub fn active(&self) -> (r: u32)
        ensures
            r == field(self.0, 0, 32),
    {
        get_field(self.0, 0, 32)
    }

    /// Sets bits 0..32 (`active`) to the low bits of `value`.
    pub fn set_active(&mut self, value: u32)
        ensures
            final(self).0 == with_field(old(self).0, 0, 32, value as u32),
    {
        self.0 = put_field(self.0, 0, 32, value as u32);
    }
}

/// Interrupt priority register (B3.4.9): the priorities of interrupts 4n to
/// 4n + 3, interrupt 4n + i in byte i.
#[derive(Clone, Copy, Debug, PartialEq, Eq, Structural)]
pub struct IPR(pub u32);

impl IPR {
    /// The register with every field at its reset default.
    pub fn new() -> (r: Self)
        ensures
            r.0 == 0x0u32,
    {
        IPR(0x0)
    }

    /// The register holding the raw word `bits`.
    pub fn from_bits(bits: u32) -> (r: Self)
        ensures
            r.0 == bits,
    {
        IPR(bits)
    }

    /// The raw word of the register.
    pub fn into_bits(self) -> (r: u32)
        ensures
            r == self.0,
    {
        self.0
    }

    /// Bits 0..8 (`pri_n0`).
    pub fn pri_n0(&self) -> (r: u8)
        ensures
            r == field(self.0, 0, 8),
    {
        let v = get_field(self.0, 0, 8);
        proof { lemma_low_mask_values(); }
        v as u8
    }

    /// Sets bits 0..8 (`pri_n0`) to the low bits of `value`.
    pub fn set_pri_n0(&mut self, value: u8)
        ensures
            final(self).0 == with_field(old(self).0, 0, 8, value as u32),
    {
        self.0 = put_field(self.0, 0, 8, value as u32);
    }

    /// Bits 8..16 (`pri_n1`).
    pub fn pri_n1(&self) -> (r: u8)
        ensures
            r == field(self.0, 8, 8),
    {
        let v = get_field(self.0, 8, 8);
        proof { lemma_low_mask_values(); }
        v as u8
    }

    /// Sets bits 8..16 (`pri_n1`) to the low bits of `value`.
    pub fn set_pri_n1(&mut self, value: u8)
        ensures
            final(self).0 == with_field(old(self).0, 8, 8, value as u32),
    {
        self.0 = put_field(self.0, 8, 8, value as u32);
    }

    /// Bits 16..24 (`pri_n2`).
    pub fn pri_n2(&self) -> (r: u8)
        ensures
            r == field(self.0, 16, 8),
    {
        let v = get_field(self.0, 16, 8);
        proof { lemma_low_mask_values(); }
        v as u8
    }

    /// Sets bits 16..24 (`pri_n2`) to the low bits of `value`.
    pub fn set_pri_n2(&mut self, value: u8)
        ensures
            final(self).0 == with_field(old(self).0, 16, 8, value as u32),
    {
        self.0 = put_field(self.0, 16, 8, value as u32);
    }

    /// Bits 24..32 (`pri_n3`).
    pub fn pri_n3(&self) -> (r: u8)
        ensures
            r == field(self.0, 24, 8),
    {
        let v = get_field(self.0, 24, 8);
        proof { lemma_low_mask_values(); }
        v as u8
    }

    /// Sets bits 24..32 (`pri_n3`) to the low bits of `value`.
    pub fn set_pri_n3(&mut self, value: u8)
        ensures
            final(self).0 == with_field(old(self).0, 24, 8, value as u32),
    {
        self.0 = put_field(self.0, 24, 8, value as u32);
    }
}


/// The priority that IPR word `w` holds for the interrupt at position `k`
/// (0 to 3) of its group of four: position k in byte k.
pub open spec fn ipr_pri(w: u32, k: u8) -> u8 {
    field(w, ipr_shift(k), 8) as u8
}

/// IPR word `w` with the priority at position `k` replaced by `value`.
pub open spec fn ipr_with_pri(w: u32, k: u8, value: u8) -> u32 {
    with_field(w, ipr_shift(k), 8, value as u32)
}

/// The bit offset of the priority at position `k` of an IPR word.
pub open spec fn ipr_shift(k: u8) -> u32 {
    (8 * k) as u32
}

impl IPR {
    /// The priority of interrupt 4n + `offset`.
    pub fn pri_n(&self, offset: u8) -> (r: u8)
        requires
            offset < 4,
        ensures
            r == ipr_pri(self.0, offset),
    {
        match offset {
            0 => self.pri_n0(),
            1 => self.pri_n1(),
            2 => self.pri_n2(),
            _ => self.pri_n3(),
        }
    }

    /// Sets the priority of interrupt 4n + `offset` to `value`.
    ///
    /// The priority is read back by `pri_n`, and the other three stay.
    pub fn set_pri_n(&mut self, offset: u8, value: u8)
        requires
            offset < 4,
        ensures
            final(self).0 == ipr_with_pri(old(self).0, offset, value),
            ipr_pri(final(self).0, offset) == value,
            forall|j: u8| j < 4 && j != offset ==> ipr_pri(final(self).0, j) == ipr_pri(old(self).0, j),
    {
        match offset {
            0 => self.set_pri_n0(value),
            1 => self.set_pri_n1(value),
            2 => self.set_pri_n2(value),
            _ => self.set_pri_n3(value),
        }
        proof {
            lemma_ipr_pri_update(old(self).0, offset, value);
        }
    }
}

/// A priority written to an IPR word is read back; the other three stay.
pub proof fn lemma_ipr_pri_update(w: u32, k: u8, value: u8)
    requires
        k < 4,
    ensures
        ipr_pri(ipr_with_pri(w, k, value), k) == value,
        forall|j: u8| j < 4 && j != k ==> ipr_pri(ipr_with_pri(w, k, value), j) == ipr_pri(w, j),
{
    crate::bits::lemma_low_mask_values();
    let lo: u32 = ipr_shift(k);
    assert(lo == 0 || lo == 8 || lo == 16 || lo == 24);
    crate::bits::lemma_field_read_after_write(w, lo, 8, value as u32);
    assert((value as u32) & 0xffu32 == value as u32) by (bit_vector);
    assert forall|j: u8| j < 4 && j != k implies ipr_pri(ipr_with_pri(w, k, value), j) == ipr_pri(
        w,
        j,
    ) by {
        let lo2: u32 = ipr_shift(j);
        crate::bits::lemma_field_frame(w, lo, 8, value as u32, lo2, 8);
    }
}

/// Words of the system control space as seen by the NVIC.
pub struct NVICRegs<'a> {
    backing: &'a [u32],
}

impl<'a> View for NVICRegs<'a> {
    type V = Seq<u32>;

    closed spec fn view(&self) -> Seq<u32> {
        self.backing@
    }
}

/// Number of words of the system control space that the NVIC register
/// views cover.
pub const NVIC_WORDS: usize = 0x340;

/// Word index of NVIC register `t`.
pub open spec fn nvic_word(t: NVICRegType) -> int {
    (nvic_offset(t) / 4) as int
}

impl<'a> NVICRegs<'a> {
    /// A read-only NVIC view of `backing`.
    pub fn new(backing: &'a [u32]) -> (r: Self)
        requires
            backing@.len() >= NVIC_WORDS,
        ensures
            r@ == backing@,
    {
        NVICRegs { backing }
    }

    /// Interrupt priority register `n`.
    pub fn get_ipr(&self, n: u8) -> (r: IPR)
        requires
            n <= 123,
            self@.len() >= NVIC_WORDS,
        ensures
            r.0 == self@[nvic_word(NVICRegType::IPR(n))],
    {
        IPR(self.backing[NVICRegType::IPR(n).offset() / 4])
    }

    /// Interrupt set-enable register `n`.
    pub fn get_iser(&self, n: u8) -> (r: ISER)
        requires
            n <= 15,
            self@.len() >= NVIC_WORDS,
        ensures
            r.0 == self@[nvic_word(NVICRegType::ISER(n))],
    {
        ISER(self.backing[NVICRegType::ISER(n).offset() / 4])
    }

    /// Interrupt clear-enable register `n`.
    pub fn get_icer(&self, n: u8) -> (r: ICER)
        requires
            n <= 15,
            self@.len() >= NVIC_WORDS,
        ensures
            r.0 == self@[nvic_word(NVICRegType::ICER(n))],
    {
        ICER(self.backing[NVICRegType::ICER(n).offset() / 4])
    }

    /// Interrupt set-pending register `n`.
    pub fn get_ispr(&self, n: u8) -> (r: ISPR)
        requires
            n <= 15,
            self@.len() >= NVIC_WORDS,
        ensures
            r.0 == self@[nvic_word(NVICRegType::ISPR(n))],
    {
        ISPR(self.backing[NVICRegType::ISPR(n).offset() / 4])
    }

    /// Interrupt clear-pending register `n`.
    pub fn get_icpr(&self, n: u8) -> (r: ICPR)
        requires
            n <= 15,
            self@.len() >= NVIC_WORDS,
        ensures
            r.0 == self@[nvic_word(NVICRegType::ICPR(n))],
    {
        ICPR(self.backing[NVICRegType::ICPR(n).offset() / 4])
    }

    /// Interrupt active bit register `n`.
    pub fn get_iabr(&self, n: u8) -> (r: IABR)
        requires
            n <= 15,
            self@.len() >= NVIC_WORDS,
        ensures
            r.0 == self@[nvic_word(NVICRegType::IABR(n))],
    {
        IABR(self.backing[NVICRegType::IABR(n).offset() / 4])
    }
}

/// How a set of newly set bits of an NVIC register write is reported.
#[derive(Clone, Copy, Debug, PartialEq, Eq, Structural)]
pub enum BitEventKind {
    Enable,
    Disable,
    SetPending,
    ClearPending,
}

/// The event that reports a change of kind `kind` to exception `t`.
pub open spec fn bit_event(kind: BitEventKind, t: ExceptionType) -> Event {
    match kind {
        BitEventKind::Enable => Event::ExceptionEnabled(t, true),
        BitEventKind::Disable => Event::ExceptionEnabled(t, false),
        BitEventKind::SetPending => Event::ExceptionSetPending(t, true),
        BitEventKind::ClearPending => Event::ExceptionSetPending(t, false),
    }
}

/// The events for the set bits among the `k` lowest bits of `m`, lowest
/// first: bit b stands for exception 16 + 32n + b.
pub open spec fn bit_events(m: u32, n: u8, k: nat, kind: BitEventKind) -> Seq<Event>
    decreases k,
{
    if k == 0 {
        Seq::empty()
    } else {
        bit_events(m, n, (k - 1) as nat, kind) + if bit(m, (k - 1) as u32) {
            seq![bit_event(kind, exception_type_of((16 + 32 * n + (k - 1)) as u32))]
        } else {
            Seq::<Event>::empty()
        }
    }
}

/// The events of the set bits of a mask name each exception once per set
/// bit: the event of kind `kind` for the external interrupt of exception
/// number 16 + 32 n + b is among the events for the `k` lowest bits of `m`
/// exactly when bit b is among them and set.
pub proof fn lemma_bit_events(m: u32, n: u8, k: nat, kind: BitEventKind, b: u32)
    requires
        k <= 32,
        b < 32,
        n <= 15,
    ensures
        bit_events(m, n, k, kind).contains(bit_event(kind, ExceptionType::ExternalInterrupt((16 + 32 * n + b) as u32)))
            <==> (b < k && bit(m, b)),
    decreases k,
{
    let e = bit_event(kind, ExceptionType::ExternalInterrupt((16 + 32 * n + b) as u32));
    if k > 0 {
        lemma_bit_events(m, n, (k - 1) as nat, kind, b);
        let pre = bit_events(m, n, (k - 1) as nat, kind);
        let j = (k - 1) as u32;
        let t = exception_type_of((16 + 32 * n + j) as u32);
        assert(t == ExceptionType::ExternalInterrupt((16 + 32 * n + j) as u32));
        let tail = if bit(m, j) {
            seq![bit_event(kind, t)]
        } else {
            Seq::<Event>::empty()
        };
        let all = pre + tail;
        assert(all == bit_events(m, n, k, kind));
        if pre.contains(e) {
            let i = choose|i: int| 0 <= i < pre.len() && pre[i] == e;
            assert(all[i] == e);
        }
        if tail.contains(e) {
            assert(all[pre.len() as int] == e);
        }
        if all.contains(e) {
            let i = choose|i: int| 0 <= i < all.len() && all[i] == e;
            if i < pre.len() {
                assert(pre[i] == e);
            } else {
                assert(tail[i - pre.len()] == e);
            }
        }
        assert(bit_event(kind, t) == e ==> j == b);
    }
}

/// Pushes the events for the set bits of `m`, lowest first.
fn push_bit_events(m: u32, n: u8, kind: BitEventKind, events: &mut VecDeque<Event>)
    requires
        n <= 15,
    ensures
        final(events)@ == old(events)@ + bit_events(m, n, 32, kind),
{
    let mut b: u32 = 0;
    while b < 32
        invariant
            n <= 15,
            b <= 32,
            events@ == old(events)@ + bit_events(m, n, b as nat, kind),
        decreases 32 - b,
    {
        if get_bit(m, b) {
            let typ = ExceptionType::from(16 + 32 * (n as u32) + b);
            let evt = match kind {
                BitEventKind::Enable => Event::ExceptionEnabled(typ, true),
                BitEventKind::Disable => Event::ExceptionEnabled(typ, false),
                BitEventKind::SetPending => Event::ExceptionSetPending(typ, true),
                BitEventKind::ClearPending => Event::ExceptionSetPending(typ, false),
            };
            events.push_back(evt);
        }
        b = b + 1;
        assert(events@ =~= old(events)@ + bit_events(m, n, b as nat, kind));
    }
}

/// Whether a copy of the register word from byte `offset % 4` onwards
/// fills exactly `len` bytes.
pub open spec fn copy_fits(offset: usize, len: nat) -> bool {
    len + offset % 4 == 4
}

/// The write value of a set/clear register write: the upper half of
/// register 15 is ignored.
pub open spec fn masked_write(n: u8, v: u32) -> u32 {
    if n == 15 { v & 0xffffu32 } else { v }
}

/// The bits that a write of `v` newly sets in a register holding `cur`.
pub open spec fn newly_set(cur: u32, v: u32) -> u32 {
    (cur ^ v) & v
}

/// The words after a write of `v` to set/clear register `n` of kind
/// `kind`; `set_t` and `clr_t` are the set and clear registers of the pair.
pub open spec fn pair_write_words(
    w: Seq<u32>,
    set_word: int,
    clr_word: int,
    kind: BitEventKind,
    v: u32,
) -> Seq<u32> {
    match kind {
        BitEventKind::Enable => {
            let m = newly_set(w[set_word], v);
            w.update(set_word, w[set_word] | m).update(clr_word, w[clr_word] | m)
        },
        BitEventKind::SetPending => {
            let m = newly_set(w[set_word], v);
            w.update(set_word, w[set_word] | m).update(clr_word, w[clr_word] | m)
        },
        BitEventKind::Disable => {
            let m = newly_set(w[clr_word], v);
            w.update(clr_word, w[clr_word] & !m).update(set_word, w[set_word] & !m)
        },
        BitEventKind::ClearPending => {
            let m = newly_set(w[clr_word], v);
            w.update(clr_word, w[clr_word] & !m).update(set_word, w[set_word] & !m)
        },
    }
}

/// The events of a write of `v` to a set/clear register pair.
pub open spec fn pair_write_events(
    w: Seq<u32>,
    set_word: int,
    clr_word: int,
    n: u8,
    kind: BitEventKind,
    v: u32,
) -> Seq<Event> {
    match kind {
        BitEventKind::Enable => bit_events(newly_set(w[set_word], v), n, 32, kind),
        BitEventKind::SetPending => bit_events(newly_set(w[set_word], v), n, 32, kind),
        _ => bit_events(newly_set(w[clr_word], v), n, 32, kind),
    }
}

/// Word `w` after the bytes of `src` were written into it from byte `bo`.
pub open spec fn word_with_bytes(w: u32, bo: u32, src: Seq<u8>) -> u32
    decreases src.len(),
{
    if src.len() == 0 {
        w
    } else {
        let last = (src.len() - 1) as int;
        let w1 = word_with_bytes(w, bo, src.subrange(0, last));
        crate::bits::with_byte(w1, (bo + last) as u32, src[last])
    }
}

/// Replacing byte `k` of a word changes that byte alone.
proof fn lemma_with_byte(x: u32, k: u32, b: u8)
    requires
        k < 4,
    ensures
        forall|j: u32| j < 4 ==> #[trigger] byte_of(crate::bits::with_byte(x, k, b), j) == if j == k {
            b
        } else {
            byte_of(x, j)
        },
{
    assert forall|j: u32| j < 4 implies #[trigger] byte_of(crate::bits::with_byte(x, k, b), j) == if j == k {
        b
    } else {
        byte_of(x, j)
    } by {
        assert(((((x & !(0xffu32 << ((k * 8) as u32))) | ((b as u32) << ((k * 8) as u32))) >> ((j * 8) as u32))
            & 0xffu32) as u8 == if j == k {
            b
        } else {
            ((x >> ((j * 8) as u32)) & 0xffu32) as u8
        }) by (bit_vector)
            requires
                k < 4,
                j < 4,
        ;
    }
}

/// Writing bytes into a word from byte `bo` on: those bytes read back, and
/// the other bytes stay.
proof fn lemma_word_with_bytes(w: u32, bo: u32, src: Seq<u8>)
    requires
        bo + src.len() <= 4,
    ensures
        forall|i: int| 0 <= i < src.len() ==> #[trigger] byte_of(word_with_bytes(w, bo, src), (bo + i) as u32) == src[i],
        forall|k: u32| k < 4 && !(bo <= k < bo + src.len()) ==> #[trigger] byte_of(word_with_bytes(w, bo, src), k)
            == byte_of(w, k),
    decreases src.len(),
{
    if src.len() > 0 {
        let last = (src.len() - 1) as int;
        let pre = src.subrange(0, last);
        lemma_word_with_bytes(w, bo, pre);
        let w1 = word_with_bytes(w, bo, pre);
        lemma_with_byte(w1, (bo + last) as u32, src[last]);
        assert forall|i: int| 0 <= i < src.len() implies #[trigger] byte_of(word_with_bytes(w, bo, src), (bo + i) as u32)
            == src[i] by {
            if i < last {
                assert(pre[i] == src[i]);
                assert(byte_of(w1, (bo + i) as u32) == pre[i]);
            }
        }
    }
}

/// Priority bytes written to an IPR register read back (B3.4.9): a write
/// of the bytes from a byte offset to the end of the word, then a read of
/// as many bytes there.
pub proof fn lemma_ipr_read_after_write(w: Seq<u32>, evs: Seq<Event>, offset: usize, src: Seq<u8>, d: Seq<u8>)
    requires
        nvic_lookup(offset) matches Some(NVICRegType::IPR(_)),
        is_aligned((BASE + offset) as u32, src.len() as usize, Alignment::Any),
        copy_fits(offset, src.len()),
        d.len() == src.len(),
        offset / 4 < w.len(),
    ensures
        nvic_write(w, evs, offset, src).0 is Ok,
        nvic_read(nvic_write(w, evs, offset, src).1, offset, d) == (Ok::<(), Error>(()), src),
{
    let wo = (offset / 4) as int;
    let bo = (offset % 4) as u32;
    let x = word_with_bytes(w[wo], bo, src);
    lemma_word_with_bytes(w[wo], bo, src);
    assert(word_bytes(x).subrange(bo as int, 4) =~= src) by {
        assert forall|i: int| 0 <= i < src.len() implies word_bytes(x).subrange(bo as int, 4)[i] == src[i] by {
            assert(byte_of(x, (bo + i) as u32) == src[i]);
        }
    }
}

/// The priority events of an IPR write: one per byte written, byte i
/// setting the priority of interrupt 4n + bo + i, the external interrupt
/// of exception number 16 + 4n + bo + i.
pub open spec fn ipr_write_events(n: u8, bo: u32, src: Seq<u8>) -> Seq<Event> {
    Seq::new(
        src.len(),
        |i: int| Event::ExceptionSetPriority(exception_type_of((16 + 4 * n + bo + i) as u32), src[i]),
    )
}

/// What a read of NVIC register bytes at `offset` into `d` gives: the
/// result and the bytes read (priority registers take byte, halfword or
/// word accesses; the others word accesses only).
pub open spec fn nvic_read(w: Seq<u32>, offset: usize, d: Seq<u8>) -> (Result<(), Error>, Seq<u8>) {
    let address = (BASE + offset) as u32;
    let len = d.len() as usize;
    match nvic_lookup(offset) {
        None => (Err(Error::InvalidSysCtrlReg(address)), d),
        Some(t) => {
            let align = if t is IPR { Alignment::Any } else { Alignment::Word };
            if !is_aligned(address, len, align) {
                (Err(Error::AlignmentViolation(address, len, align)), d)
            } else {
                (Ok(()), word_bytes(w[(offset / 4) as int]).subrange((offset % 4) as int, 4))
            }
        },
    }
}

/// What a write of `src` to the NVIC register bytes at `offset` gives: the
/// result, the words after it and the events after it.
pub open spec fn nvic_write(w: Seq<u32>, evs: Seq<Event>, offset: usize, src: Seq<u8>) -> (
    Result<(), Error>,
    Seq<u32>,
    Seq<Event>,
) {
    let address = (BASE + offset) as u32;
    let len = src.len() as usize;
    let v = write_value_of(src, write_value_len(src));
    if !is_aligned(address, len, Alignment::Any) {
        (Err(Error::AlignmentViolation(address, len, Alignment::Any)), w, evs)
    } else {
        match nvic_lookup(offset) {
            None => (Err(Error::InvalidSysCtrlReg(address)), w, evs),
            Some(NVICRegType::IPR(n)) => (
                Ok(()),
                w.update((offset / 4) as int, word_with_bytes(w[(offset / 4) as int], (offset % 4) as u32, src)),
                evs + ipr_write_events(n, (offset % 4) as u32, src),
            ),
            Some(NVICRegType::IABR(_)) => (Err(Error::WriteAccessViolation(address)), w, evs),
            Some(t) => {
                let (n, set_word, clr_word, kind) = pair_of(t);
                if !is_aligned(address, len, Alignment::Word) {
                    (Err(Error::AlignmentViolation(address, len, Alignment::Word)), w, evs)
                } else {
                    (
                        Ok(()),
                        pair_write_words(w, set_word, clr_word, kind, masked_write(n, v)),
                        evs + pair_write_events(w, set_word, clr_word, n, kind, masked_write(n, v)),
                    )
                }
            },
        }
    }
}

/// NVIC registers within the words of the system control space, writable.
pub struct NVICRegsMut {
    backing: Vec<u32>,
}

impl View for NVICRegsMut {
    type V = Seq<u32>;

    closed spec fn view(&self) -> Seq<u32> {
        self.backing@
    }
}

/// The NVIC register that byte `offset` of the system control space
/// holds, for an offset in the NVIC block.
pub open spec fn nvic_reg_at(offset: usize) -> Option<NVICRegType> {
    if 0x100 <= offset <= 0xd00 { nvic_lookup(offset) } else { None }
}

impl NVICRegsMut {
    /// A writable NVIC view of `backing`.
    pub fn new(backing: Vec<u32>) -> (r: Self)
        requires
            backing@.len() >= NVIC_WORDS,
        ensures
            r@ == backing@,
    {
        NVICRegsMut { backing }
    }

    /// Gives the words back.
    pub fn into_backing(self) -> (r: Vec<u32>)
        ensures
            r@ == self@,
    {
        self.backing
    }

    fn word(&self, idx: usize) -> (r: u32)
        requires
            idx < self@.len(),
        ensures
            r == self@[idx as int],
    {
        self.backing[idx]
    }

    fn set_word(&mut self, idx: usize, v: u32)
        requires
            idx < old(self)@.len(),
        ensures
            final(self)@ == old(self)@.update(idx as int, v),
    {
        self.backing.set(idx, v);
    }

    /// Interrupt priority register `n`.
    pub fn get_ipr(&self, n: u8) -> (r: IPR)
        requires
            n <= 123,
            self@.len() >= NVIC_WORDS,
        ensures
            r.0 == self@[nvic_word(NVICRegType::IPR(n))],
    {
        IPR(self.word(NVICRegType::IPR(n).offset() / 4))
    }

    /// Replaces interrupt priority register `n`.
    pub fn set_ipr(&mut self, n: u8, ipr: IPR)
        requires
            n <= 123,
            old(self)@.len() >= NVIC_WORDS,
        ensures
            final(self)@ == old(self)@.update(nvic_word(NVICRegType::IPR(n)), ipr.0),
    {
        self.set_word(NVICRegType::IPR(n).offset() / 4, ipr.0);
    }

    /// Reads the word of NVIC register `t`.
    pub fn get_reg_word(&self, t: NVICRegType) -> (r: u32)
        requires
            nvic_index_valid(t),
            self@.len() >= NVIC_WORDS,
        ensures
            r == self@[nvic_word(t)],
    {
        self.word(t.offset() / 4)
    }

    /// Replaces the word of NVIC register `t`.
    pub fn set_reg_word(&mut self, t: NVICRegType, v: u32)
        requires
            nvic_index_valid(t),
            old(self)@.len() >= NVIC_WORDS,
        ensures
            final(self)@ == old(self)@.update(nvic_word(t), v),
    {
        self.set_word(t.offset() / 4, v);
    }

    /// Reads NVIC register bytes at `offset` into `dst`. Priority registers
    /// take byte, halfword or word accesses; the others word accesses only.
    pub fn read_bytes(&mut self, offset: usize, dst: &mut [u8], events: &mut VecDeque<Event>) -> (r:
        Result<(), Error>)
        requires
            0x100 <= offset <= 0xd00,
            old(self)@.len() >= NVIC_WORDS,
            (nvic_lookup(offset) matches Some(NVICRegType::IPR(_)) && is_aligned(
                (BASE + offset) as u32,
                old(dst)@.len() as usize,
                Alignment::Any,
            )) ==> copy_fits(offset, old(dst)@.len()),
        ensures
            final(self)@ == old(self)@,
            final(events)@ == old(events)@,
            (r, final(dst)@) == nvic_read(old(self)@, offset, old(dst)@),
    {
        let word_offset = offset / 4;
        let address = BASE + offset as u32;
        let reg_type = match NVICRegType::lookup_offset(offset) {
            Some(t) => t,
            None => {
                return Err(Error::InvalidSysCtrlReg(address));
            },
        };
        let align = match reg_type {
            NVICRegType::IPR(_n) => Alignment::Any,
            _ => Alignment::Word,
        };
        match check_alignment(address, dst.len(), align) {
            Ok(()) => {},
            Err((a, s, e)) => {
                return Err(Error::AlignmentViolation(a, s, e));
            },
        }
        let w = self.word(word_offset);
        let byte_offset = offset % 4;
        proof {
            assert(copy_fits(offset, dst@.len()));
        }
        copy_word_tail(w, byte_offset, dst);
        Ok(())
    }

    /// Writes NVIC register bytes at `offset` from `src`. A priority write
    /// stores the bytes and raises a priority event per byte; a write of
    /// ones to a set or clear register changes the bits that it newly sets,
    /// in both registers of the pair, with an event per bit; the active bit
    /// registers are read-only.
    pub fn write_bytes(&mut self, offset: usize, src: &[u8], events: &mut VecDeque<Event>) -> (r:
        Result<(), Error>)
        requires
            0x100 <= offset <= 0xd00,
            old(self)@.len() >= NVIC_WORDS,
        ensures
            (r, final(self)@, final(events)@) == nvic_write(old(self)@, old(events)@, offset, src@),
    {
        let address = BASE + offset as u32;
        match check_alignment(address, src.len(), Alignment::Any) {
            Ok(()) => {},
            Err((a, s, e)) => {
                return Err(Error::AlignmentViolation(a, s, e));
            },
        }
        let word_offset = offset / 4;
        let reg_type = match NVICRegType::lookup_offset(offset) {
            Some(t) => t,
            None => {
                return Err(Error::InvalidSysCtrlReg(address));
            },
        };
        let write_val = write_value(src);
        match reg_type {
            NVICRegType::IPR(n) => {
                let byte_offset = offset % 4;
                let mut w = self.word(word_offset);
                let mut i: usize = 0;
                while i < src.len()
                    invariant
                        byte_offset == offset % 4,
                        byte_offset + src@.len() <= 4,
                        i <= src@.len(),
                        n <= 123,
                        w == word_with_bytes(old(self)@[(offset / 4) as int], byte_offset as u32, src@.subrange(0, i as int)),
                        events@ == old(events)@ + ipr_write_events(n, byte_offset as u32, src@.subrange(0, i as int)),
                    decreases src@.len() - i,
                {
                    w = put_byte(w, (byte_offset + i) as u32, src[i]);
                    let typ = ExceptionType::from(16 + 4 * (n as u32) + (byte_offset + i) as u32);
                    events.push_back(Event::ExceptionSetPriority(typ, src[i]));
                    i = i + 1;
                    proof {
                        let s = src@.subrange(0, i as int);
                        assert(s.subrange(0, (i - 1) as int) =~= src@.subrange(0, (i - 1) as int));
                        assert(ipr_write_events(n, byte_offset as u32, s) =~= ipr_write_events(
                            n,
                            byte_offset as u32,
                            src@.subrange(0, (i - 1) as int),
                        ).push(Event::ExceptionSetPriority(exception_type_of((16 + 4 * n + byte_offset + (i - 1)) as u32), src@[(i - 1) as int])));
                    }
                }
                assert(src@.subrange(0, src@.len() as int) =~= src@);
                self.set_word(word_offset, w);
            },
            NVICRegType::IABR(_n) => {
                // the active bit registers are read-only
                return Err(Error::WriteAccessViolation(address));
            },
            _ => {
                match check_alignment(address, src.len(), Alignment::Word) {
                    Ok(()) => {},
                    Err((a, s, e)) => {
                        return Err(Error::AlignmentViolation(a, s, e));
                    },
                }
                let (n, set_word, clr_word, kind) = pair_of_exec(reg_type);
                // the upper bits of register 15 are ignored
                let write_val = if n == 15 {
                    write_val & 0xFFFF
                } else {
                    write_val
                };
                match kind {
                    BitEventKind::Enable | BitEventKind::SetPending => {
                        let cur = self.word(set_word);
                        let masked_set_val = (cur ^ write_val) & write_val;
                        push_bit_events(masked_set_val, n, kind, events);
                        self.set_word(set_word, cur | masked_set_val);
                        let other = self.word(clr_word);
                        self.set_word(clr_word, other | masked_set_val);
                    },
                    _ => {
                        let cur = self.word(clr_word);
                        let masked_set_val = (cur ^ write_val) & write_val;
                        push_bit_events(masked_set_val, n, kind, events);
                        self.set_word(clr_word, cur & !masked_set_val);
                        let other = self.word(set_word);
                        self.set_word(set_word, other & !masked_set_val);
                    },
                }
            },
        }
        Ok(())
    }
}

/// For a set/clear register: its index, the words of the set and clear
/// registers of the pair, and how a write to it is reported.
pub open spec fn pair_of(t: NVICRegType) -> (u8, int, int, BitEventKind) {
    match t {
        NVICRegType::ISER(n) => (n, (0x40 + n) as int, (0x60 + n) as int, BitEventKind::Enable),
        NVICRegType::ICER(n) => (n, (0x40 + n) as int, (0x60 + n) as int, BitEventKind::Disable),
        NVICRegType::ISPR(n) => (n, (0x80 + n) as int, (0xa0 + n) as int, BitEventKind::SetPending),
        NVICRegType::ICPR(n) => (n, (0x80 + n) as int, (0xa0 + n) as int, BitEventKind::ClearPending),
        _ => (0, 0, 0, BitEventKind::Enable),
    }
}

fn pair_of_exec(t: NVICRegType) -> (r: (u8, usize, usize, BitEventKind))
    requires
        t matches NVICRegType::ISER(n) ==> n <= 15,
        t matches NVICRegType::ICER(n) ==> n <= 15,
        t matches NVICRegType::ISPR(n) ==> n <= 15,
        t matches NVICRegType::ICPR(n) ==> n <= 15,
    ensures
        r.0 == pair_of(t).0,
        r.1 == pair_of(t).1,
        r.2 == pair_of(t).2,
        r.3 == pair_of(t).3,
{
    match t {
        NVICRegType::ISER(n) => (n, 0x40 + n as usize, 0x60 + n as usize, BitEventKind::Enable),
        NVICRegType::ICER(n) => (n, 0x40 + n as usize, 0x60 + n as usize, BitEventKind::Disable),
        NVICRegType::ISPR(n) => (n, 0x80 + n as usize, 0xa0 + n as usize, BitEventKind::SetPending),
        NVICRegType::ICPR(n) => (n, 0x80 + n as usize, 0xa0 + n as usize, BitEventKind::ClearPending),
        _ => (0, 0, 0, BitEventKind::Enable),
    }
}

/// Copies the bytes of `w` from byte `bo` onwards into `dst`.
pub fn copy_word_tail(w: u32, bo: usize, dst: &mut [u8])
    requires
        bo < 4,
        old(dst)@.len() + bo == 4,
    ensures
        final(dst)@ == word_bytes(w).subrange(bo as int, 4),
{
    let mut i: usize = 0;
    while i < dst.len()
        invariant
            bo < 4,
            dst@.len() + bo == 4,
            i <= dst@.len(),
            forall|j: int| 0 <= j < i ==> dst@[j] == word_bytes(w)[bo + j],
        decreases dst@.len() - i,
    {
        dst[i] = get_byte(w, (bo + i) as u32);
        i = i + 1;
    }
    assert(dst@ =~= word_bytes(w).subrange(bo as int, 4));
}

/// Number of leading elements of `s` that come before `t` in the order of
/// exception types.
pub open spec fn insert_pos(s: Seq<ExceptionType>, t: ExceptionType) -> int
    decreases s.len(),
{
    if s.len() == 0 {
        0
    } else if type_lt(s[0], t) {
        1 + insert_pos(s.drop_first(), t)
    } else {
        0
    }
}

/// `s` with `t` added at its place in the order, unless the element at
/// that place is `t` already.
pub open spec fn sorted_insert(s: Seq<ExceptionType>, t: ExceptionType) -> Seq<ExceptionType> {
    let i = insert_pos(s, t);
    if i < s.len() && s[i] == t {
        s
    } else {
        s.insert(i, t)
    }
}

/// Index of the first `t` in `s`, or the length of `s` when there is none.
pub open spec fn first_index(s: Seq<ExceptionType>, t: ExceptionType) -> int
    decreases s.len(),
{
    if s.len() == 0 {
        0
    } else if s[0] == t {
        0
    } else {
        1 + first_index(s.drop_first(), t)
    }
}

/// `s` without its first `t`, if it has one.
pub open spec fn remove_first(s: Seq<ExceptionType>, t: ExceptionType) -> Seq<ExceptionType> {
    let i = first_index(s, t);
    if i < s.len() {
        s.remove(i)
    } else {
        s
    }
}

/// Strictly increasing in the order of exception types: sorted, with no
/// type twice.
pub open spec fn strictly_sorted(s: Seq<ExceptionType>) -> bool {
    forall|i: int, j: int| 0 <= i < j < s.len() ==> type_lt(s[i], s[j])
}

proof fn lemma_insert_pos_bounds(s: Seq<ExceptionType>, t: ExceptionType)
    ensures
        0 <= insert_pos(s, t) <= s.len(),
        forall|j: int| 0 <= j < insert_pos(s, t) ==> type_lt(#[trigger] s[j], t),
        insert_pos(s, t) < s.len() ==> !type_lt(s[insert_pos(s, t)], t),
    decreases s.len(),
{
    if s.len() > 0 && type_lt(s[0], t) {
        lemma_insert_pos_bounds(s.drop_first(), t);
        assert forall|j: int| 0 <= j < insert_pos(s, t) implies type_lt(#[trigger] s[j], t) by {
            if j > 0 {
                assert(s[j] == s.drop_first()[j - 1]);
            }
        }
    }
}

pub(crate) proof fn lemma_first_index_bounds(s: Seq<ExceptionType>, t: ExceptionType)
    ensures
        0 <= first_index(s, t) <= s.len(),
        forall|j: int| 0 <= j < first_index(s, t) ==> #[trigger] s[j] != t,
        first_index(s, t) < s.len() ==> s[first_index(s, t)] == t,
    decreases s.len(),
{
    if s.len() > 0 && s[0] != t {
        lemma_first_index_bounds(s.drop_first(), t);
        assert forall|j: int| 0 <= j < first_index(s, t) implies #[trigger] s[j] != t by {
            if j > 0 {
                assert(s[j] == s.drop_first()[j - 1]);
            }
        }
    }
}

/// Inserting at the place of an element keeps a strictly sorted sequence
/// strictly sorted, and the result holds exactly the old elements and `t`.
pub proof fn lemma_sorted_insert(s: Seq<ExceptionType>, t: ExceptionType)
    requires
        strictly_sorted(s),
    ensures
        strictly_sorted(sorted_insert(s, t)),
        sorted_insert(s, t).contains(t),
        forall|u: ExceptionType| #[trigger] sorted_insert(s, t).contains(u) <==> (s.contains(u) || u == t),
{
    lemma_insert_pos_bounds(s, t);
    let i = insert_pos(s, t);
    let r = sorted_insert(s, t);
    if !(i < s.len() && s[i] == t) {
        s.insert_ensures(i, t);
        if i < s.len() {
            crate::exception::lemma_type_lt_total(t, s[i]);
            assert(type_lt(t, s[i]));
        }
        assert forall|a: int, b: int| 0 <= a < b < r.len() implies type_lt(r[a], r[b]) by {
            if b < i {
                assert(r[a] == s[a] && r[b] == s[b]);
            } else if b == i {
                assert(r[a] == s[a]);
                assert(r[b] == t);
            } else if a < i {
                assert(r[a] == s[a]);
                assert(r[b] == s[b - 1]);
            } else if a == i {
                assert(r[a] == t);
                assert(r[b] == s[b - 1]);
                if b - 1 > i {
                    assert(type_lt(s[i], s[b - 1]));
                }
            } else {
                assert(r[a] == s[a - 1]);
                assert(r[b] == s[b - 1]);
            }
        }
        assert forall|u: ExceptionType| #[trigger] r.contains(u) <==> (s.contains(u) || u == t) by {
            if r.contains(u) {
                let k = choose|k: int| 0 <= k < r.len() && r[k] == u;
                if k < i {
                    assert(s[k] == u);
                } else if k > i {
                    assert(s[k - 1] == u);
                }
            }
            if s.contains(u) {
                let k = choose|k: int| 0 <= k < s.len() && s[k] == u;
                if k < i {
                    assert(r[k] == u);
                } else {
                    assert(r[k + 1] == u);
                }
            }
            if u == t {
                assert(r[i] == t);
            }
        }
    } else {
        assert(r[i] == t);
    }
}

/// Removing the first `t` from a strictly sorted sequence keeps it strictly
/// sorted, and leaves exactly the other elements.
pub proof fn lemma_remove_first(s: Seq<ExceptionType>, t: ExceptionType)
    requires
        strictly_sorted(s),
    ensures
        strictly_sorted(remove_first(s, t)),
        !remove_first(s, t).contains(t),
        forall|u: ExceptionType| #[trigger] remove_first(s, t).contains(u) <==> (s.contains(u) && u != t),
{
    lemma_first_index_bounds(s, t);
    let i = first_index(s, t);
    let r = remove_first(s, t);
    if i < s.len() {
        s.remove_ensures(i);
        assert forall|a: int, b: int| 0 <= a < b < r.len() implies type_lt(r[a], r[b]) by {
            let a2 = if a < i { a } else { a + 1 };
            let b2 = if b < i { b } else { b + 1 };
            assert(r[a] == s[a2]);
            assert(r[b] == s[b2]);
        }
        assert forall|u: ExceptionType| #[trigger] r.contains(u) <==> (s.contains(u) && u != t) by {
            if r.contains(u) {
                let k = choose|k: int| 0 <= k < r.len() && r[k] == u;
                let k2 = if k < i { k } else { k + 1 };
                assert(s[k2] == u);
                crate::exception::lemma_type_lt_total(s[i], s[k2]);
            }
            if s.contains(u) && u != t {
                let k = choose|k: int| 0 <= k < s.len() && s[k] == u;
                if k < i {
                    assert(r[k] == u);
                } else {
                    assert(k != i);
                    assert(r[k - 1] == u);
                }
            }
        }
    } else {
        assert(!s.contains(t));
    }
}

/// The NVIC's record of enabled, pending and active exceptions, each kept
/// in the order of exception types.
#[derive(Debug)]
pub struct NVICState {
    enabled: Vec<ExceptionType>,
    pending: Vec<ExceptionType>,
    active: Vec<ExceptionType>,
}

impl Clone for NVICState {
    fn clone(&self) -> (r: Self)
        ensures
            r@ == self@,
    {
        NVICState {
            enabled: self.enabled.clone(),
            pending: self.pending.clone(),
            active: self.active.clone(),
        }
    }
}

/// The abstract state of an [`NVICState`]: its enabled, pending and
/// active exceptions.
pub struct NVICStateView {
    pub enabled: Seq<ExceptionType>,
    pub pending: Seq<ExceptionType>,
    pub active: Seq<ExceptionType>,
}

impl View for NVICState {
    type V = NVICStateView;

    closed spec fn view(&self) -> NVICStateView {
        NVICStateView { enabled: self.enabled@, pending: self.pending@, active: self.active@ }
    }
}

/// Whether each of the three lists is strictly sorted.
pub open spec fn nvic_state_wf(v: NVICStateView) -> bool {
    strictly_sorted(v.enabled) && strictly_sorted(v.pending) && strictly_sorted(v.active)
}

/// Inserts `typ` at its place in `v`, unless the element there is `typ`.
fn insert_sorted(v: &mut Vec<ExceptionType>, typ: ExceptionType)
    ensures
        final(v)@ == sorted_insert(old(v)@, typ),
{
    let mut idx: usize = 0;
    assert(v@.subrange(0, v@.len() as int) =~= v@);
    while idx < v.len()
        invariant
            idx <= v@.len(),
            v@ == old(v)@,
            forall|j: int| 0 <= j < idx ==> type_lt(#[trigger] v@[j], typ),
            insert_pos(v@, typ) == idx + insert_pos(v@.subrange(idx as int, v@.len() as int), typ),
        decreases v@.len() - idx,
    {
        let t = v[idx];
        if t.precedes(&typ) {
            proof {
                let rest = v@.subrange(idx as int, v@.len() as int);
                assert(rest[0] == t);
                assert(rest.drop_first() =~= v@.subrange(idx + 1, v@.len() as int));
            }
            idx = idx + 1;
        } else if t == typ {
            proof {
                let rest = v@.subrange(idx as int, v@.len() as int);
                assert(rest[0] == t);
            }
            return;
        } else {
            proof {
                let rest = v@.subrange(idx as int, v@.len() as int);
                assert(rest[0] == t);
            }
            v.insert(idx, typ);
            return;
        }
    }
    proof {
        assert(v@.subrange(idx as int, v@.len() as int).len() == 0);
    }
    v.insert(idx, typ);
}

/// Removes the first `typ` from `v`, if there is one.
pub(crate) fn remove_sorted(v: &mut Vec<ExceptionType>, typ: ExceptionType)
    ensures
        final(v)@ == remove_first(old(v)@, typ),
{
    let mut idx: usize = 0;
    assert(v@.subrange(0, v@.len() as int) =~= v@);
    while idx < v.len()
        invariant
            idx <= v@.len(),
            v@ == old(v)@,
            forall|j: int| 0 <= j < idx ==> #[trigger] v@[j] != typ,
            first_index(v@, typ) == idx + first_index(v@.subrange(idx as int, v@.len() as int), typ),
        decreases v@.len() - idx,
    {
        if v[idx] == typ {
            proof {
                let rest = v@.subrange(idx as int, v@.len() as int);
                assert(rest[0] == typ);
            }
            v.remove(idx);
            return;
        }
        proof {
            let rest = v@.subrange(idx as int, v@.len() as int);
            assert(rest.drop_first() =~= v@.subrange(idx + 1, v@.len() as int));
        }
        idx = idx + 1;
    }
    proof {
        assert(v@.subrange(idx as int, v@.len() as int).len() == 0);
    }
}

/// Whether `v` holds `typ`.
pub fn contains_type(v: &Vec<ExceptionType>, typ: ExceptionType) -> (r: bool)
    ensures
        r == v@.contains(typ),
{
    let mut i: usize = 0;
    while i < v.len()
        invariant
            i <= v@.len(),
            forall|j: int| 0 <= j < i ==> #[trigger] v@[j] != typ,
        decreases v@.len() - i,
    {
        if v[i] == typ {
            return true;
        }
        i = i + 1;
    }
    false
}

impl NVICState {
    /// An NVIC with no enabled, pending or active exception.
    pub fn new() -> (r: Self)
        ensures
            r@.enabled == Seq::<ExceptionType>::empty(),
            r@.pending == Seq::<ExceptionType>::empty(),
            r@.active == Seq::<ExceptionType>::empty(),
    {
        NVICState { enabled: Vec::new(), pending: Vec::new(), active: Vec::new() }
    }

    /// Enables an exception.
    pub fn enable(&mut self, typ: ExceptionType)
        ensures
            final(self)@.enabled == sorted_insert(old(self)@.enabled, typ),
            final(self)@.pending == old(self)@.pending,
            final(self)@.active == old(self)@.active,
    {
        insert_sorted(&mut self.enabled, typ);
    }

    /// Disables an exception.
    pub fn disable(&mut self, typ: ExceptionType)
        ensures
            final(self)@.enabled == remove_first(old(self)@.enabled, typ),
            final(self)@.pending == old(self)@.pending,
            final(self)@.active == old(self)@.active,
    {
        remove_sorted(&mut self.enabled, typ);
    }

    /// Makes an exception pending.
    pub fn set_pending(&mut self, typ: ExceptionType)
        ensures
            final(self)@.pending == sorted_insert(old(self)@.pending, typ),
            final(self)@.enabled == old(self)@.enabled,
            final(self)@.active == old(self)@.active,
    {
        insert_sorted(&mut self.pending, typ);
    }

    /// Clears a pending exception; nothing happens if it is not pending.
    pub fn clr_pending(&mut self, typ: ExceptionType)
        ensures
            final(self)@.pending == remove_first(old(self)@.pending, typ),
            final(self)@.enabled == old(self)@.enabled,
            final(self)@.active == old(self)@.active,
    {
        remove_sorted(&mut self.pending, typ);
    }

    /// Makes a pending exception active: it leaves the pending list and
    /// joins the active one.
    pub fn set_active(&mut self, typ: ExceptionType)
        requires
            old(self)@.pending.contains(typ),
        ensures
            final(self)@.pending == remove_first(old(self)@.pending, typ),
            final(self)@.active == sorted_insert(old(self)@.active, typ),
            final(self)@.enabled == old(self)@.enabled,
    {
        self.clr_pending(typ);
        insert_sorted(&mut self.active, typ);
    }

    /// Clears an active exception; nothing happens if it is not active.
    pub fn clr_active(&mut self, typ: ExceptionType)
        ensures
            final(self)@.active == remove_first(old(self)@.active, typ),
            final(self)@.enabled == old(self)@.enabled,
            final(self)@.pending == old(self)@.pending,
    {
        remove_sorted(&mut self.active, typ);
    }

    /// Whether `typ` is pending.
    pub fn is_pending(&self, typ: ExceptionType) -> (r: bool)
        ensures
            r == self@.pending.contains(typ),
    {
        contains_type(&self.pending, typ)
    }

    /// The active exceptions.
    pub fn active(&self) -> (r: &[ExceptionType])
        ensures
            r@ == self@.active,
    {
        self.active.as_slice()
    }

    /// The pending exceptions.
    pub fn pending(&self) -> (r: &[ExceptionType])
        ensures
            r@ == self@.pending,
    {
        self.pending.as_slice()
    }

    /// The enabled exceptions.
    pub fn enabled(&self) -> (r: &[ExceptionType])
        ensures
            r@ == self@.enabled,
    {
        self.enabled.as_slice()
    }
}

/// Every NVIC operation keeps the three lists strictly sorted; enabling,
/// pending or activating adds the exception and removes nothing; disabling
/// or clearing removes just it.
pub proof fn lemma_nvic_state_ops(v: NVICStateView, t: ExceptionType)
    requires
        nvic_state_wf(v),
    ensures
        strictly_sorted(sorted_insert(v.enabled, t)),
        strictly_sorted(remove_first(v.enabled, t)),
        strictly_sorted(sorted_insert(v.pending, t)),
        strictly_sorted(remove_first(v.pending, t)),
        strictly_sorted(sorted_insert(v.active, t)),
        strictly_sorted(remove_first(v.active, t)),
        forall|u: ExceptionType| #[trigger] sorted_insert(v.enabled, t).contains(u) <==> (v.enabled.contains(u) || u == t),
        forall|u: ExceptionType| #[trigger] remove_first(v.enabled, t).contains(u) <==> (v.enabled.contains(u) && u != t),
        forall|u: ExceptionType| #[trigger] sorted_insert(v.pending, t).contains(u) <==> (v.pending.contains(u) || u == t),
        forall|u: ExceptionType| #[trigger] remove_first(v.pending, t).contains(u) <==> (v.pending.contains(u) && u != t),
        forall|u: ExceptionType| #[trigger] sorted_insert(v.active, t).contains(u) <==> (v.active.contains(u) || u == t),
        forall|u: ExceptionType| #[trigger] remove_first(v.active, t).contains(u) <==> (v.active.contains(u) && u != t),
{
    lemma_sorted_insert(v.enabled, t);
    lemma_remove_first(v.enabled, t);
    lemma_sorted_insert(v.pending, t);
    lemma_remove_first(v.pending, t);
    lemma_sorted_insert(v.active, t);
    lemma_remove_first(v.active, t);
}

} // verus!
