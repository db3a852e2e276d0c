//! Special-purpose registers of the processor core: CONTROL, the
//! priority masks, and the program status register with its views.
use vstd::prelude::*;
use crate::bits::{bit, field, get_bit, get_field, lemma_low_mask_values, put_bit, put_field, with_bit, with_field};

verus! {

/// Special-purpose CONTROL register (B1.4.4): thread privilege, stack
/// selection and floating-point context activity.
#[derive(Clone, Copy, Debug, PartialEq, Eq, Structural)]
pub struct CONTROL(pub u32);

impl CONTROL {
    /// The register with every field at its reset default.
    pub fn new() -> (r: Self)
        ensures
            r.0 == 0x0u32,
    {
        CONTROL(0x0)
    }

    /// The register holding the raw word `bits`.
    pub fn from_bits(bits: u32) -> (r: Self)
        ensures
            r.0 == bits,
    {
        CONTROL(bits)
    }

    /// The raw word of the register.
    pub fn into_bits(self) -> (r: u32)
        ensures
            r == self.0,
    {
        self.0
    }

    /// Bit 0 (`npriv`).
    pub fn npriv(&self) -> (r: bool)
        ensures
            r == bit(self.0, 0),
    {
        get_bit(self.0, 0)
    }

    /// Sets bit 0 (`npriv`).
    pub fn set_npriv(&mut self, value: bool)
        ensures
            final(self).0 == with_bit(old(self).0, 0, value),
    {
        self.0 = put_bit(self.0, 0, value);
    }

    /// Bit 1 (`spsel`).
    pub fn spsel(&self) -> (r: bool)
        ensures
            r == bit(self.0, 1),
    {
        get_bit(self.0, 1)
    }

    /// Sets bit 1 (`spsel`).
    pub fn set_spsel(&mut self, value: bool)
        ensures
            final(self).0 == with_bit(old(self).0, 1, value),
    {
        self.0 = put_bit(self.0, 1, value);
    }

    /// Bit 2 (`fpca`).
    pub fn fpca(&self) -> (r: bool)
        ensures
            r == bit(self.0, 2),
    {
        get_bit(self.0, 2)
    }

    /// Sets bit 2 (`fpca`).
    pub fn set_fpca(&mut self, value: bool)
        ensures
            final(self).0 == with_bit(old(self).0, 2, value),
    {
        self.0 = put_bit(self.0, 2, value);
    }
}

/// Special-purpose PRIMASK register (B1.4.3). When set, the execution
/// priority is raised to 0.
#[derive(Clone, Copy, Debug, PartialEq, Eq, Structural)]
pub struct PRIMASK(pub u32);

impl PRIMASK {
    /// The register with every field at its reset default.
    pub fn new() -> (r: Self)
        ensures
            r.0 == 0x0u32,
    {
        PRIMASK(0x0)
    }

    /// The register holding the raw word `bits`.
    pub fn from_bits(bits: u32) -> (r: Self)
        ensures
            r.0 == bits,
    {
        PRIMASK(bits)
    }

    /// The raw word of the register.
    pub fn into_bits(self) -> (r: u32)
        ensures
            r == self.0,
    {
        self.0
    }

    /// Bit 0 (`pm`).
    pub fn pm(&self) -> (r: bool)
        ensures
            r == bit(self.0, 0),
    {
        get_bit(self.0, 0)
    }

    /// Sets bit 0 (`pm`).
    pub fn set_pm(&mut self, value: bool)
        ensures
            final(self).0 == with_bit(old(self).0, 0, value),
    {
        self.0 = put_bit(self.0, 0, value);
    }
}

/// Special-purpose FAULTMASK register (B1.4.3). When set, the execution
/// priority is raised to -1.
#[derive(Clone, Copy, Debug, PartialEq, Eq, Structural)]
pub struct FAULTMASK(pub u32);

impl FAULTMASK {
    /// The register with every field at its reset default.
    pub fn new() -> (r: Self)
        ensures
            r.0 == 0x0u32,
    {
        FAULTMASK(0x0)
    }

    /// The register holding the raw word `bits`.
    pub fn from_bits(bits: u32) -> (r: Self)
        ensures
            r.0 == bits,
    {
        FAULTMASK(bits)
    }

    /// The raw word of the register.
    pub fn into_bits(self) -> (r: u32)
        ensures
            r == self.0,
    {
        self.0
    }

    /// Bit 0 (`fm`).
    pub fn fm(&self) -> (r: bool)
        ensures
            r == bit(self.0, 0),
    {
        get_bit(self.0, 0)
    }

    /// Sets bit 0 (`fm`).
    pub fn set_fm(&mut self, value: bool)
        ensures
            final(self).0 == with_bit(old(self).0, 0, value),
    {
        self.0 = put_bit(self.0, 0, value);
    }
}

/// Special-purpose BASEPRI register (B1.4.3). A nonzero value masks
/// exceptions of lower or equal priority.
#[derive(Clone, Copy, Debug, PartialEq, Eq, Structural)]
pub struct BASEPRI(pub u32);

impl BASEPRI {
    /// The register with every field at its reset default.
    pub fn new() -> (r: Self)
        ensures
            r.0 == 0x0u32,
    {
        BASEPRI(0x0)
    }

    /// The register holding the raw word `bits`.
    pub fn from_bits(bits: u32) -> (r: Self)
        ensures
            r.0 == bits,
    {
        BASEPRI(bits)
    }

    /// The raw word of the register.
    pub fn into_bits(self) -> (r: u32)
        ensures
            r == self.0,
    {
        self.0
    }

    /// Bits 0..8 (`basepri`).
    pub fn basepri(&self) -> (r: u8)
        ensures
            r == field(self.0, 0, 8),
    {
        let v = get_field(self.0, 0, 8);
        proof { lemma_low_mask_values(); }
        v as u8
    }

    /// Sets bits 0..8 (`basepri`) to the low bits of `value`.
    pub fn set_basepri(&mut self, value: u8)
        ensures
            final(self).0 == with_field(old(self).0, 0, 8, value as u32),
    {
        self.0 = put_field(self.0, 0, 8, value as u32);
    }
}

/// Application program status register (A2.3.2): condition flags,
/// saturation flag and the SIMD greater-or-equal flags.
#[derive(Clone, Copy, Debug, PartialEq, Eq, Structural)]
pub struct APSR(pub u32);

impl APSR {
    /// The register with every field at its reset default.
    pub fn new() -> (r: Self)
        ensures
            r.0 == 0x0u32,
    {
        APSR(0x0)
    }

    /// The register holding the raw word `bits`.
    pub fn from_bits(bits: u32) -> (r: Self)
        ensures
            r.0 == bits,
    {
        APSR(bits)
    }

    /// The raw word of the register.
    pub fn into_bits(self) -> (r: u32)
        ensures
            r == self.0,
    {
        self.0
    }

    /// Bits 16..20 (`ge`).
    pub fn ge(&self) -> (r: u8)
        ensures
            r == field(self.0, 16, 4),
    {
        let v = get_field(self.0, 16, 4);
        proof { lemma_low_mask_values(); }
        v as u8
    }

    /// Sets bits 16..20 (`ge`) to the low bits of `value`.
    pub fn set_ge(&mut self, value: u8)
        ensures
            final(self).0 == with_field(old(self).0, 16, 4, value as u32),
    {
        self.0 = put_field(self.0, 16, 4, value as u32);
    }

    /// Bit 27 (`q`).
    pub fn q(&self) -> (r: bool)
        ensures
            r == bit(self.0, 27),
    {
        get_bit(self.0, 27)
    }

    /// Sets bit 27 (`q`).
    pub fn set_q(&mut self, value: bool)
        ensures
            final(self).0 == with_bit(old(self).0, 27, value),
    {
        self.0 = put_bit(self.0, 27, value);
    }

    /// Bit 28 (`v`).
    pub fn v(&self) -> (r: bool)
        ensures
            r == bit(self.0, 28),
    {
        get_bit(self.0, 28)
    }

    /// Sets bit 28 (`v`).
    pub fn set_v(&mut self, value: bool)
        ensures
            final(self).0 == with_bit(old(self).0, 28, value),
    {
        self.0 = put_bit(self.0, 28, value);
    }

    /// Bit 29 (`c`).
    pub fn c(&self) -> (r: bool)
        ensures
            r == bit(self.0, 29),
    {
        get_bit(self.0, 29)
    }

    /// Sets bit 29 (`c`).
    pub fn set_c(&mut self, value: bool)
        ensures
            final(self).0 == with_bit(old(self).0, 29, value),
    {
        self.0 = put_bit(self.0, 29, value);
    }

    /// Bit 30 (`z`).
    pub fn z(&self) -> (r: bool)
        ensures
            r == bit(self.0, 30),
    {
        get_bit(self.0, 30)
    }

    /// Sets bit 30 (`z`).
    pub fn set_z(&mut self, value: bool)
        ensures
            final(self).0 == with_bit(old(self).0, 30, value),
    {
        self.0 = put_bit(self.0, 30, value);
    }

    /// Bit 31 (`n`).
    pub fn n(&self) -> (r: bool)
        ensures
            r == bit(self.0, 31),
    {
        get_bit(self.0, 31)
    }

    /// Sets bit 31 (`n`).
    pub fn set_n(&mut self, value: bool)
        ensures
            final(self).0 == with_bit(old(self).0, 31, value),
    {
        self.0 = put_bit(self.0, 31, value);
    }
}

/// Interrupt program status register: the number of the exception being
/// handled, 0 in thread mode.
#[derive(Clone, Copy, Debug, PartialEq, Eq, Structural)]
pub struct IPSR(pub u32);

impl IPSR {
    /// The register with every field at its reset default.
    pub fn new() -> (r: Self)
        ensures
            r.0 == 0x0u32,
    {
        IPSR(0x0)
    }

    /// The register holding the raw word `bits`.
    pub fn from_bits(bits: u32) -> (r: Self)
        ensures
            r.0 == bits,
    {
        IPSR(bits)
    }

    /// The raw word of the register.
    pub fn into_bits(self) -> (r: u32)
        ensures
            r == self.0,
    {
        self.0
    }

    /// Bits 0..9 (`exception_number`).
    pub fn exception_number(&self) -> (r: u32)
        ensures
            r == field(self.0, 0, 9),
    {
        get_field(self.0, 0, 9)
    }

    /// Sets bits 0..9 (`exception_number`) to the low bits of `value`.
    pub fn set_exception_number(&mut self, value: u32)
        ensures
            final(self).0 == with_field(old(self).0, 0, 9, value as u32),
    {
        self.0 = put_field(self.0, 0, 9, value as u32);
    }
}

/// Execution program status register: the Thumb bit and the ICI/IT bits.
#[derive(Clone, Copy, Debug, PartialEq, Eq, Structural)]
pub struct EPSR(pub u32);

impl EPSR {
    /// The register with every field at its reset default.
    pub fn new() -> (r: Self)
        ensures
            r.0 == 0x0u32,
    {
        EPSR(0x0)
    }

    /// The register holding the raw word `bits`.
    pub fn from_bits(bits: u32) -> (r: Self)
        ensures
            r.0 == bits,
    {
        EPSR(bits)
    }

    /// The raw word of the register.
    pub fn into_bits(self) -> (r: u32)
        ensures
            r == self.0,
    {
        self.0
    }

    /// Bit 24 (`t`).
    pub fn t(&self) -> (r: bool)
        ensures
            r == bit(self.0, 24),
    {
        get_bit(self.0, 24)
    }

    /// Sets bit 24 (`t`).
    pub fn set_t(&mut self, value: bool)
        ensures
            final(self).0 == with_bit(old(self).0, 24, value),
    {
        self.0 = put_bit(self.0, 24, value);
    }
}

/// Special-purpose program status register xPSR (B1.4.2): one word that
/// combines the APSR, IPSR and EPSR views.
///
/// The condition flags are kept by the instruction semantics, not here.
#[derive(Clone, Copy, Debug, PartialEq, Eq, Structural)]
pub struct XPSR(pub u32);

impl XPSR {
    /// The word seen as the IPSR.
    pub fn ipsr(&self) -> (r: IPSR)
        ensures
            r.0 == self.0,
    {
        IPSR(self.0)
    }

    /// Replaces the word by the given IPSR view.
    pub fn set_ipsr(&mut self, ipsr: IPSR)
        ensures
            final(self).0 == ipsr.0,
    {
        self.0 = ipsr.0;
    }

    /// The word seen as the EPSR.
    pub fn epsr(&self) -> (r: EPSR)
        ensures
            r.0 == self.0,
    {
        EPSR(self.0)
    }

    /// Replaces the word by the given EPSR view.
    pub fn set_epsr(&mut self, epsr: EPSR)
        ensures
            final(self).0 == epsr.0,
    {
        self.0 = epsr.0;
    }
}

impl EPSR {
    /// The word seen as the IT execution state.
    pub fn itstate(&self) -> (r: ITSTATE)
        ensures
            r.0 == self.0,
    {
        ITSTATE(self.0)
    }

    /// Replaces the word by the given IT execution state view.
    pub fn set_itstate(&mut self, it: ITSTATE)
        ensures
            final(self).0 == it.0,
    {
        self.0 = it.0;
    }
}

/// The eight IT bits as they lie in a status word: IT[1:0] in bits 26:25
/// and IT[7:2] in bits 15:10.
pub open spec fn it_bits(word: u32) -> u8 {
    (((word & 0x0000fc00u32) >> 8u32) | ((word & 0x06000000u32) >> 25u32)) as u8
}

/// `word` with its IT bits replaced by `val`.
pub open spec fn with_it_bits(word: u32, val: u8) -> u32 {
    (word & !0x0600fc00u32) | ((((val as u32) & 0x03u32) << 25u32) | (((val as u32) & 0xfcu32) << 8u32))
}

/// If-Then execution state bits of the Thumb IT instruction, read from a
/// status word.
#[derive(Clone, Copy, Debug, PartialEq, Eq, Structural)]
pub struct ITSTATE(pub u32);

impl ITSTATE {
    /// The current IT state as its eight architectural bits.
    pub fn value(&self) -> (r: u8)
        ensures
            r == it_bits(self.0),
    {
        (((self.0 & 0x0000fc00) >> 8) | ((self.0 & 0x06000000) >> 25)) as u8
    }

    /// Stores the eight IT bits `val`; the other bits of the word stay.
    ///
    /// What is stored is read back: `value()` then returns `val`.
    pub fn set(&mut self, val: u8)
        ensures
            final(self).0 == with_it_bits(old(self).0, val),
            it_bits(final(self).0) == val,
            final(self).0 & !0x0600fc00u32 == old(self).0 & !0x0600fc00u32,
    {
        let v = val as u32;
        self.0 = self.0 & !0x0600fc00u32;
        self.0 = self.0 | (((v & 0x03) << 25) | ((v & 0xfc) << 8));
        proof {
            lemma_it_bits_round_trip(old(self).0, val);
        }
    }

    /// The IT block size and low condition bits: IT[4:0].
    pub fn code(&self) -> (r: u8)
        ensures
            r == it_bits(self.0) & 0x1fu8,
    {
        self.value() & 0b11111
    }

    /// Replaces IT[4:0] by the low five bits of `val`, keeping IT[7:5].
    pub fn set_code(&mut self, val: u8)
        ensures
            it_bits(final(self).0) == (val & 0x1fu8) | (it_bits(old(self).0) & 0xe0u8),
            final(self).0 & !0x0600fc00u32 == old(self).0 & !0x0600fc00u32,
    {
        let masked = self.value() & 0b11100000;
        self.set((val & 0b11111) | masked);
    }

    /// The base condition of the IT block: IT[7:5].
    pub fn base_cond(&self) -> (r: u8)
        ensures
            r == (it_bits(self.0) & 0xe0u8) >> 5u8,
    {
        (self.value() & 0b11100000) >> 5
    }

    /// Replaces IT[7:5] by the low three bits of `val`, keeping IT[4:0].
    pub fn set_base_cond(&mut self, val: u8)
        ensures
            it_bits(final(self).0) == (((val & 0x7u8) << 5u8) | (it_bits(old(self).0) & 0x1fu8)),
            final(self).0 & !0x0600fc00u32 == old(self).0 & !0x0600fc00u32,
    {
        let masked = self.value() & 0b00011111;
        self.set(((val & 0b111) << 5) | masked);
    }

    /// The IT state whose eight bits are `value`, all other bits clear.
    pub fn from_value(value: u8) -> (r: Self)
        ensures
            r.0 == with_it_bits(0, value),
            it_bits(r.0) == value,
    {
        let mut val = ITSTATE(0);
        val.set(value);
        val
    }
}

/// Storing IT bits and reading them back gives what was stored.
pub proof fn lemma_it_bits_round_trip(word: u32, val: u8)
    ensures
        it_bits(with_it_bits(word, val)) == val,
        with_it_bits(word, val) & !0x0600fc00u32 == word & !0x0600fc00u32,
{
    let v = val as u32;
    assert(v < 256);
    let w2 = (word & !0x0600fc00u32) | (((v & 0x03u32) << 25u32) | ((v & 0xfcu32) << 8u32));
    assert((((w2 & 0x0000fc00u32) >> 8u32) | ((w2 & 0x06000000u32) >> 25u32)) == v
        && w2 & !0x0600fc00u32 == word & !0x0600fc00u32) by (bit_vector)
        requires
            v < 256,
            w2 == (word & !0x0600fc00u32) | (((v & 0x03u32) << 25u32) | ((v & 0xfcu32) << 8u32)),
    ;
}

/// The six ICI bits as they are read from a status word: bits 15:10.
///
/// Bits 26:25 are shifted past the eight-bit result and so never show.
pub open spec fn ici_bits(word: u32) -> u8 {
    (((word & 0x0000fc00u32) >> 10u32) | ((word & 0x06000000u32) >> 15u32)) as u8
}

/// `word` with the ICI bits replaced by `val`.
pub open spec fn with_ici_bits(word: u32, val: u8) -> u32 {
    (word & !0x0600fc00u32) | ((((val as u32) & 0xc0u32) << 15u32) | (((val as u32) & 0x3fu32) << 10u32))
}

/// Interrupt-continuable instruction bits: the register from which an
/// interrupted load or store multiple resumes.
#[derive(Clone, Copy, Debug, PartialEq, Eq, Structural)]
pub struct ICI(pub u32);

impl ICI {
    /// The ICI bits of the word.
    pub fn value(&self) -> (r: u8)
        ensures
            r == ici_bits(self.0),
            r == (self.0 >> 10u32) & 0x3fu32,
    {
        proof {
            let w = self.0;
            assert((((w & 0x0000fc00u32) >> 10u32) | ((w & 0x06000000u32) >> 15u32)) as u8
                == (w >> 10u32) & 0x3fu32) by (bit_vector);
        }
        (((self.0 & 0x0000fc00) >> 10) | ((self.0 & 0x06000000) >> 15)) as u8
    }

    /// Stores the ICI bits `val`. Only bits 5:2 of `val` (the register
    /// number) may be set.
    pub fn set(&mut self, val: u8)
        requires
            val & 0xc3u8 == 0,
        ensures
            final(self).0 == with_ici_bits(old(self).0, val),
            ici_bits(final(self).0) == val,
            final(self).0 & !0x0600fc00u32 == old(self).0 & !0x0600fc00u32,
    {
        let v = val as u32;
        self.0 = self.0 & !0x0600fc00u32;
        self.0 = self.0 | (((v & 0xc0) << 15) | ((v & 0x3f) << 10));
        proof {
            let w = old(self).0;
            let w2 = self.0;
            assert(v & 0xc3u32 == 0) by (bit_vector)
                requires
                    val & 0xc3u8 == 0,
                    v == val as u32,
            ;
            assert((((w2 & 0x0000fc00u32) >> 10u32) | ((w2 & 0x06000000u32) >> 15u32)) as u8 == v
                && w2 & !0x0600fc00u32 == w & !0x0600fc00u32) by (bit_vector)
                requires
                    v < 256,
                    v & 0xc3u32 == 0,
                    w2 == (w & !0x0600fc00u32) | (((v & 0xc0u32) << 15u32) | ((v & 0x3fu32) << 10u32)),
            ;
        }
    }

    /// The register number to resume from: ICI bits 5:2.
    pub fn reg_num(&self) -> (r: u8)
        ensures
            r == (ici_bits(self.0) & 0x3cu8) >> 2u8,
    {
        (self.value() & 0b00111100) >> 2
    }

    /// Replaces the register number by the low four bits of `val`. The two
    /// low ICI bits of the word must be clear, as `set` demands.
    pub fn set_reg_num(&mut self, val: u8)
        requires
            ici_bits(old(self).0) & 0x03u8 == 0,
        ensures
            ici_bits(final(self).0) == (val & 0xfu8) << 2u8,
            final(self).0 & !0x0600fc00u32 == old(self).0 & !0x0600fc00u32,
    {
        let cur = self.value();
        let masked = cur & 0b11000011;
        let v = ((val & 0xf) << 2) | masked;
        proof {
            let w = old(self).0;
            assert(masked == 0) by (bit_vector)
                requires
                    masked == cur & 0xc3u8,
                    cur & 0x03u8 == 0,
                    cur == (w >> 10u32) & 0x3fu32,
            ;
            assert(v & 0xc3u8 == 0 && v == (val & 0xfu8) << 2u8) by (bit_vector)
                requires
                    v == ((val & 0xfu8) << 2u8) | masked,
                    masked == 0,
            ;
        }
        self.set(v);
    }

    /// The ICI state holding `value`. Only bits 5:2 of `value` may be set.
    pub fn from_value(value: u8) -> (r: Self)
        requires
            value & 0xc3u8 == 0,
        ensures
            r.0 == with_ici_bits(0, value),
            ici_bits(r.0) == value,
    {
        let mut val = ICI(0);
        val.set(value);
        val
    }
}

/// Event register (B1.5.18): set when an event occurred since it was last
/// cleared; a WFE instruction clears it.
#[derive(Clone, Copy, Debug, PartialEq, Eq, Structural)]
pub struct EVENT(pub bool);

} // verus!
