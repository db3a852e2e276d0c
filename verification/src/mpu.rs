//! Memory protection unit registers of the system control space.
use vstd::prelude::*;

use crate::bits::{
    bit, field, get_bit, get_field, lemma_low_mask_values, put_bit, put_field, with_bit, with_field,
};
use crate::regs::RegInfo;

verus! {

/// MPU register enumeration; the regions 0 to 3 have a base address and an
/// attribute register each.
#[derive(Clone, Copy, Debug, PartialEq, Eq, Hash, Structural)]
pub enum MPURegType {
    TYPE,
    CTRL,
    RNR,
    RBAR(u8),
    RASR(u8),
}

/// State of the memory protection unit. It holds nothing yet.
#[derive(Clone, Copy, Debug, PartialEq, Eq, Structural)]
pub struct MPUState {}

impl MPUState {
    /// The initial MPU state.
    pub fn default() -> (r: Self)
        ensures
            r == (MPUState {}),
    {
        MPUState {  }
    }
}

/// Whether `offset` (in 0xd90 to 0xdec) is one that the MPU register map
/// decides: a register offset or the reserved tail from 0xdbc.
pub open spec fn mpu_offset_known(offset: usize) -> bool {
    offset % 4 == 0 || offset >= 0xdbc
}

/// The MPU register at byte offset `offset`.
pub open spec fn mpu_lookup(offset: usize) -> Option<MPURegType> {
    if offset == 0xd90 {
        Some(MPURegType::TYPE)
    } else if offset == 0xd94 {
        Some(MPURegType::CTRL)
    } else if offset == 0xd98 {
        Some(MPURegType::RNR)
    } else if 0xd9c <= offset < 0xdbc {
        if (offset - 0xd9c) % 8 == 0 {
            Some(MPURegType::RBAR(((offset - 0xd9c) / 8) as u8))
        } else {
            Some(MPURegType::RASR(((offset - 0xda0) / 8) as u8))
        }
    } else {
        None
    }
}

/// Whether the MPU register is one that the map defines: regions 0 to 3.
pub open spec fn mpu_reg_valid(t: MPURegType) -> bool {
    match t {
        MPURegType::RBAR(n) => n < 4,
        MPURegType::RASR(n) => n < 4,
        _ => true,
    }
}

/// Byte offset of a defined MPU register.
pub open spec fn mpu_offset(t: MPURegType) -> usize {
    match t {
        MPURegType::TYPE => 0xd90,
        MPURegType::CTRL => 0xd94,
        MPURegType::RNR => 0xd98,
        MPURegType::RBAR(n) => (0xd9c + 8 * n) as usize,
        MPURegType::RASR(n) => (0xda0 + 8 * n) as usize,
    }
}

impl MPURegType {
    /// The register at byte offset `offset` of the MPU block.
    pub fn lookup_offset(offset: usize) -> (r: Option<MPURegType>)
        requires
            0xd90 <= offset <= 0xdec,
            mpu_offset_known(offset),
        ensures
            r == mpu_lookup(offset),
    {
        match offset {
            0xd90 => Some(MPURegType::TYPE),
            0xd94 => Some(MPURegType::CTRL),
            0xd98 => Some(MPURegType::RNR),
            0xd9c => Some(MPURegType::RBAR(0)),
            0xda0 => Some(MPURegType::RASR(0)),
            0xda4 => Some(MPURegType::RBAR(1)),
            0xda8 => Some(MPURegType::RASR(1)),
            0xdac => Some(MPURegType::RBAR(2)),
            0xdb0 => Some(MPURegType::RASR(2)),
            0xdb4 => Some(MPURegType::RBAR(3)),
            0xdb8 => Some(MPURegType::RASR(3)),
            _ => None,
        }
    }

    /// The register's byte offset in the system control space.
    pub fn offset(&self) -> (r: usize)
        requires
            mpu_reg_valid(*self),
        ensures
            r == mpu_offset(*self),
    {
        self._data().offset
    }

    /// Access permissions (read, write, execute bits): TYPE is read-only.
    pub fn permissions(&self) -> (r: u8)
        requires
            mpu_reg_valid(*self),
        ensures
            r == (if *self == MPURegType::TYPE { 0b100u8 } else { 0b110u8 }),
    {
        self._data().perms
    }

    /// Reset value: 0 for the CTRL register, none for the others.
    pub fn reset_value(&self) -> (r: Option<u32>)
        requires
            mpu_reg_valid(*self),
        ensures
            r == (if *self == MPURegType::CTRL { Some(0u32) } else { None }),
    {
        self._data().reset
    }

    fn _data(&self) -> (r: RegInfo)
        requires
            mpu_reg_valid(*self),
        ensures
            r.offset == mpu_offset(*self),
            r.perms == (if *self == MPURegType::TYPE { 0b100u8 } else { 0b110u8 }),
            r.reset == (if *self == MPURegType::CTRL { Some(0u32) } else { None }),
    {
        match self {
            MPURegType::TYPE => RegInfo { offset: 0xd90, perms: 0b100, reset: None },
            MPURegType::CTRL => RegInfo { offset: 0xd94, perms: 0b110, reset: Some(0) },
            MPURegType::RNR => RegInfo { offset: 0xd98, perms: 0b110, reset: None },
            MPURegType::RBAR(n) => RegInfo { offset: 0xd9c + 8 * (*n as usize), perms: 0b110, reset: None },
            MPURegType::RASR(n) => RegInfo { offset: 0xda0 + 8 * (*n as usize), perms: 0b110, reset: None },
        }
    }
}

/// A defined MPU register's offset finds it again; an offset finds only the
/// register that lies there.
pub proof fn lemma_mpu_lookup_offset(t: MPURegType, offset: usize)
    requires
        0xd90 <= offset <= 0xdec,
        mpu_offset_known(offset),
    ensures
        mpu_reg_valid(t) ==> mpu_lookup(mpu_offset(t)) == Some(t),
        mpu_lookup(offset) matches Some(u) ==> mpu_reg_valid(u) && mpu_offset(u) == offset,
{
}

/// An MPU register value, with its type (and region).
#[derive(Clone, Copy, Debug, PartialEq, Eq, Structural)]
pub enum MPUReg {
    TYPE(TYPE),
    CTRL(CTRL),
    RNR(RNR),
    RBAR(u8, RBAR),
    RASR(u8, RASR),
}

/// Words of the system control space as seen by the MPU.
pub struct MPURegs {
    backing: Vec<u32>,
}

impl View for MPURegs {
    type V = Seq<u32>;

    closed spec fn view(&self) -> Seq<u32> {
        self.backing@
    }
}

/// Number of words that the MPU register view covers.
pub const MPU_WORDS: usize = 0xdec;

impl MPURegs {
    /// The MPU registers within `backing`.
    pub fn new(backing: Vec<u32>) -> (r: Self)
        requires
            backing@.len() >= MPU_WORDS,
        ensures
            r@ == backing@,
    {
        MPURegs { backing }
    }

    fn word_of(&self, t: MPURegType) -> (r: u32)
        requires
            mpu_reg_valid(t),
            self@.len() >= MPU_WORDS,
        ensures
            r == self@[(mpu_offset(t) / 4) as int],
    {
        self.backing[t.offset() / 4]
    }

    /// The value of register `regtype`.
    pub fn get_reg_ref(&self, regtype: MPURegType) -> (r: MPUReg)
        requires
            mpu_reg_valid(regtype),
            self@.len() >= MPU_WORDS,
        ensures
            r == (match regtype {
                MPURegType::TYPE => MPUReg::TYPE(TYPE(self@[(mpu_offset(regtype) / 4) as int])),
                MPURegType::CTRL => MPUReg::CTRL(CTRL(self@[(mpu_offset(regtype) / 4) as int])),
                MPURegType::RNR => MPUReg::RNR(RNR(self@[(mpu_offset(regtype) / 4) as int])),
                MPURegType::RBAR(n) => MPUReg::RBAR(n, RBAR(self@[(mpu_offset(regtype) / 4) as int])),
                MPURegType::RASR(n) => MPUReg::RASR(n, RASR(self@[(mpu_offset(regtype) / 4) as int])),
            }),
    {
        let w = self.word_of(regtype);
        match regtype {
            MPURegType::TYPE => MPUReg::TYPE(TYPE(w)),
            MPURegType::CTRL => MPUReg::CTRL(CTRL(w)),
            MPURegType::RNR => MPUReg::RNR(RNR(w)),
            MPURegType::RBAR(n) => MPUReg::RBAR(n, RBAR(w)),
            MPURegType::RASR(n) => MPUReg::RASR(n, RASR(w)),
        }
    }

    /// Writes the value of an MPU register back to its word.
    pub fn set_reg(&mut self, reg: MPUReg)
        requires
            old(self)@.len() >= MPU_WORDS,
            reg matches MPUReg::RBAR(n, _) ==> n < 4,
            reg matches MPUReg::RASR(n, _) ==> n < 4,
        ensures
            final(self)@ == old(self)@.update(
                (mpu_offset(mpu_type_of(reg)) / 4) as int,
                mpu_word_of(reg),
            ),
    {
        let (t, w) = match reg {
            MPUReg::TYPE(r) => (MPURegType::TYPE, r.0),
            MPUReg::CTRL(r) => (MPURegType::CTRL, r.0),
            MPUReg::RNR(r) => (MPURegType::RNR, r.0),
            MPUReg::RBAR(n, r) => (MPURegType::RBAR(n), r.0),
            MPUReg::RASR(n, r) => (MPURegType::RASR(n), r.0),
        };
        let idx = t.offset() / 4;
        self.backing.set(idx, w);
    }
}

/// The register type of an MPU register value.
pub open spec fn mpu_type_of(reg: MPUReg) -> MPURegType {
    match reg {
        MPUReg::TYPE(_) => MPURegType::TYPE,
        MPUReg::CTRL(_) => MPURegType::CTRL,
        MPUReg::RNR(_) => MPURegType::RNR,
        MPUReg::RBAR(n, _) => MPURegType::RBAR(n),
        MPUReg::RASR(n, _) => MPURegType::RASR(n),
    }
}

/// The word of an MPU register value.
pub open spec fn mpu_word_of(reg: MPUReg) -> u32 {
    match reg {
        MPUReg::TYPE(r) => r.0,
        MPUReg::CTRL(r) => r.0,
        MPUReg::RNR(r) => r.0,
        MPUReg::RBAR(_, r) => r.0,
        MPUReg::RASR(_, r) => r.0,
    }
}

/// MPU type register (B3.5.5).
#[derive(Clone, Copy, Debug, PartialEq, Eq, Structural)]
pub struct TYPE(pub u32);

impl TYPE {
    /// The register with every field at its reset default.
    pub fn new() -> (r: Self)
        ensures
            r.0 == 0x0u32,
    {
        TYPE(0x0)
    }

    /// The register holding the raw word `bits`.
    pub fn from_bits(bits: u32) -> (r: Self)
        ensures
            r.0 == bits,
    {
        TYPE(bits)
    }

    /// The raw word of the register.
    pub fn into_bits(self) -> (r: u32)
        ensures
            r == self.0,
    {
        self.0
    }

    /// Bit 0 (`separate`).
    pub fn separate(&self) -> (r: bool)
        ensures
            r == bit(self.0, 0),
    {
        get_bit(self.0, 0)
    }

    /// Sets bit 0 (`separate`).
    pub fn set_separate(&mut self, value: bool)
        ensures
            final(self).0 == with_bit(old(self).0, 0, value),
    {
        self.0 = put_bit(self.0, 0, value);
    }

    /// Bits 8..16 (`dregion`).
    pub fn dregion(&self) -> (r: u8)
        ensures
            r == field(self.0, 8, 8),
    {
        let v = get_field(self.0, 8, 8);
        proof { lemma_low_mask_values(); }
        v as u8
    }

    /// Sets bits 8..16 (`dregion`) to the low bits of `value`.
    pub fn set_dregion(&mut self, value: u8)
        ensures
            final(self).0 == with_field(old(self).0, 8, 8, value as u32),
    {
        self.0 = put_field(self.0, 8, 8, value as u32);
    }

    /// Bits 16..24 (`iregion`).
    pub fn iregion(&self) -> (r: u8)
        ensures
            r == field(self.0, 16, 8),
    {
        let v = get_field(self.0, 16, 8);
        proof { lemma_low_mask_values(); }
        v as u8
    }

    /// Sets bits 16..24 (`iregion`) to the low bits of `value`.
    pub fn set_iregion(&mut self, value: u8)
        ensures
            final(self).0 == with_field(old(self).0, 16, 8, value as u32),
    {
        self.0 = put_field(self.0, 16, 8, value as u32);
    }
}

/// MPU control register (B3.5.6).
#[derive(Clone, Copy, Debug, PartialEq, Eq, Structural)]
pub struct CTRL(pub u32);

impl CTRL {
    /// The register with every field at its reset default.
    pub fn new() -> (r: Self)
        ensures
            r.0 == 0x0u32,
    {
        CTRL(0x0)
    }

    /// The register holding the raw word `bits`.
    pub fn from_bits(bits: u32) -> (r: Self)
        ensures
            r.0 == bits,
    {
        CTRL(bits)
    }

    /// The raw word of the register.
    pub fn into_bits(self) -> (r: u32)
        ensures
            r == self.0,
    {
        self.0
    }

    /// Bit 0 (`enable`).
    pub fn enable(&self) -> (r: bool)
        ensures
            r == bit(self.0, 0),
    {
        get_bit(self.0, 0)
    }

    /// Sets bit 0 (`enable`).
    pub fn set_enable(&mut self, value: bool)
        ensures
            final(self).0 == with_bit(old(self).0, 0, value),
    {
        self.0 = put_bit(self.0, 0, value);
    }

    /// Bit 1 (`hfnmiena`).
    pub fn hfnmiena(&self) -> (r: bool)
        ensures
            r == bit(self.0, 1),
    {
        get_bit(self.0, 1)
    }

    /// Sets bit 1 (`hfnmiena`).
    pub fn set_hfnmiena(&mut self, value: bool)
        ensures
            final(self).0 == with_bit(old(self).0, 1, value),
    {
        self.0 = put_bit(self.0, 1, value);
    }

    /// Bit 2 (`privdefena`).
    pub fn privdefena(&self) -> (r: bool)
        ensures
            r == bit(self.0, 2),
    {
        get_bit(self.0, 2)
    }

    /// Sets bit 2 (`privdefena`).
    pub fn set_privdefena(&mut self, value: bool)
        ensures
            final(self).0 == with_bit(old(self).0, 2, value),
    {
        self.0 = put_bit(self.0, 2, value);
    }
}

/// MPU region number register (B3.5.7).
#[derive(Clone, Copy, Debug, PartialEq, Eq, Structural)]
pub struct RNR(pub u32);

impl RNR {
    /// The register with every field at its reset default.
    pub fn new() -> (r: Self)
        ensures
            r.0 == 0x0u32,
    {
        RNR(0x0)
    }

    /// The register holding the raw word `bits`.
    pub fn from_bits(bits: u32) -> (r: Self)
        ensures
            r.0 == bits,
    {
        RNR(bits)
    }

    /// The raw word of the register.
    pub fn into_bits(self) -> (r: u32)
        ensures
            r == self.0,
    {
        self.0
    }

    /// Bits 0..8 (`region`).
    pub fn region(&self) -> (r: u8)
        ensures
            r == field(self.0, 0, 8),
    {
        let v = get_field(self.0, 0, 8);
        proof { lemma_low_mask_values(); }
        v as u8
    }

    /// Sets bits 0..8 (`region`) to the low bits of `value`.
    pub fn set_region(&mut self, value: u8)
        ensures
            final(self).0 == with_field(old(self).0, 0, 8, value as u32),
    {
        self.0 = put_field(self.0, 0, 8, value as u32);
    }
}

/// MPU region base address register (B3.5.8).
#[derive(Clone, Copy, Debug, PartialEq, Eq, Structural)]
pub struct RBAR(pub u32);

impl RBAR {
    /// The register with every field at its reset default.
    pub fn new() -> (r: Self)
        ensures
            r.0 == 0x0u32,
    {
        RBAR(0x0)
    }

    /// The register holding the raw word `bits`.
    pub fn from_bits(bits: u32) -> (r: Self)
        ensures
            r.0 == bits,
    {
        RBAR(bits)
    }

    /// The raw word of the register.
    pub fn into_bits(self) -> (r: u32)
        ensures
            r == self.0,
    {
        self.0
    }

    /// Bits 0..4 (`region`).
    pub fn region(&self) -> (r: u8)
        ensures
            r == field(self.0, 0, 4),
    {
        let v = get_field(self.0, 0, 4);
        proof { lemma_low_mask_values(); }
        v as u8
    }

    /// Sets bits 0..4 (`region`) to the low bits of `value`.
    pub fn set_region(&mut self, value: u8)
        ensures
            final(self).0 == with_field(old(self).0, 0, 4, value as u32),
    {
        self.0 = put_field(self.0, 0, 4, value as u32);
    }

    /// Bit 4 (`valid`).
    pub fn valid(&self) -> (r: bool)
        ensures
            r == bit(self.0, 4),
    {
        get_bit(self.0, 4)
    }

    /// Sets bit 4 (`valid`).
    pub fn set_valid(&mut self, value: bool)
        ensures
            final(self).0 == with_bit(old(self).0, 4, value),
    {
        self.0 = put_bit(self.0, 4, value);
    }

    /// Bits 5..32 (`addr`).
    pub fn addr(&self) -> (r: u32)
        ensures
            r == field(self.0, 5, 27),
    {
        get_field(self.0, 5, 27)
    }

    /// Sets bits 5..32 (`addr`) to the low bits of `value`.
    pub fn set_addr(&mut self, value: u32)
        ensures
            final(self).0 == with_field(old(self).0, 5, 27, value as u32),
    {
        self.0 = put_field(self.0, 5, 27, value as u32);
    }
}

/// MPU region attribute and size register (B3.5.9).
#[derive(Clone, Copy, Debug, PartialEq, Eq, Structural)]
pub struct RASR(pub u32);

impl RASR {
    /// The register with every field at its reset default.
    pub fn new() -> (r: Self)
        ensures
            r.0 == 0x0u32,
    {
        RASR(0x0)
    }

    /// The register holding the raw word `bits`.
    pub fn from_bits(bits: u32) -> (r: Self)
        ensures
            r.0 == bits,
    {
        RASR(bits)
    }

    /// The raw word of the register.
    pub fn into_bits(self) -> (r: u32)
        ensures
            r == self.0,
    {
        self.0
    }

    /// Bit 0 (`enable`).
    pub fn enable(&self) -> (r: bool)
        ensures
            r == bit(self.0, 0),
    {
        get_bit(self.0, 0)
    }

    /// Sets bit 0 (`enable`).
    pub fn set_enable(&mut self, value: bool)
        ensures
            final(self).0 == with_bit(old(self).0, 0, value),
    {
        self.0 = put_bit(self.0, 0, value);
    }

    /// Bits 1..6 (`size`).
    pub fn size(&self) -> (r: u32)
        ensures
            r == field(self.0, 1, 5),
    {
        get_field(self.0, 1, 5)
    }

    /// Sets bits 1..6 (`size`) to the low bits of `value`.
    pub fn set_size(&mut self, value: u32)
        ensures
            final(self).0 == with_field(old(self).0, 1, 5, value as u32),
    {
        self.0 = put_field(self.0, 1, 5, value as u32);
    }

    /// Bits 8..16 (`srd`).
    pub fn srd(&self) -> (r: u8)
        ensures
            r == field(self.0, 8, 8),
    {
        let v = get_field(self.0, 8, 8);
        proof { lemma_low_mask_values(); }
        v as u8
    }

    /// Sets bits 8..16 (`srd`) to the low bits of `value`.
    pub fn set_srd(&mut self, value: u8)
        ensures
            final(self).0 == with_field(old(self).0, 8, 8, value as u32),
    {
        self.0 = put_field(self.0, 8, 8, value as u32);
    }

    /// Bit 16 (`b`).
    pub fn b(&self) -> (r: bool)
        ensures
            r == bit(self.0, 16),
    {
        get_bit(self.0, 16)
    }

    /// Sets bit 16 (`b`).
    pub fn set_b(&mut self, value: bool)
        ensures
            final(self).0 == with_bit(old(self).0, 16, value),
    {
        self.0 = put_bit(self.0, 16, value);
    }

    /// Bit 17 (`c`).
    pub fn c(&self) -> (r: bool)
        ensures
            r == bit(self.0, 17),
    {
        get_bit(self.0, 17)
    }

    /// Sets bit 17 (`c`).
    pub fn set_c(&mut self, value: bool)
        ensures
            final(self).0 == with_bit(old(self).0, 17, value),
    {
        self.0 = put_bit(self.0, 17, value);
    }

    /// Bit 18 (`s`).
    pub fn s(&self) -> (r: bool)
        ensures
            r == bit(self.0, 18),
    {
        get_bit(self.0, 18)
    }

    /// Sets bit 18 (`s`).
    pub fn set_s(&mut self, value: bool)
        ensures
            final(self).0 == with_bit(old(self).0, 18, value),
    {
        self.0 = put_bit(self.0, 18, value);
    }

    /// Bits 19..22 (`tex`).
    pub fn tex(&self) -> (r: u8)
        ensures
            r == field(self.0, 19, 3),
    {
        let v = get_field(self.0, 19, 3);
        proof { lemma_low_mask_values(); }
        v as u8
    }

    /// Sets bits 19..22 (`tex`) to the low bits of `value`.
    pub fn set_tex(&mut self, value: u8)
        ensures
            final(self).0 == with_field(old(self).0, 19, 3, value as u32),
    {
        self.0 = put_field(self.0, 19, 3, value as u32);
    }

    /// Bits 24..27 (`ap`).
    pub fn ap(&self) -> (r: u8)
        ensures
            r == field(self.0, 24, 3),
    {
        let v = get_field(self.0, 24, 3);
        proof { lemma_low_mask_values(); }
        v as u8
    }

    /// Sets bits 24..27 (`ap`) to the low bits of `value`.
    pub fn set_ap(&mut self, value: u8)
        ensures
            final(self).0 == with_field(old(self).0, 24, 3, value as u32),
    {
        self.0 = put_field(self.0, 24, 3, value as u32);
    }

    /// Bit 28 (`xn`).
    pub fn xn(&self) -> (r: bool)
        ensures
            r == bit(self.0, 28),
    {
        get_bit(self.0, 28)
    }

    /// Sets bit 28 (`xn`).
    pub fn set_xn(&mut self, value: bool)
        ensures
            final(self).0 == with_bit(old(self).0, 28, value),
    {
        self.0 = put_bit(self.0, 28, value);
    }
}


} // verus!
