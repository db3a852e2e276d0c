//! System control block registers and the register map of the system
//! control space.
use vstd::prelude::*;

use crate::bits::{
    bit, field, get_bit, get_field, lemma_low_mask_values, put_bit, put_field, with_bit, with_field,
};
use crate::dcb::{debug_lookup, DebugRegType};
use crate::events::Event;
use crate::exception::ExceptionType;
use crate::faults::{BusFault, Fault, HardFault, MemFault, UsgFault};
use crate::mpu::{mpu_lookup, mpu_offset_known, MPUReg, MPURegType};
use crate::nvic::{nvic_lookup, NVICRegType};
use crate::systick::{systick_lookup, SysTickReg, SysTickRegType};

verus! {

/// Placement, permissions and reset value of a register.
#[derive(Clone, Copy, Debug, PartialEq, Eq, Structural)]
pub struct RegInfo {
    pub offset: usize,
    pub perms: u8,
    pub reset: Option<u32>,
}

/// System control register enumeration.
#[derive(Clone, Copy, Debug, PartialEq, Eq, Hash, Structural)]
pub enum SCRegType {
    /// cpuid base register
    CPUID,
    /// interrupt control and state register
    ICSR,
    /// vector table offset register
    VTOR,
    /// application interrupt and reset control register
    AIRCR,
    /// system control register
    SCR,
    /// configuration and control register
    CCR,
    /// system handler priority register 1 (with handler number)
    SHPR1(u8),
    /// system handler priority register 2 (with handler number)
    SHPR2(u8),
    /// system handler priority register 3 (with handler number)
    SHPR3(u8),
    /// system handler control and state register
    SHCSR,
    /// configurable fault status register
    CFSR,
    /// hardfault status register
    HFSR,
    /// debug fault status register
    DFSR,
    /// memmanage fault address register
    MMFAR,
    /// busfault address register
    BFAR,
    /// auxiliary fault status register
    AFSR,
    /// coprocessor access control register
    CPACR,
    /// floating point context control register
    FPCCR,
    /// floating point context address register
    FPCAR,
    /// floating point default status control register
    FPDSCR,
    /// media and fp feature register 0
    MVFR0,
    /// media and fp feature register 1
    MVFR1,
    /// media and fp feature register 2
    MVFR2,
    /// main control register, reserved
    MCR,
    /// interrupt controller type register
    ICTR,
    /// auxiliary control register
    ACTLR,
    /// software triggered interrupt register
    STIR,
    /// systick register
    SysTick(SysTickRegType),
    /// nvic register
    NVIC(NVICRegType),
    /// mpu register
    MPU(MPURegType),
    /// debug register
    Debug(DebugRegType),
    /// peripheral identification register 4
    PID4,
    /// peripheral identification register 5
    PID5,
    /// peripheral identification register 6
    PID6,
    /// peripheral identification register 7
    PID7,
    /// peripheral identification register 0
    PID0,
    /// peripheral identification register 1
    PID1,
    /// peripheral identification register 2
    PID2,
    /// peripheral identification register 3
    PID3,
    /// component identification register 0
    CID0,
    /// component identification register 1
    CID1,
    /// component identification register 2
    CID2,
    /// component identification register 3
    CID3,
}

/// Whether `offset` can be looked up: it lies in the 4KB space, and in the
/// MPU block it is a register offset or in the reserved tail.
pub open spec fn sc_lookup_ok(offset: usize) -> bool {
    &&& offset < 0x1000
    &&& (0xd90 <= offset <= 0xdef ==> offset <= 0xdec && mpu_offset_known(offset))
}

/// The register at byte offset `offset` of the system control space.
pub open spec fn sc_lookup(offset: usize) -> Option<SCRegType> {
    if offset == 0xd00 {
        Some(SCRegType::CPUID)
    } else if offset == 0xd04 {
        Some(SCRegType::ICSR)
    } else if offset == 0xd08 {
        Some(SCRegType::VTOR)
    } else if offset == 0xd0c {
        Some(SCRegType::AIRCR)
    } else if offset == 0xd10 {
        Some(SCRegType::SCR)
    } else if offset == 0xd14 {
        Some(SCRegType::CCR)
    } else if 0xd18 <= offset <= 0xd1b {
        Some(SCRegType::SHPR1((offset - 0xd18 + 4) as u8))
    } else if 0xd1c <= offset <= 0xd1f {
        Some(SCRegType::SHPR2((offset - 0xd1c + 8) as u8))
    } else if 0xd20 <= offset <= 0xd23 {
        Some(SCRegType::SHPR3((offset - 0xd20 + 12) as u8))
    } else if offset == 0xd24 {
        Some(SCRegType::SHCSR)
    } else if offset == 0xd28 {
        Some(SCRegType::CFSR)
    } else if offset == 0xd2c {
        Some(SCRegType::HFSR)
    } else if offset == 0xd30 {
        Some(SCRegType::DFSR)
    } else if offset == 0xd34 {
        Some(SCRegType::MMFAR)
    } else if offset == 0xd38 {
        Some(SCRegType::BFAR)
    } else if offset == 0xd3c {
        Some(SCRegType::AFSR)
    } else if offset == 0xd88 {
        Some(SCRegType::CPACR)
    } else if offset == 0xf34 {
        Some(SCRegType::FPCCR)
    } else if offset == 0xf38 {
        Some(SCRegType::FPCAR)
    } else if offset == 0xf3c {
        Some(SCRegType::FPDSCR)
    } else if offset == 0xf40 {
        Some(SCRegType::MVFR0)
    } else if offset == 0xf44 {
        Some(SCRegType::MVFR1)
    } else if offset == 0xf48 {
        Some(SCRegType::MVFR2)
    } else if offset == 0x000 {
        Some(SCRegType::MCR)
    } else if offset == 0x004 {
        Some(SCRegType::ICTR)
    } else if offset == 0x008 {
        Some(SCRegType::ACTLR)
    } else if offset == 0xf00 {
        Some(SCRegType::STIR)
    } else if offset == 0xfd0 {
        Some(SCRegType::PID4)
    } else if offset == 0xfd4 {
        Some(SCRegType::PID5)
    } else if offset == 0xfd8 {
        Some(SCRegType::PID6)
    } else if offset == 0xfdc {
        Some(SCRegType::PID7)
    } else if offset == 0xfe0 {
        Some(SCRegType::PID0)
    } else if offset == 0xfe4 {
        Some(SCRegType::PID1)
    } else if offset == 0xfe8 {
        Some(SCRegType::PID2)
    } else if offset == 0xfec {
        Some(SCRegType::PID3)
    } else if offset == 0xff0 {
        Some(SCRegType::CID0)
    } else if offset == 0xff4 {
        Some(SCRegType::CID1)
    } else if offset == 0xff8 {
        Some(SCRegType::CID2)
    } else if offset == 0xffc {
        Some(SCRegType::CID3)
    } else if 0x010 <= offset <= 0x0ff {
        match systick_lookup(offset) {
            Some(t) => Some(SCRegType::SysTick(t)),
            None => None,
        }
    } else if 0x100 <= offset <= 0xcff {
        match nvic_lookup(offset) {
            Some(t) => Some(SCRegType::NVIC(t)),
            None => None,
        }
    } else if 0xd90 <= offset <= 0xdef {
        match mpu_lookup(offset) {
            Some(t) => Some(SCRegType::MPU(t)),
            None => None,
        }
    } else if 0xdf0 <= offset <= 0xeff {
        match debug_lookup(offset) {
            Some(t) => Some(SCRegType::Debug(t)),
            None => None,
        }
    } else {
        None
    }
}

/// Placement, permissions and reset value of a system control block
/// register; none for the registers whose data is not defined (the
/// floating-point registers and the blocks of other units).
pub open spec fn sc_data(t: SCRegType) -> Option<(usize, u8, Option<u32>)> {
    match t {
        SCRegType::CPUID => Some((0xd00usize, 0b100u8, None)),
        SCRegType::ICSR => Some((0xd04usize, 0b110u8, Some(0u32))),
        SCRegType::VTOR => Some((0xd08usize, 0b110u8, Some(0u32))),
        SCRegType::AIRCR => Some((0xd0cusize, 0b110u8, Some(0u32))),
        SCRegType::SCR => Some((0xd10usize, 0b110u8, Some(0u32))),
        SCRegType::CCR => Some((0xd14usize, 0b110u8, None)),
        SCRegType::SHPR1(_) => Some((0xd18usize, 0b110u8, Some(0u32))),
        SCRegType::SHPR2(_) => Some((0xd1cusize, 0b110u8, Some(0u32))),
        SCRegType::SHPR3(_) => Some((0xd20usize, 0b110u8, Some(0u32))),
        SCRegType::SHCSR => Some((0xd24usize, 0b110u8, Some(0u32))),
        SCRegType::CFSR => Some((0xd28usize, 0b110u8, Some(0u32))),
        SCRegType::HFSR => Some((0xd2cusize, 0b110u8, Some(0u32))),
        SCRegType::DFSR => Some((0xd30usize, 0b110u8, Some(0u32))),
        SCRegType::MMFAR => Some((0xd34usize, 0b110u8, None)),
        SCRegType::BFAR => Some((0xd38usize, 0b110u8, None)),
        SCRegType::AFSR => Some((0xd3cusize, 0b110u8, None)),
        SCRegType::CPACR => Some((0xd88usize, 0b110u8, None)),
        SCRegType::MCR => Some((0x000usize, 0b110u8, Some(0u32))),
        SCRegType::ICTR => Some((0x004usize, 0b100u8, None)),
        SCRegType::ACTLR => Some((0x008usize, 0b110u8, None)),
        SCRegType::STIR => Some((0xf00usize, 0b010u8, None)),
        SCRegType::PID4 => Some((0xfd0usize, 0b100u8, None)),
        SCRegType::PID5 => Some((0xfd4usize, 0b100u8, None)),
        SCRegType::PID6 => Some((0xfd8usize, 0b100u8, None)),
        SCRegType::PID7 => Some((0xfdcusize, 0b100u8, None)),
        SCRegType::PID0 => Some((0xfe0usize, 0b100u8, None)),
        SCRegType::PID1 => Some((0xfe4usize, 0b100u8, None)),
        SCRegType::PID2 => Some((0xfe8usize, 0b100u8, None)),
        SCRegType::PID3 => Some((0xfecusize, 0b100u8, None)),
        SCRegType::CID0 => Some((0xff0usize, 0b100u8, None)),
        SCRegType::CID1 => Some((0xff4usize, 0b100u8, None)),
        SCRegType::CID2 => Some((0xff8usize, 0b100u8, None)),
        SCRegType::CID3 => Some((0xffcusize, 0b100u8, None)),
        _ => None,
    }
}

/// The byte offset of a register with defined data.
pub open spec fn sc_offset(t: SCRegType) -> usize {
    sc_data(t).unwrap().0
}

/// The register that the offset of `t` finds: the handler priority
/// registers are found with their first handler number.
pub open spec fn sc_canonical(t: SCRegType) -> SCRegType {
    match t {
        SCRegType::SHPR1(_) => SCRegType::SHPR1(4),
        SCRegType::SHPR2(_) => SCRegType::SHPR2(8),
        SCRegType::SHPR3(_) => SCRegType::SHPR3(12),
        _ => t,
    }
}

/// The registers that `iter` lists from the word offsets below `4 * n`.
pub open spec fn sc_iter(n: nat) -> Seq<SCRegType>
    decreases n,
{
    if n == 0 {
        Seq::empty()
    } else {
        sc_iter((n - 1) as nat) + match sc_lookup((4 * (n - 1)) as usize) {
            Some(t) => seq![t],
            None => Seq::<SCRegType>::empty(),
        }
    }
}

impl SCRegType {
    /// The register's address.
    pub fn address(&self) -> (r: u64)
        requires
            sc_data(*self) is Some,
        ensures
            r == 0xe000e000 + sc_offset(*self),
    {
        0xe000e000u64 + (self._data().offset as u64)
    }

    /// The register's byte offset in the system control space.
    pub fn offset(&self) -> (r: usize)
        requires
            sc_data(*self) is Some,
        ensures
            r == sc_offset(*self),
    {
        self._data().offset
    }

    /// The register's reset value, if the architecture defines one.
    pub fn reset(&self) -> (r: Option<u32>)
        requires
            sc_data(*self) is Some,
        ensures
            r == sc_data(*self).unwrap().2,
    {
        self._data().reset
    }

    /// The register's access permissions (read, write, execute bits).
    pub fn permissions(&self) -> (r: u8)
        requires
            sc_data(*self) is Some,
        ensures
            r == sc_data(*self).unwrap().1,
    {
        self._data().perms
    }

    /// The register at `address`, which must lie in the system control space.
    pub fn lookup_address(address: u64) -> (r: Option<Self>)
        requires
            address >= 0xe000e000,
            sc_lookup_ok((address - 0xe000e000) as usize),
        ensures
            r == sc_lookup((address - 0xe000e000) as usize),
    {
        let offset = address - 0xe000e000u64;
        Self::lookup_offset(offset as usize)
    }

    /// Every register of the space, by word offset.
    pub fn iter() -> (r: Vec<Self>)
        ensures
            r@ == sc_iter(0x400),
    {
        let mut types: Vec<Self> = Vec::new();
        let mut i: usize = 0;
        while i < 0x400
            invariant
                i <= 0x400,
                types@ == sc_iter(i as nat),
            decreases 0x400 - i,
        {
            let offset = 4 * i;
            assert(offset % 4 == 0);
            match Self::lookup_offset(offset) {
                Some(t) => {
                    types.push(t);
                },
                None => {},
            }
            i = i + 1;
        }
        types
    }

    /// The register at byte offset `offset`, if any.
    pub fn lookup_offset(offset: usize) -> (r: Option<Self>)
        requires
            sc_lookup_ok(offset),
        ensures
            r == sc_lookup(offset),
    {
        match offset {
            0xd00 => Some(SCRegType::CPUID),
            0xd04 => Some(SCRegType::ICSR),
            0xd08 => Some(SCRegType::VTOR),
            0xd0c => Some(SCRegType::AIRCR),
            0xd10 => Some(SCRegType::SCR),
            0xd14 => Some(SCRegType::CCR),
            0xd18..=0xd1b => Some(SCRegType::SHPR1((offset - 0xd18 + 4) as u8)),
            0xd1c..=0xd1f => Some(SCRegType::SHPR2((offset - 0xd1c + 8) as u8)),
            0xd20..=0xd23 => Some(SCRegType::SHPR3((offset - 0xd20 + 12) as u8)),
            0xd24 => Some(SCRegType::SHCSR),
            0xd28 => Some(SCRegType::CFSR),
            0xd2c => Some(SCRegType::HFSR),
            0xd30 => Some(SCRegType::DFSR),
            0xd34 => Some(SCRegType::MMFAR),
            0xd38 => Some(SCRegType::BFAR),
            0xd3c => Some(SCRegType::AFSR),
            0xd88 => Some(SCRegType::CPACR),
            0xf34 => Some(SCRegType::FPCCR),
            0xf38 => Some(SCRegType::FPCAR),
            0xf3c => Some(SCRegType::FPDSCR),
            0xf40 => Some(SCRegType::MVFR0),
            0xf44 => Some(SCRegType::MVFR1),
            0xf48 => Some(SCRegType::MVFR2),
            0x000 => Some(SCRegType::MCR),
            0x004 => Some(SCRegType::ICTR),
            0x008 => Some(SCRegType::ACTLR),
            0xf00 => Some(SCRegType::STIR),
            0xfd0 => Some(SCRegType::PID4),
            0xfd4 => Some(SCRegType::PID5),
            0xfd8 => Some(SCRegType::PID6),
            0xfdc => Some(SCRegType::PID7),
            0xfe0 => Some(SCRegType::PID0),
            0xfe4 => Some(SCRegType::PID1),
            0xfe8 => Some(SCRegType::PID2),
            0xfec => Some(SCRegType::PID3),
            0xff0 => Some(SCRegType::CID0),
            0xff4 => Some(SCRegType::CID1),
            0xff8 => Some(SCRegType::CID2),
            0xffc => Some(SCRegType::CID3),
            0x010..=0x0ff => match SysTickRegType::lookup_offset(offset) {
                Some(t) => Some(SCRegType::SysTick(t)),
                None => None,
            },
            0x100..=0xcff => match NVICRegType::lookup_offset(offset) {
                Some(t) => Some(SCRegType::NVIC(t)),
                None => None,
            },
            0xd90..=0xdef => match MPURegType::lookup_offset(offset) {
                Some(t) => Some(SCRegType::MPU(t)),
                None => None,
            },
            0xdf0..=0xeff => match DebugRegType::lookup_offset(offset) {
                Some(t) => Some(SCRegType::Debug(t)),
                None => None,
            },
            _ => None,
        }
    }

    fn _data(&self) -> (r: RegInfo)
        requires
            sc_data(*self) is Some,
        ensures
            (r.offset, r.perms, r.reset) == sc_data(*self).unwrap(),
    {
        match self {
            SCRegType::CPUID => RegInfo { offset: 0xd00, perms: 0b100, reset: None },
            SCRegType::ICSR => RegInfo { offset: 0xd04, perms: 0b110, reset: Some(0x0) },
            SCRegType::VTOR => RegInfo { offset: 0xd08, perms: 0b110, reset: Some(0x0) },
            SCRegType::AIRCR => RegInfo { offset: 0xd0c, perms: 0b110, reset: Some(0x0) },
            SCRegType::SCR => RegInfo { offset: 0xd10, perms: 0b110, reset: Some(0x0) },
            SCRegType::CCR => RegInfo { offset: 0xd14, perms: 0b110, reset: None },
            SCRegType::SHPR1(_) => RegInfo { offset: 0xd18, perms: 0b110, reset: Some(0x0) },
            SCRegType::SHPR2(_) => RegInfo { offset: 0xd1c, perms: 0b110, reset: Some(0x0) },
            SCRegType::SHPR3(_) => RegInfo { offset: 0xd20, perms: 0b110, reset: Some(0x0) },
            SCRegType::SHCSR => RegInfo { offset: 0xd24, perms: 0b110, reset: Some(0x0) },
            SCRegType::CFSR => RegInfo { offset: 0xd28, perms: 0b110, reset: Some(0x0) },
            SCRegType::HFSR => RegInfo { offset: 0xd2c, perms: 0b110, reset: Some(0x0) },
            SCRegType::DFSR => RegInfo { offset: 0xd30, perms: 0b110, reset: Some(0x0) },
            SCRegType::MMFAR => RegInfo { offset: 0xd34, perms: 0b110, reset: None },
            SCRegType::BFAR => RegInfo { offset: 0xd38, perms: 0b110, reset: None },
            SCRegType::AFSR => RegInfo { offset: 0xd3c, perms: 0b110, reset: None },
            SCRegType::CPACR => RegInfo { offset: 0xd88, perms: 0b110, reset: None },
            SCRegType::MCR => RegInfo { offset: 0x000, perms: 0b110, reset: Some(0x0) },
            SCRegType::ICTR => RegInfo { offset: 0x004, perms: 0b100, reset: None },
            SCRegType::ACTLR => RegInfo { offset: 0x008, perms: 0b110, reset: None },
            SCRegType::STIR => RegInfo { offset: 0xf00, perms: 0b010, reset: None },
            SCRegType::PID4 => RegInfo { offset: 0xfd0, perms: 0b100, reset: None },
            SCRegType::PID5 => RegInfo { offset: 0xfd4, perms: 0b100, reset: None },
            SCRegType::PID6 => RegInfo { offset: 0xfd8, perms: 0b100, reset: None },
            SCRegType::PID7 => RegInfo { offset: 0xfdc, perms: 0b100, reset: None },
            SCRegType::PID0 => RegInfo { offset: 0xfe0, perms: 0b100, reset: None },
            SCRegType::PID1 => RegInfo { offset: 0xfe4, perms: 0b100, reset: None },
            SCRegType::PID2 => RegInfo { offset: 0xfe8, perms: 0b100, reset: None },
            SCRegType::PID3 => RegInfo { offset: 0xfec, perms: 0b100, reset: None },
            SCRegType::CID0 => RegInfo { offset: 0xff0, perms: 0b100, reset: None },
            SCRegType::CID1 => RegInfo { offset: 0xff4, perms: 0b100, reset: None },
            SCRegType::CID2 => RegInfo { offset: 0xff8, perms: 0b100, reset: None },
            _ => RegInfo { offset: 0xffc, perms: 0b100, reset: None },
        }
    }
}

/// A register with defined data is found again at its offset (the handler
/// priority registers with their first handler number), and a register
/// with defined data found at an offset lies in the word of that offset.
pub proof fn lemma_sc_lookup_offset(t: SCRegType, offset: usize)
    requires
        sc_lookup_ok(offset),
    ensures
        sc_data(t) is Some ==> sc_lookup(sc_offset(t)) == Some(sc_canonical(t)),
        sc_lookup(offset) matches Some(u) ==> (sc_data(u) is Some ==> sc_offset(u) == offset - offset
            % 4),
{
}

/// The register at word offset `i` of the space.
spec fn sc_word_lookup(i: int) -> Option<SCRegType> {
    sc_lookup((4 * i) as usize)
}

/// A register that `iter` lists was found at a word offset of the space.
proof fn lemma_sc_iter_found(n: nat, r: SCRegType)
    requires
        sc_iter(n).contains(r),
    ensures
        exists|i: int| 0 <= i < n && #[trigger] sc_word_lookup(i) == Some(r),
    decreases n,
{
    if n > 0 {
        let prev = sc_iter((n - 1) as nat);
        if prev.contains(r) {
            lemma_sc_iter_found((n - 1) as nat, r);
        } else {
            let all = sc_iter(n);
            let k = choose|k: int| 0 <= k < all.len() && all[k] == r;
            assert(k >= prev.len());
            assert(sc_word_lookup(n - 1) == Some(r));
        }
    }
}

/// Every register that `iter` lists, and whose data is defined, lies at
/// its own address: its offset can be looked up, and looking up the
/// address `0xe000e000` plus that offset finds the register again.
pub proof fn lemma_iter_address_round_trip(r: SCRegType)
    requires
        sc_iter(0x400).contains(r),
        sc_data(r) is Some,
    ensures
        sc_offset(r) % 4 == 0,
        sc_lookup_ok(sc_offset(r)),
        sc_lookup((((0xe000e000 + sc_offset(r)) as u64) - 0xe000e000) as usize) == Some(r),
{
    lemma_sc_iter_found(0x400, r);
    let i = choose|i: int| 0 <= i < 0x400 && #[trigger] sc_word_lookup(i) == Some(r);
    let off = (4 * i) as usize;
    assert(off % 4 == 0);
    assert(sc_lookup_ok(off));
    lemma_sc_lookup_offset(r, off);
    assert(sc_offset(r) == off);
}

/// CPUID base register (B3.2.3): processor identification. Read-only.
#[derive(Clone, Copy, Debug, PartialEq, Eq, Structural)]
pub struct CPUID(pub u32);

impl CPUID {
    /// The register with every field at its reset default.
    pub fn new() -> (r: Self)
        ensures
            r.0 == 0x410f0000u32,
    {
        CPUID(0x410f0000)
    }

    /// The register holding the raw word `bits`.
    pub fn from_bits(bits: u32) -> (r: Self)
        ensures
            r.0 == bits,
    {
        CPUID(bits)
    }

    /// The raw word of the register.
    pub fn into_bits(self) -> (r: u32)
        ensures
            r == self.0,
    {
        self.0
    }

    /// Bits 0..4 (`revision`).
    pub fn revision(&self) -> (r: u32)
        ensures
            r == field(self.0, 0, 4),
    {
        get_field(self.0, 0, 4)
    }

    /// Sets bits 0..4 (`revision`) to the low bits of `value`.
    pub fn set_revision(&mut self, value: u32)
        ensures
            final(self).0 == with_field(old(self).0, 0, 4, value as u32),
    {
        self.0 = put_field(self.0, 0, 4, value as u32);
    }

    /// Bits 4..16 (`partno`).
    pub fn partno(&self) -> (r: u32)
        ensures
            r == field(self.0, 4, 12),
    {
        get_field(self.0, 4, 12)
    }

    /// Sets bits 4..16 (`partno`) to the low bits of `value`.
    pub fn set_partno(&mut self, value: u32)
        ensures
            final(self).0 == with_field(old(self).0, 4, 12, value as u32),
    {
        self.0 = put_field(self.0, 4, 12, value as u32);
    }

    /// Bits 16..20 (`architecture`).
    pub fn architecture(&self) -> (r: u32)
        ensures
            r == field(self.0, 16, 4),
    {
        get_field(self.0, 16, 4)
    }

    /// Sets bits 16..20 (`architecture`) to the low bits of `value`.
    pub fn set_architecture(&mut self, value: u32)
        ensures
            final(self).0 == with_field(old(self).0, 16, 4, value as u32),
    {
        self.0 = put_field(self.0, 16, 4, value as u32);
    }

    /// Bits 20..24 (`variant`).
    pub fn variant(&self) -> (r: u32)
        ensures
            r == field(self.0, 20, 4),
    {
        get_field(self.0, 20, 4)
    }

    /// Sets bits 20..24 (`variant`) to the low bits of `value`.
    pub fn set_variant(&mut self, value: u32)
        ensures
            final(self).0 == with_field(old(self).0, 20, 4, value as u32),
    {
        self.0 = put_field(self.0, 20, 4, value as u32);
    }

    /// Bits 24..32 (`implementer`).
    pub fn implementer(&self) -> (r: u32)
        ensures
            r == field(self.0, 24, 8),
    {
        get_field(self.0, 24, 8)
    }

    /// Sets bits 24..32 (`implementer`) to the low bits of `value`.
    pub fn set_implementer(&mut self, value: u32)
        ensures
            final(self).0 == with_field(old(self).0, 24, 8, value as u32),
    {
        self.0 = put_field(self.0, 24, 8, value as u32);
    }
}

/// Interrupt control and state register (B3.2.4): software control of the
/// NMI, PendSV and SysTick exceptions, and interrupt status.
#[derive(Clone, Copy, Debug, PartialEq, Eq, Structural)]
pub struct ICSR(pub u32);

impl ICSR {
    /// The register with every field at its reset default.
    pub fn new() -> (r: Self)
        ensures
            r.0 == 0x0u32,
    {
        ICSR(0x0)
    }

    /// The register holding the raw word `bits`.
    pub fn from_bits(bits: u32) -> (r: Self)
        ensures
            r.0 == bits,
    {
        ICSR(bits)
    }

    /// The raw word of the register.
    pub fn into_bits(self) -> (r: u32)
        ensures
            r == self.0,
    {
        self.0
    }

    /// Bits 0..9 (`vectactive`).
    pub fn vectactive(&self) -> (r: u32)
        ensures
            r == field(self.0, 0, 9),
    {
        get_field(self.0, 0, 9)
    }

    /// Sets bits 0..9 (`vectactive`) to the low bits of `value`.
    pub fn set_vectactive(&mut self, value: u32)
        ensures
            final(self).0 == with_field(old(self).0, 0, 9, value as u32),
    {
        self.0 = put_field(self.0, 0, 9, value as u32);
    }

    /// Bit 11 (`rettobase`).
    pub fn rettobase(&self) -> (r: bool)
        ensures
            r == bit(self.0, 11),
    {
        get_bit(self.0, 11)
    }

    /// Sets bit 11 (`rettobase`).
    pub fn set_rettobase(&mut self, value: bool)
        ensures
            final(self).0 == with_bit(old(self).0, 11, value),
    {
        self.0 = put_bit(self.0, 11, value);
    }

    /// Bits 12..21 (`vectpending`).
    pub fn vectpending(&self) -> (r: u32)
        ensures
            r == field(self.0, 12, 9),
    {
        get_field(self.0, 12, 9)
    }

    /// Sets bits 12..21 (`vectpending`) to the low bits of `value`.
    pub fn set_vectpending(&mut self, value: u32)
        ensures
            final(self).0 == with_field(old(self).0, 12, 9, value as u32),
    {
        self.0 = put_field(self.0, 12, 9, value as u32);
    }

    /// Bit 22 (`isrpending`).
    pub fn isrpending(&self) -> (r: bool)
        ensures
            r == bit(self.0, 22),
    {
        get_bit(self.0, 22)
    }

    /// Sets bit 22 (`isrpending`).
    pub fn set_isrpending(&mut self, value: bool)
        ensures
            final(self).0 == with_bit(old(self).0, 22, value),
    {
        self.0 = put_bit(self.0, 22, value);
    }

    /// Bit 23 (`isrpreempt`).
    pub fn isrpreempt(&self) -> (r: bool)
        ensures
            r == bit(self.0, 23),
    {
        get_bit(self.0, 23)
    }

    /// Sets bit 23 (`isrpreempt`).
    pub fn set_isrpreempt(&mut self, value: bool)
        ensures
            final(self).0 == with_bit(old(self).0, 23, value),
    {
        self.0 = put_bit(self.0, 23, value);
    }

    /// Bit 25 (`pendstclr`).
    pub fn pendstclr(&self) -> (r: bool)
        ensures
            r == bit(self.0, 25),
    {
        get_bit(self.0, 25)
    }

    /// Sets bit 25 (`pendstclr`).
    pub fn set_pendstclr(&mut self, value: bool)
        ensures
            final(self).0 == with_bit(old(self).0, 25, value),
    {
        self.0 = put_bit(self.0, 25, value);
    }

    /// Bit 26 (`pendstset`).
    pub fn pendstset(&self) -> (r: bool)
        ensures
            r == bit(self.0, 26),
    {
        get_bit(self.0, 26)
    }

    /// Sets bit 26 (`pendstset`).
    pub fn set_pendstset(&mut self, value: bool)
        ensures
            final(self).0 == with_bit(old(self).0, 26, value),
    {
        self.0 = put_bit(self.0, 26, value);
    }

    /// Bit 27 (`pendsvclr`).
    pub fn pendsvclr(&self) -> (r: bool)
        ensures
            r == bit(self.0, 27),
    {
        get_bit(self.0, 27)
    }

    /// Sets bit 27 (`pendsvclr`).
    pub fn set_pendsvclr(&mut self, value: bool)
        ensures
            final(self).0 == with_bit(old(self).0, 27, value),
    {
        self.0 = put_bit(self.0, 27, value);
    }

    /// Bit 28 (`pendsvset`).
    pub fn pendsvset(&self) -> (r: bool)
        ensures
            r == bit(self.0, 28),
    {
        get_bit(self.0, 28)
    }

    /// Sets bit 28 (`pendsvset`).
    pub fn set_pendsvset(&mut self, value: bool)
        ensures
            final(self).0 == with_bit(old(self).0, 28, value),
    {
        self.0 = put_bit(self.0, 28, value);
    }

    /// Bit 31 (`nmipendset`).
    pub fn nmipendset(&self) -> (r: bool)
        ensures
            r == bit(self.0, 31),
    {
        get_bit(self.0, 31)
    }

    /// Sets bit 31 (`nmipendset`).
    pub fn set_nmipendset(&mut self, value: bool)
        ensures
            final(self).0 == with_bit(old(self).0, 31, value),
    {
        self.0 = put_bit(self.0, 31, value);
    }
}

/// Vector table offset register (B3.2.5).
#[derive(Clone, Copy, Debug, PartialEq, Eq, Structural)]
pub struct VTOR(pub u32);

impl VTOR {
    /// The register with every field at its reset default.
    pub fn new() -> (r: Self)
        ensures
            r.0 == 0x0u32,
    {
        VTOR(0x0)
    }

    /// The register holding the raw word `bits`.
    pub fn from_bits(bits: u32) -> (r: Self)
        ensures
            r.0 == bits,
    {
        VTOR(bits)
    }

    /// The raw word of the register.
    pub fn into_bits(self) -> (r: u32)
        ensures
            r == self.0,
    {
        self.0
    }

    /// Bits 7..32 (`tbloff`).
    pub fn tbloff(&self) -> (r: u32)
        ensures
            r == field(self.0, 7, 25),
    {
        get_field(self.0, 7, 25)
    }

    /// Sets bits 7..32 (`tbloff`) to the low bits of `value`.
    pub fn set_tbloff(&mut self, value: u32)
        ensures
            final(self).0 == with_field(old(self).0, 7, 25, value as u32),
    {
        self.0 = put_field(self.0, 7, 25, value as u32);
    }
}

/// Application interrupt and reset control register (B3.2.6).
#[derive(Clone, Copy, Debug, PartialEq, Eq, Structural)]
pub struct AIRCR(pub u32);

impl AIRCR {
    /// The register with every field at its reset default.
    pub fn new() -> (r: Self)
        ensures
            r.0 == 0x0u32,
    {
        AIRCR(0x0)
    }

    /// The register holding the raw word `bits`.
    pub fn from_bits(bits: u32) -> (r: Self)
        ensures
            r.0 == bits,
    {
        AIRCR(bits)
    }

    /// The raw word of the register.
    pub fn into_bits(self) -> (r: u32)
        ensures
            r == self.0,
    {
        self.0
    }

    /// Bit 0 (`vectreset`).
    pub fn vectreset(&self) -> (r: bool)
        ensures
            r == bit(self.0, 0),
    {
        get_bit(self.0, 0)
    }

    /// Sets bit 0 (`vectreset`).
    pub fn set_vectreset(&mut self, value: bool)
        ensures
            final(self).0 == with_bit(old(self).0, 0, value),
    {
        self.0 = put_bit(self.0, 0, value);
    }

    /// Bit 1 (`vectclractive`).
    pub fn vectclractive(&self) -> (r: bool)
        ensures
            r == bit(self.0, 1),
    {
        get_bit(self.0, 1)
    }

    /// Sets bit 1 (`vectclractive`).
    pub fn set_vectclractive(&mut self, value: bool)
        ensures
            final(self).0 == with_bit(old(self).0, 1, value),
    {
        self.0 = put_bit(self.0, 1, value);
    }

    /// Bit 2 (`sysresetreq`).
    pub fn sysresetreq(&self) -> (r: bool)
        ensures
            r == bit(self.0, 2),
    {
        get_bit(self.0, 2)
    }

    /// Sets bit 2 (`sysresetreq`).
    pub fn set_sysresetreq(&mut self, value: bool)
        ensures
            final(self).0 == with_bit(old(self).0, 2, value),
    {
        self.0 = put_bit(self.0, 2, value);
    }

    /// Bits 8..11 (`prigroup`).
    pub fn prigroup(&self) -> (r: u8)
        ensures
            r == field(self.0, 8, 3),
    {
        let v = get_field(self.0, 8, 3);
        proof { lemma_low_mask_values(); }
        v as u8
    }

    /// Sets bits 8..11 (`prigroup`) to the low bits of `value`.
    pub fn set_prigroup(&mut self, value: u8)
        ensures
            final(self).0 == with_field(old(self).0, 8, 3, value as u32),
    {
        self.0 = put_field(self.0, 8, 3, value as u32);
    }

    /// Bits 15..16 (`endianness`).
    pub fn endianness(&self) -> (r: u8)
        ensures
            r == field(self.0, 15, 1),
    {
        let v = get_field(self.0, 15, 1);
        proof { lemma_low_mask_values(); }
        v as u8
    }

    /// Sets bits 15..16 (`endianness`) to the low bits of `value`.
    pub fn set_endianness(&mut self, value: u8)
        ensures
            final(self).0 == with_field(old(self).0, 15, 1, value as u32),
    {
        self.0 = put_field(self.0, 15, 1, value as u32);
    }

    /// Bits 16..32 (`vectkey_stat`).
    pub fn vectkey_stat(&self) -> (r: u32)
        ensures
            r == field(self.0, 16, 16),
    {
        get_field(self.0, 16, 16)
    }

    /// Sets bits 16..32 (`vectkey_stat`) to the low bits of `value`.
    pub fn set_vectkey_stat(&mut self, value: u32)
        ensures
            final(self).0 == with_field(old(self).0, 16, 16, value as u32),
    {
        self.0 = put_field(self.0, 16, 16, value as u32);
    }
}

/// System control register (B3.2.7): sleep behaviour.
#[derive(Clone, Copy, Debug, PartialEq, Eq, Structural)]
pub struct SCR(pub u32);

impl SCR {
    /// The register with every field at its reset default.
    pub fn new() -> (r: Self)
        ensures
            r.0 == 0x0u32,
    {
        SCR(0x0)
    }

    /// The register holding the raw word `bits`.
    pub fn from_bits(bits: u32) -> (r: Self)
        ensures
            r.0 == bits,
    {
        SCR(bits)
    }

    /// The raw word of the register.
    pub fn into_bits(self) -> (r: u32)
        ensures
            r == self.0,
    {
        self.0
    }

    /// Bit 1 (`sleeponexit`).
    pub fn sleeponexit(&self) -> (r: bool)
        ensures
            r == bit(self.0, 1),
    {
        get_bit(self.0, 1)
    }

    /// Sets bit 1 (`sleeponexit`).
    pub fn set_sleeponexit(&mut self, value: bool)
        ensures
            final(self).0 == with_bit(old(self).0, 1, value),
    {
        self.0 = put_bit(self.0, 1, value);
    }

    /// Bit 2 (`sleepdeep`).
    pub fn sleepdeep(&self) -> (r: bool)
        ensures
            r == bit(self.0, 2),
    {
        get_bit(self.0, 2)
    }

    /// Sets bit 2 (`sleepdeep`).
    pub fn set_sleepdeep(&mut self, value: bool)
        ensures
            final(self).0 == with_bit(old(self).0, 2, value),
    {
        self.0 = put_bit(self.0, 2, value);
    }

    /// Bit 4 (`sevonpend`).
    pub fn sevonpend(&self) -> (r: bool)
        ensures
            r == bit(self.0, 4),
    {
        get_bit(self.0, 4)
    }

    /// Sets bit 4 (`sevonpend`).
    pub fn set_sevonpend(&mut self, value: bool)
        ensures
            final(self).0 == with_bit(old(self).0, 4, value),
    {
        self.0 = put_bit(self.0, 4, value);
    }
}

/// Configuration and control register (B3.2.8).
#[derive(Clone, Copy, Debug, PartialEq, Eq, Structural)]
pub struct CCR(pub u32);

impl CCR {
    /// The register with every field at its reset default.
    pub fn new() -> (r: Self)
        ensures
            r.0 == 0x0u32,
    {
        CCR(0x0)
    }

    /// The register holding the raw word `bits`.
    pub fn from_bits(bits: u32) -> (r: Self)
        ensures
            r.0 == bits,
    {
        CCR(bits)
    }

    /// The raw word of the register.
    pub fn into_bits(self) -> (r: u32)
        ensures
            r == self.0,
    {
        self.0
    }

    /// Bit 0 (`nonbasethrdena`).
    pub fn nonbasethrdena(&self) -> (r: bool)
        ensures
            r == bit(self.0, 0),
    {
        get_bit(self.0, 0)
    }

    /// Sets bit 0 (`nonbasethrdena`).
    pub fn set_nonbasethrdena(&mut self, value: bool)
        ensures
            final(self).0 == with_bit(old(self).0, 0, value),
    {
        self.0 = put_bit(self.0, 0, value);
    }

    /// Bit 1 (`usersetmpend`).
    pub fn usersetmpend(&self) -> (r: bool)
        ensures
            r == bit(self.0, 1),
    {
        get_bit(self.0, 1)
    }

    /// Sets bit 1 (`usersetmpend`).
    pub fn set_usersetmpend(&mut self, value: bool)
        ensures
            final(self).0 == with_bit(old(self).0, 1, value),
    {
        self.0 = put_bit(self.0, 1, value);
    }

    /// Bit 3 (`unalign_trp`).
    pub fn unalign_trp(&self) -> (r: bool)
        ensures
            r == bit(self.0, 3),
    {
        get_bit(self.0, 3)
    }

    /// Sets bit 3 (`unalign_trp`).
    pub fn set_unalign_trp(&mut self, value: bool)
        ensures
            final(self).0 == with_bit(old(self).0, 3, value),
    {
        self.0 = put_bit(self.0, 3, value);
    }

    /// Bit 4 (`div_0_trp`).
    pub fn div_0_trp(&self) -> (r: bool)
        ensures
            r == bit(self.0, 4),
    {
        get_bit(self.0, 4)
    }

    /// Sets bit 4 (`div_0_trp`).
    pub fn set_div_0_trp(&mut self, value: bool)
        ensures
            final(self).0 == with_bit(old(self).0, 4, value),
    {
        self.0 = put_bit(self.0, 4, value);
    }

    /// Bit 8 (`bfhfnmign`).
    pub fn bfhfnmign(&self) -> (r: bool)
        ensures
            r == bit(self.0, 8),
    {
        get_bit(self.0, 8)
    }

    /// Sets bit 8 (`bfhfnmign`).
    pub fn set_bfhfnmign(&mut self, value: bool)
        ensures
            final(self).0 == with_bit(old(self).0, 8, value),
    {
        self.0 = put_bit(self.0, 8, value);
    }

    /// Bit 9 (`stkalign`).
    pub fn stkalign(&self) -> (r: bool)
        ensures
            r == bit(self.0, 9),
    {
        get_bit(self.0, 9)
    }

    /// Sets bit 9 (`stkalign`).
    pub fn set_stkalign(&mut self, value: bool)
        ensures
            final(self).0 == with_bit(old(self).0, 9, value),
    {
        self.0 = put_bit(self.0, 9, value);
    }

    /// Bit 16 (`dc`).
    pub fn dc(&self) -> (r: bool)
        ensures
            r == bit(self.0, 16),
    {
        get_bit(self.0, 16)
    }

    /// Sets bit 16 (`dc`).
    pub fn set_dc(&mut self, value: bool)
        ensures
            final(self).0 == with_bit(old(self).0, 16, value),
    {
        self.0 = put_bit(self.0, 16, value);
    }

    /// Bit 17 (`ic`).
    pub fn ic(&self) -> (r: bool)
        ensures
            r == bit(self.0, 17),
    {
        get_bit(self.0, 17)
    }

    /// Sets bit 17 (`ic`).
    pub fn set_ic(&mut self, value: bool)
        ensures
            final(self).0 == with_bit(old(self).0, 17, value),
    {
        self.0 = put_bit(self.0, 17, value);
    }

    /// Bit 18 (`bp`).
    pub fn bp(&self) -> (r: bool)
        ensures
            r == bit(self.0, 18),
    {
        get_bit(self.0, 18)
    }

    /// Sets bit 18 (`bp`).
    pub fn set_bp(&mut self, value: bool)
        ensures
            final(self).0 == with_bit(old(self).0, 18, value),
    {
        self.0 = put_bit(self.0, 18, value);
    }
}

/// System handler priority register 1 (B3.2.10): priorities of handlers 4 to 7.
#[derive(Clone, Copy, Debug, PartialEq, Eq, Structural)]
pub struct SHPR1(pub u32);

impl SHPR1 {
    /// The register with every field at its reset default.
    pub fn new() -> (r: Self)
        ensures
            r.0 == 0x0u32,
    {
        SHPR1(0x0)
    }

    /// The register holding the raw word `bits`.
    pub fn from_bits(bits: u32) -> (r: Self)
        ensures
            r.0 == bits,
    {
        SHPR1(bits)
    }

    /// The raw word of the register.
    pub fn into_bits(self) -> (r: u32)
        ensures
            r == self.0,
    {
        self.0
    }

    /// Bits 0..8 (`pri_4`).
    pub fn pri_4(&self) -> (r: u8)
        ensures
            r == field(self.0, 0, 8),
    {
        let v = get_field(self.0, 0, 8);
        proof { lemma_low_mask_values(); }
        v as u8
    }

    /// Sets bits 0..8 (`pri_4`) to the low bits of `value`.
    pub fn set_pri_4(&mut self, value: u8)
        ensures
            final(self).0 == with_field(old(self).0, 0, 8, value as u32),
    {
        self.0 = put_field(self.0, 0, 8, value as u32);
    }

    /// Bits 8..16 (`pri_5`).
    pub fn pri_5(&self) -> (r: u8)
        ensures
            r == field(self.0, 8, 8),
    {
        let v = get_field(self.0, 8, 8);
        proof { lemma_low_mask_values(); }
        v as u8
    }

    /// Sets bits 8..16 (`pri_5`) to the low bits of `value`.
    pub fn set_pri_5(&mut self, value: u8)
        ensures
            final(self).0 == with_field(old(self).0, 8, 8, value as u32),
    {
        self.0 = put_field(self.0, 8, 8, value as u32);
    }

    /// Bits 16..24 (`pri_6`).
    pub fn pri_6(&self) -> (r: u8)
        ensures
            r == field(self.0, 16, 8),
    {
        let v = get_field(self.0, 16, 8);
        proof { lemma_low_mask_values(); }
        v as u8
    }

    /// Sets bits 16..24 (`pri_6`) to the low bits of `value`.
    pub fn set_pri_6(&mut self, value: u8)
        ensures
            final(self).0 == with_field(old(self).0, 16, 8, value as u32),
    {
        self.0 = put_field(self.0, 16, 8, value as u32);
    }

    /// Bits 24..32 (`pri_7`).
    pub fn pri_7(&self) -> (r: u8)
        ensures
            r == field(self.0, 24, 8),
    {
        let v = get_field(self.0, 24, 8);
        proof { lemma_low_mask_values(); }
        v as u8
    }

    /// Sets bits 24..32 (`pri_7`) to the low bits of `value`.
    pub fn set_pri_7(&mut self, value: u8)
        ensures
            final(self).0 == with_field(old(self).0, 24, 8, value as u32),
    {
        self.0 = put_field(self.0, 24, 8, value as u32);
    }
}

/// System handler priority register 2 (B3.2.11): priorities of handlers 8 to 11.
#[derive(Clone, Copy, Debug, PartialEq, Eq, Structural)]
pub struct SHPR2(pub u32);

impl SHPR2 {
    /// The register with every field at its reset default.
    pub fn new() -> (r: Self)
        ensures
            r.0 == 0x0u32,
    {
        SHPR2(0x0)
    }

    /// The register holding the raw word `bits`.
    pub fn from_bits(bits: u32) -> (r: Self)
        ensures
            r.0 == bits,
    {
        SHPR2(bits)
    }

    /// The raw word of the register.
    pub fn into_bits(self) -> (r: u32)
        ensures
            r == self.0,
    {
        self.0
    }

    /// Bits 0..8 (`pri_8`).
    pub fn pri_8(&self) -> (r: u8)
        ensures
            r == field(self.0, 0, 8),
    {
        let v = get_field(self.0, 0, 8);
        proof { lemma_low_mask_values(); }
        v as u8
    }

    /// Sets bits 0..8 (`pri_8`) to the low bits of `value`.
    pub fn set_pri_8(&mut self, value: u8)
        ensures
            final(self).0 == with_field(old(self).0, 0, 8, value as u32),
    {
        self.0 = put_field(self.0, 0, 8, value as u32);
    }

    /// Bits 8..16 (`pri_9`).
    pub fn pri_9(&self) -> (r: u8)
        ensures
            r == field(self.0, 8, 8),
    {
        let v = get_field(self.0, 8, 8);
        proof { lemma_low_mask_values(); }
        v as u8
    }

    /// Sets bits 8..16 (`pri_9`) to the low bits of `value`.
    pub fn set_pri_9(&mut self, value: u8)
        ensures
            final(self).0 == with_field(old(self).0, 8, 8, value as u32),
    {
        self.0 = put_field(self.0, 8, 8, value as u32);
    }

    /// Bits 16..24 (`pri_10`).
    pub fn pri_10(&self) -> (r: u8)
        ensures
            r == field(self.0, 16, 8),
    {
        let v = get_field(self.0, 16, 8);
        proof { lemma_low_mask_values(); }
        v as u8
    }

    /// Sets bits 16..24 (`pri_10`) to the low bits of `value`.
    pub fn set_pri_10(&mut self, value: u8)
        ensures
            final(self).0 == with_field(old(self).0, 16, 8, value as u32),
    {
        self.0 = put_field(self.0, 16, 8, value as u32);
    }

    /// Bits 24..32 (`pri_11`).
    pub fn pri_11(&self) -> (r: u8)
        ensures
            r == field(self.0, 24, 8),
    {
        let v = get_field(self.0, 24, 8);
        proof { lemma_low_mask_values(); }
        v as u8
    }

    /// Sets bits 24..32 (`pri_11`) to the low bits of `value`.
    pub fn set_pri_11(&mut self, value: u8)
        ensures
            final(self).0 == with_field(old(self).0, 24, 8, value as u32),
    {
        self.0 = put_field(self.0, 24, 8, value as u32);
    }
}

/// System handler priority register 3 (B3.2.12): priorities of handlers 12 to 15.
#[derive(Clone, Copy, Debug, PartialEq, Eq, Structural)]
pub struct SHPR3(pub u32);

impl SHPR3 {
    /// The register with every field at its reset default.
    pub fn new() -> (r: Self)
        ensures
            r.0 == 0x0u32,
    {
        SHPR3(0x0)
    }

    /// The register holding the raw word `bits`.
    pub fn from_bits(bits: u32) -> (r: Self)
        ensures
            r.0 == bits,
    {
        SHPR3(bits)
    }

    /// The raw word of the register.
    pub fn into_bits(self) -> (r: u32)
        ensures
            r == self.0,
    {
        self.0
    }

    /// Bits 0..8 (`pri_12`).
    pub fn pri_12(&self) -> (r: u8)
        ensures
            r == field(self.0, 0, 8),
    {
        let v = get_field(self.0, 0, 8);
        proof { lemma_low_mask_values(); }
        v as u8
    }

    /// Sets bits 0..8 (`pri_12`) to the low bits of `value`.
    pub fn set_pri_12(&mut self, value: u8)
        ensures
            final(self).0 == with_field(old(self).0, 0, 8, value as u32),
    {
        self.0 = put_field(self.0, 0, 8, value as u32);
    }

    /// Bits 8..16 (`pri_13`).
    pub fn pri_13(&self) -> (r: u8)
        ensures
            r == field(self.0, 8, 8),
    {
        let v = get_field(self.0, 8, 8);
        proof { lemma_low_mask_values(); }
        v as u8
    }

    /// Sets bits 8..16 (`pri_13`) to the low bits of `value`.
    pub fn set_pri_13(&mut self, value: u8)
        ensures
            final(self).0 == with_field(old(self).0, 8, 8, value as u32),
    {
        self.0 = put_field(self.0, 8, 8, value as u32);
    }

    /// Bits 16..24 (`pri_14`).
    pub fn pri_14(&self) -> (r: u8)
        ensures
            r == field(self.0, 16, 8),
    {
        let v = get_field(self.0, 16, 8);
        proof { lemma_low_mask_values(); }
        v as u8
    }

    /// Sets bits 16..24 (`pri_14`) to the low bits of `value`.
    pub fn set_pri_14(&mut self, value: u8)
        ensures
            final(self).0 == with_field(old(self).0, 16, 8, value as u32),
    {
        self.0 = put_field(self.0, 16, 8, value as u32);
    }

    /// Bits 24..32 (`pri_15`).
    pub fn pri_15(&self) -> (r: u8)
        ensures
            r == field(self.0, 24, 8),
    {
        let v = get_field(self.0, 24, 8);
        proof { lemma_low_mask_values(); }
        v as u8
    }

    /// Sets bits 24..32 (`pri_15`) to the low bits of `value`.
    pub fn set_pri_15(&mut self, value: u8)
        ensures
            final(self).0 == with_field(old(self).0, 24, 8, value as u32),
    {
        self.0 = put_field(self.0, 24, 8, value as u32);
    }
}

/// System handler control and state register (B3.2.13).
#[derive(Clone, Copy, Debug, PartialEq, Eq, Structural)]
pub struct SHCSR(pub u32);

impl SHCSR {
    /// The register with every field at its reset default.
    pub fn new() -> (r: Self)
        ensures
            r.0 == 0x0u32,
    {
        SHCSR(0x0)
    }

    /// The register holding the raw word `bits`.
    pub fn from_bits(bits: u32) -> (r: Self)
        ensures
            r.0 == bits,
    {
        SHCSR(bits)
    }

    /// The raw word of the register.
    pub fn into_bits(self) -> (r: u32)
        ensures
            r == self.0,
    {
        self.0
    }

    /// Bit 0 (`memfaultact`).
    pub fn memfaultact(&self) -> (r: bool)
        ensures
            r == bit(self.0, 0),
    {
        get_bit(self.0, 0)
    }

    /// Sets bit 0 (`memfaultact`).
    pub fn set_memfaultact(&mut self, value: bool)
        ensures
            final(self).0 == with_bit(old(self).0, 0, value),
    {
        self.0 = put_bit(self.0, 0, value);
    }

    /// Bit 1 (`busfaultact`).
    pub fn busfaultact(&self) -> (r: bool)
        ensures
            r == bit(self.0, 1),
    {
        get_bit(self.0, 1)
    }

    /// Sets bit 1 (`busfaultact`).
    pub fn set_busfaultact(&mut self, value: bool)
        ensures
            final(self).0 == with_bit(old(self).0, 1, value),
    {
        self.0 = put_bit(self.0, 1, value);
    }

    /// Bit 3 (`usgfaultact`).
    pub fn usgfaultact(&self) -> (r: bool)
        ensures
            r == bit(self.0, 3),
    {
        get_bit(self.0, 3)
    }

    /// Sets bit 3 (`usgfaultact`).
    pub fn set_usgfaultact(&mut self, value: bool)
        ensures
            final(self).0 == with_bit(old(self).0, 3, value),
    {
        self.0 = put_bit(self.0, 3, value);
    }

    /// Bit 7 (`svcallact`).
    pub fn svcallact(&self) -> (r: bool)
        ensures
            r == bit(self.0, 7),
    {
        get_bit(self.0, 7)
    }

    /// Sets bit 7 (`svcallact`).
    pub fn set_svcallact(&mut self, value: bool)
        ensures
            final(self).0 == with_bit(old(self).0, 7, value),
    {
        self.0 = put_bit(self.0, 7, value);
    }

    /// Bit 8 (`monitoract`).
    pub fn monitoract(&self) -> (r: bool)
        ensures
            r == bit(self.0, 8),
    {
        get_bit(self.0, 8)
    }

    /// Sets bit 8 (`monitoract`).
    pub fn set_monitoract(&mut self, value: bool)
        ensures
            final(self).0 == with_bit(old(self).0, 8, value),
    {
        self.0 = put_bit(self.0, 8, value);
    }

    /// Bit 10 (`pendsvact`).
    pub fn pendsvact(&self) -> (r: bool)
        ensures
            r == bit(self.0, 10),
    {
        get_bit(self.0, 10)
    }

    /// Sets bit 10 (`pendsvact`).
    pub fn set_pendsvact(&mut self, value: bool)
        ensures
            final(self).0 == with_bit(old(self).0, 10, value),
    {
        self.0 = put_bit(self.0, 10, value);
    }

    /// Bit 11 (`systickact`).
    pub fn systickact(&self) -> (r: bool)
        ensures
            r == bit(self.0, 11),
    {
        get_bit(self.0, 11)
    }

    /// Sets bit 11 (`systickact`).
    pub fn set_systickact(&mut self, value: bool)
        ensures
            final(self).0 == with_bit(old(self).0, 11, value),
    {
        self.0 = put_bit(self.0, 11, value);
    }

    /// Bit 12 (`usgfaultpended`).
    pub fn usgfaultpended(&self) -> (r: bool)
        ensures
            r == bit(self.0, 12),
    {
        get_bit(self.0, 12)
    }

    /// Sets bit 12 (`usgfaultpended`).
    pub fn set_usgfaultpended(&mut self, value: bool)
        ensures
            final(self).0 == with_bit(old(self).0, 12, value),
    {
        self.0 = put_bit(self.0, 12, value);
    }

    /// Bit 13 (`memfaultpended`).
    pub fn memfaultpended(&self) -> (r: bool)
        ensures
            r == bit(self.0, 13),
    {
        get_bit(self.0, 13)
    }

    /// Sets bit 13 (`memfaultpended`).
    pub fn set_memfaultpended(&mut self, value: bool)
        ensures
            final(self).0 == with_bit(old(self).0, 13, value),
    {
        self.0 = put_bit(self.0, 13, value);
    }

    /// Bit 14 (`busfaultpended`).
    pub fn busfaultpended(&self) -> (r: bool)
        ensures
            r == bit(self.0, 14),
    {
        get_bit(self.0, 14)
    }

    /// Sets bit 14 (`busfaultpended`).
    pub fn set_busfaultpended(&mut self, value: bool)
        ensures
            final(self).0 == with_bit(old(self).0, 14, value),
    {
        self.0 = put_bit(self.0, 14, value);
    }

    /// Bit 15 (`svcallpended`).
    pub fn svcallpended(&self) -> (r: bool)
        ensures
            r == bit(self.0, 15),
    {
        get_bit(self.0, 15)
    }

    /// Sets bit 15 (`svcallpended`).
    pub fn set_svcallpended(&mut self, value: bool)
        ensures
            final(self).0 == with_bit(old(self).0, 15, value),
    {
        self.0 = put_bit(self.0, 15, value);
    }

    /// Bit 16 (`memfaultena`).
    pub fn memfaultena(&self) -> (r: bool)
        ensures
            r == bit(self.0, 16),
    {
        get_bit(self.0, 16)
    }

    /// Sets bit 16 (`memfaultena`).
    pub fn set_memfaultena(&mut self, value: bool)
        ensures
            final(self).0 == with_bit(old(self).0, 16, value),
    {
        self.0 = put_bit(self.0, 16, value);
    }

    /// Bit 17 (`busfaultena`).
    pub fn busfaultena(&self) -> (r: bool)
        ensures
            r == bit(self.0, 17),
    {
        get_bit(self.0, 17)
    }

    /// Sets bit 17 (`busfaultena`).
    pub fn set_busfaultena(&mut self, value: bool)
        ensures
            final(self).0 == with_bit(old(self).0, 17, value),
    {
        self.0 = put_bit(self.0, 17, value);
    }

    /// Bit 18 (`usgfaultena`).
    pub fn usgfaultena(&self) -> (r: bool)
        ensures
            r == bit(self.0, 18),
    {
        get_bit(self.0, 18)
    }

    /// Sets bit 18 (`usgfaultena`).
    pub fn set_usgfaultena(&mut self, value: bool)
        ensures
            final(self).0 == with_bit(old(self).0, 18, value),
    {
        self.0 = put_bit(self.0, 18, value);
    }
}

/// HardFault status register (B3.2.16).
#[derive(Clone, Copy, Debug, PartialEq, Eq, Structural)]
pub struct HFSR(pub u32);

impl HFSR {
    /// The register with every field at its reset default.
    pub fn new() -> (r: Self)
        ensures
            r.0 == 0x0u32,
    {
        HFSR(0x0)
    }

    /// The register holding the raw word `bits`.
    pub fn from_bits(bits: u32) -> (r: Self)
        ensures
            r.0 == bits,
    {
        HFSR(bits)
    }

    /// The raw word of the register.
    pub fn into_bits(self) -> (r: u32)
        ensures
            r == self.0,
    {
        self.0
    }

    /// Bit 1 (`vecttbl`).
    pub fn vecttbl(&self) -> (r: bool)
        ensures
            r == bit(self.0, 1),
    {
        get_bit(self.0, 1)
    }

    /// Sets bit 1 (`vecttbl`).
    pub fn set_vecttbl(&mut self, value: bool)
        ensures
            final(self).0 == with_bit(old(self).0, 1, value),
    {
        self.0 = put_bit(self.0, 1, value);
    }

    /// Bit 30 (`forced`).
    pub fn forced(&self) -> (r: bool)
        ensures
            r == bit(self.0, 30),
    {
        get_bit(self.0, 30)
    }

    /// Sets bit 30 (`forced`).
    pub fn set_forced(&mut self, value: bool)
        ensures
            final(self).0 == with_bit(old(self).0, 30, value),
    {
        self.0 = put_bit(self.0, 30, value);
    }

    /// Bit 31 (`debugevt`).
    pub fn debugevt(&self) -> (r: bool)
        ensures
            r == bit(self.0, 31),
    {
        get_bit(self.0, 31)
    }

    /// Sets bit 31 (`debugevt`).
    pub fn set_debugevt(&mut self, value: bool)
        ensures
            final(self).0 == with_bit(old(self).0, 31, value),
    {
        self.0 = put_bit(self.0, 31, value);
    }
}

/// Debug fault status register (C1.6.1).
#[derive(Clone, Copy, Debug, PartialEq, Eq, Structural)]
pub struct DFSR(pub u32);

impl DFSR {
    /// The register with every field at its reset default.
    pub fn new() -> (r: Self)
        ensures
            r.0 == 0x0u32,
    {
        DFSR(0x0)
    }

    /// The register holding the raw word `bits`.
    pub fn from_bits(bits: u32) -> (r: Self)
        ensures
            r.0 == bits,
    {
        DFSR(bits)
    }

    /// The raw word of the register.
    pub fn into_bits(self) -> (r: u32)
        ensures
            r == self.0,
    {
        self.0
    }

    /// Bit 0 (`halted`).
    pub fn halted(&self) -> (r: bool)
        ensures
            r == bit(self.0, 0),
    {
        get_bit(self.0, 0)
    }

    /// Sets bit 0 (`halted`).
    pub fn set_halted(&mut self, value: bool)
        ensures
            final(self).0 == with_bit(old(self).0, 0, value),
    {
        self.0 = put_bit(self.0, 0, value);
    }

    /// Bit 1 (`bkpt`).
    pub fn bkpt(&self) -> (r: bool)
        ensures
            r == bit(self.0, 1),
    {
        get_bit(self.0, 1)
    }

    /// Sets bit 1 (`bkpt`).
    pub fn set_bkpt(&mut self, value: bool)
        ensures
            final(self).0 == with_bit(old(self).0, 1, value),
    {
        self.0 = put_bit(self.0, 1, value);
    }

    /// Bit 2 (`dwttrap`).
    pub fn dwttrap(&self) -> (r: bool)
        ensures
            r == bit(self.0, 2),
    {
        get_bit(self.0, 2)
    }

    /// Sets bit 2 (`dwttrap`).
    pub fn set_dwttrap(&mut self, value: bool)
        ensures
            final(self).0 == with_bit(old(self).0, 2, value),
    {
        self.0 = put_bit(self.0, 2, value);
    }

    /// Bit 3 (`vcatch`).
    pub fn vcatch(&self) -> (r: bool)
        ensures
            r == bit(self.0, 3),
    {
        get_bit(self.0, 3)
    }

    /// Sets bit 3 (`vcatch`).
    pub fn set_vcatch(&mut self, value: bool)
        ensures
            final(self).0 == with_bit(old(self).0, 3, value),
    {
        self.0 = put_bit(self.0, 3, value);
    }

    /// Bit 4 (`external`).
    pub fn external(&self) -> (r: bool)
        ensures
            r == bit(self.0, 4),
    {
        get_bit(self.0, 4)
    }

    /// Sets bit 4 (`external`).
    pub fn set_external(&mut self, value: bool)
        ensures
            final(self).0 == with_bit(old(self).0, 4, value),
    {
        self.0 = put_bit(self.0, 4, value);
    }
}

/// MemManage fault address register (B3.2.17).
#[derive(Clone, Copy, Debug, PartialEq, Eq, Structural)]
pub struct MMFAR(pub u32);

impl MMFAR {
    /// The register with every field at its reset default.
    pub fn new() -> (r: Self)
        ensures
            r.0 == 0x0u32,
    {
        MMFAR(0x0)
    }

    /// The register holding the raw word `bits`.
    pub fn from_bits(bits: u32) -> (r: Self)
        ensures
            r.0 == bits,
    {
        MMFAR(bits)
    }

    /// The raw word of the register.
    pub fn into_bits(self) -> (r: u32)
        ensures
            r == self.0,
    {
        self.0
    }

    /// Bits 0..32 (`address`).
    pub fn address(&self) -> (r: u32)
        ensures
            r == field(self.0, 0, 32),
    {
        get_field(self.0, 0, 32)
    }

    /// Sets bits 0..32 (`address`) to the low bits of `value`.
    pub fn set_address(&mut self, value: u32)
        ensures
            final(self).0 == with_field(old(self).0, 0, 32, value as u32),
    {
        self.0 = put_field(self.0, 0, 32, value as u32);
    }
}

/// BusFault address register (B3.2.18).
#[derive(Clone, Copy, Debug, PartialEq, Eq, Structural)]
pub struct BFAR(pub u32);

impl BFAR {
    /// The register with every field at its reset default.
    pub fn new() -> (r: Self)
        ensures
            r.0 == 0x0u32,
    {
        BFAR(0x0)
    }

    /// The register holding the raw word `bits`.
    pub fn from_bits(bits: u32) -> (r: Self)
        ensures
            r.0 == bits,
    {
        BFAR(bits)
    }

    /// The raw word of the register.
    pub fn into_bits(self) -> (r: u32)
        ensures
            r == self.0,
    {
        self.0
    }

    /// Bits 0..32 (`address`).
    pub fn address(&self) -> (r: u32)
        ensures
            r == field(self.0, 0, 32),
    {
        get_field(self.0, 0, 32)
    }

    /// Sets bits 0..32 (`address`) to the low bits of `value`.
    pub fn set_address(&mut self, value: u32)
        ensures
            final(self).0 == with_field(old(self).0, 0, 32, value as u32),
    {
        self.0 = put_field(self.0, 0, 32, value as u32);
    }
}

/// Interrupt controller type register (B3.4.2).
#[derive(Clone, Copy, Debug, PartialEq, Eq, Structural)]
pub struct ICTR(pub u32);

impl ICTR {
    /// The register with every field at its reset default.
    pub fn new() -> (r: Self)
        ensures
            r.0 == 0x0u32,
    {
        ICTR(0x0)
    }

    /// The register holding the raw word `bits`.
    pub fn from_bits(bits: u32) -> (r: Self)
        ensures
            r.0 == bits,
    {
        ICTR(bits)
    }

    /// The raw word of the register.
    pub fn into_bits(self) -> (r: u32)
        ensures
            r == self.0,
    {
        self.0
    }

    /// Bits 0..4 (`intlinesnum`).
    pub fn intlinesnum(&self) -> (r: usize)
        ensures
            r == field(self.0, 0, 4),
    {
        let v = get_field(self.0, 0, 4);
        proof { lemma_low_mask_values(); }
        v as usize
    }

    /// Sets bits 0..4 (`intlinesnum`) to the low bits of `value`.
    pub fn set_intlinesnum(&mut self, value: usize)
        ensures
            final(self).0 == with_field(old(self).0, 0, 4, value as u32),
    {
        self.0 = put_field(self.0, 0, 4, value as u32);
    }
}

/// Software triggered interrupt register (B3.3.4). Write-only.
#[derive(Clone, Copy, Debug, PartialEq, Eq, Structural)]
pub struct STIR(pub u32);

impl STIR {
    /// The register with every field at its reset default.
    pub fn new() -> (r: Self)
        ensures
            r.0 == 0x0u32,
    {
        STIR(0x0)
    }

    /// The register holding the raw word `bits`.
    pub fn from_bits(bits: u32) -> (r: Self)
        ensures
            r.0 == bits,
    {
        STIR(bits)
    }

    /// The raw word of the register.
    pub fn into_bits(self) -> (r: u32)
        ensures
            r == self.0,
    {
        self.0
    }

    /// Bits 0..9 (`intid`).
    pub fn intid(&self) -> (r: u32)
        ensures
            r == field(self.0, 0, 9),
    {
        get_field(self.0, 0, 9)
    }

    /// Sets bits 0..9 (`intid`) to the low bits of `value`.
    pub fn set_intid(&mut self, value: u32)
        ensures
            final(self).0 == with_field(old(self).0, 0, 9, value as u32),
    {
        self.0 = put_field(self.0, 0, 9, value as u32);
    }
}

/// UsageFault status register (B3.2.15): the upper half of the CFSR.
#[derive(Clone, Copy, Debug, PartialEq, Eq, Structural)]
pub struct UFSR(pub u16);

impl UFSR {
    /// The register with every field at its reset default.
    pub fn new() -> (r: Self)
        ensures
            r.0 == 0x0u16,
    {
        UFSR(0x0)
    }

    /// The register holding the raw word `bits`.
    pub fn from_bits(bits: u16) -> (r: Self)
        ensures
            r.0 == bits,
    {
        UFSR(bits)
    }

    /// The raw word of the register.
    pub fn into_bits(self) -> (r: u16)
        ensures
            r == self.0,
    {
        self.0
    }

    /// Bit 0 (`undefinstr`).
    pub fn undefinstr(&self) -> (r: bool)
        ensures
            r == bit((self.0 as u32), 0),
    {
        get_bit((self.0 as u32), 0)
    }

    /// Bit 1 (`invstate`).
    pub fn invstate(&self) -> (r: bool)
        ensures
            r == bit((self.0 as u32), 1),
    {
        get_bit((self.0 as u32), 1)
    }

    /// Bit 2 (`invpc`).
    pub fn invpc(&self) -> (r: bool)
        ensures
            r == bit((self.0 as u32), 2),
    {
        get_bit((self.0 as u32), 2)
    }

    /// Bit 3 (`nocp`).
    pub fn nocp(&self) -> (r: bool)
        ensures
            r == bit((self.0 as u32), 3),
    {
        get_bit((self.0 as u32), 3)
    }

    /// Bit 8 (`unaligned`).
    pub fn unaligned(&self) -> (r: bool)
        ensures
            r == bit((self.0 as u32), 8),
    {
        get_bit((self.0 as u32), 8)
    }

    /// Bit 9 (`divbyzero`).
    pub fn divbyzero(&self) -> (r: bool)
        ensures
            r == bit((self.0 as u32), 9),
    {
        get_bit((self.0 as u32), 9)
    }
}

/// BusFault status register (B3.2.15): byte 1 of the CFSR.
#[derive(Clone, Copy, Debug, PartialEq, Eq, Structural)]
pub struct BFSR(pub u8);

impl BFSR {
    /// The register with every field at its reset default.
    pub fn new() -> (r: Self)
        ensures
            r.0 == 0x0u8,
    {
        BFSR(0x0)
    }

    /// The register holding the raw word `bits`.
    pub fn from_bits(bits: u8) -> (r: Self)
        ensures
            r.0 == bits,
    {
        BFSR(bits)
    }

    /// The raw word of the register.
    pub fn into_bits(self) -> (r: u8)
        ensures
            r == self.0,
    {
        self.0
    }

    /// Bit 0 (`ibuserr`).
    pub fn ibuserr(&self) -> (r: bool)
        ensures
            r == bit((self.0 as u32), 0),
    {
        get_bit((self.0 as u32), 0)
    }

    /// Bit 1 (`preciserr`).
    pub fn preciserr(&self) -> (r: bool)
        ensures
            r == bit((self.0 as u32), 1),
    {
        get_bit((self.0 as u32), 1)
    }

    /// Bit 2 (`impreciserr`).
    pub fn impreciserr(&self) -> (r: bool)
        ensures
            r == bit((self.0 as u32), 2),
    {
        get_bit((self.0 as u32), 2)
    }

    /// Bit 3 (`unstkerr`).
    pub fn unstkerr(&self) -> (r: bool)
        ensures
            r == bit((self.0 as u32), 3),
    {
        get_bit((self.0 as u32), 3)
    }

    /// Bit 4 (`stkerr`).
    pub fn stkerr(&self) -> (r: bool)
        ensures
            r == bit((self.0 as u32), 4),
    {
        get_bit((self.0 as u32), 4)
    }

    /// Bit 5 (`lsperr`).
    pub fn lsperr(&self) -> (r: bool)
        ensures
            r == bit((self.0 as u32), 5),
    {
        get_bit((self.0 as u32), 5)
    }

    /// Bit 7 (`bfarvalid`).
    pub fn bfarvalid(&self) -> (r: bool)
        ensures
            r == bit((self.0 as u32), 7),
    {
        get_bit((self.0 as u32), 7)
    }
}

/// MemManage status register (B3.2.15): byte 0 of the CFSR.
#[derive(Clone, Copy, Debug, PartialEq, Eq, Structural)]
pub struct MMFSR(pub u8);

impl MMFSR {
    /// The register with every field at its reset default.
    pub fn new() -> (r: Self)
        ensures
            r.0 == 0x0u8,
    {
        MMFSR(0x0)
    }

    /// The register holding the raw word `bits`.
    pub fn from_bits(bits: u8) -> (r: Self)
        ensures
            r.0 == bits,
    {
        MMFSR(bits)
    }

    /// The raw word of the register.
    pub fn into_bits(self) -> (r: u8)
        ensures
            r == self.0,
    {
        self.0
    }

    /// Bit 0 (`iaccviol`).
    pub fn iaccviol(&self) -> (r: bool)
        ensures
            r == bit((self.0 as u32), 0),
    {
        get_bit((self.0 as u32), 0)
    }

    /// Bit 1 (`daccviol`).
    pub fn daccviol(&self) -> (r: bool)
        ensures
            r == bit((self.0 as u32), 1),
    {
        get_bit((self.0 as u32), 1)
    }

    /// Bit 3 (`munstkerr`).
    pub fn munstkerr(&self) -> (r: bool)
        ensures
            r == bit((self.0 as u32), 3),
    {
        get_bit((self.0 as u32), 3)
    }

    /// Bit 4 (`mstkerr`).
    pub fn mstkerr(&self) -> (r: bool)
        ensures
            r == bit((self.0 as u32), 4),
    {
        get_bit((self.0 as u32), 4)
    }

    /// Bit 5 (`mlsperr`).
    pub fn mlsperr(&self) -> (r: bool)
        ensures
            r == bit((self.0 as u32), 5),
    {
        get_bit((self.0 as u32), 5)
    }

    /// Bit 7 (`mmarvalid`).
    pub fn mmarvalid(&self) -> (r: bool)
        ensures
            r == bit((self.0 as u32), 7),
    {
        get_bit((self.0 as u32), 7)
    }
}


impl VTOR {
    /// The event of a write of this value: the new vector table offset.
    pub fn write_evt(&self) -> (r: Vec<Event>)
        ensures
            r@ == seq![Event::VectorTableOffsetWrite((field(self.0, 7, 25) << 7u32) as u32)],
    {
        let tbl = self.tbloff();
        proof {
            lemma_low_mask_values();
            crate::bits::lemma_field_bound(self.0, 7, 25);
        }
        let mut v: Vec<Event> = Vec::new();
        v.push(Event::VectorTableOffsetWrite(tbl << 7));
        v
    }
}

/// The events of a write of AIRCR value `w` over the current value `cur`,
/// in order: local reset, clear of all active state, external reset,
/// vector key, and a priority grouping change.
pub open spec fn aircr_write_events(w: u32, cur: u32) -> Seq<Event> {
    (if bit(w, 0) { seq![Event::LocalSysResetRequest] } else { Seq::empty() }) + (if bit(w, 1) {
        seq![Event::ExceptionClrAllActive]
    } else {
        Seq::empty()
    }) + (if bit(w, 2) { seq![Event::ExternSysResetRequest] } else { Seq::empty() }) + (if field(
        w,
        16,
        16,
    ) == 0x05fa {
        seq![Event::VectorKeyWrite]
    } else {
        Seq::empty()
    }) + (if field(w, 8, 3) != field(cur, 8, 3) {
        seq![Event::SetPriorityGrouping(field(w, 8, 3) as u8)]
    } else {
        Seq::empty()
    })
}

impl AIRCR {
    /// The events of a write of this value over the current value
    /// `current_val`.
    pub fn write_evt(&self, current_val: u32) -> (r: Vec<Event>)
        ensures
            r@ == aircr_write_events(self.0, current_val),
    {
        let mut evts: Vec<Event> = Vec::new();
        if self.vectreset() {
            evts.push(Event::LocalSysResetRequest);
        }
        if self.vectclractive() {
            evts.push(Event::ExceptionClrAllActive);
        }
        if self.sysresetreq() {
            evts.push(Event::ExternSysResetRequest);
        }
        if self.vectkey_stat() == 0x05fa {
            evts.push(Event::VectorKeyWrite);
        }
        let current = Self::from_bits(current_val);
        if self.prigroup() != current.prigroup() {
            evts.push(Event::SetPriorityGrouping(self.prigroup()));
        }
        proof {
            lemma_low_mask_values();
            assert(evts@ =~= aircr_write_events(self.0, current_val));
        }
        evts
    }
}

impl SHPR1 {
    /// Byte offset of the register.
    pub fn base() -> (r: usize)
        ensures
            r == 0xd18,
    {
        0xd18
    }
}

impl SHPR2 {
    /// Byte offset of the register.
    pub fn base() -> (r: usize)
        ensures
            r == 0xd1c,
    {
        0xd1c
    }
}

impl SHPR3 {
    /// Byte offset of the register.
    pub fn base() -> (r: usize)
        ensures
            r == 0xd20,
    {
        0xd20
    }
}

/// Configurable fault status register (B3.2.15): the MemManage, BusFault
/// and UsageFault status registers in one word.
#[derive(Clone, Copy, Debug, PartialEq, Eq, Structural)]
pub struct CFSR(pub u32);

impl CFSR {
    /// The register holding the raw word `bits`.
    pub fn from_bits(bits: u32) -> (r: Self)
        ensures
            r.0 == bits,
    {
        CFSR(bits)
    }

    /// The raw word of the register.
    pub fn into_bits(self) -> (r: u32)
        ensures
            r == self.0,
    {
        self.0
    }

    /// The MemManage status register: byte 0.
    pub fn memmanage(&self) -> (r: MMFSR)
        ensures
            r.0 == field(self.0, 0, 8),
    {
        let v = get_field(self.0, 0, 8);
        proof {
            lemma_low_mask_values();
        }
        MMFSR(v as u8)
    }

    /// The BusFault status register: byte 1.
    pub fn busfault(&self) -> (r: BFSR)
        ensures
            r.0 == field(self.0, 8, 8),
    {
        let v = get_field(self.0, 8, 8);
        proof {
            lemma_low_mask_values();
        }
        BFSR(v as u8)
    }

    /// The UsageFault status register: the upper half.
    pub fn usagefault(&self) -> (r: UFSR)
        ensures
            r.0 == field(self.0, 16, 16),
    {
        let v = get_field(self.0, 16, 16);
        proof {
            lemma_low_mask_values();
        }
        UFSR(v as u16)
    }

    /// Replaces the UsageFault status register.
    pub fn set_usagefault(&mut self, value: UFSR)
        ensures
            final(self).0 == with_field(old(self).0, 16, 16, value.0 as u32),
    {
        self.0 = put_field(self.0, 16, 16, value.0 as u32);
    }

    /// The events of a write of this value: the clear of each fault whose
    /// status bit is written as one, MemManage first, then BusFault, then
    /// UsageFault.
    pub fn write_evt(&self) -> (r: Vec<Event>)
        requires
            !bit(field(self.0, 0, 8), 7),
            !bit(field(self.0, 8, 8), 7),
        ensures
            r@ == mmfsr_write_events(field(self.0, 0, 8)) + bfsr_write_events(field(self.0, 8, 8))
                + ufsr_write_events(field(self.0, 16, 16)),
    {
        let mut evts: Vec<Event> = Vec::new();
        let mm = self.memmanage().write_evt();
        let bf = self.busfault().write_evt();
        let uf = self.usagefault().write_evt();
        append_events(&mut evts, &mm);
        append_events(&mut evts, &bf);
        append_events(&mut evts, &uf);
        proof {
            assert(evts@ =~= mmfsr_write_events(field(self.0, 0, 8)) + bfsr_write_events(
                field(self.0, 8, 8),
            ) + ufsr_write_events(field(self.0, 16, 16)));
        }
        evts
    }
}

/// Appends the events of `more` to `evts`.
pub fn append_events(evts: &mut Vec<Event>, more: &Vec<Event>)
    ensures
        final(evts)@ == old(evts)@ + more@,
{
    let mut i: usize = 0;
    while i < more.len()
        invariant
            i <= more@.len(),
            evts@ == old(evts)@ + more@.subrange(0, i as int),
        decreases more@.len() - i,
    {
        evts.push(more[i]);
        i = i + 1;
        assert(evts@ =~= old(evts)@ + more@.subrange(0, i as int));
    }
    assert(more@.subrange(0, more@.len() as int) =~= more@);
}

/// The event of a set fault status bit.
pub open spec fn fault_evt(set: bool, f: Fault) -> Seq<Event> {
    if set { seq![Event::FaultStatusClr(f)] } else { Seq::empty() }
}

/// The events of a UFSR write of `w`.
pub open spec fn ufsr_write_events(w: u32) -> Seq<Event> {
    fault_evt(bit(w, 0), Fault::Usg(UsgFault::UndefinedInsn)) + fault_evt(
        bit(w, 1),
        Fault::Usg(UsgFault::InvalidState),
    ) + fault_evt(bit(w, 2), Fault::Usg(UsgFault::IntegrityCheck)) + fault_evt(
        bit(w, 3),
        Fault::Usg(UsgFault::CoprocessorAccess),
    ) + fault_evt(bit(w, 8), Fault::Usg(UsgFault::UnalignedAccess)) + fault_evt(
        bit(w, 9),
        Fault::Usg(UsgFault::DivideByZero),
    )
}

/// The events of a BFSR write of `w`.
pub open spec fn bfsr_write_events(w: u32) -> Seq<Event> {
    fault_evt(bit(w, 0), Fault::Bus(BusFault::InsnPrefetch)) + fault_evt(
        bit(w, 1),
        Fault::Bus(BusFault::PreciseDataAccess),
    ) + fault_evt(bit(w, 2), Fault::Bus(BusFault::ImprciseDataAccess)) + fault_evt(
        bit(w, 3),
        Fault::Bus(BusFault::OnExceptionReturn),
    ) + fault_evt(bit(w, 4), Fault::Bus(BusFault::OnExceptionEntry)) + fault_evt(
        bit(w, 5),
        Fault::Bus(BusFault::LazyStatePreservation),
    )
}

/// The events of an MMFSR write of `w`.
pub open spec fn mmfsr_write_events(w: u32) -> Seq<Event> {
    fault_evt(bit(w, 0), Fault::Mem(MemFault::InsnAccessViolation)) + fault_evt(
        bit(w, 1),
        Fault::Mem(MemFault::DataAccessViolation),
    ) + fault_evt(bit(w, 3), Fault::Mem(MemFault::OnExceptionReturn)) + fault_evt(
        bit(w, 4),
        Fault::Mem(MemFault::OnExceptionEntry),
    ) + fault_evt(bit(w, 5), Fault::Mem(MemFault::LazyStatePreservation))
}

/// The events of an HFSR write of `w`.
pub open spec fn hfsr_write_events(w: u32) -> Seq<Event> {
    fault_evt(bit(w, 1), Fault::Hard(HardFault::VectorTableRead)) + fault_evt(
        bit(w, 30),
        Fault::Hard(HardFault::EscalatedException),
    ) + fault_evt(bit(w, 31), Fault::Hard(HardFault::DebugEvent))
}

/// Pushes the clear event of `f` when `set`.
fn push_fault(evts: &mut Vec<Event>, set: bool, f: Fault)
    ensures
        final(evts)@ == old(evts)@ + fault_evt(set, f),
{
    if set {
        evts.push(Event::FaultStatusClr(f));
    }
    assert(evts@ =~= old(evts)@ + fault_evt(set, f));
}

impl UFSR {
    /// This value with bit 2 (`invpc`) set to `value`.
    pub fn with_invpc(self, value: bool) -> (r: Self)
        ensures
            r.0 == (with_bit(self.0 as u32, 2, value) as u16),
    {
        UFSR(put_bit(self.0 as u32, 2, value) as u16)
    }

    /// The events of a write of this value.
    pub fn write_evt(&self) -> (r: Vec<Event>)
        ensures
            r@ == ufsr_write_events(self.0 as u32),
    {
        let mut evts: Vec<Event> = Vec::new();
        push_fault(&mut evts, self.undefinstr(), Fault::Usg(UsgFault::UndefinedInsn));
        push_fault(&mut evts, self.invstate(), Fault::Usg(UsgFault::InvalidState));
        push_fault(&mut evts, self.invpc(), Fault::Usg(UsgFault::IntegrityCheck));
        push_fault(&mut evts, self.nocp(), Fault::Usg(UsgFault::CoprocessorAccess));
        push_fault(&mut evts, self.unaligned(), Fault::Usg(UsgFault::UnalignedAccess));
        push_fault(&mut evts, self.divbyzero(), Fault::Usg(UsgFault::DivideByZero));
        proof {
            assert(evts@ =~= ufsr_write_events(self.0 as u32));
        }
        evts
    }
}

impl BFSR {
    /// The events of a write of this value. A write of BFARVALID is not
    /// defined.
    pub fn write_evt(&self) -> (r: Vec<Event>)
        requires
            !bit(self.0 as u32, 7),
        ensures
            r@ == bfsr_write_events(self.0 as u32),
    {
        let mut evts: Vec<Event> = Vec::new();
        push_fault(&mut evts, self.ibuserr(), Fault::Bus(BusFault::InsnPrefetch));
        push_fault(&mut evts, self.preciserr(), Fault::Bus(BusFault::PreciseDataAccess));
        push_fault(&mut evts, self.impreciserr(), Fault::Bus(BusFault::ImprciseDataAccess));
        push_fault(&mut evts, self.unstkerr(), Fault::Bus(BusFault::OnExceptionReturn));
        push_fault(&mut evts, self.stkerr(), Fault::Bus(BusFault::OnExceptionEntry));
        push_fault(&mut evts, self.lsperr(), Fault::Bus(BusFault::LazyStatePreservation));
        proof {
            assert(evts@ =~= bfsr_write_events(self.0 as u32));
        }
        evts
    }
}

impl MMFSR {
    /// The events of a write of this value. A write of MMARVALID is not
    /// defined.
    pub fn write_evt(&self) -> (r: Vec<Event>)
        requires
            !bit(self.0 as u32, 7),
        ensures
            r@ == mmfsr_write_events(self.0 as u32),
    {
        let mut evts: Vec<Event> = Vec::new();
        push_fault(&mut evts, self.iaccviol(), Fault::Mem(MemFault::InsnAccessViolation));
        push_fault(&mut evts, self.daccviol(), Fault::Mem(MemFault::DataAccessViolation));
        push_fault(&mut evts, self.munstkerr(), Fault::Mem(MemFault::OnExceptionReturn));
        push_fault(&mut evts, self.mstkerr(), Fault::Mem(MemFault::OnExceptionEntry));
        push_fault(&mut evts, self.mlsperr(), Fault::Mem(MemFault::LazyStatePreservation));
        proof {
            assert(evts@ =~= mmfsr_write_events(self.0 as u32));
        }
        evts
    }
}

impl HFSR {
    /// The events of a write of this value.
    pub fn write_evt(&self) -> (r: Vec<Event>)
        ensures
            r@ == hfsr_write_events(self.0),
    {
        let mut evts: Vec<Event> = Vec::new();
        push_fault(&mut evts, self.vecttbl(), Fault::Hard(HardFault::VectorTableRead));
        push_fault(&mut evts, self.forced(), Fault::Hard(HardFault::EscalatedException));
        push_fault(&mut evts, self.debugevt(), Fault::Hard(HardFault::DebugEvent));
        proof {
            assert(evts@ =~= hfsr_write_events(self.0));
        }
        evts
    }
}

/// Coprocessor access rights.
#[derive(Clone, Copy, Debug, PartialEq, Eq, Structural)]
pub enum CPACRAccess {
    Denied,
    Privileged,
    Full,
}

/// The two bits that encode an access right.
pub open spec fn cpacr_bits(a: CPACRAccess) -> u8 {
    match a {
        CPACRAccess::Denied => 0b00,
        CPACRAccess::Privileged => 0b01,
        CPACRAccess::Full => 0b11,
    }
}

impl CPACRAccess {
    /// The two bits that encode this right.
    pub fn into_bits(self) -> (r: u8)
        ensures
            r == cpacr_bits(self),
    {
        match self {
            CPACRAccess::Denied => 0b00,
            CPACRAccess::Privileged => 0b01,
            CPACRAccess::Full => 0b11,
        }
    }

    /// The right that the two bits `value` encode; 0b10 encodes none.
    pub fn from_bits(value: u8) -> (r: Self)
        requires
            value == 0b00 || value == 0b01 || value == 0b11,
        ensures
            cpacr_bits(r) == value,
    {
        match value {
            0b00 => CPACRAccess::Denied,
            0b01 => CPACRAccess::Privileged,
            _ => CPACRAccess::Full,
        }
    }
}

/// Coprocessor access control register (B3.2.20).
#[derive(Clone, Copy, Debug, PartialEq, Eq, Structural)]
pub struct CPACR(pub u32);

impl CPACR {
    /// The register holding the raw word `bits`.
    pub fn from_bits(bits: u32) -> (r: Self)
        ensures
            r.0 == bits,
    {
        CPACR(bits)
    }

    /// The raw word of the register.
    pub fn into_bits(self) -> (r: u32)
        ensures
            r == self.0,
    {
        self.0
    }

    /// The access right of coprocessor `n` (0 to 7, 10 or 11).
    pub fn cp(&self, n: u32) -> (r: CPACRAccess)
        requires
            n < 8 || n == 10 || n == 11,
            field(self.0, (2 * n) as u32, 2) != 0b10,
        ensures
            cpacr_bits(r) == field(self.0, (2 * n) as u32, 2),
    {
        let v = get_field(self.0, (2 * n) as u32, 2);
        proof {
            lemma_low_mask_values();
        }
        CPACRAccess::from_bits(v as u8)
    }
}

impl ICTR {
    /// Number of interrupt lines that the controller supports.
    pub fn num_int_lines(&self) -> (r: usize)
        ensures
            r == (field(self.0, 0, 4) + 1) * 32,
    {
        proof {
            lemma_low_mask_values();
            crate::bits::lemma_field_bound(self.0, 0, 4);
        }
        (self.intlinesnum() + 1) * 32
    }
}

impl STIR {
    /// The exception number of the interrupt that the register names.
    pub fn exception_number(&self) -> (r: u32)
        ensures
            r == field(self.0, 0, 9) + 16,
    {
        proof {
            lemma_low_mask_values();
            crate::bits::lemma_field_bound(self.0, 0, 9);
        }
        self.intid() + 16
    }

    /// The event of a write of this value: the named interrupt becomes
    /// active.
    pub fn write_evt(&self) -> (r: Vec<Event>)
        ensures
            r@ == seq![
                Event::ExceptionSetActive(
                    ExceptionType::ExternalInterrupt((field(self.0, 0, 9) + 16) as u32),
                    true,
                ),
            ],
    {
        let mut v: Vec<Event> = Vec::new();
        v.push(Event::ExceptionSetActive(ExceptionType::ExternalInterrupt(self.exception_number()), true));
        v
    }
}

/// A system control register value, with its type.
#[derive(Clone, Copy, Debug, PartialEq, Eq, Structural)]
pub enum SCReg {
    CPUID(CPUID),
    ICSR(ICSR),
    VTOR(VTOR),
    AIRCR(AIRCR),
    SCR(SCR),
    CCR(CCR),
    SHPR1(SHPR1),
    SHPR2(SHPR2),
    SHPR3(SHPR3),
    SHCSR(SHCSR),
    CFSR(CFSR),
    HFSR(HFSR),
    DFSR(DFSR),
    MMFAR(MMFAR),
    BFAR(BFAR),
    CPACR(CPACR),
    ICTR(ICTR),
    STIR(STIR),
    SysTick(SysTickReg),
    MPU(MPUReg),
}

} // verus!
