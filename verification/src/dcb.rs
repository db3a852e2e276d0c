//! Debug control block registers of the system control space.
use vstd::prelude::*;

use crate::bits::{
    bit, field, get_bit, get_field, lemma_low_mask_values, put_bit, put_field, with_bit, with_field,
};
use crate::error::BASE;
use crate::regs::RegInfo;

verus! {

/// Debug register enumeration.
#[derive(Clone, Copy, Debug, PartialEq, Eq, Hash, Structural)]
pub enum DebugRegType {
    DHCSR,
    DCRSR,
    DCRDR,
    DEMCR,
}

/// The debug register at byte offset `offset`.
pub open spec fn debug_lookup(offset: usize) -> Option<DebugRegType> {
    if offset == 0xdf0 {
        Some(DebugRegType::DHCSR)
    } else if offset == 0xdf4 {
        Some(DebugRegType::DCRSR)
    } else if offset == 0xdf8 {
        Some(DebugRegType::DCRDR)
    } else if offset == 0xdfc {
        Some(DebugRegType::DEMCR)
    } else {
        None
    }
}

/// Byte offset of a debug register.
pub open spec fn debug_offset(t: DebugRegType) -> usize {
    match t {
        DebugRegType::DHCSR => 0xdf0,
        DebugRegType::DCRSR => 0xdf4,
        DebugRegType::DCRDR => 0xdf8,
        DebugRegType::DEMCR => 0xdfc,
    }
}

impl DebugRegType {
    /// The register at byte offset `offset`, if any.
    pub fn lookup_offset(offset: usize) -> (r: Option<DebugRegType>)
        ensures
            r == debug_lookup(offset),
    {
        match offset {
            0xdf0 => Some(DebugRegType::DHCSR),
            0xdf4 => Some(DebugRegType::DCRSR),
            0xdf8 => Some(DebugRegType::DCRDR),
            0xdfc => Some(DebugRegType::DEMCR),
            _ => None,
        }
    }

    /// The register's address.
    pub fn address(&self) -> (r: u32)
        ensures
            r == BASE + debug_offset(*self),
    {
        BASE + self.offset() as u32
    }

    /// The register's byte offset in the system control space.
    pub fn offset(&self) -> (r: usize)
        ensures
            r == debug_offset(*self),
    {
        self._data().offset
    }

    /// Access permissions (read, write, execute bits): DCRSR is
    /// write-only, the others read-write.
    pub fn permissions(&self) -> (r: u8)
        ensures
            r == (if *self == DebugRegType::DCRSR { 0b010u8 } else { 0b110u8 }),
    {
        self._data().perms
    }

    /// Reset value: none is defined.
    pub fn reset_value(&self) -> (r: Option<u32>)
        ensures
            r == None::<u32>,
    {
        self._data().reset
    }

    fn _data(&self) -> (r: RegInfo)
        ensures
            r.offset == debug_offset(*self),
            r.perms == (if *self == DebugRegType::DCRSR { 0b010u8 } else { 0b110u8 }),
            r.reset == None::<u32>,
    {
        match self {
            DebugRegType::DHCSR => RegInfo { offset: 0xdf0, perms: 0b110, reset: None },
            DebugRegType::DCRSR => RegInfo { offset: 0xdf4, perms: 0b010, reset: None },
            DebugRegType::DCRDR => RegInfo { offset: 0xdf8, perms: 0b110, reset: None },
            DebugRegType::DEMCR => RegInfo { offset: 0xdfc, perms: 0b110, reset: None },
        }
    }
}

/// A debug register's offset finds it again, and an offset finds only the
/// register that lies there.
pub proof fn lemma_debug_lookup_offset(t: DebugRegType, offset: usize)
    ensures
        debug_lookup(debug_offset(t)) == Some(t),
        debug_lookup(offset) matches Some(u) ==> debug_offset(u) == offset,
{
}

/// Debug halting control and status register (C1.6.2).
#[derive(Clone, Copy, Debug, PartialEq, Eq, Structural)]
pub struct DHCSR(pub u32);

impl DHCSR {
    /// The register with every field at its reset default.
    pub fn new() -> (r: Self)
        ensures
            r.0 == 0x0u32,
    {
        DHCSR(0x0)
    }

    /// The register holding the raw word `bits`.
    pub fn from_bits(bits: u32) -> (r: Self)
        ensures
            r.0 == bits,
    {
        DHCSR(bits)
    }

    /// The raw word of the register.
    pub fn into_bits(self) -> (r: u32)
        ensures
            r == self.0,
    {
        self.0
    }

    /// Bit 0 (`c_debugen`).
    pub fn c_debugen(&self) -> (r: bool)
        ensures
            r == bit(self.0, 0),
    {
        get_bit(self.0, 0)
    }

    /// Sets bit 0 (`c_debugen`).
    pub fn set_c_debugen(&mut self, value: bool)
        ensures
            final(self).0 == with_bit(old(self).0, 0, value),
    {
        self.0 = put_bit(self.0, 0, value);
    }

    /// Bit 1 (`c_halt`).
    pub fn c_halt(&self) -> (r: bool)
        ensures
            r == bit(self.0, 1),
    {
        get_bit(self.0, 1)
    }

    /// Sets bit 1 (`c_halt`).
    pub fn set_c_halt(&mut self, value: bool)
        ensures
            final(self).0 == with_bit(old(self).0, 1, value),
    {
        self.0 = put_bit(self.0, 1, value);
    }

    /// Bit 2 (`c_step`).
    pub fn c_step(&self) -> (r: bool)
        ensures
            r == bit(self.0, 2),
    {
        get_bit(self.0, 2)
    }

    /// Sets bit 2 (`c_step`).
    pub fn set_c_step(&mut self, value: bool)
        ensures
            final(self).0 == with_bit(old(self).0, 2, value),
    {
        self.0 = put_bit(self.0, 2, value);
    }

    /// Bit 3 (`c_maskints`).
    pub fn c_maskints(&self) -> (r: bool)
        ensures
            r == bit(self.0, 3),
    {
        get_bit(self.0, 3)
    }

    /// Sets bit 3 (`c_maskints`).
    pub fn set_c_maskints(&mut self, value: bool)
        ensures
            final(self).0 == with_bit(old(self).0, 3, value),
    {
        self.0 = put_bit(self.0, 3, value);
    }

    /// Bit 5 (`c_snapstall`).
    pub fn c_snapstall(&self) -> (r: bool)
        ensures
            r == bit(self.0, 5),
    {
        get_bit(self.0, 5)
    }

    /// Sets bit 5 (`c_snapstall`).
    pub fn set_c_snapstall(&mut self, value: bool)
        ensures
            final(self).0 == with_bit(old(self).0, 5, value),
    {
        self.0 = put_bit(self.0, 5, value);
    }

    /// Bit 16 (`s_regrdy`).
    pub fn s_regrdy(&self) -> (r: bool)
        ensures
            r == bit(self.0, 16),
    {
        get_bit(self.0, 16)
    }

    /// Sets bit 16 (`s_regrdy`).
    pub fn set_s_regrdy(&mut self, value: bool)
        ensures
            final(self).0 == with_bit(old(self).0, 16, value),
    {
        self.0 = put_bit(self.0, 16, value);
    }

    /// Bit 17 (`s_halt`).
    pub fn s_halt(&self) -> (r: bool)
        ensures
            r == bit(self.0, 17),
    {
        get_bit(self.0, 17)
    }

    /// Sets bit 17 (`s_halt`).
    pub fn set_s_halt(&mut self, value: bool)
        ensures
            final(self).0 == with_bit(old(self).0, 17, value),
    {
        self.0 = put_bit(self.0, 17, value);
    }

    /// Bit 18 (`s_sleep`).
    pub fn s_sleep(&self) -> (r: bool)
        ensures
            r == bit(self.0, 18),
    {
        get_bit(self.0, 18)
    }

    /// Sets bit 18 (`s_sleep`).
    pub fn set_s_sleep(&mut self, value: bool)
        ensures
            final(self).0 == with_bit(old(self).0, 18, value),
    {
        self.0 = put_bit(self.0, 18, value);
    }

    /// Bit 19 (`s_lockup`).
    pub fn s_lockup(&self) -> (r: bool)
        ensures
            r == bit(self.0, 19),
    {
        get_bit(self.0, 19)
    }

    /// Sets bit 19 (`s_lockup`).
    pub fn set_s_lockup(&mut self, value: bool)
        ensures
            final(self).0 == with_bit(old(self).0, 19, value),
    {
        self.0 = put_bit(self.0, 19, value);
    }

    /// Bit 24 (`s_retire_st`).
    pub fn s_retire_st(&self) -> (r: bool)
        ensures
            r == bit(self.0, 24),
    {
        get_bit(self.0, 24)
    }

    /// Sets bit 24 (`s_retire_st`).
    pub fn set_s_retire_st(&mut self, value: bool)
        ensures
            final(self).0 == with_bit(old(self).0, 24, value),
    {
        self.0 = put_bit(self.0, 24, value);
    }

    /// Bit 25 (`s_reset_st`).
    pub fn s_reset_st(&self) -> (r: bool)
        ensures
            r == bit(self.0, 25),
    {
        get_bit(self.0, 25)
    }

    /// Sets bit 25 (`s_reset_st`).
    pub fn set_s_reset_st(&mut self, value: bool)
        ensures
            final(self).0 == with_bit(old(self).0, 25, value),
    {
        self.0 = put_bit(self.0, 25, value);
    }
}

/// Debug core register selector register (C1.6.3).
#[derive(Clone, Copy, Debug, PartialEq, Eq, Structural)]
pub struct DCRSR(pub u32);

impl DCRSR {
    /// The register with every field at its reset default.
    pub fn new() -> (r: Self)
        ensures
            r.0 == 0x0u32,
    {
        DCRSR(0x0)
    }

    /// The register holding the raw word `bits`.
    pub fn from_bits(bits: u32) -> (r: Self)
        ensures
            r.0 == bits,
    {
        DCRSR(bits)
    }

    /// The raw word of the register.
    pub fn into_bits(self) -> (r: u32)
        ensures
            r == self.0,
    {
        self.0
    }

    /// Bits 0..7 (`regsel`).
    pub fn regsel(&self) -> (r: u8)
        ensures
            r == field(self.0, 0, 7),
    {
        let v = get_field(self.0, 0, 7);
        proof { lemma_low_mask_values(); }
        v as u8
    }

    /// Sets bits 0..7 (`regsel`) to the low bits of `value`.
    pub fn set_regsel(&mut self, value: u8)
        ensures
            final(self).0 == with_field(old(self).0, 0, 7, value as u32),
    {
        self.0 = put_field(self.0, 0, 7, value as u32);
    }

    /// Bit 16 (`regwnr`).
    pub fn regwnr(&self) -> (r: bool)
        ensures
            r == bit(self.0, 16),
    {
        get_bit(self.0, 16)
    }

    /// Sets bit 16 (`regwnr`).
    pub fn set_regwnr(&mut self, value: bool)
        ensures
            final(self).0 == with_bit(old(self).0, 16, value),
    {
        self.0 = put_bit(self.0, 16, value);
    }
}

/// Debug core register data register (C1.6.4).
#[derive(Clone, Copy, Debug, PartialEq, Eq, Structural)]
pub struct DCRDR(pub u32);

impl DCRDR {
    /// The register with every field at its reset default.
    pub fn new() -> (r: Self)
        ensures
            r.0 == 0x0u32,
    {
        DCRDR(0x0)
    }

    /// The register holding the raw word `bits`.
    pub fn from_bits(bits: u32) -> (r: Self)
        ensures
            r.0 == bits,
    {
        DCRDR(bits)
    }

    /// The raw word of the register.
    pub fn into_bits(self) -> (r: u32)
        ensures
            r == self.0,
    {
        self.0
    }

    /// Bits 0..32 (`dbgtmp`).
    pub fn dbgtmp(&self) -> (r: u32)
        ensures
            r == field(self.0, 0, 32),
    {
        get_field(self.0, 0, 32)
    }

    /// Sets bits 0..32 (`dbgtmp`) to the low bits of `value`.
    pub fn set_dbgtmp(&mut self, value: u32)
        ensures
            final(self).0 == with_field(old(self).0, 0, 32, value as u32),
    {
        self.0 = put_field(self.0, 0, 32, value as u32);
    }
}

/// Debug exception and monitor control register (C1.6.5).
#[derive(Clone, Copy, Debug, PartialEq, Eq, Structural)]
pub struct DEMCR(pub u32);

impl DEMCR {
    /// The register with every field at its reset default.
    pub fn new() -> (r: Self)
        ensures
            r.0 == 0x0u32,
    {
        DEMCR(0x0)
    }

    /// The register holding the raw word `bits`.
    pub fn from_bits(bits: u32) -> (r: Self)
        ensures
            r.0 == bits,
    {
        DEMCR(bits)
    }

    /// The raw word of the register.
    pub fn into_bits(self) -> (r: u32)
        ensures
            r == self.0,
    {
        self.0
    }

    /// Bit 0 (`vc_corereset`).
    pub fn vc_corereset(&self) -> (r: bool)
        ensures
            r == bit(self.0, 0),
    {
        get_bit(self.0, 0)
    }

    /// Sets bit 0 (`vc_corereset`).
    pub fn set_vc_corereset(&mut self, value: bool)
        ensures
            final(self).0 == with_bit(old(self).0, 0, value),
    {
        self.0 = put_bit(self.0, 0, value);
    }

    /// Bit 4 (`vc_mmerr`).
    pub fn vc_mmerr(&self) -> (r: bool)
        ensures
            r == bit(self.0, 4),
    {
        get_bit(self.0, 4)
    }

    /// Sets bit 4 (`vc_mmerr`).
    pub fn set_vc_mmerr(&mut self, value: bool)
        ensures
            final(self).0 == with_bit(old(self).0, 4, value),
    {
        self.0 = put_bit(self.0, 4, value);
    }

    /// Bit 5 (`vc_nocperr`).
    pub fn vc_nocperr(&self) -> (r: bool)
        ensures
            r == bit(self.0, 5),
    {
        get_bit(self.0, 5)
    }

    /// Sets bit 5 (`vc_nocperr`).
    pub fn set_vc_nocperr(&mut self, value: bool)
        ensures
            final(self).0 == with_bit(old(self).0, 5, value),
    {
        self.0 = put_bit(self.0, 5, value);
    }

    /// Bit 6 (`vc_chkerr`).
    pub fn vc_chkerr(&self) -> (r: bool)
        ensures
            r == bit(self.0, 6),
    {
        get_bit(self.0, 6)
    }

    /// Sets bit 6 (`vc_chkerr`).
    pub fn set_vc_chkerr(&mut self, value: bool)
        ensures
            final(self).0 == with_bit(old(self).0, 6, value),
    {
        self.0 = put_bit(self.0, 6, value);
    }

    /// Bit 7 (`vc_staterr`).
    pub fn vc_staterr(&self) -> (r: bool)
        ensures
            r == bit(self.0, 7),
    {
        get_bit(self.0, 7)
    }

    /// Sets bit 7 (`vc_staterr`).
    pub fn set_vc_staterr(&mut self, value: bool)
        ensures
            final(self).0 == with_bit(old(self).0, 7, value),
    {
        self.0 = put_bit(self.0, 7, value);
    }

    /// Bit 8 (`vc_buserr`).
    pub fn vc_buserr(&self) -> (r: bool)
        ensures
            r == bit(self.0, 8),
    {
        get_bit(self.0, 8)
    }

    /// Sets bit 8 (`vc_buserr`).
    pub fn set_vc_buserr(&mut self, value: bool)
        ensures
            final(self).0 == with_bit(old(self).0, 8, value),
    {
        self.0 = put_bit(self.0, 8, value);
    }

    /// Bit 9 (`vc_interr`).
    pub fn vc_interr(&self) -> (r: bool)
        ensures
            r == bit(self.0, 9),
    {
        get_bit(self.0, 9)
    }

    /// Sets bit 9 (`vc_interr`).
    pub fn set_vc_interr(&mut self, value: bool)
        ensures
            final(self).0 == with_bit(old(self).0, 9, value),
    {
        self.0 = put_bit(self.0, 9, value);
    }

    /// Bit 10 (`vc_harderr`).
    pub fn vc_harderr(&self) -> (r: bool)
        ensures
            r == bit(self.0, 10),
    {
        get_bit(self.0, 10)
    }

    /// Sets bit 10 (`vc_harderr`).
    pub fn set_vc_harderr(&mut self, value: bool)
        ensures
            final(self).0 == with_bit(old(self).0, 10, value),
    {
        self.0 = put_bit(self.0, 10, value);
    }

    /// Bit 16 (`mon_en`).
    pub fn mon_en(&self) -> (r: bool)
        ensures
            r == bit(self.0, 16),
    {
        get_bit(self.0, 16)
    }

    /// Sets bit 16 (`mon_en`).
    pub fn set_mon_en(&mut self, value: bool)
        ensures
            final(self).0 == with_bit(old(self).0, 16, value),
    {
        self.0 = put_bit(self.0, 16, value);
    }

    /// Bit 17 (`mon_pend`).
    pub fn mon_pend(&self) -> (r: bool)
        ensures
            r == bit(self.0, 17),
    {
        get_bit(self.0, 17)
    }

    /// Sets bit 17 (`mon_pend`).
    pub fn set_mon_pend(&mut self, value: bool)
        ensures
            final(self).0 == with_bit(old(self).0, 17, value),
    {
        self.0 = put_bit(self.0, 17, value);
    }

    /// Bit 18 (`mon_step`).
    pub fn mon_step(&self) -> (r: bool)
        ensures
            r == bit(self.0, 18),
    {
        get_bit(self.0, 18)
    }

    /// Sets bit 18 (`mon_step`).
    pub fn set_mon_step(&mut self, value: bool)
        ensures
            final(self).0 == with_bit(old(self).0, 18, value),
    {
        self.0 = put_bit(self.0, 18, value);
    }

    /// Bit 19 (`mon_req`).
    pub fn mon_req(&self) -> (r: bool)
        ensures
            r == bit(self.0, 19),
    {
        get_bit(self.0, 19)
    }

    /// Sets bit 19 (`mon_req`).
    pub fn set_mon_req(&mut self, value: bool)
        ensures
            final(self).0 == with_bit(old(self).0, 19, value),
    {
        self.0 = put_bit(self.0, 19, value);
    }

    /// Bit 24 (`trcena`).
    pub fn trcena(&self) -> (r: bool)
        ensures
            r == bit(self.0, 24),
    {
        get_bit(self.0, 24)
    }

    /// Sets bit 24 (`trcena`).
    pub fn set_trcena(&mut self, value: bool)
        ensures
            final(self).0 == with_bit(old(self).0, 24, value),
    {
        self.0 = put_bit(self.0, 24, value);
    }
}


/// Number of words that the debug register view covers.
pub const DEBUG_WORDS: usize = 0x3c0;

/// Word index of the DHCSR.
pub const DHCSR_WORD: usize = 0x37c;

/// Words of the system control space as seen by the debug control block.
pub struct DebugRegs<'a> {
    backing: &'a [u32],
}

impl<'a> View for DebugRegs<'a> {
    type V = Seq<u32>;

    closed spec fn view(&self) -> Seq<u32> {
        self.backing@
    }
}

impl<'a> DebugRegs<'a> {
    /// The debug registers within `backing`.
    pub fn new(backing: &'a [u32]) -> (r: Self)
        requires
            backing@.len() >= DEBUG_WORDS,
        ensures
            r@ == backing@,
    {
        DebugRegs { backing }
    }

    /// Whether the processor is halted in debug state (DHCSR.S_HALT).
    pub fn get_debug_state(&self) -> (r: bool)
        requires
            self@.len() >= DEBUG_WORDS,
        ensures
            r == bit(self@[DHCSR_WORD as int], 17),
    {
        self.get_dhcsr().s_halt()
    }

    /// The debug halting control and status register.
    pub fn get_dhcsr(&self) -> (r: DHCSR)
        requires
            self@.len() >= DEBUG_WORDS,
        ensures
            r.0 == self@[DHCSR_WORD as int],
    {
        DHCSR(self.backing[DebugRegType::DHCSR.offset() / 4])
    }

    /// The debug core register selector register.
    pub fn get_dcrsr(&self) -> (r: DCRSR)
        requires
            self@.len() >= DEBUG_WORDS,
        ensures
            r.0 == self@[(debug_offset(DebugRegType::DCRSR) / 4) as int],
    {
        DCRSR(self.backing[DebugRegType::DCRSR.offset() / 4])
    }

    /// The debug core register data register.
    pub fn get_dcrdr(&self) -> (r: DCRDR)
        requires
            self@.len() >= DEBUG_WORDS,
        ensures
            r.0 == self@[(debug_offset(DebugRegType::DCRDR) / 4) as int],
    {
        DCRDR(self.backing[DebugRegType::DCRDR.offset() / 4])
    }

    /// The debug exception and monitor control register.
    pub fn get_demcr(&self) -> (r: DEMCR)
        requires
            self@.len() >= DEBUG_WORDS,
        ensures
            r.0 == self@[(debug_offset(DebugRegType::DEMCR) / 4) as int],
    {
        DEMCR(self.backing[DebugRegType::DEMCR.offset() / 4])
    }
}

} // verus!
