//! The system control space: a 4KB block of 32-bit registers for
//! configuration, status and control [0xe000e000, 0xe000efff] (B3.2), with
//! the exception state that its registers reflect.
use vstd::prelude::*;

use std::collections::VecDeque;

use ahash::AHashMap;

use crate::bits::{bit, byte_of, field, get_byte, with_bit, with_field};
use crate::events::Event;
use crate::exception::{exception_number, is_canonical, ExceptionType};
use crate::mpu::MPUState;
use crate::nvic::{contains_type, remove_first, remove_sorted, ipr_pri, ipr_with_pri, lemma_ipr_pri_update, IPR};
use crate::regs::{sc_data, sc_offset, SCRegType, AIRCR, BFAR, CCR, CFSR, CPACR, DFSR, HFSR, ICSR, ICTR, MMFAR, SCR, SHCSR, SHPR1, SHPR2, SHPR3, STIR, VTOR};

pub mod access;

verus! {

/// Word index of the ICSR.
pub const ICSR_WORD: usize = 0x341;

/// Word index of the VTOR.
pub const VTOR_WORD: usize = 0x342;

/// Word index of the AIRCR.
pub const AIRCR_WORD: usize = 0x343;

/// Word index of the SCR.
pub const SCR_WORD: usize = 0x344;

/// Word index of the CCR.
pub const CCR_WORD: usize = 0x345;

/// Word index of the SHPR1.
pub const SHPR1_WORD: usize = 0x346;

/// Word index of the SHPR2.
pub const SHPR2_WORD: usize = 0x347;

/// Word index of the SHPR3.
pub const SHPR3_WORD: usize = 0x348;

/// Word index of the SHCSR.
pub const SHCSR_WORD: usize = 0x349;

/// Word index of the CFSR.
pub const CFSR_WORD: usize = 0x34a;

/// Number of words of the space.
pub const SCS_WORDS: usize = 0x400;

/// The SHCSR bits that reflect exception state.
pub const SHCSR_STATE_MASK: u32 = 0x0007fd8b;

/// The ICSR bits that reflect exception state.
pub const ICSR_STATE_MASK: u32 = 0x94dff9ff;

#[verifier::external_type_specification]
#[verifier::external_body]
#[verifier::reject_recursive_types(K)]
#[verifier::reject_recursive_types(V)]
#[verifier::reject_recursive_types(S)]
pub struct ExAHashMap<K, V, S>(ahash::AHashMap<K, V, S>);

#[verifier::external_type_specification]
#[verifier::external_body]
pub struct ExRandomState(ahash::RandomState);

/// The reset values that a map of the configuration holds, by register.
pub uninterp spec fn config_map(m: AHashMap<SCRegType, u32>) -> Map<SCRegType, u32>;

/// A new, empty map (`AHashMap::default`): it holds no reset value.
#[verifier::external_body]
fn empty_config_map() -> (r: AHashMap<SCRegType, u32>)
    ensures
        config_map(r).dom() == Set::<SCRegType>::empty(),
{
    AHashMap::default()
}

/// The entries of a map (`AHashMap::into_iter`), in the order in which the
/// map is walked, which this contract leaves open: each register of the
/// map once, with its reset value.
#[verifier::external_body]
fn config_map_entries(m: AHashMap<SCRegType, u32>) -> (r: Vec<(SCRegType, u32)>)
    ensures
        r@.len() == config_map(m).dom().len(),
        forall|i: int| 0 <= i < r@.len() ==> config_map(m).dom().contains((#[trigger] r@[i]).0) && config_map(m)[r@[i].0] == r@[i].1,
        forall|t: SCRegType| #[trigger] config_map(m).dom().contains(t) ==> exists|i: int| 0 <= i < r@.len() && r@[i].0 == t,
        forall|i: int, j: int| 0 <= i < j < r@.len() ==> r@[i].0 != r@[j].0,
{
    m.into_iter().collect()
}

/// Configuration of the reset values of the registers of the space.
pub struct SysCtrlConfig {
    map: AHashMap<SCRegType, u32>,
}

impl View for SysCtrlConfig {
    type V = Map<SCRegType, u32>;

    closed spec fn view(&self) -> Map<SCRegType, u32> {
        config_map(self.map)
    }
}

impl SysCtrlConfig {
    /// The configuration with no reset value.
    pub fn default() -> (r: Self)
        ensures
            r@.dom() == Set::<SCRegType>::empty(),
    {
        SysCtrlConfig { map: empty_config_map() }
    }
}

/// The enabled exceptions (each once, in the order in which they were
/// enabled), the priority-ordered queue of pending exceptions, and the
/// stack of active exceptions (most recent first).
#[derive(Debug)]
pub struct ExceptionState {
    pub enabled: Vec<ExceptionType>,
    pub pending: Vec<ExceptionType>,
    pub active: Vec<ExceptionType>,
}

impl Clone for ExceptionState {
    fn clone(&self) -> (r: Self)
        ensures
            r.enabled@ == self.enabled@,
            r.pending@ == self.pending@,
            r.active@ == self.active@,
    {
        ExceptionState {
            enabled: self.enabled.clone(),
            pending: self.pending.clone(),
            active: self.active.clone(),
        }
    }
}

impl ExceptionState {
    /// No exception enabled, pending or active.
    pub fn new() -> (r: Self)
        ensures
            r.enabled@ == Seq::<ExceptionType>::empty(),
            r.pending@ == Seq::<ExceptionType>::empty(),
            r.active@ == Seq::<ExceptionType>::empty(),
    {
        ExceptionState { enabled: Vec::new(), pending: Vec::new(), active: Vec::new() }
    }

    /// The active exceptions, most recent first.
    pub fn active(&self) -> (r: &[ExceptionType])
        ensures
            r@ == self.active@,
    {
        self.active.as_slice()
    }

    /// The pending exceptions, in priority order.
    pub fn pending(&self) -> (r: &[ExceptionType])
        ensures
            r@ == self.pending@,
    {
        self.pending.as_slice()
    }

    /// The enabled exceptions.
    pub fn enabled(&self) -> (r: &[ExceptionType])
        ensures
            r@ == self.enabled@,
    {
        self.enabled.as_slice()
    }
}

/// Abstract state of the space: its words and its exception lists.
pub struct SysCtrlSpaceView {
    pub start: u64,
    pub end: u64,
    pub words: Seq<u32>,
    pub enabled: Seq<ExceptionType>,
    pub pending: Seq<ExceptionType>,
    pub active: Seq<ExceptionType>,
}

/// The system control space.
pub struct SysCtrlSpace {
    /// the addresses of the space
    pub range: core::ops::Range<u64>,
    backing: Vec<u32>,
    pub exceptions: ExceptionState,
    pub mpu: MPUState,
}

impl View for SysCtrlSpace {
    type V = SysCtrlSpaceView;

    closed spec fn view(&self) -> SysCtrlSpaceView {
        SysCtrlSpaceView {
            start: self.range.start,
            end: self.range.end,
            words: self.backing@,
            enabled: self.exceptions.enabled@,
            pending: self.exceptions.pending@,
            active: self.exceptions.active@,
        }
    }
}

/// An exception type that the space can record: canonical, with a number
/// from 1 to 511.
pub open spec fn valid_exception(t: ExceptionType) -> bool {
    is_canonical(t) && 1 <= exception_number(t) <= 511
}

/// Well-formedness of the space: 0x400 words, and only valid exception
/// types in its lists.
pub open spec fn scs_wf(v: SysCtrlSpaceView) -> bool {
    &&& v.words.len() == SCS_WORDS
    &&& forall|i: int| 0 <= i < v.enabled.len() ==> valid_exception(#[trigger] v.enabled[i])
    &&& forall|i: int| 0 <= i < v.pending.len() ==> valid_exception(#[trigger] v.pending[i])
    &&& forall|i: int| 0 <= i < v.active.len() ==> valid_exception(#[trigger] v.active[i])
}

/// Whether `n` is an exception number with a priority: 1 to 511.
pub open spec fn priority_defined(n: u32) -> bool {
    1 <= n <= 511
}

/// The priority byte (or fixed negative priority) of exception number `n`
/// in the words `w`: fixed for reset, NMI and hard fault; the SHPR byte
/// for 4 to 15; for interrupt m = n - 16, byte m % 4 of IPR m / 4
/// (B3.4.9).
pub open spec fn raw_priority(w: Seq<u32>, n: u32) -> int {
    if n == 1 {
        -3
    } else if n == 2 {
        -2
    } else if n == 3 {
        -1
    } else if 4 <= n <= 7 {
        field(w[SHPR1_WORD as int], ((n - 4) * 8) as u32, 8) as int
    } else if 8 <= n <= 11 {
        field(w[SHPR2_WORD as int], ((n - 8) * 8) as u32, 8) as int
    } else if 12 <= n <= 15 {
        field(w[SHPR3_WORD as int], ((n - 12) * 8) as u32, 8) as int
    } else {
        ipr_pri(w[(0x100 + (n - 16) / 4) as int], ((n - 16) % 4) as u8) as int
    }
}

/// A priority is a fixed negative one or a byte.
pub proof fn lemma_raw_priority_bounds(w: Seq<u32>, n: u32)
    ensures
        -3 <= raw_priority(w, n) <= 255,
{
    crate::bits::lemma_low_mask_values();
    if 4 <= n <= 7 {
        crate::bits::lemma_field_bound(w[SHPR1_WORD as int], ((n - 4) * 8) as u32, 8);
    } else if 8 <= n <= 11 {
        crate::bits::lemma_field_bound(w[SHPR2_WORD as int], ((n - 8) * 8) as u32, 8);
    } else if 12 <= n <= 15 {
        crate::bits::lemma_field_bound(w[SHPR3_WORD as int], ((n - 12) * 8) as u32, 8);
    }
}

/// The group and subgroup priority of exception number `n`, without
/// boosting: a negative priority is its own group; otherwise the subgroup
/// is the priority modulo 2 << PRIGROUP and the group the rest.
pub open spec fn exception_priority(w: Seq<u32>, n: u32) -> (i16, i16) {
    let pri = raw_priority(w, n);
    if pri < 0 {
        (pri as i16, 0i16)
    } else {
        let gv = 2 * pow2_small(field(w[AIRCR_WORD as int], 8, 3));
        let sub = pri % gv;
        ((pri - sub) as i16, sub as i16)
    }
}

/// 2 to the power `k`, for `k` from 0 to 7.
pub open spec fn pow2_small(k: u32) -> int {
    if k == 0 {
        1
    } else if k == 1 {
        2
    } else if k == 2 {
        4
    } else if k == 3 {
        8
    } else if k == 4 {
        16
    } else if k == 5 {
        32
    } else if k == 6 {
        64
    } else {
        128
    }
}

/// Whether priority `a` is at most priority `b`: by group, then subgroup.
pub open spec fn key_le(a: (i16, i16), b: (i16, i16)) -> bool {
    a.0 < b.0 || (a.0 == b.0 && a.1 <= b.1)
}

/// Number of leading elements of `s` whose priority is at most that of `t`.
pub open spec fn priority_pos(w: Seq<u32>, s: Seq<ExceptionType>, t: ExceptionType) -> int
    decreases s.len(),
{
    if s.len() == 0 {
        0
    } else if key_le(
        exception_priority(w, exception_number(s[0])),
        exception_priority(w, exception_number(t)),
    ) {
        1 + priority_pos(w, s.drop_first(), t)
    } else {
        0
    }
}

/// `s` sorted by priority, stably: exceptions of equal priority keep their
/// order.
pub open spec fn priority_sorted(w: Seq<u32>, s: Seq<ExceptionType>) -> Seq<ExceptionType>
    decreases s.len(),
{
    if s.len() == 0 {
        s
    } else {
        let r = priority_sorted(w, s.drop_last());
        r.insert(priority_pos(w, r, s.last()), s.last())
    }
}

/// The bit `i` when `b`, else no bit.
pub open spec fn bitv(b: bool, i: u32) -> u32 {
    if b { 1u32 << i } else { 0u32 }
}

/// Whether `s` holds an external interrupt.
pub open spec fn has_external(s: Seq<ExceptionType>) -> bool {
    exists|i: int| 0 <= i < s.len() && s[i] is ExternalInterrupt
}

/// The SHCSR bits that the lists set: enable bits of the enabled faults,
/// pended bits of the pending exceptions, active bits of the active ones.
pub open spec fn shcsr_state(
    en: Seq<ExceptionType>,
    pe: Seq<ExceptionType>,
    ac: Seq<ExceptionType>,
) -> u32 {
    bitv(en.contains(ExceptionType::UsageFault), 18) | bitv(en.contains(ExceptionType::BusFault), 17)
        | bitv(en.contains(ExceptionType::MemFault), 16) | bitv(pe.contains(ExceptionType::SVCall), 15)
        | bitv(pe.contains(ExceptionType::BusFault), 14) | bitv(pe.contains(ExceptionType::MemFault), 13)
        | bitv(pe.contains(ExceptionType::UsageFault), 12) | bitv(ac.contains(ExceptionType::SysTick), 11)
        | bitv(ac.contains(ExceptionType::PendSV), 10) | bitv(ac.contains(ExceptionType::DebugMonitor), 8)
        | bitv(ac.contains(ExceptionType::SVCall), 7) | bitv(ac.contains(ExceptionType::UsageFault), 3)
        | bitv(ac.contains(ExceptionType::BusFault), 1) | bitv(ac.contains(ExceptionType::MemFault), 0)
}

/// The low nine bits of the number of the first exception of `s`, or 0.
pub open spec fn first_number(s: Seq<ExceptionType>) -> u32 {
    if s.len() > 0 { exception_number(s[0]) & 0x1ffu32 } else { 0u32 }
}

/// The ICSR bits that the lists set: the active and pending vectors;
/// RETTOBASE, set when at most one exception is active (no preempted
/// exception to return to); ISRPENDING, set when an external interrupt is
/// pending; the SysTick and PendSV set-pending bits and the NMI bit.
pub open spec fn icsr_state(pe: Seq<ExceptionType>, ac: Seq<ExceptionType>) -> u32 {
    first_number(ac) | bitv(ac.len() <= 1, 11) | (first_number(pe) << 12u32) | bitv(
        has_external(pe),
        22,
    ) | bitv(pe.contains(ExceptionType::SysTick), 26) | bitv(pe.contains(ExceptionType::PendSV), 28)
        | bitv(ac.contains(ExceptionType::NMI), 31)
}

/// The mask of NVIC word `n` for the list `s`: bit b, for b below `k`, is
/// set when `s` holds interrupt 32n + b, the external interrupt of
/// exception number 16 + 32n + b.
pub open spec fn ext_mask(s: Seq<ExceptionType>, n: u32, k: nat) -> u32
    decreases k,
{
    if k == 0 {
        0u32
    } else {
        ext_mask(s, n, (k - 1) as nat) | bitv(
            s.contains(ExceptionType::ExternalInterrupt((16 + 32 * n + (k - 1)) as u32)),
            (k - 1) as u32,
        )
    }
}

/// The words after the exception registers were made to reflect the lists
/// (B3.2.4, B3.4): the state bits of the SHCSR and ICSR, and NVIC word `n`
/// of ISER and ICER from the enabled exceptions, of ISPR and ICPR from the
/// pending ones and of IABR from the active ones, bit b standing for
/// interrupt 32n + b.
pub open spec fn regs_reflect(
    w: Seq<u32>,
    en: Seq<ExceptionType>,
    pe: Seq<ExceptionType>,
    ac: Seq<ExceptionType>,
) -> Seq<u32> {
    Seq::new(
        w.len(),
        |i: int|
            if i == SHCSR_WORD as int {
                (w[i] & !SHCSR_STATE_MASK) | shcsr_state(en, pe, ac)
            } else if i == ICSR_WORD as int {
                (w[i] & !ICSR_STATE_MASK) | icsr_state(pe, ac)
            } else if 0x40 <= i < 0x50 || 0x60 <= i < 0x70 {
                ext_mask(en, (i % 0x20) as u32, 32)
            } else if 0x80 <= i < 0x90 || 0xa0 <= i < 0xb0 {
                ext_mask(pe, (i % 0x20) as u32, 32)
            } else if 0xc0 <= i < 0xd0 {
                ext_mask(ac, (i % 0x20) as u32, 32)
            } else {
                w[i]
            },
    )
}

/// Bit `j` of the first `k` bits of the interrupt mask of word `n` is set
/// exactly when `s` holds interrupt 32 n + j, the external interrupt of
/// exception number `16 + 32 n + j`.
pub proof fn lemma_ext_mask_bit(s: Seq<ExceptionType>, n: u32, k: nat, j: u32)
    requires
        k <= 32,
        j < 32,
    ensures
        bit(ext_mask(s, n, k), j) == (j < k && s.contains(ExceptionType::ExternalInterrupt((16 + 32 * n + j) as u32))),
    decreases k,
{
    if k == 0 {
        assert((0u32 >> j) & 1u32 != 1u32) by (bit_vector);
    } else {
        lemma_ext_mask_bit(s, n, (k - 1) as nat, j);
        let m = ext_mask(s, n, (k - 1) as nat);
        let i = (k - 1) as u32;
        if s.contains(ExceptionType::ExternalInterrupt((16 + 32 * n + (k - 1)) as u32)) {
            assert((((m | (1u32 << i)) >> j) & 1u32 == 1u32) == (((m >> j) & 1u32 == 1u32) || i == j)) by (bit_vector)
                requires
                    i < 32,
                    j < 32,
            ;
        } else {
            assert(m | 0u32 == m) by (bit_vector);
        }
    }
}

/// Once the exception registers reflect the lists (B3.4), bit `j` of word
/// `n` of ISER and ICER tells whether interrupt 32 n + j (the external
/// interrupt of exception number 16 + 32 n + j) is enabled, bit `j` of
/// ISPR and ICPR whether it is pending, and bit `j` of IABR whether it is
/// active.
pub proof fn lemma_regs_reflect_interrupts(
    w: Seq<u32>,
    en: Seq<ExceptionType>,
    pe: Seq<ExceptionType>,
    ac: Seq<ExceptionType>,
    n: u32,
    j: u32,
)
    requires
        w.len() > 0xd0,
        n < 16,
        j < 32,
    ensures
        bit(regs_reflect(w, en, pe, ac)[0x40 + n], j) == en.contains(ExceptionType::ExternalInterrupt((16 + 32 * n + j) as u32)),
        bit(regs_reflect(w, en, pe, ac)[0x60 + n], j) == en.contains(ExceptionType::ExternalInterrupt((16 + 32 * n + j) as u32)),
        bit(regs_reflect(w, en, pe, ac)[0x80 + n], j) == pe.contains(ExceptionType::ExternalInterrupt((16 + 32 * n + j) as u32)),
        bit(regs_reflect(w, en, pe, ac)[0xa0 + n], j) == pe.contains(ExceptionType::ExternalInterrupt((16 + 32 * n + j) as u32)),
        bit(regs_reflect(w, en, pe, ac)[0xc0 + n], j) == ac.contains(ExceptionType::ExternalInterrupt((16 + 32 * n + j) as u32)),
{
    assert((0x40 + n) % 0x20 == n);
    assert((0x60 + n) % 0x20 == n);
    assert((0x80 + n) % 0x20 == n);
    assert((0xa0 + n) % 0x20 == n);
    assert((0xc0 + n) % 0x20 == n);
    lemma_ext_mask_bit(en, n, 32, j);
    lemma_ext_mask_bit(pe, n, 32, j);
    lemma_ext_mask_bit(ac, n, 32, j);
}


/// Whether `s` holds an external interrupt.
fn has_external_exec(s: &Vec<ExceptionType>) -> (r: bool)
    ensures
        r == has_external(s@),
{
    let mut i: usize = 0;
    while i < s.len()
        invariant
            i <= s@.len(),
            forall|j: int| 0 <= j < i ==> !(#[trigger] s@[j] is ExternalInterrupt),
        decreases s@.len() - i,
    {
        if let ExceptionType::ExternalInterrupt(_) = s[i] {
            return true;
        }
        i = i + 1;
    }
    false
}

/// The bit `i` when `b`, else no bit.
fn bitv_exec(b: bool, i: u32) -> (r: u32)
    requires
        i < 32,
    ensures
        r == bitv(b, i),
{
    if b {
        1u32 << i
    } else {
        0
    }
}

/// The low nine bits of the number of the first exception of `s`, or 0.
fn first_number_exec(s: &Vec<ExceptionType>) -> (r: u32)
    ensures
        r == first_number(s@),
{
    if s.len() > 0 {
        s[0].number() & 0x1ff
    } else {
        0
    }
}

/// A concatenation holds what either part holds.
proof fn lemma_concat_contains(a: Seq<ExceptionType>, b: Seq<ExceptionType>, x: ExceptionType)
    ensures
        (a + b).contains(x) <==> (a.contains(x) || b.contains(x)),
{
    if (a + b).contains(x) {
        let k = choose|k: int| 0 <= k < (a + b).len() && (a + b)[k] == x;
        if k < a.len() {
            assert(a[k] == x);
        } else {
            assert(b[k - a.len()] == x);
        }
    }
    if a.contains(x) {
        let k = choose|k: int| 0 <= k < a.len() && a[k] == x;
        assert((a + b)[k] == x);
    }
    if b.contains(x) {
        let k = choose|k: int| 0 <= k < b.len() && b[k] == x;
        assert((a + b)[k + a.len()] == x);
    }
}

/// The mask of NVIC word `n` for the list `a` followed by `b`: bit b is set
/// when the lists hold interrupt 32n + b (exception 16 + 32n + b).
fn ext_mask_exec(a: &Vec<ExceptionType>, b: &Vec<ExceptionType>, n: u32) -> (r: u32)
    requires
        n < 16,
    ensures
        r == ext_mask(a@ + b@, n, 32),
{
    let mut mask: u32 = 0;
    let mut k: u32 = 0;
    while k < 32
        invariant
            n < 16,
            k <= 32,
            mask == ext_mask(a@ + b@, n, k as nat),
        decreases 32 - k,
    {
        let t = ExceptionType::ExternalInterrupt(16 + 32 * n + k);
        let c = contains_type(a, t) || contains_type(b, t);
        proof {
            lemma_concat_contains(a@, b@, t);
        }
        mask = mask | bitv_exec(c, k);
        k = k + 1;
    }
    mask
}

impl SysCtrlSpace {
    /// The space with every word 0 and no exception state.
    pub fn default() -> (r: Self)
        ensures
            r@.start == 0xe000e000u64,
            r@.end == 0xe000f000u64,
            r@.words == Seq::new(SCS_WORDS as nat, |i: int| 0u32),
            r@.enabled == Seq::<ExceptionType>::empty(),
            r@.pending == Seq::<ExceptionType>::empty(),
            r@.active == Seq::<ExceptionType>::empty(),
            scs_wf(r@),
    {
        let mut backing: Vec<u32> = Vec::new();
        let mut i: usize = 0;
        while i < SCS_WORDS
            invariant
                i <= SCS_WORDS,
                backing@ == Seq::new(i as nat, |j: int| 0u32),
            decreases SCS_WORDS - i,
        {
            backing.push(0);
            i = i + 1;
            assert(backing@ =~= Seq::new(i as nat, |j: int| 0u32));
        }
        SysCtrlSpace {
            range: 0xe000e000u64..0xe000f000u64,
            backing,
            exceptions: ExceptionState::new(),
            mpu: MPUState::default(),
        }
    }

    /// The first address of the space.
    pub fn range_start(&self) -> (r: u64)
        ensures
            r == self@.start,
    {
        self.range.start
    }

    /// The address just past the space.
    pub fn range_end(&self) -> (r: u64)
        ensures
            r == self@.end,
    {
        self.range.end
    }

    /// The active exceptions, most recent first.
    pub fn active_exceptions(&self) -> (r: &[ExceptionType])
        ensures
            r@ == self@.active,
    {
        self.exceptions.active()
    }

    /// The pending exceptions.
    pub fn pending_exceptions(&self) -> (r: &[ExceptionType])
        ensures
            r@ == self@.pending,
    {
        self.exceptions.pending()
    }

    /// The enabled exceptions.
    pub fn enabled_exceptions(&self) -> (r: &[ExceptionType])
        ensures
            r@ == self@.enabled,
    {
        self.exceptions.enabled()
    }

    /// The words of the space.
    pub fn words(&self) -> (r: &[u32])
        ensures
            r@ == self@.words,
    {
        self.backing.as_slice()
    }

    /// The bytes of the space, each word least significant byte first.
    pub fn view_as_bytes(&self) -> (r: Vec<u8>)
        requires
            scs_wf(self@),
        ensures
            r@.len() == 4 * SCS_WORDS,
            forall|i: int| 0 <= i < 4 * SCS_WORDS ==> #[trigger] r@[i] == byte_of(self@.words[i / 4], (i % 4) as u32),
    {
        let mut v: Vec<u8> = Vec::new();
        let mut i: usize = 0;
        while i < SCS_WORDS
            invariant
                i <= SCS_WORDS,
                self@.words.len() == SCS_WORDS,
                v@.len() == 4 * i,
                forall|j: int| 0 <= j < 4 * i ==> #[trigger] v@[j] == byte_of(self@.words[j / 4], (j % 4) as u32),
            decreases SCS_WORDS - i,
        {
            let w = self.backing[i];
            let ghost before = v@;
            v.push(get_byte(w, 0));
            v.push(get_byte(w, 1));
            v.push(get_byte(w, 2));
            v.push(get_byte(w, 3));
            assert forall|j: int| 0 <= j < 4 * (i + 1) implies #[trigger] v@[j] == byte_of(self@.words[j / 4], (j % 4) as u32) by {
                if j < 4 * i {
                    assert(v@[j] == before[j]);
                } else {
                    assert(j / 4 == i as int);
                }
            }
            i = i + 1;
        }
        v
    }

    fn word(&self, idx: usize) -> (r: u32)
        requires
            idx < self@.words.len(),
        ensures
            r == self@.words[idx as int],
    {
        self.backing[idx]
    }

    /// Replaces word `idx` of the space.
    pub fn set_word(&mut self, idx: usize, v: u32)
        requires
            idx < old(self)@.words.len(),
        ensures
            final(self)@ == (SysCtrlSpaceView { words: old(self)@.words.update(idx as int, v), ..old(self)@ }),
    {
        self.backing.set(idx, v);
    }

    /// The interrupt control and state register.
    pub fn get_icsr(&self) -> (r: ICSR)
        requires
            scs_wf(self@),
        ensures
            r.0 == self@.words[ICSR_WORD as int],
    {
        ICSR(self.word(ICSR_WORD))
    }

    /// The vector table offset register.
    pub fn get_vtor(&self) -> (r: VTOR)
        requires
            scs_wf(self@),
        ensures
            r.0 == self@.words[VTOR_WORD as int],
    {
        VTOR(self.word(VTOR_WORD))
    }

    /// The application interrupt and reset control register.
    pub fn get_aircr(&self) -> (r: AIRCR)
        requires
            scs_wf(self@),
        ensures
            r.0 == self@.words[AIRCR_WORD as int],
    {
        AIRCR(self.word(AIRCR_WORD))
    }

    /// The system control register.
    pub fn get_scr(&self) -> (r: SCR)
        requires
            scs_wf(self@),
        ensures
            r.0 == self@.words[SCR_WORD as int],
    {
        SCR(self.word(SCR_WORD))
    }

    /// The configuration and control register.
    pub fn get_ccr(&self) -> (r: CCR)
        requires
            scs_wf(self@),
        ensures
            r.0 == self@.words[CCR_WORD as int],
    {
        CCR(self.word(CCR_WORD))
    }

    /// The system handler control and state register.
    pub fn get_shcsr(&self) -> (r: SHCSR)
        requires
            scs_wf(self@),
        ensures
            r.0 == self@.words[SHCSR_WORD as int],
    {
        SHCSR(self.word(SHCSR_WORD))
    }

    /// The configurable fault status register.
    pub fn get_cfsr(&self) -> (r: CFSR)
        requires
            scs_wf(self@),
        ensures
            r.0 == self@.words[CFSR_WORD as int],
    {
        CFSR(self.word(CFSR_WORD))
    }

    /// Replaces the configurable fault status register.
    pub fn set_cfsr(&mut self, cfsr: CFSR)
        requires
            scs_wf(old(self)@),
        ensures
            final(self)@ == (SysCtrlSpaceView {
                words: old(self)@.words.update(CFSR_WORD as int, cfsr.0),
                ..old(self)@
            }),
    {
        self.set_word(CFSR_WORD, cfsr.0);
    }

    /// The priority register word that holds interrupt priority `k`.
    fn ipr_word_of(&self, n: u32) -> (r: IPR)
        requires
            scs_wf(self@),
            n <= 123,
        ensures
            r.0 == self@.words[(0x100 + n) as int],
    {
        IPR(self.word(0x100 + n as usize))
    }

    /// The group and subgroup priority of exception `typ`, without boosting.
    pub fn get_exception_priority(&self, typ: ExceptionType) -> (r: (i16, i16))
        requires
            scs_wf(self@),
            priority_defined(exception_number(typ)),
        ensures
            r == exception_priority(self@.words, exception_number(typ)),
    {
        let excp_num = typ.number();
        let pri: i16 = if excp_num == 1 {
            -3
        } else if excp_num == 2 {
            -2
        } else if excp_num == 3 {
            -1
        } else if excp_num <= 7 {
            crate::bits::get_field(self.word(SHPR1_WORD), (excp_num - 4) * 8, 8) as i16
        } else if excp_num <= 11 {
            crate::bits::get_field(self.word(SHPR2_WORD), (excp_num - 8) * 8, 8) as i16
        } else if excp_num <= 15 {
            crate::bits::get_field(self.word(SHPR3_WORD), (excp_num - 12) * 8, 8) as i16
        } else {
            let int_num = excp_num - 16;
            let n = int_num / 4;
            let i = (int_num % 4) as u8;
            self.ipr_word_of(n).pri_n(i) as i16
        };
        proof {
            crate::bits::lemma_low_mask_values();
        }
        if pri < 0 {
            (pri, 0)
        } else {
            let subgroupshift = self.get_aircr().prigroup() as i16;
            proof {
                crate::bits::lemma_field_bound(self@.words[AIRCR_WORD as int], 8, 3);
            }
            let groupvalue: i16 = pow2_exec(subgroupshift) * 2;
            let subgroup_pri = pri % groupvalue;
            let group_pri = pri - subgroup_pri;
            (group_pri, subgroup_pri)
        }
    }
}

/// Whether every pending exception of `v` has a priority that can be read.
pub open spec fn pending_defined(v: SysCtrlSpaceView) -> bool {
    forall|i: int| 0 <= i < v.pending.len() ==> priority_defined(#[trigger] exception_number(v.pending[i]))
}

/// Whether priority `a` is at most priority `b`.
fn key_le_exec(a: (i16, i16), b: (i16, i16)) -> (r: bool)
    ensures
        r == key_le(a, b),
{
    a.0 < b.0 || (a.0 == b.0 && a.1 <= b.1)
}

/// The insertion point of `t` in `s` is the first position whose element
/// has a priority above that of `t`.
proof fn lemma_priority_pos(w: Seq<u32>, s: Seq<ExceptionType>, t: ExceptionType, p: int)
    requires
        0 <= p <= s.len(),
        forall|j: int|
            0 <= j < p ==> key_le(
                exception_priority(w, exception_number(#[trigger] s[j])),
                exception_priority(w, exception_number(t)),
            ),
        p < s.len() ==> !key_le(
            exception_priority(w, exception_number(s[p])),
            exception_priority(w, exception_number(t)),
        ),
    ensures
        priority_pos(w, s, t) == p,
    decreases p,
{
    if p > 0 {
        let d = s.drop_first();
        assert forall|j: int| 0 <= j < p - 1 implies key_le(
            exception_priority(w, exception_number(#[trigger] d[j])),
            exception_priority(w, exception_number(t)),
        ) by {
            assert(d[j] == s[j + 1]);
        }
        if p - 1 < d.len() {
            assert(d[p - 1] == s[p]);
        }
        lemma_priority_pos(w, d, t, p - 1);
        assert(key_le(
            exception_priority(w, exception_number(s[0])),
            exception_priority(w, exception_number(t)),
        ));
    }
}

impl SysCtrlSpace {
    /// Sorts the pending exceptions by priority, stably.
    fn sort_pending(&mut self)
        requires
            scs_wf(old(self)@),
            pending_defined(old(self)@),
        ensures
            final(self)@ == (SysCtrlSpaceView {
                pending: priority_sorted(old(self)@.words, old(self)@.pending),
                ..old(self)@
            }),
    {
        let ghost w = self@.words;
        let ghost pe = self@.pending;
        let mut sorted: Vec<ExceptionType> = Vec::new();
        let mut keys: Vec<(i16, i16)> = Vec::new();
        let mut i: usize = 0;
        while i < self.exceptions.pending.len()
            invariant
                self@ == old(self)@,
                w == self@.words,
                pe == self@.pending,
                scs_wf(self@),
                pending_defined(self@),
                i <= pe.len(),
                sorted@ == priority_sorted(w, pe.take(i as int)),
                keys@.len() == sorted@.len(),
                forall|j: int|
                    0 <= j < sorted@.len() ==> #[trigger] keys@[j] == exception_priority(
                        w,
                        exception_number(sorted@[j]),
                    ),
            decreases pe.len() - i,
        {
            let t = self.exceptions.pending[i];
            assert(priority_defined(exception_number(pe[i as int])));
            let k = self.get_exception_priority(t);
            let mut p: usize = 0;
            while p < keys.len() && key_le_exec(keys[p], k)
                invariant
                    p <= keys@.len(),
                    keys@.len() == sorted@.len(),
                    k == exception_priority(w, exception_number(t)),
                    forall|j: int|
                        0 <= j < sorted@.len() ==> #[trigger] keys@[j] == exception_priority(
                            w,
                            exception_number(sorted@[j]),
                        ),
                    forall|j: int|
                        0 <= j < p ==> key_le(
                            exception_priority(w, exception_number(#[trigger] sorted@[j])),
                            exception_priority(w, exception_number(t)),
                        ),
                decreases keys@.len() - p,
            {
                assert(keys@[p as int] == exception_priority(w, exception_number(sorted@[p as int])));
                p = p + 1;
            }
            proof {
                if p < sorted@.len() {
                    assert(keys@[p as int] == exception_priority(w, exception_number(sorted@[p as int])));
                }
                lemma_priority_pos(w, sorted@, t, p as int);
                let s1 = pe.take(i as int + 1);
                assert(s1.drop_last() =~= pe.take(i as int));
                assert(s1.last() == t);
            }
            let ghost old_sorted = sorted@;
            let ghost old_keys = keys@;
            sorted.insert(p, t);
            keys.insert(p, k);
            assert forall|j: int|
                0 <= j < sorted@.len() implies #[trigger] keys@[j] == exception_priority(
                    w,
                    exception_number(sorted@[j]),
                ) by {
                if j < p {
                    assert(sorted@[j] == old_sorted[j] && keys@[j] == old_keys[j]);
                } else if j > p {
                    assert(sorted@[j] == old_sorted[j - 1] && keys@[j] == old_keys[j - 1]);
                }
            }
            i = i + 1;
        }
        assert(pe.take(pe.len() as int) =~= pe);
        self.exceptions.pending = sorted;
    }
}

/// The words after the priority of exception number `n` (4 to 511) was set
/// to `pri`: the SHPR byte for 4 to 15, else the IPR byte of the interrupt.
pub open spec fn priority_words(w: Seq<u32>, n: u32, pri: u8) -> Seq<u32> {
    if 4 <= n <= 7 {
        w.update(SHPR1_WORD as int, with_field(w[SHPR1_WORD as int], ((n - 4) * 8) as u32, 8, pri as u32))
    } else if 8 <= n <= 11 {
        w.update(SHPR2_WORD as int, with_field(w[SHPR2_WORD as int], ((n - 8) * 8) as u32, 8, pri as u32))
    } else if 12 <= n <= 15 {
        w.update(SHPR3_WORD as int, with_field(w[SHPR3_WORD as int], ((n - 12) * 8) as u32, 8, pri as u32))
    } else {
        let k = (0x100 + (n - 16) / 4) as int;
        w.update(k, ipr_with_pri(w[k], ((n - 16) % 4) as u8, pri))
    }
}

/// A priority that was set is read back, and the priority of every other
/// exception stays.
pub proof fn lemma_priority_read_after_write(w: Seq<u32>, n: u32, pri: u8, m: u32)
    requires
        w.len() == SCS_WORDS,
        4 <= n,
        priority_defined(n),
        priority_defined(m),
    ensures
        raw_priority(priority_words(w, n, pri), n) == pri,
        m != n ==> raw_priority(priority_words(w, n, pri), m) == raw_priority(w, m),
        priority_words(w, n, pri).len() == w.len(),
{
    crate::bits::lemma_low_mask_values();
    assert((pri as u32) & 0xffu32 == pri as u32) by (bit_vector);
    let w2 = priority_words(w, n, pri);
    if 4 <= n <= 15 {
        let base: u32 = if n <= 7 { 4 } else if n <= 11 { 8 } else { 12 };
        let idx: int = if n <= 7 { SHPR1_WORD as int } else if n <= 11 { SHPR2_WORD as int } else { SHPR3_WORD as int };
        let lo: u32 = ((n - base) * 8) as u32;
        crate::bits::lemma_field_read_after_write(w[idx], lo, 8, pri as u32);
        if m != n && base <= m < base + 4 {
            let lo2: u32 = ((m - base) * 8) as u32;
            crate::bits::lemma_field_frame(w[idx], lo, 8, pri as u32, lo2, 8);
        }
    } else {
        let k = (0x100 + (n - 16) / 4) as int;
        lemma_ipr_pri_update(w[k], ((n - 16) % 4) as u8, pri);
        if m >= 16 && m != n && (m - 16) / 4 == (n - 16) / 4 {
            assert(((m - 16) % 4) as u8 != ((n - 16) % 4) as u8);
        }
    }
}

impl SysCtrlSpace {
    /// Sets the priority of exception `typ` and sorts the pending exceptions
    /// again.
    pub fn set_exception_priority(&mut self, typ: ExceptionType, pri: u8)
        requires
            scs_wf(old(self)@),
            pending_defined(old(self)@),
            4 <= exception_number(typ),
            priority_defined(exception_number(typ)),
        ensures
            final(self)@ == set_priority_view(old(self)@, typ, pri),
            scs_wf(final(self)@),
            pending_defined(final(self)@),
    {
        let excp_num = typ.number();
        if excp_num <= 7 {
            let v = crate::bits::put_field(self.word(SHPR1_WORD), (excp_num - 4) * 8, 8, pri as u32);
            self.set_word(SHPR1_WORD, v);
        } else if excp_num <= 11 {
            let v = crate::bits::put_field(self.word(SHPR2_WORD), (excp_num - 8) * 8, 8, pri as u32);
            self.set_word(SHPR2_WORD, v);
        } else if excp_num <= 15 {
            let v = crate::bits::put_field(self.word(SHPR3_WORD), (excp_num - 12) * 8, 8, pri as u32);
            self.set_word(SHPR3_WORD, v);
        } else {
            let int_num = excp_num - 16;
            let n = int_num / 4;
            let i = (int_num % 4) as u8;
            let mut ipr = self.ipr_word_of(n);
            ipr.set_pri_n(i, pri);
            self.set_word(0x100 + n as usize, ipr.0);
        }
        let ghost before = self@.pending;
        self.sort_pending();
        proof {
            lemma_priority_sorted_perm(self@.words, before);
            let r = self@.pending;
            assert forall|i: int| 0 <= i < r.len() implies valid_exception(#[trigger] r[i])
                && priority_defined(exception_number(r[i])) by {
                assert(r.contains(r[i]));
                assert(before.contains(r[i]));
                let j = choose|j: int| 0 <= j < before.len() && before[j] == r[i];
                assert(valid_exception(before[j]));
                assert(priority_defined(exception_number(before[j])));
            }
        }
    }
}

/// The SHCSR bits that the lists set.
#[verifier::rlimit(40)]
fn shcsr_state_exec(en: &Vec<ExceptionType>, pe: &Vec<ExceptionType>, ac: &Vec<ExceptionType>) -> (r: u32)
    ensures
        r == shcsr_state(en@, pe@, ac@),
{
    bitv_exec(contains_type(en, ExceptionType::UsageFault), 18)
        | bitv_exec(contains_type(en, ExceptionType::BusFault), 17)
        | bitv_exec(contains_type(en, ExceptionType::MemFault), 16)
        | bitv_exec(contains_type(pe, ExceptionType::SVCall), 15)
        | bitv_exec(contains_type(pe, ExceptionType::BusFault), 14)
        | bitv_exec(contains_type(pe, ExceptionType::MemFault), 13)
        | bitv_exec(contains_type(pe, ExceptionType::UsageFault), 12)
        | bitv_exec(contains_type(ac, ExceptionType::SysTick), 11)
        | bitv_exec(contains_type(ac, ExceptionType::PendSV), 10)
        | bitv_exec(contains_type(ac, ExceptionType::DebugMonitor), 8)
        | bitv_exec(contains_type(ac, ExceptionType::SVCall), 7)
        | bitv_exec(contains_type(ac, ExceptionType::UsageFault), 3)
        | bitv_exec(contains_type(ac, ExceptionType::BusFault), 1)
        | bitv_exec(contains_type(ac, ExceptionType::MemFault), 0)
}

/// The ICSR bits that the lists set.
fn icsr_state_exec(pe: &Vec<ExceptionType>, ac: &Vec<ExceptionType>) -> (r: u32)
    ensures
        r == icsr_state(pe@, ac@),
{
    let ext = has_external_exec(pe);
    let base = ac.len() <= 1;
    first_number_exec(ac) | bitv_exec(base, 11) | (first_number_exec(pe) << 12u32) | bitv_exec(ext, 22)
        | bitv_exec(contains_type(pe, ExceptionType::SysTick), 26)
        | bitv_exec(contains_type(pe, ExceptionType::PendSV), 28)
        | bitv_exec(contains_type(ac, ExceptionType::NMI), 31)
}

/// Whether word `i` is one of the NVIC enable, pending or active words.
pub open spec fn nvic_state_word(i: int) -> bool {
    0x40 <= i < 0x50 || 0x60 <= i < 0x70 || 0x80 <= i < 0x90 || 0xa0 <= i < 0xb0 || 0xc0 <= i < 0xd0
}

impl SysCtrlSpace {
    /// Makes the exception registers reflect the exception lists: the
    /// enable, pending and active bits of the SHCSR and ICSR, and the NVIC
    /// enable, pending and active words.
    pub fn update_exception_regs(&mut self)
        requires
            scs_wf(old(self)@),
        ensures
            final(self)@ == (SysCtrlSpaceView {
                words: regs_reflect(
                    old(self)@.words,
                    old(self)@.enabled,
                    old(self)@.pending,
                    old(self)@.active,
                ),
                ..old(self)@
            }),
    {
        let ghost w0 = self@.words;
        let ghost target = regs_reflect(w0, self@.enabled, self@.pending, self@.active);
        let shcsr = shcsr_state_exec(&self.exceptions.enabled, &self.exceptions.pending, &self.exceptions.active);
        let v = (self.word(SHCSR_WORD) & !SHCSR_STATE_MASK) | shcsr;
        self.set_word(SHCSR_WORD, v);
        let icsr = icsr_state_exec(&self.exceptions.pending, &self.exceptions.active);
        let v = (self.word(ICSR_WORD) & !ICSR_STATE_MASK) | icsr;
        self.set_word(ICSR_WORD, v);
        let none: Vec<ExceptionType> = Vec::new();
        assert(self.exceptions.enabled@ + none@ =~= self.exceptions.enabled@);
        assert(self.exceptions.pending@ + none@ =~= self.exceptions.pending@);
        assert(self.exceptions.active@ + none@ =~= self.exceptions.active@);
        let mut n: u32 = 0;
        while n < 16
            invariant
                n <= 16,
                scs_wf(self@),
                self@.enabled == old(self)@.enabled,
                self@.pending == old(self)@.pending,
                self@.active == old(self)@.active,
                self@.start == old(self)@.start,
                self@.end == old(self)@.end,
                w0 == old(self)@.words,
                w0.len() == SCS_WORDS,
                target == regs_reflect(w0, self@.enabled, self@.pending, self@.active),
                none@ == Seq::<ExceptionType>::empty(),
                self.exceptions.enabled@ + none@ == self.exceptions.enabled@,
                self.exceptions.pending@ + none@ == self.exceptions.pending@,
                self.exceptions.active@ + none@ == self.exceptions.active@,
                forall|i: int|
                    0 <= i < SCS_WORDS ==> #[trigger] self@.words[i] == if nvic_state_word(i) && i % 0x20
                        >= n {
                        w0[i]
                    } else {
                        target[i]
                    },
            decreases 16 - n,
        {
            let en = ext_mask_exec(&self.exceptions.enabled, &none, n);
            let pe = ext_mask_exec(&self.exceptions.pending, &none, n);
            let ac = ext_mask_exec(&self.exceptions.active, &none, n);
            let ghost before = self@.words;
            self.set_word(0x40 + n as usize, en);
            self.set_word(0x60 + n as usize, en);
            self.set_word(0x80 + n as usize, pe);
            self.set_word(0xa0 + n as usize, pe);
            self.set_word(0xc0 + n as usize, ac);
            assert forall|i: int|
                0 <= i < SCS_WORDS implies #[trigger] self@.words[i] == if nvic_state_word(i) && i % 0x20
                    >= n + 1 {
                    w0[i]
                } else {
                    target[i]
                } by {
                if i == 0x40 + n || i == 0x60 + n {
                    assert(i % 0x20 == n);
                    assert(((i % 0x20) as u32) == n);
                    assert(target[i] == ext_mask(self@.enabled, n, 32));
                    assert(self@.words[i] == en);
                } else if i == 0x80 + n || i == 0xa0 + n {
                    assert(i % 0x20 == n);
                    assert(((i % 0x20) as u32) == n);
                    assert(target[i] == ext_mask(self@.pending, n, 32));
                    assert(self@.words[i] == pe);
                } else if i == 0xc0 + n {
                    assert(i % 0x20 == n);
                    assert(((i % 0x20) as u32) == n);
                    assert(target[i] == ext_mask(self@.active, n, 32));
                    assert(self@.words[i] == ac);
                } else {
                    assert(self@.words[i] == before[i]);
                    if nvic_state_word(i) {
                        assert(i % 0x20 != n);
                    }
                }
            }
            n = n + 1;
        }
        assert(self@.words =~= target);
    }
}

/// Inserting an element into a sequence adds it to the multiset of its
/// elements.
proof fn lemma_insert_to_multiset(r: Seq<ExceptionType>, p: int, x: ExceptionType)
    requires
        0 <= p <= r.len(),
    ensures
        r.insert(p, x).to_multiset() =~= r.to_multiset().insert(x),
{
    broadcast use vstd::seq_lib::group_to_multiset_ensures;
    let q = r.insert(p, x);
    assert(q.remove(p) =~= r);
    assert(q[p] == x);
    assert(q.remove(p).to_multiset() == q.to_multiset().remove(x));
    assert(q.to_multiset().count(x) > 0);
}

/// Sorting the pending exceptions by priority keeps exactly the same
/// exceptions, each as many times.
pub proof fn lemma_priority_sorted_perm(w: Seq<u32>, s: Seq<ExceptionType>)
    ensures
        priority_sorted(w, s).len() == s.len(),
        priority_sorted(w, s).to_multiset() =~= s.to_multiset(),
        forall|x: ExceptionType| #[trigger] priority_sorted(w, s).contains(x) <==> s.contains(x),
    decreases s.len(),
{
    broadcast use vstd::seq_lib::group_to_multiset_ensures;
    if s.len() > 0 {
        let r = priority_sorted(w, s.drop_last());
        lemma_priority_sorted_perm(w, s.drop_last());
        lemma_priority_pos_bounds(w, r, s.last());
        lemma_insert_to_multiset(r, priority_pos(w, r, s.last()), s.last());
        assert(s.drop_last().push(s.last()) =~= s);
        assert forall|x: ExceptionType| #[trigger] priority_sorted(w, s).contains(x) <==> s.contains(x) by {
            assert(priority_sorted(w, s).to_multiset().count(x) == s.to_multiset().count(x));
        }
    }
}

/// The priority of exception `t` in the words `w`.
pub open spec fn priority_of(w: Seq<u32>, t: ExceptionType) -> (i16, i16) {
    exception_priority(w, exception_number(t))
}

/// Whether the exceptions of `s` come in order of priority.
pub open spec fn priority_ordered(w: Seq<u32>, s: Seq<ExceptionType>) -> bool {
    forall|i: int, j: int|
        0 <= i < j < s.len() ==> key_le(#[trigger] priority_of(w, s[i]), #[trigger] priority_of(w, s[j]))
}

/// The insertion point lies within the sequence, after the elements whose
/// priority is at most that of `t` and before the first that is above.
proof fn lemma_priority_pos_bounds(w: Seq<u32>, s: Seq<ExceptionType>, t: ExceptionType)
    ensures
        0 <= priority_pos(w, s, t) <= s.len(),
        forall|j: int| 0 <= j < priority_pos(w, s, t) ==> key_le(#[trigger] priority_of(w, s[j]), priority_of(w, t)),
        priority_pos(w, s, t) < s.len() ==> !key_le(priority_of(w, s[priority_pos(w, s, t)]), priority_of(w, t)),
    decreases s.len(),
{
    if s.len() > 0 {
        lemma_priority_pos_bounds(w, s.drop_first(), t);
        assert forall|j: int| 0 <= j < priority_pos(w, s, t) implies key_le(#[trigger] priority_of(w, s[j]), priority_of(w, t)) by {
            if j > 0 {
                assert(s[j] == s.drop_first()[j - 1]);
            }
        }
    }
}

/// Sorting by priority puts the exceptions in order of priority: by group,
/// then by subgroup.
pub proof fn lemma_priority_sorted_ordered(w: Seq<u32>, s: Seq<ExceptionType>)
    ensures
        priority_ordered(w, priority_sorted(w, s)),
    decreases s.len(),
{
    if s.len() > 0 {
        let r = priority_sorted(w, s.drop_last());
        let t = s.last();
        lemma_priority_sorted_ordered(w, s.drop_last());
        lemma_priority_pos_bounds(w, r, t);
        let p = priority_pos(w, r, t);
        let q = r.insert(p, t);
        assert forall|i: int, j: int| 0 <= i < j < q.len() implies key_le(
            #[trigger] priority_of(w, q[i]),
            #[trigger] priority_of(w, q[j]),
        ) by {
            if j < p {
                assert(q[i] == r[i] && q[j] == r[j]);
            } else if j == p {
                assert(q[i] == r[i]);
            } else if i > p {
                assert(q[i] == r[i - 1] && q[j] == r[j - 1]);
            } else if i == p {
                assert(q[j] == r[j - 1]);
                assert(key_le(priority_of(w, r[p]), priority_of(w, r[j - 1])));
            } else {
                assert(q[i] == r[i] && q[j] == r[j - 1]);
            }
        }
    }
}

/// Whether `typ` is enabled given the enabled list `en`: reset, NMI, hard
/// fault, SVCall, PendSV and SysTick always are (B1.5.1).
pub open spec fn enabled_in(en: Seq<ExceptionType>, typ: ExceptionType) -> bool {
    match typ {
        ExceptionType::Reset | ExceptionType::NMI | ExceptionType::HardFault | ExceptionType::SVCall
        | ExceptionType::PendSV | ExceptionType::SysTick => true,
        _ => en.contains(typ),
    }
}

/// Each element left after removing the first `t` is at its old index or
/// at the next one.
proof fn lemma_remove_first_from(s: Seq<ExceptionType>, t: ExceptionType)
    ensures
        remove_first(s, t).len() <= s.len(),
        forall|k: int|
            0 <= k < remove_first(s, t).len() ==> #[trigger] remove_first(s, t)[k] == s[k] || (k + 1
                < s.len() && remove_first(s, t)[k] == s[k + 1]),
{
    crate::nvic::lemma_first_index_bounds(s, t);
}

/// The space after `typ` was made pending: the pending exceptions sorted
/// again by priority, and the registers updated.
pub open spec fn set_pending_view(v: SysCtrlSpaceView, typ: ExceptionType) -> SysCtrlSpaceView {
    let pe = priority_sorted(v.words, v.pending.push(typ));
    SysCtrlSpaceView { words: regs_reflect(v.words, v.enabled, pe, v.active), pending: pe, ..v }
}

/// The space after the first `typ` left the pending exceptions, if there.
pub open spec fn clr_pending_view(v: SysCtrlSpaceView, typ: ExceptionType) -> SysCtrlSpaceView {
    if v.pending.contains(typ) {
        let pe = remove_first(v.pending, typ);
        SysCtrlSpaceView { words: regs_reflect(v.words, v.enabled, pe, v.active), pending: pe, ..v }
    } else {
        v
    }
}

/// The space after `typ` was enabled, unless it was already.
pub open spec fn enable_view(v: SysCtrlSpaceView, typ: ExceptionType) -> SysCtrlSpaceView {
    if !v.enabled.contains(typ) {
        let en = v.enabled.push(typ);
        SysCtrlSpaceView { words: regs_reflect(v.words, en, v.pending, v.active), enabled: en, ..v }
    } else {
        v
    }
}

/// The space after `typ` was disabled, if it was enabled.
pub open spec fn disable_view(v: SysCtrlSpaceView, typ: ExceptionType) -> SysCtrlSpaceView {
    if v.enabled.contains(typ) {
        let en = remove_first(v.enabled, typ);
        SysCtrlSpaceView { words: regs_reflect(v.words, en, v.pending, v.active), enabled: en, ..v }
    } else {
        v
    }
}

/// The space after an enabled `typ` was made active: it leaves the pending
/// exceptions and goes on top of the active stack. A disabled exception
/// changes nothing.
pub open spec fn set_active_view(v: SysCtrlSpaceView, typ: ExceptionType) -> SysCtrlSpaceView {
    if enabled_in(v.enabled, typ) {
        let pe = remove_first(v.pending, typ);
        let ac = seq![typ] + v.active;
        SysCtrlSpaceView { words: regs_reflect(v.words, v.enabled, pe, ac), pending: pe, active: ac, ..v }
    } else {
        v
    }
}

/// The space after the first `typ` left the active exceptions, if there.
pub open spec fn clr_active_view(v: SysCtrlSpaceView, typ: ExceptionType) -> SysCtrlSpaceView {
    if v.active.contains(typ) {
        let ac = remove_first(v.active, typ);
        SysCtrlSpaceView { words: regs_reflect(v.words, v.enabled, v.pending, ac), active: ac, ..v }
    } else {
        v
    }
}

/// The space after the priority of `typ` was set to `pri`.
pub open spec fn set_priority_view(v: SysCtrlSpaceView, typ: ExceptionType, pri: u8) -> SysCtrlSpaceView {
    let w = priority_words(v.words, exception_number(typ), pri);
    SysCtrlSpaceView { words: w, pending: priority_sorted(w, v.pending), ..v }
}

/// Each change of the exception state does what it says, and its opposite
/// undoes it: an enabled exception is enabled, and disabling an exception
/// that enabling added leaves the enabled exceptions as they were; a
/// pending exception is pending, and clearing the pending state just set
/// leaves the same pending exceptions, each as many times (the sort may
/// order them anew); an enabled exception made active is active, and
/// deactivating it at once leaves the active exceptions as they were.
pub proof fn lemma_exception_state_undo(v: SysCtrlSpaceView, t: ExceptionType)
    ensures
        enabled_in(enable_view(v, t).enabled, t),
        !v.enabled.contains(t) ==> disable_view(enable_view(v, t), t).enabled == v.enabled,
        set_pending_view(v, t).pending.contains(t),
        clr_pending_view(set_pending_view(v, t), t).pending.to_multiset() == v.pending.to_multiset(),
        enabled_in(v.enabled, t) ==> set_active_view(v, t).active.contains(t),
        enabled_in(v.enabled, t) ==> clr_active_view(set_active_view(v, t), t).active == v.active,
{
    broadcast use vstd::seq_lib::group_to_multiset_ensures;
    // enabling
    if !v.enabled.contains(t) {
        let en = v.enabled.push(t);
        assert(en[en.len() - 1] == t);
        crate::nvic::lemma_first_index_bounds(en, t);
        let fi = crate::nvic::first_index(en, t);
        if fi < en.len() - 1 {
            assert(en[fi] == v.enabled[fi]);
        }
        assert(fi == en.len() - 1);
        assert(en.remove(fi) =~= v.enabled);
    }
    // pending
    let pe = priority_sorted(v.words, v.pending.push(t));
    lemma_priority_sorted_perm(v.words, v.pending.push(t));
    assert(v.pending.push(t)[v.pending.len() as int] == t);
    assert(pe.contains(t));
    crate::nvic::lemma_first_index_bounds(pe, t);
    let fp = crate::nvic::first_index(pe, t);
    assert(fp < pe.len());
    assert(pe.remove(fp).to_multiset() =~= pe.to_multiset().remove(t));
    assert(v.pending.push(t).to_multiset() =~= v.pending.to_multiset().insert(t));
    assert(v.pending.to_multiset().insert(t).remove(t) =~= v.pending.to_multiset());
    // active
    if enabled_in(v.enabled, t) {
        let ac = seq![t] + v.active;
        assert(ac[0] == t);
        assert(crate::nvic::first_index(ac, t) == 0);
        assert(ac.remove(0) =~= v.active);
    }
}

/// The priorities lie in words (AIRCR, the SHPRs and the IPRs) that the
/// reflection of the lists in the exception registers leaves alone.
proof fn lemma_reflect_keeps_priority(
    w: Seq<u32>,
    en: Seq<ExceptionType>,
    pe: Seq<ExceptionType>,
    ac: Seq<ExceptionType>,
    n: u32,
)
    requires
        w.len() == SCS_WORDS,
        priority_defined(n),
    ensures
        exception_priority(regs_reflect(w, en, pe, ac), n) == exception_priority(w, n),
{
    let r = regs_reflect(w, en, pe, ac);
    assert(r[AIRCR_WORD as int] == w[AIRCR_WORD as int]);
    assert(r[SHPR1_WORD as int] == w[SHPR1_WORD as int]);
    assert(r[SHPR2_WORD as int] == w[SHPR2_WORD as int]);
    assert(r[SHPR3_WORD as int] == w[SHPR3_WORD as int]);
    if n >= 16 {
        let i = (0x100 + (n - 16) / 4) as int;
        assert(r[i] == w[i]);
    }
}

/// Once the exception registers reflect the lists, ICSR.VECTPENDING holds
/// the number of the first pending exception (B3.2.4).
proof fn lemma_reflect_vectpending(w: Seq<u32>, en: Seq<ExceptionType>, pe: Seq<ExceptionType>, ac: Seq<ExceptionType>)
    requires
        w.len() == SCS_WORDS,
    ensures
        field(regs_reflect(w, en, pe, ac)[ICSR_WORD as int], 12, 9) == first_number(pe),
{
    crate::bits::lemma_low_mask_values();
    let x = w[ICSR_WORD as int];
    let a = first_number(ac);
    let b = first_number(pe);
    let c11 = bitv(ac.len() <= 1, 11);
    let c22 = bitv(has_external(pe), 22);
    let c26 = bitv(pe.contains(ExceptionType::SysTick), 26);
    let c28 = bitv(pe.contains(ExceptionType::PendSV), 28);
    let c31 = bitv(ac.contains(ExceptionType::NMI), 31);
    if ac.len() > 0 {
        let y = exception_number(ac[0]);
        assert(y & 0x1ffu32 <= 0x1ffu32) by (bit_vector);
    }
    if pe.len() > 0 {
        let z = exception_number(pe[0]);
        assert(z & 0x1ffu32 <= 0x1ffu32) by (bit_vector);
    }
    assert(icsr_state(pe, ac) == a | c11 | (b << 12u32) | c22 | c26 | c28 | c31);
    assert((((x & !0x94dff9ffu32) | (a | c11 | (b << 12u32) | c22 | c26 | c28 | c31)) >> 12u32) & 0x1ffu32 == b)
        by (bit_vector)
        requires
            a <= 0x1ffu32,
            b <= 0x1ffu32,
            c11 == 0u32 || c11 == 1u32 << 11u32,
            c22 == 0u32 || c22 == 1u32 << 22u32,
            c26 == 0u32 || c26 == 1u32 << 26u32,
            c28 == 0u32 || c28 == 1u32 << 28u32,
            c31 == 0u32 || c31 == 1u32 << 31u32,
    ;
}

/// Making an exception pending keeps the pending queue in order of
/// priority: afterwards the queue holds what it held and `t`, each as many
/// times, in order of priority (by group, then subgroup), whatever order
/// it had before; the enabled and active exceptions are unchanged; and
/// ICSR.VECTPENDING holds the number of the first exception of the queue.
pub proof fn lemma_set_pending_keeps_order(v: SysCtrlSpaceView, t: ExceptionType)
    requires
        scs_wf(v),
        pending_defined(v),
        valid_exception(t),
        priority_defined(exception_number(t)),
    ensures
        ({
            let v2 = set_pending_view(v, t);
            &&& v2.pending.len() == v.pending.len() + 1
            &&& v2.pending.to_multiset() == v.pending.push(t).to_multiset()
            &&& priority_ordered(v2.words, v2.pending)
            &&& v2.enabled == v.enabled
            &&& v2.active == v.active
            &&& field(v2.words[ICSR_WORD as int], 12, 9) == exception_number(v2.pending[0])
        }),
{
    let s = v.pending.push(t);
    let pe = priority_sorted(v.words, s);
    lemma_priority_sorted_perm(v.words, s);
    lemma_priority_sorted_ordered(v.words, s);
    let r = regs_reflect(v.words, v.enabled, pe, v.active);
    assert forall|x: ExceptionType| pe.contains(x) implies priority_defined(#[trigger] exception_number(x)) by {
        assert(s.contains(x));
        let j = choose|j: int| 0 <= j < s.len() && s[j] == x;
        if j < v.pending.len() {
            assert(s[j] == v.pending[j]);
        }
    }
    assert forall|i: int, j: int| 0 <= i < j < pe.len() implies key_le(
        #[trigger] priority_of(r, pe[i]),
        #[trigger] priority_of(r, pe[j]),
    ) by {
        assert(pe.contains(pe[i]));
        assert(pe.contains(pe[j]));
        lemma_reflect_keeps_priority(v.words, v.enabled, pe, v.active, exception_number(pe[i]));
        lemma_reflect_keeps_priority(v.words, v.enabled, pe, v.active, exception_number(pe[j]));
        assert(key_le(priority_of(v.words, pe[i]), priority_of(v.words, pe[j])));
    }
    lemma_reflect_vectpending(v.words, v.enabled, pe, v.active);
    assert(s[s.len() - 1] == t);
    assert(pe.len() > 0);
    assert(pe.contains(pe[0]));
    let n0 = exception_number(pe[0]);
    assert(priority_defined(n0));
    assert(n0 & 0x1ffu32 == n0) by (bit_vector)
        requires
            n0 <= 511,
    ;
}

impl SysCtrlSpace {
    /// Adds `typ` to the pending exceptions, sorts them by priority and
    /// updates the exception registers.
    pub fn set_exception_pending(&mut self, typ: ExceptionType)
        requires
            scs_wf(old(self)@),
            pending_defined(old(self)@),
            valid_exception(typ),
            priority_defined(exception_number(typ)),
        ensures
            final(self)@ == set_pending_view(old(self)@, typ),
            scs_wf(final(self)@),
            pending_defined(final(self)@),
    {
        self.exceptions.pending.push(typ);
        assert(pending_defined(self@)) by {
            assert forall|i: int| 0 <= i < self@.pending.len() implies priority_defined(
                #[trigger] exception_number(self@.pending[i]),
            ) by {
                if i < old(self)@.pending.len() {
                    assert(self@.pending[i] == old(self)@.pending[i]);
                } else {
                    assert(self@.pending[i] == typ);
                }
            }
        }
        assert(self@.words.len() == SCS_WORDS);
        assert(self@.enabled == old(self)@.enabled);
        assert(self@.active == old(self)@.active);
        assert(scs_wf(self@)) by {
            assert forall|i: int| 0 <= i < self@.pending.len() implies valid_exception(
                #[trigger] self@.pending[i],
            ) by {
                if i < old(self)@.pending.len() {
                    assert(self@.pending[i] == old(self)@.pending[i]);
                } else {
                    assert(self@.pending[i] == typ);
                }
            }
        }
        let ghost before = self@.pending;
        self.sort_pending();
        proof {
            lemma_priority_sorted_perm(self@.words, before);
            let r = self@.pending;
            assert forall|i: int| 0 <= i < r.len() implies valid_exception(#[trigger] r[i])
                && priority_defined(exception_number(r[i])) by {
                assert(r.contains(r[i]));
                assert(before.contains(r[i]));
                let j = choose|j: int| 0 <= j < before.len() && before[j] == r[i];
                assert(valid_exception(before[j]));
                assert(priority_defined(exception_number(before[j])));
            }
        }
        self.update_exception_regs();
    }

    /// Removes the first `typ` from the pending exceptions, if it is there,
    /// and updates the exception registers.
    pub fn clr_exception_pending(&mut self, typ: ExceptionType)
        requires
            scs_wf(old(self)@),
        ensures
            final(self)@ == clr_pending_view(old(self)@, typ),
            scs_wf(final(self)@),
            pending_defined(old(self)@) ==> pending_defined(final(self)@),
    {
        if contains_type(&self.exceptions.pending, typ) {
            remove_sorted(&mut self.exceptions.pending, typ);
            proof {
                lemma_remove_first_from(old(self)@.pending, typ);
                let r = self@.pending;
                let s = old(self)@.pending;
                assert forall|k: int| 0 <= k < r.len() implies valid_exception(#[trigger] r[k]) && (
                pending_defined(old(self)@) ==> priority_defined(exception_number(r[k]))) by {
                    if r[k] == s[k] {
                    } else {
                        assert(r[k] == s[k + 1]);
                    }
                }
            }
            self.update_exception_regs();
        }
    }

    /// Adds `typ` to the enabled exceptions, unless it is there, and updates
    /// the exception registers.
    pub fn enable_exception(&mut self, typ: ExceptionType)
        requires
            scs_wf(old(self)@),
            valid_exception(typ),
        ensures
            final(self)@ == enable_view(old(self)@, typ),
            scs_wf(final(self)@),
            pending_defined(old(self)@) ==> pending_defined(final(self)@),
    {
        if !contains_type(&self.exceptions.enabled, typ) {
            self.exceptions.enabled.push(typ);
            assert(self@.words.len() == SCS_WORDS);
            assert(self@.pending == old(self)@.pending);
            assert(self@.active == old(self)@.active);
            assert(scs_wf(self@)) by {
                assert forall|i: int| 0 <= i < self@.enabled.len() implies valid_exception(
                    #[trigger] self@.enabled[i],
                ) by {
                    if i < old(self)@.enabled.len() {
                        assert(self@.enabled[i] == old(self)@.enabled[i]);
                    } else {
                        assert(self@.enabled[i] == typ);
                    }
                }
            }
            self.update_exception_regs();
        }
    }

    /// Removes `typ` from the enabled exceptions, if it is there, and updates
    /// the exception registers.
    pub fn disable_exception(&mut self, typ: ExceptionType)
        requires
            scs_wf(old(self)@),
        ensures
            final(self)@ == disable_view(old(self)@, typ),
            scs_wf(final(self)@),
            pending_defined(old(self)@) ==> pending_defined(final(self)@),
    {
        if contains_type(&self.exceptions.enabled, typ) {
            remove_sorted(&mut self.exceptions.enabled, typ);
            proof {
                lemma_remove_first_from(old(self)@.enabled, typ);
                let r = self@.enabled;
                let s = old(self)@.enabled;
                assert forall|k: int| 0 <= k < r.len() implies valid_exception(#[trigger] r[k]) by {
                    if r[k] == s[k] {
                    } else {
                        assert(r[k] == s[k + 1]);
                    }
                }
            }
            self.update_exception_regs();
        }
    }

    /// Whether exception `typ` is enabled.
    pub fn exception_enabled(&self, typ: ExceptionType) -> (r: bool)
        ensures
            r == enabled_in(self@.enabled, typ),
    {
        match typ {
            ExceptionType::Reset | ExceptionType::NMI | ExceptionType::HardFault | ExceptionType::SVCall
            | ExceptionType::PendSV | ExceptionType::SysTick => true,
            _ => contains_type(&self.exceptions.enabled, typ),
        }
    }

    /// Makes an enabled exception `typ` active: it leaves the pending
    /// exceptions, if it is there, and goes on top of the active stack; the
    /// exception registers are updated. A disabled exception changes nothing.
    pub fn set_exception_active(&mut self, typ: ExceptionType)
        requires
            scs_wf(old(self)@),
            valid_exception(typ),
        ensures
            final(self)@ == set_active_view(old(self)@, typ),
            scs_wf(final(self)@),
            pending_defined(old(self)@) ==> pending_defined(final(self)@),
    {
        if !self.exception_enabled(typ) {
            return;
        }
        if contains_type(&self.exceptions.pending, typ) {
            remove_sorted(&mut self.exceptions.pending, typ);
        } else {
            proof {
                crate::nvic::lemma_first_index_bounds(old(self)@.pending, typ);
            }
        }
        proof {
            lemma_remove_first_from(old(self)@.pending, typ);
            let r = self@.pending;
            let s = old(self)@.pending;
            assert forall|k: int| 0 <= k < r.len() implies valid_exception(#[trigger] r[k]) && (
            pending_defined(old(self)@) ==> priority_defined(exception_number(r[k]))) by {
                if r[k] == s[k] {
                } else {
                    assert(r[k] == s[k + 1]);
                }
            }
        }
        self.exceptions.active.insert(0, typ);
        assert(self@.active =~= seq![typ] + old(self)@.active);
        assert(scs_wf(self@)) by {
            assert forall|i: int| 0 <= i < self@.active.len() implies valid_exception(
                #[trigger] self@.active[i],
            ) by {
                if i > 0 {
                    assert(self@.active[i] == old(self)@.active[i - 1]);
                }
            }
        }
        self.update_exception_regs();
    }

    /// Removes the first `typ` from the active exceptions, if it is there,
    /// and updates the exception registers.
    pub fn clr_exception_active(&mut self, typ: ExceptionType)
        requires
            scs_wf(old(self)@),
        ensures
            final(self)@ == clr_active_view(old(self)@, typ),
            scs_wf(final(self)@),
            pending_defined(old(self)@) ==> pending_defined(final(self)@),
    {
        if contains_type(&self.exceptions.active, typ) {
            remove_sorted(&mut self.exceptions.active, typ);
            proof {
                lemma_remove_first_from(old(self)@.active, typ);
                let r = self@.active;
                let s = old(self)@.active;
                assert forall|k: int| 0 <= k < r.len() implies valid_exception(#[trigger] r[k]) by {
                    if r[k] == s[k] {
                    } else {
                        assert(r[k] == s[k + 1]);
                    }
                }
            }
            self.update_exception_regs();
        }
    }
}

/// Whether every register of the configuration `m` has a defined place.
pub open spec fn config_placeable(m: Map<SCRegType, u32>) -> bool {
    forall|t: SCRegType| #[trigger] m.dom().contains(t) ==> sc_data(t) is Some
}

/// Whether the words `w` are those of a space made from the configuration
/// `m`: a word that some register of `m` lies in holds the reset value of
/// one such register (which one, where several share a word, follows the
/// order in which the map is walked); every other word is 0.
pub open spec fn config_holds(m: Map<SCRegType, u32>, w: Seq<u32>) -> bool {
    &&& w.len() == SCS_WORDS
    &&& forall|i: int|
        0 <= i < SCS_WORDS ==> if exists|t: SCRegType| #[trigger] m.dom().contains(t) && sc_offset(t) / 4 == i {
            exists|t: SCRegType| #[trigger] m.dom().contains(t) && sc_offset(t) / 4 == i && w[i] == m[t]
        } else {
            #[trigger] w[i] == 0u32
        }
}

/// The byte offsets of registers with defined data lie in the space.
proof fn lemma_sc_offset_bound(t: SCRegType)
    requires
        sc_data(t) is Some,
    ensures
        sc_offset(t) < 0x1000,
{
}

impl SysCtrlSpace {
    /// The space with the reset values of `config`, each in the word that
    /// holds its register, and no exception state.
    pub fn new_from(config: SysCtrlConfig) -> (r: Self)
        requires
            config_placeable(config@),
        ensures
            r@.start == 0xe000e000u64,
            r@.end == 0xe000f000u64,
            config_holds(config@, r@.words),
            r@.enabled.len() == 0,
            r@.pending.len() == 0,
            r@.active.len() == 0,
            scs_wf(r@),
    {
        let ghost m = config@;
        let mut scs = SysCtrlSpace::default();
        let entries = config_map_entries(config.map);
        let mut k: usize = 0;
        while k < entries.len()
            invariant
                m == config_map(config.map),
                config_placeable(m),
                k <= entries@.len(),
                entries@.len() == m.dom().len(),
                forall|i: int| 0 <= i < entries@.len() ==> m.dom().contains((#[trigger] entries@[i]).0) && m[entries@[i].0] == entries@[i].1,
                scs_wf(scs@),
                scs@.start == 0xe000e000u64,
                scs@.end == 0xe000f000u64,
                scs@.enabled.len() == 0,
                scs@.pending.len() == 0,
                scs@.active.len() == 0,
                forall|i: int|
                    0 <= i < SCS_WORDS ==> if exists|j: int| 0 <= j < k && sc_offset(#[trigger] entries@[j].0) / 4 == i {
                        exists|j: int| 0 <= j < k && sc_offset(#[trigger] entries@[j].0) / 4 == i && scs@.words[i] == entries@[j].1
                    } else {
                        #[trigger] scs@.words[i] == 0u32
                    },
            decreases entries@.len() - k,
        {
            let (t, v) = entries[k];
            assert(m.dom().contains(entries@[k as int].0));
            proof {
                lemma_sc_offset_bound(t);
            }
            let offset = t.offset();
            let ghost before = scs@.words;
            scs.set_word(offset / 4, v);
            assert forall|i: int| 0 <= i < SCS_WORDS implies if exists|j: int| 0 <= j < k + 1 && sc_offset(#[trigger] entries@[j].0) / 4 == i {
                exists|j: int| 0 <= j < k + 1 && sc_offset(#[trigger] entries@[j].0) / 4 == i && scs@.words[i] == entries@[j].1
            } else {
                #[trigger] scs@.words[i] == 0u32
            } by {
                if i == offset / 4 {
                    assert(sc_offset(entries@[k as int].0) / 4 == i && scs@.words[i] == entries@[k as int].1);
                } else {
                    assert(scs@.words[i] == before[i]);
                    if exists|j: int| 0 <= j < k + 1 && sc_offset(#[trigger] entries@[j].0) / 4 == i {
                        let j = choose|j: int| 0 <= j < k + 1 && sc_offset(#[trigger] entries@[j].0) / 4 == i;
                        assert(j != k);
                        assert(exists|j: int| 0 <= j < k && sc_offset(#[trigger] entries@[j].0) / 4 == i);
                    } else {
                        assert(!exists|j: int| 0 <= j < k && sc_offset(#[trigger] entries@[j].0) / 4 == i);
                    }
                }
            }
            k = k + 1;
        }
        assert forall|i: int| 0 <= i < SCS_WORDS implies if exists|t: SCRegType| #[trigger] m.dom().contains(t) && sc_offset(t) / 4 == i {
            exists|t: SCRegType| #[trigger] m.dom().contains(t) && sc_offset(t) / 4 == i && scs@.words[i] == m[t]
        } else {
            #[trigger] scs@.words[i] == 0u32
        } by {
            if exists|t: SCRegType| #[trigger] m.dom().contains(t) && sc_offset(t) / 4 == i {
                let t = choose|t: SCRegType| #[trigger] m.dom().contains(t) && sc_offset(t) / 4 == i;
                assert(exists|j: int| 0 <= j < entries@.len() && entries@[j].0 == t);
                let j = choose|j: int| 0 <= j < entries@.len() && entries@[j].0 == t;
                assert(sc_offset(entries@[j].0) / 4 == i);
                let j2 = choose|j2: int| 0 <= j2 < k && sc_offset(#[trigger] entries@[j2].0) / 4 == i && scs@.words[i] == entries@[j2].1;
                assert(m.dom().contains(entries@[j2].0));
            } else {
                if exists|j: int| 0 <= j < k && sc_offset(#[trigger] entries@[j].0) / 4 == i {
                    let j = choose|j: int| 0 <= j < k && sc_offset(#[trigger] entries@[j].0) / 4 == i;
                    assert(m.dom().contains(entries@[j].0));
                }
            }
        }
        scs
    }
}

impl SysCtrlSpace {
    /// Replaces the interrupt control and state register.
    pub fn set_icsr(&mut self, reg: ICSR)
        requires
            scs_wf(old(self)@),
        ensures
            final(self)@ == (SysCtrlSpaceView { words: old(self)@.words.update(0x341, reg.0), ..old(self)@ }),
    {
        self.set_word(0x341, reg.0);
    }

    /// Replaces the vector table offset register.
    pub fn set_vtor(&mut self, reg: VTOR)
        requires
            scs_wf(old(self)@),
        ensures
            final(self)@ == (SysCtrlSpaceView { words: old(self)@.words.update(0x342, reg.0), ..old(self)@ }),
    {
        self.set_word(0x342, reg.0);
    }

    /// Replaces the application interrupt and reset control register.
    pub fn set_aircr(&mut self, reg: AIRCR)
        requires
            scs_wf(old(self)@),
        ensures
            final(self)@ == (SysCtrlSpaceView { words: old(self)@.words.update(0x343, reg.0), ..old(self)@ }),
    {
        self.set_word(0x343, reg.0);
    }

    /// Replaces the system control register.
    pub fn set_scr(&mut self, reg: SCR)
        requires
            scs_wf(old(self)@),
        ensures
            final(self)@ == (SysCtrlSpaceView { words: old(self)@.words.update(0x344, reg.0), ..old(self)@ }),
    {
        self.set_word(0x344, reg.0);
    }

    /// Replaces the configuration and control register.
    pub fn set_ccr(&mut self, reg: CCR)
        requires
            scs_wf(old(self)@),
        ensures
            final(self)@ == (SysCtrlSpaceView { words: old(self)@.words.update(0x345, reg.0), ..old(self)@ }),
    {
        self.set_word(0x345, reg.0);
    }

    /// The system handler priority register 1.
    pub fn get_shpr1(&self) -> (r: SHPR1)
        requires
            scs_wf(self@),
        ensures
            r.0 == self@.words[0x346],
    {
        SHPR1(self.word(0x346))
    }

    /// Replaces the system handler priority register 1.
    pub fn set_shpr1(&mut self, reg: SHPR1)
        requires
            scs_wf(old(self)@),
        ensures
            final(self)@ == (SysCtrlSpaceView { words: old(self)@.words.update(0x346, reg.0), ..old(self)@ }),
    {
        self.set_word(0x346, reg.0);
    }

    /// The system handler priority register 2.
    pub fn get_shpr2(&self) -> (r: SHPR2)
        requires
            scs_wf(self@),
        ensures
            r.0 == self@.words[0x347],
    {
        SHPR2(self.word(0x347))
    }

    /// Replaces the system handler priority register 2.
    pub fn set_shpr2(&mut self, reg: SHPR2)
        requires
            scs_wf(old(self)@),
        ensures
            final(self)@ == (SysCtrlSpaceView { words: old(self)@.words.update(0x347, reg.0), ..old(self)@ }),
    {
        self.set_word(0x347, reg.0);
    }

    /// The system handler priority register 3.
    pub fn get_shpr3(&self) -> (r: SHPR3)
        requires
            scs_wf(self@),
        ensures
            r.0 == self@.words[0x348],
    {
        SHPR3(self.word(0x348))
    }

    /// Replaces the system handler priority register 3.
    pub fn set_shpr3(&mut self, reg: SHPR3)
        requires
            scs_wf(old(self)@),
        ensures
            final(self)@ == (SysCtrlSpaceView { words: old(self)@.words.update(0x348, reg.0), ..old(self)@ }),
    {
        self.set_word(0x348, reg.0);
    }

    /// Replaces the system handler control and state register.
    pub fn set_shcsr(&mut self, reg: SHCSR)
        requires
            scs_wf(old(self)@),
        ensures
            final(self)@ == (SysCtrlSpaceView { words: old(self)@.words.update(0x349, reg.0), ..old(self)@ }),
    {
        self.set_word(0x349, reg.0);
    }

    /// The hard fault status register.
    pub fn get_hfsr(&self) -> (r: HFSR)
        requires
            scs_wf(self@),
        ensures
            r.0 == self@.words[0x34b],
    {
        HFSR(self.word(0x34b))
    }

    /// Replaces the hard fault status register.
    pub fn set_hfsr(&mut self, reg: HFSR)
        requires
            scs_wf(old(self)@),
        ensures
            final(self)@ == (SysCtrlSpaceView { words: old(self)@.words.update(0x34b, reg.0), ..old(self)@ }),
    {
        self.set_word(0x34b, reg.0);
    }

    /// The debug fault status register.
    pub fn get_dfsr(&self) -> (r: DFSR)
        requires
            scs_wf(self@),
        ensures
            r.0 == self@.words[0x34c],
    {
        DFSR(self.word(0x34c))
    }

    /// Replaces the debug fault status register.
    pub fn set_dfsr(&mut self, reg: DFSR)
        requires
            scs_wf(old(self)@),
        ensures
            final(self)@ == (SysCtrlSpaceView { words: old(self)@.words.update(0x34c, reg.0), ..old(self)@ }),
    {
        self.set_word(0x34c, reg.0);
    }

    /// The MemManage fault address register.
    pub fn get_mmfar(&self) -> (r: MMFAR)
        requires
            scs_wf(self@),
        ensures
            r.0 == self@.words[0x34d],
    {
        MMFAR(self.word(0x34d))
    }

    /// Replaces the MemManage fault address register.
    pub fn set_mmfar(&mut self, reg: MMFAR)
        requires
            scs_wf(old(self)@),
        ensures
            final(self)@ == (SysCtrlSpaceView { words: old(self)@.words.update(0x34d, reg.0), ..old(self)@ }),
    {
        self.set_word(0x34d, reg.0);
    }

    /// The BusFault address register.
    pub fn get_bfar(&self) -> (r: BFAR)
        requires
            scs_wf(self@),
        ensures
            r.0 == self@.words[0x34e],
    {
        BFAR(self.word(0x34e))
    }

    /// Replaces the BusFault address register.
    pub fn set_bfar(&mut self, reg: BFAR)
        requires
            scs_wf(old(self)@),
        ensures
            final(self)@ == (SysCtrlSpaceView { words: old(self)@.words.update(0x34e, reg.0), ..old(self)@ }),
    {
        self.set_word(0x34e, reg.0);
    }

    /// The coprocessor access control register.
    pub fn get_cpacr(&self) -> (r: CPACR)
        requires
            scs_wf(self@),
        ensures
            r.0 == self@.words[0x362],
    {
        CPACR(self.word(0x362))
    }

    /// Replaces the coprocessor access control register.
    pub fn set_cpacr(&mut self, reg: CPACR)
        requires
            scs_wf(old(self)@),
        ensures
            final(self)@ == (SysCtrlSpaceView { words: old(self)@.words.update(0x362, reg.0), ..old(self)@ }),
    {
        self.set_word(0x362, reg.0);
    }

    /// The interrupt controller type register.
    pub fn get_ictr(&self) -> (r: ICTR)
        requires
            scs_wf(self@),
        ensures
            r.0 == self@.words[0x1],
    {
        ICTR(self.word(0x1))
    }

    /// Replaces the interrupt controller type register.
    pub fn set_ictr(&mut self, reg: ICTR)
        requires
            scs_wf(old(self)@),
        ensures
            final(self)@ == (SysCtrlSpaceView { words: old(self)@.words.update(0x1, reg.0), ..old(self)@ }),
    {
        self.set_word(0x1, reg.0);
    }

    /// The software triggered interrupt register.
    pub fn get_stir(&self) -> (r: STIR)
        requires
            scs_wf(self@),
        ensures
            r.0 == self@.words[0x3c0],
    {
        STIR(self.word(0x3c0))
    }

    /// Replaces the software triggered interrupt register.
    pub fn set_stir(&mut self, reg: STIR)
        requires
            scs_wf(old(self)@),
        ensures
            final(self)@ == (SysCtrlSpaceView { words: old(self)@.words.update(0x3c0, reg.0), ..old(self)@ }),
    {
        self.set_word(0x3c0, reg.0);
    }
}

/// 2 to the power `k`, for `k` from 0 to 7.
pub(crate) fn pow2_exec(k: i16) -> (r: i16)
    requires
        0 <= k <= 7,
    ensures
        r == pow2_small(k as u32),
        1 <= r <= 128,
{
    if k == 0 {
        1
    } else if k == 1 {
        2
    } else if k == 2 {
        4
    } else if k == 3 {
        8
    } else if k == 4 {
        16
    } else if k == 5 {
        32
    } else if k == 6 {
        64
    } else {
        128
    }
}

} // verus!
