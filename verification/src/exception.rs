//! Exception types, exception records and exception priority ordering.
use vstd::prelude::*;

use core::cmp::Ordering;

use crate::bits::word_bytes;

verus! {

/// Exception type (B1.5.2), numbered as in the vector table.
#[derive(Clone, Copy, Debug, PartialEq, Eq, PartialOrd, Ord, Hash, Structural)]
pub enum ExceptionType {
    Reset,
    NMI,
    HardFault,
    MemFault,
    BusFault,
    UsageFault,
    DebugMonitor,
    SVCall,
    PendSV,
    SysTick,
    ExternalInterrupt(u32),
    Reserved(u32),
}

/// The exception number of `t`: its index in the vector table.
pub open spec fn exception_number(t: ExceptionType) -> u32 {
    match t {
        ExceptionType::Reset => 1,
        ExceptionType::NMI => 2,
        ExceptionType::HardFault => 3,
        ExceptionType::MemFault => 4,
        ExceptionType::BusFault => 5,
        ExceptionType::UsageFault => 6,
        ExceptionType::SVCall => 11,
        ExceptionType::DebugMonitor => 12,
        ExceptionType::PendSV => 14,
        ExceptionType::SysTick => 15,
        ExceptionType::ExternalInterrupt(n) => n,
        ExceptionType::Reserved(n) => n,
    }
}

/// The exception type that the nonzero exception number `n` denotes.
pub open spec fn exception_type_of(n: u32) -> ExceptionType {
    if n == 1 {
        ExceptionType::Reset
    } else if n == 2 {
        ExceptionType::NMI
    } else if n == 3 {
        ExceptionType::HardFault
    } else if n == 4 {
        ExceptionType::MemFault
    } else if n == 5 {
        ExceptionType::BusFault
    } else if n == 6 {
        ExceptionType::UsageFault
    } else if n == 11 {
        ExceptionType::SVCall
    } else if n == 12 {
        ExceptionType::DebugMonitor
    } else if n == 14 {
        ExceptionType::PendSV
    } else if n == 15 {
        ExceptionType::SysTick
    } else if (7 <= n && n <= 10) || n == 13 {
        ExceptionType::Reserved(n)
    } else {
        ExceptionType::ExternalInterrupt(n)
    }
}

/// An exception type is canonical when its number denotes it again:
/// reserved numbers are 7 to 10 and 13, external interrupts start at 16.
pub open spec fn is_canonical(t: ExceptionType) -> bool {
    match t {
        ExceptionType::ExternalInterrupt(n) => n >= 16,
        ExceptionType::Reserved(n) => (7 <= n && n <= 10) || n == 13,
        _ => true,
    }
}

/// Rank of the variant of `t` in declaration order.
pub open spec fn variant_rank(t: ExceptionType) -> int {
    match t {
        ExceptionType::Reset => 0,
        ExceptionType::NMI => 1,
        ExceptionType::HardFault => 2,
        ExceptionType::MemFault => 3,
        ExceptionType::BusFault => 4,
        ExceptionType::UsageFault => 5,
        ExceptionType::DebugMonitor => 6,
        ExceptionType::SVCall => 7,
        ExceptionType::PendSV => 8,
        ExceptionType::SysTick => 9,
        ExceptionType::ExternalInterrupt(_) => 10,
        ExceptionType::Reserved(_) => 11,
    }
}

/// Payload of `t`, 0 for variants without one.
pub open spec fn variant_payload(t: ExceptionType) -> int {
    match t {
        ExceptionType::ExternalInterrupt(n) => n as int,
        ExceptionType::Reserved(n) => n as int,
        _ => 0,
    }
}

/// The order of exception types: by variant in declaration order, then by
/// number; the order that the derived `Ord` gives.
pub open spec fn type_lt(a: ExceptionType, b: ExceptionType) -> bool {
    variant_rank(a) < variant_rank(b) || (variant_rank(a) == variant_rank(b) && variant_payload(
        a,
    ) < variant_payload(b))
}

/// Distinct exception types are ordered one way or the other.
pub proof fn lemma_type_lt_total(a: ExceptionType, b: ExceptionType)
    ensures
        a == b || type_lt(a, b) || type_lt(b, a),
        !(type_lt(a, b) && type_lt(b, a)),
        !type_lt(a, a),
{
}

impl ExceptionType {
    /// The exception type that the exception number `value` denotes.
    /// Number 0 denotes no exception.
    pub fn from(value: u32) -> (r: Self)
        requires
            value != 0,
        ensures
            r == exception_type_of(value),
            is_canonical(r),
            exception_number(r) == value,
    {
        match value {
            1 => ExceptionType::Reset,
            2 => ExceptionType::NMI,
            3 => ExceptionType::HardFault,
            4 => ExceptionType::MemFault,
            5 => ExceptionType::BusFault,
            6 => ExceptionType::UsageFault,
            11 => ExceptionType::SVCall,
            12 => ExceptionType::DebugMonitor,
            14 => ExceptionType::PendSV,
            15 => ExceptionType::SysTick,
            7..=10 | 13 => ExceptionType::Reserved(value),
            n => ExceptionType::ExternalInterrupt(n),
        }
    }

    /// The exception number of this type.
    pub fn number(&self) -> (r: u32)
        ensures
            r == exception_number(*self),
    {
        match self {
            ExceptionType::Reset => 1,
            ExceptionType::NMI => 2,
            ExceptionType::HardFault => 3,
            ExceptionType::MemFault => 4,
            ExceptionType::BusFault => 5,
            ExceptionType::UsageFault => 6,
            ExceptionType::SVCall => 11,
            ExceptionType::DebugMonitor => 12,
            ExceptionType::PendSV => 14,
            ExceptionType::SysTick => 15,
            ExceptionType::ExternalInterrupt(n) => *n,
            ExceptionType::Reserved(n) => *n,
        }
    }

    /// Whether this type comes before `other` in the order of exception types.
    pub fn precedes(&self, other: &ExceptionType) -> (r: bool)
        ensures
            r == type_lt(*self, *other),
    {
        let a = self.rank();
        let b = other.rank();
        if a != b {
            a < b
        } else {
            self.payload() < other.payload()
        }
    }

    fn rank(&self) -> (r: u8)
        ensures
            r == variant_rank(*self),
    {
        match self {
            ExceptionType::Reset => 0,
            ExceptionType::NMI => 1,
            ExceptionType::HardFault => 2,
            ExceptionType::MemFault => 3,
            ExceptionType::BusFault => 4,
            ExceptionType::UsageFault => 5,
            ExceptionType::DebugMonitor => 6,
            ExceptionType::SVCall => 7,
            ExceptionType::PendSV => 8,
            ExceptionType::SysTick => 9,
            ExceptionType::ExternalInterrupt(_) => 10,
            ExceptionType::Reserved(_) => 11,
        }
    }

    fn payload(&self) -> (r: u32)
        ensures
            r == variant_payload(*self),
    {
        match self {
            ExceptionType::ExternalInterrupt(n) => *n,
            ExceptionType::Reserved(n) => *n,
            _ => 0,
        }
    }
}

impl<'a> From<&'a ExceptionType> for u32 {
    fn from(value: &'a ExceptionType) -> (r: u32) {
        value.number()
    }
}

impl<'a> vstd::std_specs::convert::FromSpecImpl<&'a ExceptionType> for u32 {
    open spec fn obeys_from_spec() -> bool {
        true
    }

    open spec fn from_spec(value: &'a ExceptionType) -> u32 {
        exception_number(*value)
    }
}

/// A nonzero exception number names a type whose number is that number.
pub proof fn lemma_number_of_type_of(n: u32)
    requires
        n != 0,
    ensures
        exception_number(exception_type_of(n)) == n,
        is_canonical(exception_type_of(n)),
{
}

/// A canonical exception type is named again by its number.
pub proof fn lemma_type_of_number(t: ExceptionType)
    requires
        is_canonical(t),
    ensures
        exception_number(t) != 0,
        exception_type_of(exception_number(t)) == t,
{
}

/// Set of exception states, one bit each.
#[derive(Clone, Copy, Debug, PartialEq, Eq, Hash, Structural)]
pub struct ExceptionStateSet(pub u8);

/// Bit of the inactive state.
pub const EXCEPTION_INACTIVE: u8 = 0x80;

/// Bit of the active state.
pub const EXCEPTION_ACTIVE: u8 = 0x01;

/// Bit of the pending state.
pub const EXCEPTION_PENDING: u8 = 0x02;

/// An exception record: its type, number, priority, enable flag, vector
/// table slot, handler entry and state.
#[derive(Clone, Copy, Debug, PartialEq, Eq, Hash, Structural)]
pub struct Exception {
    pub num: u32,
    pub typ: ExceptionType,
    pub priority: i16,
    pub enabled: bool,
    /// offset into the vector table
    pub offset: usize,
    pub entry: Option<u32>,
    pub state: ExceptionStateSet,
}

/// The little-endian word of the first four bytes of `b`.
pub open spec fn le_word(b: Seq<u8>) -> u32 {
    (b[0] as u32) | ((b[1] as u32) << 8u32) | ((b[2] as u32) << 16u32) | ((b[3] as u32) << 24u32)
}

/// The little-endian word of the four bytes of `w` is `w`.
pub proof fn lemma_le_word_of_bytes(w: u32)
    ensures
        le_word(word_bytes(w)) == w,
{
    let b = word_bytes(w);
    assert(b[0] == ((w >> 0u32) & 0xffu32) as u8);
    assert(b[1] == ((w >> 8u32) & 0xffu32) as u8);
    assert(b[2] == ((w >> 16u32) & 0xffu32) as u8);
    assert(b[3] == ((w >> 24u32) & 0xffu32) as u8);
    assert(((((w >> 0u32) & 0xffu32) as u8) as u32) | (((((w >> 8u32) & 0xffu32) as u8) as u32) << 8u32)
        | (((((w >> 16u32) & 0xffu32) as u8) as u32) << 16u32) | (((((w >> 24u32) & 0xffu32) as u8) as u32) << 24u32)
        == w) by (bit_vector);
}

/// Reads the little-endian word at the start of `bytes`.
pub fn bytes_as_u32_le(bytes: &[u8]) -> (r: u32)
    requires
        bytes@.len() >= 4,
    ensures
        r == le_word(bytes@),
{
    (bytes[0] as u32) | ((bytes[1] as u32) << 8) | ((bytes[2] as u32) << 16) | ((bytes[3] as u32)
        << 24)
}

/// The fixed priority of the reset, NMI and hard fault exceptions, or
/// `priority` for any other type.
pub open spec fn initial_priority(typ: ExceptionType, priority: i16) -> i16 {
    match typ {
        ExceptionType::Reset => -3i16,
        ExceptionType::NMI => -2i16,
        ExceptionType::HardFault => -1i16,
        _ => priority,
    }
}

impl Exception {
    /// A disabled, inactive exception of type `typ`. The reset, NMI and
    /// hard fault exceptions take their fixed priorities; the handler
    /// entry, if given, is the little-endian word of the four bytes.
    pub fn new_with(typ: ExceptionType, priority: i16, entry: Option<&[u8]>) -> (r: Self)
        requires
            exception_number(typ) < 0x4000_0000,
            entry matches Some(s) ==> s@.len() == 4,
        ensures
            r.num == exception_number(typ),
            r.typ == typ,
            r.priority == initial_priority(typ, priority),
            !r.enabled,
            r.offset == exception_number(typ) * 4,
            r.entry == (match entry {
                Some(s) => Some(le_word(s@)),
                None => None::<u32>,
            }),
            r.state == ExceptionStateSet(EXCEPTION_INACTIVE),
    {
        let num = typ.number();
        let offset = (num * 4) as usize;
        let state = ExceptionStateSet(EXCEPTION_INACTIVE);
        let priority = match typ {
            ExceptionType::Reset => -3,
            ExceptionType::NMI => -2,
            ExceptionType::HardFault => -1,
            _ => priority,
        };
        let enabled = false;
        let entry = match entry {
            Some(slice) => Some(bytes_as_u32_le(slice)),
            None => None,
        };
        Exception { num, typ, priority, enabled, offset, entry, state }
    }

    /// The placeholder record of exception number 0.
    pub fn default() -> (r: Self)
        ensures
            r.num == 0,
            r.typ == ExceptionType::Reserved(0),
            r.priority == 256,
            !r.enabled,
            r.offset == 0,
            r.entry == None::<u32>,
            r.state == ExceptionStateSet(0),
    {
        Exception {
            num: 0,
            typ: ExceptionType::Reserved(0),
            priority: 256,
            enabled: false,
            offset: 0,
            entry: None,
            state: ExceptionStateSet(0),
        }
    }
}

/// The group and subgroup of a nonnegative priority byte under priority
/// grouping `prigroup`: the bits above bit `prigroup` and the bits up to it
/// (with grouping 7 there are no group bits: the whole byte is the
/// subgroup).
pub open spec fn priority_key(v: u8, prigroup: u8) -> (u8, u8) {
    if prigroup >= 7 {
        (0u8, v)
    } else {
        (v >> ((prigroup + 1) as u8), v & (0xffu8 >> ((7 - prigroup) as u8)))
    }
}

/// How two priorities compare (-1, 0 or 1): when either is negative, as
/// integers; otherwise by group then subgroup of their low bytes.
pub open spec fn priority_order(v1: i16, v2: i16, prigroup: u8) -> int {
    if v1 < 0 || v2 < 0 {
        if v1 < v2 { -1 } else if v1 == v2 { 0 } else { 1 }
    } else {
        let k1 = priority_key(low_byte_of(v1), prigroup);
        let k2 = priority_key(low_byte_of(v2), prigroup);
        if k1.0 < k2.0 || (k1.0 == k2.0 && k1.1 < k2.1) {
            -1
        } else if k1 == k2 {
            0
        } else {
            1
        }
    }
}

/// The low byte of a priority value.
pub open spec fn low_byte_of(v: i16) -> u8 {
    v as u8
}

/// The number (-1, 0 or 1) of an ordering.
pub open spec fn ordering_sign(o: Ordering) -> int {
    match o {
        Ordering::Less => -1,
        Ordering::Equal => 0,
        Ordering::Greater => 1,
    }
}

/// Priority values of the architecture
/// (https://developer.arm.com/documentation/ka001378/latest/).
pub struct Priority;

impl Priority {
    /// Compares two priority values under priority grouping `prigroup`.
    /// Negative (fixed) priorities compare as integers; otherwise the low
    /// bytes compare by group priority, then by subgroup priority.
    pub fn compare(v1: i16, v2: i16, prigroup: u8) -> (r: Ordering)
        requires
            v1 < 0 || v2 < 0 || prigroup <= 7,
        ensures
            ordering_sign(r) == priority_order(v1, v2, prigroup),
    {
        if v1 < 0 || v2 < 0 {
            if v1 < v2 {
                return Ordering::Less;
            } else if v1 == v2 {
                return Ordering::Equal;
            } else {
                return Ordering::Greater;
            }
        }
        let b1 = low_byte(v1);
        let b2 = low_byte(v2);
        let (g1, s1) = group_and_subgroup(b1, prigroup);
        let (g2, s2) = group_and_subgroup(b2, prigroup);
        if g1 < g2 || (g1 == g2 && s1 < s2) {
            Ordering::Less
        } else if g1 == g2 && s1 == s2 {
            Ordering::Equal
        } else {
            Ordering::Greater
        }
    }
}

/// The low byte of a priority value.
fn low_byte(v: i16) -> (r: u8)
    ensures
        r == low_byte_of(v),
{
    v as u8
}

/// The group and subgroup priority of byte `v` under grouping `prigroup`.
fn group_and_subgroup(v: u8, prigroup: u8) -> (r: (u8, u8))
    requires
        prigroup <= 7,
    ensures
        r == priority_key(v, prigroup),
{
    if prigroup == 7 {
        (0, v)
    } else {
        (v >> (prigroup + 1), v & (0xffu8 >> (7 - prigroup)))
    }
}

/// Comparing a priority with itself gives equality; swapping the two
/// priorities reverses the result.
pub proof fn lemma_priority_order_antisymmetric(v1: i16, v2: i16, prigroup: u8)
    ensures
        priority_order(v1, v1, prigroup) == 0,
        priority_order(v1, v2, prigroup) == -priority_order(v2, v1, prigroup),
{
}

/// The priority order is transitive: a priority at least as urgent as a
/// second one that is at least as urgent as a third is at least as urgent
/// as the third, and strictly so when either step is strict.
pub proof fn lemma_priority_order_transitive(v1: i16, v2: i16, v3: i16, prigroup: u8)
    requires
        priority_order(v1, v2, prigroup) <= 0,
        priority_order(v2, v3, prigroup) <= 0,
    ensures
        priority_order(v1, v3, prigroup) <= 0,
        (priority_order(v1, v2, prigroup) < 0 || priority_order(v2, v3, prigroup) < 0) ==> priority_order(v1, v3, prigroup) < 0,
{
}

/// Vector table access.
pub struct VectorTable;

impl VectorTable {
    /// The vector table word of exception type `typ`, if the table has one.
    pub fn get_entry(vt: &[u32], typ: ExceptionType) -> (r: Option<u32>)
        ensures
            r == (if (exception_number(typ) as int) < vt@.len() {
                Some(vt@[exception_number(typ) as int])
            } else {
                None::<u32>
            }),
    {
        let excp_num = typ.number() as usize;
        if excp_num < vt.len() {
            Some(vt[excp_num])
        } else {
            None
        }
    }
}

} // verus!
