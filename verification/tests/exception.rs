use std::cmp::Ordering;

use libcme::exception::{bytes_as_u32_le, Exception, ExceptionType, Priority, VectorTable};

#[test]
fn exception_type_from_numbers() {
    assert_eq!(ExceptionType::from(1), ExceptionType::Reset);
    assert_eq!(ExceptionType::from(2), ExceptionType::NMI);
    assert_eq!(ExceptionType::from(3), ExceptionType::HardFault);
    assert_eq!(ExceptionType::from(4), ExceptionType::MemFault);
    assert_eq!(ExceptionType::from(5), ExceptionType::BusFault);
    assert_eq!(ExceptionType::from(6), ExceptionType::UsageFault);
    assert_eq!(ExceptionType::from(7), ExceptionType::Reserved(7));
    assert_eq!(ExceptionType::from(10), ExceptionType::Reserved(10));
    assert_eq!(ExceptionType::from(11), ExceptionType::SVCall);
    assert_eq!(ExceptionType::from(12), ExceptionType::DebugMonitor);
    assert_eq!(ExceptionType::from(13), ExceptionType::Reserved(13));
    assert_eq!(ExceptionType::from(14), ExceptionType::PendSV);
    assert_eq!(ExceptionType::from(15), ExceptionType::SysTick);
    assert_eq!(ExceptionType::from(16), ExceptionType::ExternalInterrupt(16));
    assert_eq!(ExceptionType::from(300), ExceptionType::ExternalInterrupt(300));
}

#[test]
fn exception_type_number_round_trip() {
    for n in 1u32..600 {
        assert_eq!(ExceptionType::from(n).number(), n);
    }
    assert_eq!(u32::from(&ExceptionType::SVCall), 11);
}

#[test]
fn exception_type_order() {
    assert!(ExceptionType::Reset.precedes(&ExceptionType::NMI));
    assert!(ExceptionType::SysTick.precedes(&ExceptionType::ExternalInterrupt(16)));
    assert!(ExceptionType::ExternalInterrupt(16).precedes(&ExceptionType::ExternalInterrupt(17)));
    assert!(!ExceptionType::ExternalInterrupt(17).precedes(&ExceptionType::ExternalInterrupt(17)));
    assert!(ExceptionType::DebugMonitor.precedes(&ExceptionType::SVCall));
}

#[test]
fn priority_compare_fixed() {
    assert_eq!(Priority::compare(-3, -1, 0), Ordering::Less);
    assert_eq!(Priority::compare(-1, -1, 3), Ordering::Equal);
    assert_eq!(Priority::compare(5, -2, 0), Ordering::Greater);
}

#[test]
fn priority_compare_groups() {
    // prigroup 3: group is bits 7:4, subgroup bits 3:0
    assert_eq!(Priority::compare(0x10, 0x0f, 3), Ordering::Greater);
    assert_eq!(Priority::compare(0x12, 0x11, 3), Ordering::Greater);
    assert_eq!(Priority::compare(0x20, 0x20, 3), Ordering::Equal);
    // prigroup 0: group is bits 7:1, subgroup bit 0
    assert_eq!(Priority::compare(2, 3, 0), Ordering::Less);
    assert_eq!(Priority::compare(4, 3, 0), Ordering::Greater);
    // prigroup 7: no group bits, numeric order
    assert_eq!(Priority::compare(0x80, 0x7f, 7), Ordering::Greater);
    assert_eq!(Priority::compare(0x10, 0x11, 7), Ordering::Less);
    assert_eq!(Priority::compare(0x42, 0x42, 7), Ordering::Equal);
}

#[test]
fn priority_compare_antisymmetric() {
    for a in [-3i16, -1, 0, 7, 0x40, 0xff] {
        for b in [-2i16, 0, 8, 0x41, 0xfe] {
            let ab = Priority::compare(a, b, 2);
            let ba = Priority::compare(b, a, 2);
            assert_eq!(ab, ba.reverse());
        }
    }
}

#[test]
fn exception_new_with_fixed_priorities() {
    assert_eq!(Exception::new_with(ExceptionType::Reset, 7, None).priority, -3);
    assert_eq!(Exception::new_with(ExceptionType::NMI, 7, None).priority, -2);
    assert_eq!(Exception::new_with(ExceptionType::HardFault, 7, None).priority, -1);
    let e = Exception::new_with(ExceptionType::SVCall, 7, Some(&[0x01, 0x02, 0x03, 0x04]));
    assert_eq!(e.priority, 7);
    assert_eq!(e.num, 11);
    assert_eq!(e.offset, 44);
    assert_eq!(e.entry, Some(0x0403_0201));
    assert!(!e.enabled);
}

#[test]
fn exception_default_values() {
    let e = Exception::default();
    assert_eq!(e.num, 0);
    assert_eq!(e.typ, ExceptionType::Reserved(0));
    assert_eq!(e.priority, 256);
    assert_eq!(e.entry, None);
}

#[test]
fn vector_table_entry() {
    let vt = [0x10u32, 0x11, 0x12, 0x13];
    assert_eq!(VectorTable::get_entry(&vt, ExceptionType::HardFault), Some(0x13));
    assert_eq!(VectorTable::get_entry(&vt, ExceptionType::SVCall), None);
}

#[test]
fn bytes_little_endian() {
    assert_eq!(bytes_as_u32_le(&[0x78, 0x56, 0x34, 0x12]), 0x1234_5678);
}

#[test]
fn priority_compare_is_transitive() {
    // fixed, then grouped: -1 before 0x20 before 0x40 under grouping 2
    assert_eq!(Priority::compare(-1, 0x20, 2), Ordering::Less);
    assert_eq!(Priority::compare(0x20, 0x40, 2), Ordering::Less);
    assert_eq!(Priority::compare(-1, 0x40, 2), Ordering::Less);
    // equal groups and subgroups compare equal throughout
    assert_eq!(Priority::compare(0x41, 0x141, 2), Ordering::Equal);
    assert_eq!(Priority::compare(0x141, 0x241, 2), Ordering::Equal);
    assert_eq!(Priority::compare(0x41, 0x241, 2), Ordering::Equal);
}
