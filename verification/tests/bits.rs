use libcme::bits::{get_bit, get_byte, get_field, put_bit, put_byte, put_field, write_value};
use libcme::error::{check_alignment, Alignment};

#[test]
fn field_read_and_write() {
    assert_eq!(get_field(0xabcd_1234, 8, 8), 0x12);
    assert_eq!(put_field(0xffff_ffff, 4, 4, 0), 0xffff_ff0f);
    let w = put_field(0x1234_5678, 8, 8, 0xab);
    assert_eq!(get_field(w, 8, 8), 0xab);
    assert_eq!(get_field(w, 0, 8), 0x78);
    assert_eq!(get_field(w, 16, 16), 0x1234);
    // only the low bits of the value are stored
    assert_eq!(get_field(put_field(0, 0, 3, 0xff), 0, 8), 0x7);
}

#[test]
fn bit_read_and_write() {
    assert!(get_bit(0b100, 2));
    assert!(!get_bit(0b100, 1));
    assert_eq!(put_bit(0, 31, true), 0x8000_0000);
    assert_eq!(put_bit(0xffff_ffff, 0, false), 0xffff_fffe);
}

#[test]
fn byte_read_and_write() {
    assert_eq!(get_byte(0x1234_5678, 1), 0x56);
    assert_eq!(put_byte(0x1234_5678, 0, 0xff), 0x1234_56ff);
    assert_eq!(put_byte(0x1234_5678, 3, 0x00), 0x0034_5678);
}

#[test]
fn write_value_is_little_endian() {
    // the little-endian word of the first four bytes
    assert_eq!(write_value(&[1, 1]), 0x101);
    assert_eq!(write_value(&[0x10, 0x10]), 0x1010);
    assert_eq!(write_value(&[0x78, 0x56, 0x34, 0x12]), 0x1234_5678);
    assert_eq!(write_value(&[0b11, 0, 0, 0]), 0b11);
    // only the first four bytes count
    assert_eq!(write_value(&[0xff, 0, 0, 0, 0xff]), 0xff);
    assert_eq!(write_value(&[]), 0);
}

#[test]
fn alignment_checks() {
    assert_eq!(check_alignment(0x1000, 4, Alignment::Word), Ok(()));
    assert_eq!(check_alignment(0x1002, 4, Alignment::Word), Err((0x1002, 4, Alignment::Word)));
    assert_eq!(check_alignment(0x1000, 2, Alignment::Word), Err((0x1000, 2, Alignment::Word)));
    assert_eq!(check_alignment(0x1002, 2, Alignment::Any), Ok(()));
    assert_eq!(check_alignment(0x1001, 2, Alignment::Any), Err((0x1001, 2, Alignment::Any)));
    assert_eq!(check_alignment(0x1000, 3, Alignment::Any), Err((0x1000, 3, Alignment::Any)));
    assert_eq!(check_alignment(0x1003, 1, Alignment::Any), Ok(()));
}
