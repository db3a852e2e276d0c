use std::collections::VecDeque;

use libcme::dcb::DebugRegType;
use libcme::events::Event;
use libcme::exception::ExceptionType;
use libcme::mpu::MPURegType;
use libcme::nvic::{NVICRegType, NVICRegsMut, NVICState, IPR};
use libcme::regs::SCRegType;
use libcme::systick::{SysTickReg, SysTickRegType, SysTickRegs, RVR};

#[test]
fn sc_register_lookup() {
    assert_eq!(SCRegType::lookup_offset(0xd04), Some(SCRegType::ICSR));
    assert_eq!(SCRegType::lookup_offset(0xd1a), Some(SCRegType::SHPR1(6)));
    assert_eq!(SCRegType::lookup_offset(0xd23), Some(SCRegType::SHPR3(15)));
    assert_eq!(SCRegType::lookup_offset(0xd40), None);
    assert_eq!(SCRegType::lookup_offset(0x10), Some(SCRegType::SysTick(SysTickRegType::CSR)));
    assert_eq!(SCRegType::lookup_offset(0x104), Some(SCRegType::NVIC(NVICRegType::ISER(1))));
    assert_eq!(SCRegType::lookup_offset(0xdf0), Some(SCRegType::Debug(DebugRegType::DHCSR)));
    assert_eq!(SCRegType::lookup_offset(0xd9c), Some(SCRegType::MPU(MPURegType::RBAR(0))));
    assert_eq!(SCRegType::ICSR.offset(), 0xd04);
    assert_eq!(SCRegType::VTOR.address(), 0xe000_ed08);
    assert_eq!(SCRegType::lookup_address(0xe000_ed24), Some(SCRegType::SHCSR));
}

#[test]
fn sc_register_iter_lists_each_word_once() {
    let types = SCRegType::iter();
    assert!(types.contains(&SCRegType::ICSR));
    assert!(types.contains(&SCRegType::SHPR1(4)));
    assert!(!types.contains(&SCRegType::SHPR1(5)));
    assert!(types.contains(&SCRegType::NVIC(NVICRegType::IPR(123))));
    assert!(types.contains(&SCRegType::CID3));
}

#[test]
fn nvic_register_lookup() {
    assert_eq!(NVICRegType::lookup_offset(0x100), Some(NVICRegType::ISER(0)));
    assert_eq!(NVICRegType::lookup_offset(0x180), Some(NVICRegType::ICER(0)));
    assert_eq!(NVICRegType::lookup_offset(0x404), Some(NVICRegType::IPR(1)));
    // every byte of a register finds it
    assert_eq!(NVICRegType::lookup_offset(0x13f), Some(NVICRegType::ISER(15)));
    assert_eq!(NVICRegType::lookup_offset(0x5ef), Some(NVICRegType::IPR(123)));
    assert_eq!(NVICRegType::lookup_offset(0x5f0), None);
    assert_eq!(NVICRegType::ICER(2).offset(), 0x188);
    assert_eq!(NVICRegType::IPR(3).offset(), 0x40c);
}

#[test]
fn ipr_priorities() {
    let mut ipr = IPR(0);
    ipr.set_pri_n(0, 0xa0);
    assert_eq!(ipr.pri_n(0), 0xa0);
    // PRI_N0 is bits 7:0, PRI_N3 bits 31:24 (B3.4.9)
    assert_eq!(ipr.0, 0x0000_00a0);
    ipr.set_pri_n(3, 0x10);
    assert_eq!(ipr.pri_n(3), 0x10);
    assert_eq!(ipr.pri_n(0), 0xa0);
    assert_eq!(ipr.0, 0x1000_00a0);
}

#[test]
fn nvic_state_sorted_sets() {
    let mut state = NVICState::new();
    state.enable(ExceptionType::ExternalInterrupt(20));
    state.enable(ExceptionType::SysTick);
    state.enable(ExceptionType::ExternalInterrupt(20));
    assert_eq!(state.enabled(), &[ExceptionType::SysTick, ExceptionType::ExternalInterrupt(20)]);
    state.disable(ExceptionType::SysTick);
    assert_eq!(state.enabled(), &[ExceptionType::ExternalInterrupt(20)]);
    state.set_pending(ExceptionType::PendSV);
    assert!(state.is_pending(ExceptionType::PendSV));
    state.clr_pending(ExceptionType::PendSV);
    assert!(!state.is_pending(ExceptionType::PendSV));
    state.set_active(ExceptionType::HardFault);
    assert_eq!(state.active(), &[ExceptionType::HardFault]);
    state.clr_active(ExceptionType::HardFault);
    assert!(state.active().is_empty());
}

#[test]
fn nvic_set_enable_write() {
    let mut regs = NVICRegsMut::new(vec![0u32; 0x400]);
    let mut events = VecDeque::new();
    assert_eq!(regs.write_bytes(0x100, &[0b101, 0, 0, 0], &mut events), Ok(()));
    assert_eq!(events.len(), 2);
    assert_eq!(events[0], Event::ExceptionEnabled(ExceptionType::ExternalInterrupt(16), true));
    assert_eq!(events[1], Event::ExceptionEnabled(ExceptionType::ExternalInterrupt(18), true));
    let words = regs.into_backing();
    assert_eq!(words[0x40], 0b101);
    assert_eq!(words[0x60], 0b101);
}

#[test]
fn nvic_active_bits_read_only() {
    let mut regs = NVICRegsMut::new(vec![0u32; 0x400]);
    let mut events = VecDeque::new();
    assert_eq!(
        regs.write_bytes(0x300, &[1, 0, 0, 0], &mut events),
        Err(libcme::error::Error::WriteAccessViolation(0xe000_e300))
    );
    assert!(events.is_empty());
}

#[test]
fn systick_counts_down_and_fires() {
    let mut words = vec![0u32; 0x40];
    words[4] = 0b11; // ENABLE, TICKINT
    words[5] = 2; // reload
    words[6] = 2; // current
    let mut st = SysTickRegs::new(words);
    assert!(!st.tick());
    assert!(st.tick());
    let words = st.into_backing();
    assert_eq!(words[6], 0);
    // COUNTFLAG set when the count reached zero
    assert_eq!(words[4] >> 16 & 1, 1);
    let mut st = SysTickRegs::new(words);
    // a zero count takes the reload value
    assert!(!st.tick());
    assert_eq!(st.into_backing()[6], 2);
}

#[test]
fn systick_csr_write_enables_exception() {
    let mut st = SysTickRegs::new(vec![0u32; 0x40]);
    let mut events = VecDeque::new();
    assert_eq!(st.write_bytes(0x10, &[0b11, 0, 0, 0], &mut events), Ok(()));
    assert_eq!(events.len(), 1);
    assert_eq!(events[0], Event::ExceptionEnabled(ExceptionType::SysTick, true));
    let mut dst = [0u8; 4];
    assert_eq!(st.read_bytes(0x10, &mut dst, &mut events), Ok(()));
    assert_eq!(u32::from_le_bytes(dst), 0b11);
    // the calibration register is read-only
    assert_eq!(
        st.write_bytes(0x1c, &[1, 0, 0, 0], &mut events),
        Err(libcme::error::Error::WriteAccessViolation(0xe000_e01c))
    );
}

#[test]
fn systick_register_set_and_get() {
    let mut st = SysTickRegs::new(vec![0u32; 0x40]);
    st.set_reg(SysTickReg::RVR(RVR(0x1234)));
    assert_eq!(st.get_reg_ref(SysTickRegType::RVR), SysTickReg::RVR(RVR(0x1234)));
    assert_eq!(st.get_rvr().reload(), 0x1234);
}

#[test]
fn systick_register_writes() {
    let mut st = SysTickRegs::new(vec![0u32; 0x40]);
    st.set_reg(SysTickReg::CVR(libcme::systick::CVR(5)));
    let mut events = VecDeque::new();
    // RVR keeps the low 24 bits of the little-endian word
    assert_eq!(st.write_bytes(0x14, &[0x00, 0x01, 0x00, 0xff], &mut events), Ok(()));
    assert_eq!(st.get_rvr().into_bits(), 0x100);
    // any write clears CVR
    assert_eq!(st.write_bytes(0x18, &[7, 0, 0, 0], &mut events), Ok(()));
    assert_eq!(st.get_cvr().into_bits(), 0);
    // CALIB is read-only
    assert_eq!(
        st.write_bytes(0x1c, &[1, 0, 0, 0], &mut events),
        Err(libcme::error::Error::WriteAccessViolation(0xe000_e01c))
    );
    assert_eq!(st.get_calib().into_bits(), 0);
    assert!(events.is_empty());
    assert_eq!(SysTickRegType::CALIB.permissions(), 0b100);
    assert_eq!(SysTickRegType::CSR.permissions(), 0b110);
    assert_eq!(SysTickRegType::RVR.permissions(), 0b110);
    assert_eq!(SysTickRegType::CVR.permissions(), 0b110);
}

#[test]
fn systick_register_lookup() {
    assert_eq!(SysTickReg::lookup_offset(0x10), Some(SysTickRegType::CSR));
    assert_eq!(SysTickReg::lookup_offset(0x14), Some(SysTickRegType::RVR));
    assert_eq!(SysTickReg::lookup_offset(0x18), Some(SysTickRegType::CVR));
    assert_eq!(SysTickReg::lookup_offset(0x1c), Some(SysTickRegType::CALIB));
    assert_eq!(SysTickReg::lookup_offset(0x12), None);
    assert_eq!(SysTickReg::lookup_offset(0x20), None);
    assert_eq!(SysTickRegType::lookup_offset(0x18), Some(SysTickRegType::CVR));
}

#[test]
fn sc_register_addresses_round_trip() {
    let mut checked = 0;
    for r in SCRegType::iter() {
        let defined = !matches!(
            r,
            SCRegType::SysTick(_)
                | SCRegType::NVIC(_)
                | SCRegType::MPU(_)
                | SCRegType::Debug(_)
                | SCRegType::FPCCR
                | SCRegType::FPCAR
                | SCRegType::FPDSCR
                | SCRegType::MVFR0
                | SCRegType::MVFR1
                | SCRegType::MVFR2
        );
        if defined {
            assert_eq!(r.address(), 0xe000_e000 + r.offset() as u64);
            assert_eq!(SCRegType::lookup_address(r.address()), Some(r));
            checked += 1;
        }
    }
    assert!(checked > 30);
}
