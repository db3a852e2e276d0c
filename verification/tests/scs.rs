use std::collections::VecDeque;

use libcme::error::{Alignment, Error};
use libcme::events::Event;
use libcme::exception::ExceptionType;
use libcme::regs::AIRCR;
use libcme::scs::{SysCtrlConfig, SysCtrlSpace};

#[test]
fn default_space_is_empty() {
    let scs = SysCtrlSpace::default();
    assert_eq!(scs.words().len(), 0x400);
    assert!(scs.words().iter().all(|w| *w == 0));
    assert!(scs.active_exceptions().is_empty());
    assert!(scs.pending_exceptions().is_empty());
    assert!(scs.enabled_exceptions().is_empty());
    assert_eq!(scs.range_start(), 0xe000_e000);
    assert_eq!(scs.range_end(), 0xe000_f000);
}

#[test]
fn new_from_empty_config() {
    let scs = SysCtrlSpace::new_from(SysCtrlConfig::default());
    assert!(scs.words().iter().all(|w| *w == 0));
}

#[test]
fn priorities_are_read_back() {
    let mut scs = SysCtrlSpace::default();
    scs.set_exception_priority(ExceptionType::SysTick, 0x80);
    scs.set_exception_priority(ExceptionType::UsageFault, 0x45);
    // priority grouping 0: subgroup is bit 0
    assert_eq!(scs.get_exception_priority(ExceptionType::SysTick), (0x80, 0));
    assert_eq!(scs.get_exception_priority(ExceptionType::UsageFault), (0x44, 1));
    assert_eq!(scs.words()[0x348], 0x8000_0000);
    assert_eq!(scs.words()[0x346], 0x0045_0000);
    // priority grouping 2: subgroup is bits 2:0
    scs.set_aircr(AIRCR(2 << 8));
    assert_eq!(scs.get_exception_priority(ExceptionType::UsageFault), (0x40, 5));
    // fixed priorities
    assert_eq!(scs.get_exception_priority(ExceptionType::Reset), (-3, 0));
    assert_eq!(scs.get_exception_priority(ExceptionType::NMI), (-2, 0));
    assert_eq!(scs.get_exception_priority(ExceptionType::HardFault), (-1, 0));
    // an interrupt priority in its IPR byte
    // interrupt 1 is byte 1 of IPR0
    scs.set_exception_priority(ExceptionType::ExternalInterrupt(17), 0x30);
    assert_eq!(scs.get_exception_priority(ExceptionType::ExternalInterrupt(17)), (0x30, 0));
    assert_eq!(scs.words()[0x100], 0x0000_3000);
    // interrupt 4 is byte 0 of IPR1; interrupt 32 byte 0 of IPR8
    scs.set_exception_priority(ExceptionType::ExternalInterrupt(20), 0x40);
    assert_eq!(scs.words()[0x101], 0x0000_0040);
    scs.set_aircr(AIRCR(3 << 8));
    assert_eq!(scs.get_exception_priority(ExceptionType::ExternalInterrupt(20)), (0x40, 0));
    scs.set_exception_priority(ExceptionType::ExternalInterrupt(48), 0x20);
    assert_eq!(scs.words()[0x108], 0x0000_0020);
    assert_eq!(scs.get_exception_priority(ExceptionType::ExternalInterrupt(48)), (0x20, 0));
    assert_eq!(scs.get_exception_priority(ExceptionType::ExternalInterrupt(20)), (0x40, 0));
}

#[test]
fn pending_exceptions_sorted_by_priority() {
    let mut scs = SysCtrlSpace::default();
    scs.set_exception_priority(ExceptionType::SysTick, 0x80);
    scs.set_exception_priority(ExceptionType::PendSV, 0x40);
    scs.set_exception_pending(ExceptionType::SysTick);
    scs.set_exception_pending(ExceptionType::PendSV);
    assert_eq!(scs.pending_exceptions(), &[ExceptionType::PendSV, ExceptionType::SysTick]);
    // the ICSR reflects the pending state
    let icsr = scs.get_icsr();
    assert_eq!(icsr.vectpending(), 14);
    assert!(icsr.pendstset());
    assert!(icsr.pendsvset());
    // a priority change sorts again
    scs.set_exception_priority(ExceptionType::SysTick, 0x00);
    assert_eq!(scs.pending_exceptions(), &[ExceptionType::SysTick, ExceptionType::PendSV]);
    // equal priorities keep their order
    scs.set_exception_priority(ExceptionType::PendSV, 0x00);
    assert_eq!(scs.pending_exceptions(), &[ExceptionType::SysTick, ExceptionType::PendSV]);
    scs.clr_exception_pending(ExceptionType::SysTick);
    assert_eq!(scs.pending_exceptions(), &[ExceptionType::PendSV]);
    assert_eq!(scs.get_icsr().vectpending(), 14);
    assert!(!scs.get_icsr().pendstset());
}

#[test]
fn enabled_interrupt_sets_enable_bits() {
    let mut scs = SysCtrlSpace::default();
    // exception 16 is interrupt 0: bit 0 of ISER0 and ICER0
    scs.enable_exception(ExceptionType::ExternalInterrupt(16));
    assert_eq!(scs.words()[0x40], 1);
    assert_eq!(scs.words()[0x60], 1);
    scs.enable_exception(ExceptionType::ExternalInterrupt(16));
    assert_eq!(scs.enabled_exceptions(), &[ExceptionType::ExternalInterrupt(16)]);
    scs.disable_exception(ExceptionType::ExternalInterrupt(16));
    assert_eq!(scs.words()[0x40], 0);
    assert!(scs.enabled_exceptions().is_empty());
}

#[test]
fn active_exception_stack() {
    let mut scs = SysCtrlSpace::default();
    // a disabled fault cannot become active
    scs.set_exception_active(ExceptionType::MemFault);
    assert!(scs.active_exceptions().is_empty());
    scs.enable_exception(ExceptionType::MemFault);
    scs.set_exception_pending(ExceptionType::MemFault);
    scs.set_exception_active(ExceptionType::MemFault);
    assert!(scs.pending_exceptions().is_empty());
    assert_eq!(scs.active_exceptions(), &[ExceptionType::MemFault]);
    let shcsr = scs.get_shcsr();
    assert!(shcsr.memfaultact());
    assert!(shcsr.memfaultena());
    assert_eq!(scs.get_icsr().vectactive(), 4);
    // SVCall is always enabled, and goes on top
    scs.set_exception_active(ExceptionType::SVCall);
    assert_eq!(scs.active_exceptions(), &[ExceptionType::SVCall, ExceptionType::MemFault]);
    assert_eq!(scs.get_icsr().vectactive(), 11);
    scs.clr_exception_active(ExceptionType::SVCall);
    scs.clr_exception_active(ExceptionType::MemFault);
    assert!(scs.active_exceptions().is_empty());
    assert!(scs.get_icsr().rettobase());
    assert!(!scs.get_shcsr().memfaultact());
    assert!(scs.exception_enabled(ExceptionType::NMI));
    assert!(scs.exception_enabled(ExceptionType::MemFault));
    assert!(!scs.exception_enabled(ExceptionType::BusFault));
}

#[test]
fn scr_write_events() {
    let mut scs = SysCtrlSpace::default();
    let mut events = VecDeque::new();
    assert_eq!(scs.write_bytes(0xd10, &[0b10110, 0, 0, 0], &mut events), Ok(()));
    assert_eq!(
        Vec::from(events.clone()),
        vec![Event::SetSleepOnExit(true), Event::SetDeepSleep(true), Event::SetTransitionWakupEvent(true)]
    );
    assert_eq!(scs.get_scr().0, 0b10110);
    // writing the same value changes nothing
    events.clear();
    assert_eq!(scs.write_bytes(0xd10, &[0b10110, 0, 0, 0], &mut events), Ok(()));
    assert!(events.is_empty());
}

#[test]
fn vtor_write_event() {
    let mut scs = SysCtrlSpace::default();
    let mut events = VecDeque::new();
    // the little-endian word 0x2000_0280; VTOR keeps bits 31:7
    assert_eq!(scs.write_bytes(0xd08, &[0x80, 0x02, 0x00, 0x20], &mut events), Ok(()));
    assert_eq!(scs.get_vtor().0, 0x2000_0280);
    assert_eq!(&scs.view_as_bytes()[0xd08..0xd0c], &[0x80, 0x02, 0x00, 0x20]);
    assert_eq!(Vec::from(events), vec![Event::VectorTableOffsetWrite(0x2000_0280)]);
}

#[test]
fn aircr_write_events() {
    let mut scs = SysCtrlSpace::default();
    let mut events = VecDeque::new();
    // PRIGROUP is bits 10:8
    assert_eq!(scs.write_bytes(0xd0c, &[0, 1, 0, 0], &mut events), Ok(()));
    assert_eq!(Vec::from(events.clone()), vec![Event::SetPriorityGrouping(1)]);
    assert_eq!(scs.get_aircr().prigroup(), 1);
    // SYSRESETREQ requests a local reset, and withdrawing it removes it
    events.clear();
    assert_eq!(scs.write_bytes(0xd0c, &[0b100, 1, 0, 0], &mut events), Ok(()));
    assert_eq!(Vec::from(events.clone()), vec![Event::LocalSysResetRequest]);
    assert!(scs.get_aircr().sysresetreq());
    assert_eq!(scs.write_bytes(0xd0c, &[0, 1, 0, 0], &mut events), Ok(()));
    assert!(events.is_empty());
    // VECTRESET outside debug state is unpredictable
    match scs.write_bytes(0xd0c, &[1, 0, 0, 0], &mut events) {
        Err(Error::UnpredictableBehavior(_)) => {},
        other => panic!("unexpected result {other:?}"),
    }
    assert!(events.is_empty());
}

#[test]
fn ccr_write_events() {
    let mut scs = SysCtrlSpace::default();
    let mut events = VecDeque::new();
    assert_eq!(scs.write_bytes(0xd14, &[0b11011, 0, 0, 0], &mut events), Ok(()));
    assert_eq!(
        Vec::from(events),
        vec![
            Event::ThreadModeExceptionsEnabled(true),
            Event::STIRUnprivilegedAccessAllowed(true),
            Event::UnalignedAccessTrapEnabled(true),
            Event::DivideByZeroTrapEnabled(true),
        ]
    );
    assert_eq!(scs.get_ccr().0, 0b11011);
}

#[test]
fn shpr_byte_write() {
    let mut scs = SysCtrlSpace::default();
    let mut events = VecDeque::new();
    assert_eq!(scs.write_bytes(0xd1a, &[0x80], &mut events), Ok(()));
    assert_eq!(Vec::from(events.clone()), vec![Event::ExceptionSetPriority(ExceptionType::UsageFault, 0x80)]);
    assert_eq!(scs.words()[0x346], 0x0080_0000);
    events.clear();
    assert_eq!(scs.write_bytes(0xd1a, &[0x80], &mut events), Ok(()));
    assert!(events.is_empty());
    // a halfword write at an odd address is not aligned
    assert_eq!(
        scs.write_bytes(0xd19, &[1, 2], &mut events),
        Err(Error::AlignmentViolation(0xe000_ed19, 2, Alignment::Any))
    );
}

#[test]
fn shcsr_write_events() {
    let mut scs = SysCtrlSpace::default();
    let mut events = VecDeque::new();
    assert_eq!(scs.write_bytes(0xd24, &[1, 0, 0, 0], &mut events), Ok(()));
    assert_eq!(Vec::from(events.clone()), vec![Event::ExceptionSetActive(ExceptionType::MemFault, true)]);
    // the register follows the exception state, not the write
    assert_eq!(scs.get_shcsr().0, 0);
    assert_eq!(
        scs.write_bytes(0xd24, &[1, 0], &mut events),
        Err(Error::AlignmentViolation(0xe000_ed24, 2, Alignment::Word))
    );
}

#[test]
fn icsr_write_without_set_bits() {
    let mut scs = SysCtrlSpace::default();
    let mut events = VecDeque::new();
    // no set or clear bit among bits 31:24
    assert_eq!(scs.write_bytes(0xd04, &[0xff, 0xff, 0xff, 0x00], &mut events), Ok(()));
    assert!(events.is_empty());
    // PENDSTSET and PENDSTCLR together are unpredictable
    match scs.write_bytes(0xd04, &[0, 0, 0, 0x06], &mut events) {
        Err(Error::UnpredictableBehavior(_)) => {},
        other => panic!("unexpected result {other:?}"),
    }
    assert_eq!(
        scs.write_bytes(0xd04, &[0, 0], &mut events),
        Err(Error::AlignmentViolation(0xe000_ed04, 2, Alignment::Word))
    );
}

#[test]
fn unregistered_offset_is_memory() {
    let mut scs = SysCtrlSpace::default();
    let mut events = VecDeque::new();
    assert_eq!(
        scs.write_bytes(0xd40, &[1, 2, 3, 4], &mut events),
        Err(Error::InvalidSysCtrlReg(0xe000_ed40))
    );
    assert_eq!(scs.words()[0xd40 / 4], 0x0403_0201);
    let mut dst = [0u8; 4];
    assert_eq!(scs.read_bytes(0xd40, &mut dst, &mut events), Err(Error::InvalidSysCtrlReg(0xe000_ed40)));
    assert_eq!(dst, [1, 2, 3, 4]);
}

#[test]
fn stir_is_write_only() {
    let mut scs = SysCtrlSpace::default();
    let mut events = VecDeque::new();
    let mut dst = [0u8; 4];
    assert_eq!(scs.read_bytes(0xf00, &mut dst, &mut events), Err(Error::WriteAccessViolation(0xe000_ef00)));
}

#[test]
fn register_reads() {
    let mut scs = SysCtrlSpace::default();
    let mut events = VecDeque::new();
    scs.set_exception_priority(ExceptionType::SVCall, 0xab);
    let mut dst = [0u8; 1];
    assert_eq!(scs.read_bytes(0xd1f, &mut dst, &mut events), Ok(()));
    assert_eq!(dst, [0xab]);
    let mut dst = [0u8; 4];
    assert_eq!(scs.read_bytes(0xd1c, &mut dst, &mut events), Ok(()));
    assert_eq!(dst, [0, 0, 0, 0xab]);
    let mut dst = [0u8; 2];
    assert_eq!(
        scs.read_bytes(0xd08, &mut dst, &mut events),
        Err(Error::AlignmentViolation(0xe000_ed08, 2, Alignment::Word))
    );
}

#[test]
fn systick_and_nvic_through_space() {
    let mut scs = SysCtrlSpace::default();
    let mut events = VecDeque::new();
    assert_eq!(scs.write_bytes(0x10, &[0b11, 0, 0, 0], &mut events), Ok(()));
    assert_eq!(Vec::from(events.clone()), vec![Event::ExceptionEnabled(ExceptionType::SysTick, true)]);
    events.clear();
    assert_eq!(scs.write_bytes(0x100, &[1, 0, 0, 0], &mut events), Ok(()));
    assert_eq!(Vec::from(events), vec![Event::ExceptionEnabled(ExceptionType::ExternalInterrupt(16), true)]);
    assert_eq!(scs.words()[0x40], 1);
    assert_eq!(scs.nvic_regs().get_iser(0).0, 1);
    assert_eq!(scs.systick_regs().get_csr().0, 0b11);
}

#[test]
fn update_regs_reflect_state() {
    let mut scs = SysCtrlSpace::default();
    scs.set_word(0x40, 0xffff_ffff);
    scs.update_exception_regs();
    assert_eq!(scs.words()[0x40], 0);
    assert!(scs.get_icsr().rettobase());
}

#[test]
fn space_as_bytes() {
    let mut scs = SysCtrlSpace::default();
    scs.set_word(0x342, 0x1234_5680);
    let bytes = scs.view_as_bytes();
    assert_eq!(bytes.len(), 0x1000);
    assert_eq!(&bytes[0xd08..0xd0c], &[0x80, 0x56, 0x34, 0x12]);
    assert!(bytes[..0xd08].iter().all(|b| *b == 0));
}

#[test]
fn exception_state_changes_undo() {
    let mut scs = SysCtrlSpace::default();
    let irq = ExceptionType::ExternalInterrupt(17);
    scs.enable_exception(irq);
    assert!(scs.exception_enabled(irq));
    scs.disable_exception(irq);
    assert!(!scs.exception_enabled(irq));
    assert!(scs.enabled_exceptions().is_empty());

    scs.set_exception_pending(ExceptionType::SysTick);
    scs.set_exception_pending(irq);
    assert!(scs.pending_exceptions().contains(&irq));
    scs.clr_exception_pending(irq);
    assert_eq!(scs.pending_exceptions(), &[ExceptionType::SysTick]);

    scs.set_exception_active(ExceptionType::SVCall);
    assert_eq!(scs.active_exceptions(), &[ExceptionType::SVCall]);
    scs.clr_exception_active(ExceptionType::SVCall);
    assert!(scs.active_exceptions().is_empty());
}

#[test]
fn registers_reflect_nested_interrupt() {
    let mut scs = SysCtrlSpace::default();
    let irq = ExceptionType::ExternalInterrupt(18);
    // interrupt 2 preempts the SysTick handler
    scs.set_exception_active(ExceptionType::SysTick);
    assert!(scs.get_icsr().rettobase());
    scs.enable_exception(irq);
    scs.set_exception_active(irq);
    assert_eq!(scs.active_exceptions(), &[irq, ExceptionType::SysTick]);
    scs.update_exception_regs();
    let icsr = scs.get_icsr();
    assert_eq!(icsr.vectactive(), 18);
    assert!(!icsr.rettobase());
    assert!(!icsr.isrpending());
    assert_eq!(icsr.vectpending(), 0);
    assert!(scs.get_shcsr().systickact());
    assert_eq!(scs.nvic_regs().get_iabr(0).active(), 1 << 2);
    assert_eq!(scs.nvic_regs().get_ispr(0).setpend(), 0);
}

#[test]
fn ccr_stkalign_write_event() {
    let mut scs = SysCtrlSpace::default();
    let mut events = VecDeque::new();
    assert_eq!(scs.write_bytes(0xd14, &0x200u32.to_le_bytes(), &mut events), Ok(()));
    assert_eq!(Vec::from(events), vec![Event::Stack8ByteAligned(true)]);
    assert!(scs.get_ccr().stkalign());
}
