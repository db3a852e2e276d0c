use libcme::backend::{Backend, EXC_RETURN, EmuThread, Mode};
use libcme::error::{Alignment, BackendError, Error};
use libcme::events::{DebugEvent, Event, PeripheralEvent, Status};
use libcme::exception::ExceptionType;
use libcme::mmap::MemoryMap;
use libcme::systick::SysTickRegType;

#[test]
fn tests_test_systick_registers() {
    let mut backend = Backend::new_with(None);
    backend.map_mem(0x0, 0x1000).unwrap();

    let address = SysTickRegType::CSR.address() as u64;
    let bytes = u32::to_le_bytes(0b11);
    backend.store_bytes(address, &bytes).unwrap();

    assert_eq!(backend.events().len(), 1);
    assert_eq!(backend.events()[0], Event::ExceptionEnabled(ExceptionType::SysTick, true));

    let mut dst = [0u8; 4];
    backend.load_bytes(address, &mut dst).unwrap();
    assert_eq!(u32::from_le_bytes(dst), 0b11);
}

#[test]
fn memory_map_regions() {
    let mut mmap = MemoryMap::default();
    assert_eq!(mmap.map_mem(0x0, 0x1000), Ok(()));
    assert_eq!(mmap.map_mem(0x2000, 0x100), Ok(()));
    assert_eq!(mmap.map_mem(0x800, 0x1000), Err(BackendError::MapConflict((0x800, 0x1800), (0x0, 0x1000))));
    assert_eq!(mmap.store_bytes(0x10, &[1, 2, 3, 4]), Ok(()));
    let mut dst = [0u8; 4];
    assert_eq!(mmap.load_bytes(0x10, &mut dst), Ok(()));
    assert_eq!(dst, [1, 2, 3, 4]);
    assert_eq!(mmap.load_bytes(0x5000, &mut dst), Err(BackendError::Unmapped(0x5000)));
    assert_eq!(mmap.load_bytes(0xffe, &mut dst), Err(BackendError::ReadOutOfBounds(0xffe, 4)));
    assert_eq!(mmap.store_bytes(0x20fe, &[1, 2, 3]), Err(BackendError::WriteOutOfBounds(0xfe, 3)));
    assert_eq!(mmap.mem_view_bytes(0x2000, None).map(|v| v.len()), Ok(0x100));
    // with no size, the view runs to the end of the region
    assert_eq!(mmap.mem_view_bytes(0x2004, None).map(|v| v.len()), Ok(0xfc));
    assert_eq!(mmap.mem_view_bytes(0x2004, Some(0x100)), Err(BackendError::ReadOutOfBounds(4, 0x100)));
    assert_eq!(mmap.mem_view_bytes(0x12, Some(2)), Ok(vec![3, 4]));
}

fn entry_backend() -> Backend {
    let mut backend = Backend::new_with(None);
    // vector table, code and stack in regions of their own
    backend.map_mem(0x0, 0x100).unwrap();
    backend.map_mem(0x100, 0x100).unwrap();
    backend.map_mem(0x400, 0x400).unwrap();
    // SVCall handler at 0x200, in Thumb state
    backend.store_bytes(11 * 4, &0x201u32.to_le_bytes()).unwrap();
    // UsageFault handler at 0x300
    backend.store_bytes(6 * 4, &0x301u32.to_le_bytes()).unwrap();
    backend.write_sp(0x800);
    backend.write_pc(0x100);
    backend.write_reg(0, 0x1234);
    backend.write_reg(12, 0xabcd);
    backend.write_reg(14, 0x55);
    backend
}

#[test]
fn exception_entry_and_return() {
    let mut backend = entry_backend();
    assert_eq!(backend.current_priority(), 256);

    let switch = backend.exception_entry(ExceptionType::SVCall, Some(2)).unwrap();
    assert_eq!(switch.typ, 11);
    assert_eq!(switch.old_thread, EmuThread::Main);
    assert_eq!(switch.new_thread, EmuThread::ISR { num: 11 });
    assert_eq!(switch.old_frame_address, 0x800);
    assert_eq!(switch.new_frame_address, 0x7e0);
    assert_eq!(switch.switch_address, 0x100);
    assert_eq!(switch.target_address, 0x201);
    assert_eq!(switch.return_address, Some(0x102));
    assert_eq!(switch.vtor, Some(0));
    assert_eq!(backend.mode(), Mode::Handler(ExceptionType::SVCall));
    assert_eq!(backend.read_pc(), 0x201);
    assert_eq!(backend.read_sp(), 0x7e0);
    assert_eq!(backend.read_reg(0), 0);
    // EXC_RETURN: back to thread mode on the main stack
    assert_eq!(backend.read_reg(14), 0xffff_fff9);
    assert_eq!(backend.xpsr().0, 11 | (1 << 24));
    assert_eq!(backend.scs().active_exceptions(), &[ExceptionType::SVCall]);
    assert_eq!(backend.current_priority(), 0);

    // the frame holds r0, r1, r2, r3, r12, lr, the return address and xPSR
    let mut frame = [0u8; 32];
    backend.load_bytes(0x7e0, &mut frame).unwrap();
    assert_eq!(&frame[0..4], &0x1234u32.to_le_bytes());
    assert_eq!(&frame[16..20], &0xabcdu32.to_le_bytes());
    assert_eq!(&frame[20..24], &0x55u32.to_le_bytes());
    assert_eq!(&frame[24..28], &0x102u32.to_le_bytes());
    assert_eq!(&frame[28..32], &0u32.to_le_bytes());

    let lr = backend.read_reg(14);
    let switch = backend.exception_return(EXC_RETURN(lr)).unwrap();
    assert_eq!(switch.typ, 0);
    assert_eq!(switch.old_thread, EmuThread::ISR { num: 11 });
    assert_eq!(switch.new_thread, EmuThread::Main);
    assert_eq!(switch.old_frame_address, 0x7e0);
    assert_eq!(switch.new_frame_address, 0x800);
    assert_eq!(switch.switch_address, 0x201);
    assert_eq!(switch.target_address, 0x102);
    assert_eq!(switch.return_address, None);
    assert_eq!(backend.mode(), Mode::Thread);
    assert_eq!(backend.read_pc(), 0x102);
    assert_eq!(backend.read_sp(), 0x800);
    assert_eq!(backend.read_reg(0), 0x1234);
    assert_eq!(backend.read_reg(12), 0xabcd);
    assert_eq!(backend.read_reg(14), 0x55);
    assert!(backend.scs().active_exceptions().is_empty());
}

#[test]
fn exception_return_from_inactive_handler_is_usagefault() {
    let mut backend = entry_backend();
    backend.exception_entry(ExceptionType::SVCall, Some(2)).unwrap();
    // returning to handler mode with a stacked IPSR of 0 is inconsistent
    let switch = backend.exception_return(EXC_RETURN(0xffff_fff1)).unwrap();
    assert_eq!(switch.typ, 6);
    assert_eq!(switch.target_address, 0x301);
    assert_eq!(backend.mode(), Mode::Handler(ExceptionType::UsageFault));
    // INVPC is set in the UsageFault status
    assert_eq!(backend.scs().get_cfsr().usagefault().0 & 0b100, 0b100);
    assert_eq!(backend.read_reg(14), 0xffff_fff1);
}

#[test]
fn exception_return_bad_sbop() {
    let mut backend = entry_backend();
    backend.exception_entry(ExceptionType::SVCall, Some(2)).unwrap();
    let (pc, sp, mode, xpsr) = (backend.read_pc(), backend.read_sp(), backend.mode(), backend.xpsr().0);
    match backend.exception_return(EXC_RETURN(0xf000_0009)) {
        Err(libcme::error::Error::UnpredictableBehavior(_)) => {},
        other => panic!("unexpected result {other:?}"),
    }
    // nothing changes
    assert_eq!((backend.read_pc(), backend.read_sp(), backend.mode(), backend.xpsr().0), (pc, sp, mode, xpsr));
    assert_eq!(backend.scs().active_exceptions(), &[ExceptionType::SVCall]);
}

#[test]
fn return_addresses() {
    let backend = entry_backend();
    assert_eq!(backend.return_address(ExceptionType::SysTick, Some(4)), Ok(0x104));
    assert_eq!(backend.return_address(ExceptionType::UsageFault, Some(4)), Ok(0x100));
    assert_eq!(backend.return_address(ExceptionType::HardFault, None), Ok(0x100));
    match backend.return_address(ExceptionType::SysTick, None) {
        Err(libcme::error::Error::UnpredictableBehavior(_)) => {},
        other => panic!("unexpected result {other:?}"),
    }
}

#[test]
fn next_instruction_anywhere_in_a_region() {
    let mut backend = entry_backend();
    // the bytes at the PC are viewed to the end of its region
    backend.write_pc(0x180);
    assert_eq!(backend.return_address(ExceptionType::SysTick, Some(2)), Ok(0x182));
    assert_eq!(backend.return_address(ExceptionType::MemFault, None), Ok(0x180));
    // an unmapped PC has no next instruction
    backend.write_pc(0x300);
    match backend.return_address(ExceptionType::SysTick, Some(2)) {
        Err(libcme::error::Error::System(_)) => {},
        other => panic!("unexpected result {other:?}"),
    }
}

#[test]
fn peripheral_events() {
    let mut backend = Backend::new_with(None);
    assert_eq!(backend.handle_event(Event::Peripheral(PeripheralEvent::EnableInterrupt { int_num: 1 })), Ok(()));
    assert_eq!(backend.scs().enabled_exceptions(), &[ExceptionType::ExternalInterrupt(17)]);
    // interrupt 1 is bit 1 of ISER0
    assert_eq!(backend.scs().words()[0x40], 1 << 1);
    assert_eq!(backend.handle_event(Event::Peripheral(PeripheralEvent::FireInterrupt { int_num: 0 })), Ok(()));
    assert_eq!(backend.scs().pending_exceptions(), &[ExceptionType::ExternalInterrupt(16)]);
    assert_eq!(backend.scs().words()[0x80], 1);
    assert_eq!(backend.handle_event(Event::Peripheral(PeripheralEvent::DisableInterrupt { int_num: 1 })), Ok(()));
    assert!(backend.scs().enabled_exceptions().is_empty());
    assert_eq!(backend.handle_event(Event::SetProcessorStatus(Status::Halted)), Ok(()));
    assert_eq!(backend.status(), Status::Halted);
    assert_eq!(backend.handle_event(Event::ExceptionSetPriority(ExceptionType::SysTick, 0x20)), Ok(()));
    assert_eq!(backend.scs().get_exception_priority(ExceptionType::SysTick), (0x20, 0));
}

#[test]
fn wakeup_events() {
    let mut backend = entry_backend();
    assert!(backend.is_wfe_wakeup_evt(&Event::SEVInstructionExecuted));
    assert!(backend.is_wfe_wakeup_evt(&Event::ExceptionSetPending(ExceptionType::SysTick, true)));
    assert!(!backend.is_wfe_wakeup_evt(&Event::Debug(DebugEvent::Unspecified)));
    assert!(!backend.is_wfe_wakeup_evt(&Event::SetDeepSleep(true)));
    assert!(backend.is_wfi_wakeup_evt(&Event::LocalSysResetRequest));
    backend.exception_entry(ExceptionType::SVCall, Some(2)).unwrap();
    // SVCall at priority 0 is active: SysTick at priority 0 does not preempt
    assert!(!backend.is_wfe_wakeup_evt(&Event::ExceptionSetPending(ExceptionType::SysTick, true)));
    assert!(!backend.is_wfi_wakeup_evt(&Event::ExceptionSetPending(ExceptionType::SysTick, true)));
    assert!(backend.is_wfi_wakeup_evt(&Event::ExceptionSetActive(ExceptionType::NMI, true)));
}

#[test]
fn exception_entry_realigns_and_return_restores_stack() {
    let mut backend = entry_backend();
    // CCR.STKALIGN (bit 9): frames are 8-byte aligned
    backend.store_bytes(0xe000_ed14, &0x200u32.to_le_bytes()).unwrap();
    assert_eq!(backend.scs().get_ccr().0, 0x200);
    backend.write_sp(0x7fc);
    let switch = backend.exception_entry(ExceptionType::SVCall, Some(2)).unwrap();
    assert_eq!(switch.new_frame_address, 0x7d8);
    assert_eq!(backend.read_sp(), 0x7d8);
    // bit 9 of the stacked xPSR records the realignment
    let mut word = [0u8; 4];
    backend.load_bytes(0x7d8 + 0x1c, &mut word).unwrap();
    assert_eq!(u32::from_le_bytes(word), 1 << 9);
    // the handler clobbers r0 and r12
    backend.write_reg(0, 7);
    backend.write_reg(12, 8);
    let switch = backend.exception_return(EXC_RETURN(0xffff_fff9)).unwrap();
    assert_eq!(switch.target_address, 0x102);
    assert_eq!(backend.read_sp(), 0x7fc);
    assert_eq!(backend.read_reg(0), 0x1234);
    assert_eq!(backend.read_reg(12), 0xabcd);
    assert_eq!(backend.read_reg(14), 0x55);
}

/// Stores the first instruction bytes of the test program at 0 and a word
/// at 0x100, writes r0, and reads them all back.
fn requests_round_trip() {
    let mut backend = Backend::new_with(None);
    backend.map_mem(0x0, 0x1000).unwrap();

    // load/store program bytes
    backend.store_bytes(0x0, &[0x00, 0xf0, 0x01, 0xf8]).unwrap();
    let mut bytes = [0u8; 4];
    backend.load_bytes(0x0, &mut bytes).unwrap();
    assert_eq!(bytes, [0x00, 0xf0, 0x01, 0xf8], "read incorrect byte sequence: {bytes:#x?}");

    // load/store a 32-bit value, little-endian
    let val = 0xdeadbeefu32;
    backend.store_bytes(0x100, &val.to_le_bytes()).unwrap();
    let mut word = [0u8; 4];
    backend.load_bytes(0x100, &mut word).unwrap();
    assert_eq!(u32::from_le_bytes(word), val, "read incorrect value: {word:#x?}");

    // write/read r0
    backend.write_reg(0, val);
    assert_eq!(backend.read_reg(0), val);
}

#[test]
fn tests_test_requests() {
    requests_round_trip();
}

#[test]
fn tests_test_read_write() {
    requests_round_trip();
}

#[test]
fn mod_test_read_write() {
    requests_round_trip();
}

#[test]
fn mod_test_requests() {
    requests_round_trip();
}

#[test]
fn priority_bytes_read_back() {
    let mut backend = Backend::new_with(None);
    // the upper halfword of IPR0: interrupts 2 and 3
    backend.store_bytes(0xe000_e402, &[0x40, 0x80]).unwrap();
    let mut dst = [0u8; 2];
    backend.load_bytes(0xe000_e402, &mut dst).unwrap();
    assert_eq!(dst, [0x40, 0x80]);
    // one priority event per byte, for exceptions 18 and 19
    assert_eq!(backend.events().len(), 2);
    assert_eq!(backend.events()[0], Event::ExceptionSetPriority(ExceptionType::ExternalInterrupt(18), 0x40));
    assert_eq!(backend.events()[1], Event::ExceptionSetPriority(ExceptionType::ExternalInterrupt(19), 0x80));
}

#[test]
fn scs_errors_are_arch_errors() {
    let mut backend = Backend::new_with(None);
    // VTOR takes word accesses only
    let mut half = [0u8; 2];
    assert_eq!(
        backend.load_bytes(0xe000_ed08, &mut half),
        Err(BackendError::Arch(Error::AlignmentViolation(0xe000_ed08, 2, Alignment::Word)))
    );
    // STIR is write-only
    let mut word = [0u8; 4];
    assert_eq!(
        backend.load_bytes(0xe000_ef00, &mut word),
        Err(BackendError::Arch(Error::WriteAccessViolation(0xe000_ef00)))
    );
}

#[test]
fn map_conflict_reports_lowest_region() {
    let mut mmap = MemoryMap::default();
    assert_eq!(mmap.map_mem(0x200, 0x100), Ok(()));
    assert_eq!(mmap.map_mem(0x0, 0x100), Ok(()));
    assert_eq!(
        mmap.map_mem(0x80, 0x200),
        Err(BackendError::MapConflict((0x80, 0x280), (0x0, 0x100)))
    );
}

#[test]
fn interrupt_enable_write_events() {
    let mut backend = Backend::new_with(None);
    // ISER0 bits 1 and 2: interrupts 1 and 2, exceptions 17 and 18
    backend.store_bytes(0xe000_e100, &[0x06, 0, 0, 0]).unwrap();
    assert_eq!(backend.events().len(), 2);
    assert_eq!(backend.events()[0], Event::ExceptionEnabled(ExceptionType::ExternalInterrupt(17), true));
    assert_eq!(backend.events()[1], Event::ExceptionEnabled(ExceptionType::ExternalInterrupt(18), true));
    // bits already set raise nothing
    backend.store_bytes(0xe000_e100, &[0x06, 0, 0, 0]).unwrap();
    assert_eq!(backend.events().len(), 2);
    // handling the events enables the interrupts
    let events: Vec<Event> = backend.events().iter().cloned().collect();
    for e in events {
        backend.handle_event(e).unwrap();
    }
    assert_eq!(
        backend.scs().enabled_exceptions(),
        &[ExceptionType::ExternalInterrupt(17), ExceptionType::ExternalInterrupt(18)]
    );
}

#[test]
fn fire_interrupt_sets_its_pending_bit() {
    let mut backend = Backend::new_with(None);
    assert_eq!(backend.handle_event(Event::Peripheral(PeripheralEvent::FireInterrupt { int_num: 3 })), Ok(()));
    assert_eq!(backend.scs().pending_exceptions(), &[ExceptionType::ExternalInterrupt(19)]);
    assert_eq!(backend.scs().get_icsr().vectpending(), 19);
    assert!(backend.scs().get_icsr().isrpending());
    assert_eq!(backend.scs().nvic_regs().get_ispr(0).setpend(), 1 << 3);
    assert_eq!(backend.scs().nvic_regs().get_icpr(0).clrpend(), 1 << 3);
}

#[test]
fn current_priority_of_fixed_priority_handlers() {
    let mut backend = Backend::new_with(None);
    assert_eq!(backend.current_priority(), 256);
    // NMI runs at its fixed priority -2
    assert_eq!(backend.handle_event(Event::ExceptionSetActive(ExceptionType::NMI, true)), Ok(()));
    assert_eq!(backend.current_priority(), -2);
    // HardFault below it does not lower it
    assert_eq!(backend.handle_event(Event::ExceptionSetActive(ExceptionType::HardFault, true)), Ok(()));
    assert_eq!(backend.current_priority(), -2);
    assert_eq!(backend.handle_event(Event::ExceptionSetActive(ExceptionType::NMI, false)), Ok(()));
    assert_eq!(backend.current_priority(), -1);
}

#[test]
fn current_priority_of_an_interrupt() {
    let mut backend = Backend::new_with(None);
    // interrupt 4 at priority 0x45, grouped under PRIGROUP 0 (subgroup bit 0)
    backend.store_bytes(0xe000_e404, &[0x45]).unwrap();
    assert_eq!(backend.handle_event(Event::ExceptionSetPriority(ExceptionType::ExternalInterrupt(20), 0x45)), Ok(()));
    assert_eq!(backend.handle_event(Event::ExceptionEnabled(ExceptionType::ExternalInterrupt(20), true)), Ok(()));
    assert_eq!(backend.handle_event(Event::ExceptionSetActive(ExceptionType::ExternalInterrupt(20), true)), Ok(()));
    assert_eq!(backend.current_priority(), 0x44);
}

#[test]
fn exception_return_to_process_stack() {
    let mut backend = entry_backend();
    // a frame on the process stack: r0, r1, r2, r3, r12, lr, return
    // address, xPSR (Thumb, no exception)
    backend.set_proc_sp(0x600);
    let frame: [u32; 8] = [0x11, 0, 0, 0, 0, 0x77, 0x140, 1 << 24];
    for (i, w) in frame.iter().enumerate() {
        backend.store_bytes(0x600 + 4 * i as u64, &w.to_le_bytes()).unwrap();
    }
    backend.exception_entry(ExceptionType::SVCall, Some(2)).unwrap();
    assert_eq!(backend.read_sp(), 0x7e0);

    // return to thread mode on the process stack
    let switch = backend.exception_return(EXC_RETURN(0xffff_fffd)).unwrap();
    assert_eq!(switch.old_frame_address, 0x600);
    assert_eq!(switch.new_frame_address, 0x620);
    assert_eq!(switch.target_address, 0x140);
    assert_eq!(backend.mode(), Mode::Thread);
    assert!(!backend.is_sp_main());
    assert_eq!(backend.read_pc(), 0x140);
    assert_eq!(backend.read_sp(), 0x620);
    assert_eq!(backend.get_proc_sp(), 0x620);
    // the main stack keeps the frame of the entry, which was not popped
    assert_eq!(backend.get_main_sp(), 0x7e0);
    assert_eq!(backend.read_reg(0), 0x11);
    assert_eq!(backend.read_reg(14), 0x77);
    assert!(backend.scs().active_exceptions().is_empty());

    // an entry from the process stack pushes its frame there and selects
    // the main stack
    let switch = backend.exception_entry(ExceptionType::SVCall, Some(2)).unwrap();
    assert_eq!(switch.old_frame_address, 0x620);
    assert_eq!(switch.new_frame_address, 0x600);
    assert_eq!(switch.return_address, Some(0x142));
    assert!(backend.is_sp_main());
    assert_eq!(backend.read_sp(), 0x7e0);
    assert_eq!(backend.get_proc_sp(), 0x600);
    assert_eq!(backend.read_reg(14), 0xffff_fffd);

    // and the return through lr restores both stacks
    let lr = backend.read_reg(14);
    let switch = backend.exception_return(EXC_RETURN(lr)).unwrap();
    assert_eq!(switch.target_address, 0x142);
    assert!(!backend.is_sp_main());
    assert_eq!(backend.read_sp(), 0x620);
    assert_eq!(backend.get_main_sp(), 0x7e0);
    assert_eq!(backend.read_reg(0), 0x11);
    assert_eq!(backend.read_reg(14), 0x77);
}
