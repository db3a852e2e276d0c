# libcme

A verified model of the ARMv7-M (Cortex-M3) processor state that an
emulator backend keeps: the core registers and special-purpose registers,
the banked stack pointers, the system control space with its exception
state, and the memory map, with exception entry and return as the
architecture reference manual describes them (B1.5).

Every function of the library carries a contract that Verus proves.

## Layout

- `src/bits.rs`: bit fields of 32-bit register words.
- `src/regs.rs`, `src/nvic.rs`, `src/systick.rs`, `src/mpu.rs`, `src/dcb.rs`:
  the registers of the system control space and their offsets.
- `src/scs.rs`, `src/scs/access.rs`: the system control space, its
  exception lists, and byte reads and writes with the events they raise.
- `src/exception.rs`, `src/faults.rs`, `src/events.rs`, `src/error.rs`:
  exception types and priorities, faults, events and errors.
- `src/system.rs`: CONTROL, PRIMASK, FAULTMASK, BASEPRI and xPSR.
- `src/mmap.rs`: the memory map, over an `iset` interval map.
- `src/backend.rs`: the processor state, exception entry and return,
  wake-up events and event handling.
- `app/`: copies of the error types that carry `std::error::Error`.
- `tests/`: tests of the library on concrete values.
