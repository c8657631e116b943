# gameboy

A Game Boy (LR35902) processor, memory bus and timer, verified with Verus.

- `src/mmu.rs`: the memory map (`Location`), its abstract state `MmuView` with `read`/`write`,
  the bus `Mmu`, and the laws of the bus (read after write, echo RAM, ignored ROM writes,
  the divider reset, the serial buffer, word round trips).
- `src/semantics.rs`: the abstract processor state `CpuView` and the meaning of every opcode:
  `execute`, `cycles_of`, the overflow-freedom condition `step_ok`, and `step_spec`.
- `src/cpu.rs`: the processor `Cpu`; `step` is proved to do what `step_spec` says, and
  `can_step` decides `step_ok`.
- `src/properties.rs`: laws spanning instructions (PUSH/POP, CALL/RET, INC/DEC, rotations,
  store/load through HL, ALU identities).
- `src/timer.rs`: the DIV/TIMA timer and its laws.
- `app/main.rs`: loads a ROM file and runs the processor.
