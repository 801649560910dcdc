# chip8

The core of a CHIP-8 interpreter, verified with Verus.

- `src/model.rs`: the abstract machine state (`CpuView`), the instruction set
  (`Instruction`, `decode_spec`) and the meaning of every instruction
  (`execute_spec`), with the states in which each one is defined (`can_execute`).
- `src/cpu.rs`: the executable machine (`CPU`): decoding, each opcode,
  fetch/execute cycles, frames of cycles, ROM loading and timers, each proved
  against the model.
- `src/display.rs`: colour themes, window title and RGBA frames of the screen.
- `src/keyboard.rs`: the keypad mapping of host keys.
- `src/laws.rs`: properties that span instructions (call/return, drawing twice
  and the collision it reports, font glyph addresses, paired skips, BCD digits,
  flag arithmetic, which instructions write the screen or memory).
- `app/`: the windowed program (winit and pixels) around the library.
