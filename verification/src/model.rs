//! The mathematical model of a CHIP-8 machine and the meaning of each
//! instruction over it.
use vstd::prelude::*;

verus! {

/// Bytes of addressable memory.
pub const MEMORY_SIZE: usize = 4096;

/// Pixels of the monochrome screen (64 columns by 32 rows).
pub const SCREEN_SIZE: usize = 2048;

/// Address at which programs are loaded and execution starts.
pub const PROGRAM_START: u16 = 0x200;

/// Address of the first byte of the built-in hexadecimal font.
pub const FONT_START: usize = 0x50;

/// The abstract state of the machine: what every contract speaks of.
#[verifier::ext_equal]
pub struct CpuView {
    pub memory: Seq<u8>,
    pub display: Seq<bool>,
    pub pc: u16,
    pub i: u16,
    pub stack: Seq<u16>,
    pub sp: u8,
    pub delay_timer: u8,
    pub sound_timer: u8,
    pub v: Seq<u8>,
    pub keyboard: Seq<bool>,
    pub draw_flag: bool,
}

/// The sizes of a machine's memory, screen, stack, registers and keypad.
pub open spec fn has_machine_shape(s: CpuView) -> bool {
    &&& s.memory.len() == 4096
    &&& s.display.len() == 2048
    &&& s.stack.len() == 16
    &&& s.v.len() == 16
    &&& s.keyboard.len() == 16
}

/// The sixteen 5-byte glyphs of the digits 0 to F.
pub open spec fn font() -> Seq<u8> {
    seq![
        0xF0u8, 0x90, 0x90, 0x90, 0xF0,
        0x20, 0x60, 0x20, 0x20, 0x70,
        0xF0, 0x10, 0xF0, 0x80, 0xF0,
        0xF0, 0x10, 0xF0, 0x10, 0xF0,
        0x90, 0x90, 0xF0, 0x10, 0x10,
        0xF0, 0x80, 0xF0, 0x10, 0xF0,
        0xF0, 0x80, 0xF0, 0x90, 0xF0,
        0xF0, 0x10, 0x20, 0x40, 0x40,
        0xF0, 0x90, 0xF0, 0x90, 0xF0,
        0xF0, 0x90, 0xF0, 0x10, 0xF0,
        0xF0, 0x90, 0xF0, 0x90, 0x90,
        0xE0, 0x90, 0xE0, 0x90, 0xE0,
        0xF0, 0x80, 0x80, 0x80, 0xF0,
        0xE0, 0x90, 0x90, 0x90, 0xE0,
        0xF0, 0x80, 0xF0, 0x80, 0xF0,
        0xF0, 0x80, 0xF0, 0x80, 0x80,
    ]
}

/// `mem` with the font written at `FONT_START`.
pub open spec fn with_font(mem: Seq<u8>) -> Seq<u8> {
    Seq::new(
        mem.len(),
        |a: int|
            if FONT_START <= a < FONT_START + 80 {
                font()[a - FONT_START]
            } else {
                mem[a]
            },
    )
}

/// `mem` with `rom` written at `PROGRAM_START`.
pub open spec fn load_program(mem: Seq<u8>, rom: Seq<u8>) -> Seq<u8> {
    Seq::new(
        mem.len(),
        |a: int|
            if PROGRAM_START <= a < PROGRAM_START + rom.len() {
                rom[a - PROGRAM_START]
            } else {
                mem[a]
            },
    )
}

/// Each timer one lower, stopping at zero.
pub open spec fn tick_timers_spec(s: CpuView) -> CpuView {
    CpuView {
        delay_timer: if s.delay_timer > 0 { (s.delay_timer - 1) as u8 } else { 0 },
        sound_timer: if s.sound_timer > 0 { (s.sound_timer - 1) as u8 } else { 0 },
        ..s
    }
}

/// The state of a freshly built machine.
pub open spec fn initial_state() -> CpuView {
    CpuView {
        memory: with_font(Seq::new(4096, |a: int| 0u8)),
        display: Seq::new(2048, |k: int| false),
        pc: PROGRAM_START,
        i: 0,
        stack: Seq::new(16, |k: int| 0u16),
        sp: 0,
        delay_timer: 0,
        sound_timer: 0,
        v: Seq::new(16, |k: int| 0u8),
        keyboard: Seq::new(16, |k: int| false),
        draw_flag: false,
    }
}


/// A decoded instruction. Register operands are indices `0..16`; each variant
/// names the opcode pattern it comes from.
#[derive(Clone, Copy, Debug, PartialEq, Eq, Structural)]
pub enum Instruction {
    /// `00E0`: clear the screen.
    ClearScreen,
    /// `00EE`: return from a subroutine.
    Return,
    /// `1NNN`: jump to `NNN`.
    Jump(u16),
    /// `2NNN`: call the subroutine at `NNN`.
    Call(u16),
    /// `3XNN`: skip the next instruction if `VX == NN`.
    SkipIfEqual(usize, u8),
    /// `4XNN`: skip the next instruction if `VX != NN`.
    SkipIfNotEqual(usize, u8),
    /// `5XY0`: skip the next instruction if `VX == VY`.
    SkipIfRegistersEqual(usize, usize),
    /// `6XNN`: `VX = NN`.
    SetRegister(usize, u8),
    /// `7XNN`: `VX = VX + NN`, wrapping, flag untouched.
    AddImmediate(usize, u8),
    /// `8XY0`: `VX = VY`.
    Copy(usize, usize),
    /// `8XY1`: `VX = VX | VY`.
    Or(usize, usize),
    /// `8XY2`: `VX = VX & VY`.
    And(usize, usize),
    /// `8XY3`: `VX = VX ^ VY`.
    Xor(usize, usize),
    /// `8XY4`: `VX = VX + VY`, then `VF` = carry.
    AddRegisters(usize, usize),
    /// `8XY5`: `VX = VX - VY`, then `VF` = not borrow.
    Subtract(usize, usize),
    /// `8XY6`: `VF` = low bit of `VX`, then `VX >>= 1`.
    ShiftRight(usize, usize),
    /// `8XY7`: `VX = VY - VX`, then `VF` = not borrow.
    SubtractReversed(usize, usize),
    /// `8XYE`: `VF` = high bit of `VX`, then `VX <<= 1`.
    ShiftLeft(usize, usize),
    /// `9XY0`: skip the next instruction if `VX != VY`.
    SkipIfRegistersDiffer(usize, usize),
    /// `ANNN`: `I = NNN`.
    SetIndex(u16),
    /// `BNNN`: jump to `NNN + V0`.
    JumpOffset(u16),
    /// `CXNN`: `VX` = a random byte masked by `NN`.
    Random(usize, u8),
    /// `DXYN`: draw the `N`-row sprite at `I` at `(VX, VY)`.
    Draw(usize, usize, u8),
    /// `EX9E`: skip the next instruction if the key in `VX` is down.
    SkipIfKey(usize),
    /// `EXA1`: skip the next instruction if the key in `VX` is up.
    SkipIfNotKey(usize),
    /// `FX07`: `VX` = delay timer.
    ReadDelay(usize),
    /// `FX0A`: wait for a key and store it in `VX`.
    WaitKey(usize),
    /// `FX15`: delay timer = `VX`.
    SetDelay(usize),
    /// `FX18`: sound timer = `VX`.
    SetSound(usize),
    /// `FX1E`: `I = I + VX`.
    AddIndex(usize),
    /// `FX29`: `I` = address of the font glyph of the digit in `VX`
    /// (`FONT_START + VX * 5`).
    FontChar(usize),
    /// `FX33`: store the decimal digits of `VX` at `I`, `I + 1`, `I + 2`.
    StoreBcd(usize),
    /// `FX55`: store `V0..=VX` at `I..`.
    StoreRegisters(usize),
    /// `FX65`: load `V0..=VX` from `I..`.
    LoadRegisters(usize),
    /// Any other opcode; it changes nothing.
    Unknown(u16),
}

/// The instruction that an opcode encodes, by its four hexadecimal digits.
pub open spec fn decode_spec(op: u16) -> Instruction {
    let k = op / 0x1000;
    let x = ((op / 0x100) % 0x10) as usize;
    let y = ((op / 0x10) % 0x10) as usize;
    let n = op % 0x10;
    let nn = (op % 0x100) as u8;
    let nnn = op % 0x1000;
    if op == 0x00E0 {
        Instruction::ClearScreen
    } else if op == 0x00EE {
        Instruction::Return
    } else if k == 0x1 {
        Instruction::Jump(nnn)
    } else if k == 0x2 {
        Instruction::Call(nnn)
    } else if k == 0x3 {
        Instruction::SkipIfEqual(x, nn)
    } else if k == 0x4 {
        Instruction::SkipIfNotEqual(x, nn)
    } else if k == 0x5 && n == 0x0 {
        Instruction::SkipIfRegistersEqual(x, y)
    } else if k == 0x6 {
        Instruction::SetRegister(x, nn)
    } else if k == 0x7 {
        Instruction::AddImmediate(x, nn)
    } else if k == 0x8 && n == 0x0 {
        Instruction::Copy(x, y)
    } else if k == 0x8 && n == 0x1 {
        Instruction::Or(x, y)
    } else if k == 0x8 && n == 0x2 {
        Instruction::And(x, y)
    } else if k == 0x8 && n == 0x3 {
        Instruction::Xor(x, y)
    } else if k == 0x8 && n == 0x4 {
        Instruction::AddRegisters(x, y)
    } else if k == 0x8 && n == 0x5 {
        Instruction::Subtract(x, y)
    } else if k == 0x8 && n == 0x6 {
        Instruction::ShiftRight(x, y)
    } else if k == 0x8 && n == 0x7 {
        Instruction::SubtractReversed(x, y)
    } else if k == 0x8 && n == 0xE {
        Instruction::ShiftLeft(x, y)
    } else if k == 0x9 && n == 0x0 {
        Instruction::SkipIfRegistersDiffer(x, y)
    } else if k == 0xA {
        Instruction::SetIndex(nnn)
    } else if k == 0xB {
        Instruction::JumpOffset(nnn)
    } else if k == 0xD {
        Instruction::Draw(x, y, n as u8)
    } else if k == 0xE && nn == 0x9E {
        Instruction::SkipIfKey(x)
    } else if k == 0xE && nn == 0xA1 {
        Instruction::SkipIfNotKey(x)
    } else if k == 0xF && nn == 0x07 {
        Instruction::ReadDelay(x)
    } else if k == 0xF && nn == 0x0A {
        Instruction::WaitKey(x)
    } else if k == 0xF && nn == 0x15 {
        Instruction::SetDelay(x)
    } else if k == 0xF && nn == 0x18 {
        Instruction::SetSound(x)
    } else if k == 0xF && nn == 0x1E {
        Instruction::AddIndex(x)
    } else if k == 0xF && nn == 0x29 {
        Instruction::FontChar(x)
    } else if k == 0xF && nn == 0x33 {
        Instruction::StoreBcd(x)
    } else if k == 0xF && nn == 0x55 {
        Instruction::StoreRegisters(x)
    } else if k == 0xF && nn == 0x65 {
        Instruction::LoadRegisters(x)
    } else if k == 0xC {
        Instruction::Random(x, nn)
    } else {
        Instruction::Unknown(op)
    }
}

/// `s` with the program counter moved past the next instruction when `cond` holds.
pub open spec fn skip_if(s: CpuView, cond: bool) -> CpuView {
    if cond {
        CpuView { pc: (s.pc + 2) as u16, ..s }
    } else {
        s
    }
}

/// `s` with register `x` set to `val`.
pub open spec fn set_register(s: CpuView, x: int, val: u8) -> CpuView {
    CpuView { v: s.v.update(x, val), ..s }
}

/// The lowest key index at or above `from` that is held down, or 16 if none is.
pub open spec fn first_pressed(keyboard: Seq<bool>, from: int) -> int
    decreases 16 - from,
{
    if from >= 16 {
        16
    } else if keyboard[from] {
        from
    } else {
        first_pressed(keyboard, from + 1)
    }
}

/// Whether bit `7 - col` of a sprite row is set: column 0 is the high bit.
pub open spec fn sprite_pixel(byte: u8, col: int) -> bool {
    (byte >> ((7 - col) as u8)) & 1u8 == 1u8
}

/// The sprite column that lands on screen index `idx` when drawing at `VX`.
pub open spec fn sprite_column(s: CpuView, x: int, idx: int) -> int {
    (idx % 64 - s.v[x] as int % 64) % 64
}

/// The sprite row that lands on screen index `idx` when drawing at `VY`.
pub open spec fn sprite_row(s: CpuView, y: int, idx: int) -> int {
    (idx / 64 - s.v[y] as int % 32) % 32
}

/// The screen index on which sprite pixel `(row, col)` lands: the sprite's
/// origin is `(VX mod 64, VY mod 32)` and it wraps round both edges.
pub open spec fn sprite_target(s: CpuView, x: int, y: int, row: int, col: int) -> int {
    ((s.v[y] as int % 32 + row) % 32) * 64 + (s.v[x] as int % 64 + col) % 64
}

/// Whether drawing the `n`-row sprite at `I` flips screen index `idx`.
pub open spec fn sprite_covers(s: CpuView, x: int, y: int, n: int, idx: int) -> bool {
    let col = sprite_column(s, x, idx);
    let row = sprite_row(s, y, idx);
    &&& col < 8
    &&& row < n
    &&& sprite_pixel(s.memory[s.i as int + row], col)
}

/// `DXYN`: every covered pixel is flipped, `VF` tells whether any lit pixel
/// was turned off, and the screen is marked for redrawing.
pub open spec fn draw(s: CpuView, x: int, y: int, n: int) -> CpuView {
    let collided = exists|idx: int|
        0 <= idx < 2048 && #[trigger] sprite_covers(s, x, y, n, idx) && s.display[idx];
    CpuView {
        display: Seq::new(2048, |idx: int| s.display[idx] != sprite_covers(s, x, y, n, idx)),
        v: s.v.update(15, if collided { 1u8 } else { 0u8 }),
        draw_flag: true,
        ..s
    }
}

/// The state after running `ins`, with `random` as the byte that `CXNN` draws.
pub open spec fn execute_spec(s: CpuView, ins: Instruction, random: u8) -> CpuView {
    match ins {
        Instruction::ClearScreen => CpuView {
            display: Seq::new(2048, |k: int| false),
            draw_flag: true,
            ..s
        },
        Instruction::Return => CpuView { sp: (s.sp - 1) as u8, pc: s.stack[s.sp - 1], ..s },
        Instruction::Jump(a) => CpuView { pc: a, ..s },
        Instruction::Call(a) => CpuView {
            stack: s.stack.update(s.sp as int, s.pc),
            sp: (s.sp + 1) as u8,
            pc: a,
            ..s
        },
        Instruction::SkipIfEqual(x, nn) => skip_if(s, s.v[x as int] == nn),
        Instruction::SkipIfNotEqual(x, nn) => skip_if(s, s.v[x as int] != nn),
        Instruction::SkipIfRegistersEqual(x, y) => skip_if(s, s.v[x as int] == s.v[y as int]),
        Instruction::SetRegister(x, nn) => set_register(s, x as int, nn),
        Instruction::AddImmediate(x, nn) => set_register(
            s,
            x as int,
            ((s.v[x as int] + nn) % 256) as u8,
        ),
        Instruction::Copy(x, y) => set_register(s, x as int, s.v[y as int]),
        Instruction::Or(x, y) => set_register(s, x as int, s.v[x as int] | s.v[y as int]),
        Instruction::And(x, y) => set_register(s, x as int, s.v[x as int] & s.v[y as int]),
        Instruction::Xor(x, y) => set_register(s, x as int, s.v[x as int] ^ s.v[y as int]),
        Instruction::AddRegisters(x, y) => {
            let sum = s.v[x as int] + s.v[y as int];
            CpuView {
                v: s.v.update(x as int, (sum % 256) as u8).update(
                    15,
                    if sum > 255 { 1u8 } else { 0u8 },
                ),
                ..s
            }
        },
        Instruction::Subtract(x, y) => {
            let (a, b) = (s.v[x as int], s.v[y as int]);
            CpuView {
                v: s.v.update(x as int, ((a - b) % 256) as u8).update(
                    15,
                    if a >= b { 1u8 } else { 0u8 },
                ),
                ..s
            }
        },
        Instruction::ShiftRight(x, _y) => {
            let flagged = s.v.update(15, s.v[x as int] % 2);
            CpuView { v: flagged.update(x as int, flagged[x as int] / 2), ..s }
        },
        Instruction::SubtractReversed(x, y) => {
            let (a, b) = (s.v[x as int], s.v[y as int]);
            CpuView {
                v: s.v.update(x as int, ((b - a) % 256) as u8).update(
                    15,
                    if b >= a { 1u8 } else { 0u8 },
                ),
                ..s
            }
        },
        Instruction::ShiftLeft(x, _y) => {
            let flagged = s.v.update(15, s.v[x as int] / 128);
            CpuView { v: flagged.update(x as int, ((flagged[x as int] * 2) % 256) as u8), ..s }
        },
        Instruction::SkipIfRegistersDiffer(x, y) => skip_if(s, s.v[x as int] != s.v[y as int]),
        Instruction::SetIndex(a) => CpuView { i: a, ..s },
        Instruction::JumpOffset(a) => CpuView { pc: (a + s.v[0]) as u16, ..s },
        Instruction::Random(x, nn) => set_register(s, x as int, random & nn),
        Instruction::Draw(x, y, n) => draw(s, x as int, y as int, n as int),
        Instruction::SkipIfKey(x) => skip_if(s, s.keyboard[s.v[x as int] as int]),
        Instruction::SkipIfNotKey(x) => skip_if(s, !s.keyboard[s.v[x as int] as int]),
        Instruction::ReadDelay(x) => set_register(s, x as int, s.delay_timer),
        Instruction::WaitKey(x) => {
            let k = first_pressed(s.keyboard, 0);
            if k < 16 {
                set_register(s, x as int, k as u8)
            } else {
                CpuView { pc: (s.pc - 2) as u16, ..s }
            }
        },
        Instruction::SetDelay(x) => CpuView { delay_timer: s.v[x as int], ..s },
        Instruction::SetSound(x) => CpuView { sound_timer: s.v[x as int], ..s },
        Instruction::AddIndex(x) => CpuView { i: (s.i + s.v[x as int]) as u16, ..s },
        Instruction::FontChar(x) => CpuView { i: (FONT_START + s.v[x as int] * 5) as u16, ..s },
        Instruction::StoreBcd(x) => {
            let val = s.v[x as int];
            let at = s.i as int;
            CpuView {
                memory: s.memory.update(at, val / 100).update(at + 1, (val / 10) % 10).update(
                    at + 2,
                    val % 10,
                ),
                ..s
            }
        },
        Instruction::StoreRegisters(x) => CpuView {
            memory: Seq::new(
                s.memory.len(),
                |a: int|
                    if s.i <= a <= s.i + x {
                        s.v[a - s.i]
                    } else {
                        s.memory[a]
                    },
            ),
            ..s
        },
        Instruction::LoadRegisters(x) => CpuView {
            v: Seq::new(
                s.v.len(),
                |k: int|
                    if k <= x {
                        s.memory[s.i + k]
                    } else {
                        s.v[k]
                    },
            ),
            ..s
        },
        Instruction::Unknown(_) => s,
    }
}

/// The inputs on which running `ins` is defined: no stack underflow or
/// overflow, no out-of-range memory or keypad access, and no overflow of the
/// program counter or index register.
pub open spec fn can_execute(s: CpuView, ins: Instruction) -> bool {
    match ins {
        Instruction::Return => 1 <= s.sp <= 16,
        Instruction::Call(_) => s.sp < 16,
        Instruction::SkipIfEqual(x, nn) => s.v[x as int] == nn ==> s.pc <= 0xFFFD,
        Instruction::SkipIfNotEqual(x, nn) => s.v[x as int] != nn ==> s.pc <= 0xFFFD,
        Instruction::SkipIfRegistersEqual(x, y) => s.v[x as int] == s.v[y as int] ==> s.pc <= 0xFFFD,
        Instruction::SkipIfRegistersDiffer(x, y) => s.v[x as int] != s.v[y as int] ==> s.pc <= 0xFFFD,
        Instruction::Draw(_x, _y, n) => n > 0 ==> s.i + n <= 4096,
        Instruction::SkipIfKey(x) => s.v[x as int] < 16 && (s.keyboard[s.v[x as int] as int] ==> s.pc <= 0xFFFD),
        Instruction::SkipIfNotKey(x) => s.v[x as int] < 16 && (!s.keyboard[s.v[x as int] as int] ==> s.pc <= 0xFFFD),
        Instruction::WaitKey(_x) => first_pressed(s.keyboard, 0) >= 16 ==> s.pc >= 2,
        Instruction::AddIndex(x) => s.i + s.v[x as int] <= 0xFFFF,
        Instruction::StoreBcd(_x) => s.i + 2 < 4096,
        Instruction::StoreRegisters(x) => s.i + x < 4096,
        Instruction::LoadRegisters(x) => s.i + x < 4096,
        _ => true,
    }
}

/// Whether the operands of `ins` are in the ranges that decoding yields:
/// registers and sprite heights below 16, addresses below `0x1000`.
pub open spec fn operands_in_range(ins: Instruction) -> bool {
    match ins {
        Instruction::Jump(a) | Instruction::Call(a) | Instruction::SetIndex(a)
        | Instruction::JumpOffset(a) => a < 0x1000,
        Instruction::SkipIfEqual(x, _) | Instruction::SkipIfNotEqual(x, _)
        | Instruction::SetRegister(x, _) | Instruction::AddImmediate(x, _)
        | Instruction::Random(x, _) => x < 16,
        Instruction::SkipIfRegistersEqual(x, y) | Instruction::Copy(x, y) | Instruction::Or(x, y)
        | Instruction::And(x, y) | Instruction::Xor(x, y) | Instruction::AddRegisters(x, y)
        | Instruction::Subtract(x, y) | Instruction::ShiftRight(x, y)
        | Instruction::SubtractReversed(x, y) | Instruction::ShiftLeft(x, y)
        | Instruction::SkipIfRegistersDiffer(x, y) => x < 16 && y < 16,
        Instruction::Draw(x, y, n) => x < 16 && y < 16 && n < 16,
        Instruction::SkipIfKey(x) | Instruction::SkipIfNotKey(x) | Instruction::ReadDelay(x)
        | Instruction::WaitKey(x) | Instruction::SetDelay(x) | Instruction::SetSound(x)
        | Instruction::AddIndex(x) | Instruction::FontChar(x) | Instruction::StoreBcd(x)
        | Instruction::StoreRegisters(x) | Instruction::LoadRegisters(x) => x < 16,
        _ => true,
    }
}

/// The opcode stored big-endian at the program counter.
pub open spec fn opcode_at(s: CpuView) -> u16 {
    (s.memory[s.pc as int] * 256 + s.memory[s.pc + 1]) as u16
}

/// `s` with the program counter moved past the opcode it points at.
pub open spec fn after_fetch(s: CpuView) -> CpuView {
    CpuView { pc: (s.pc + 2) as u16, ..s }
}

/// The states in which one fetch-decode-execute cycle is defined.
pub open spec fn can_cycle(s: CpuView) -> bool {
    &&& s.pc + 1 < 4096
    &&& can_execute(after_fetch(s), decode_spec(opcode_at(s)))
}

/// Cycles run per displayed frame (the timers tick once per frame).
pub const FRAME_CYCLES: usize = 10;

/// The state after one cycle in which `CXNN` draws `random`.
#[verifier::opaque]
pub open spec fn cycle_spec(s: CpuView, random: u8) -> CpuView {
    execute_spec(after_fetch(s), decode_spec(opcode_at(s)), random)
}

/// The state after one cycle per byte of `randoms` (the byte that cycle's
/// `CXNN` would draw), or `None` if one of those cycles is undefined.
pub open spec fn run_cycles(s: CpuView, randoms: Seq<u8>) -> Option<CpuView>
    decreases randoms.len(),
{
    if randoms.len() == 0 {
        Some(s)
    } else if !can_cycle(s) {
        None
    } else {
        run_cycles(cycle_spec(s, randoms[0]), randoms.drop_first())
    }
}

/// The instructions that the defined ones of those cycles decode, in order.
pub open spec fn cycles_trace(s: CpuView, randoms: Seq<u8>) -> Seq<Instruction>
    decreases randoms.len(),
{
    if randoms.len() == 0 || !can_cycle(s) {
        Seq::empty()
    } else {
        seq![decode_spec(opcode_at(s))] + cycles_trace(cycle_spec(s, randoms[0]), randoms.drop_first())
    }
}

/// The end of a frame: the timers tick and the pending redraw is taken.
pub open spec fn end_frame(s: CpuView) -> CpuView {
    CpuView { draw_flag: false, ..tick_timers_spec(s) }
}

/// A choice of random bytes for the cycles of one frame.
pub open spec fn frame_randoms(randoms: Seq<u8>) -> bool {
    randoms.len() == FRAME_CYCLES
}

} // verus!
