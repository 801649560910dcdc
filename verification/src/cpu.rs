//! The executable machine.
use vstd::prelude::*;
use crate::model::{
    CpuView, FONT_START, FRAME_CYCLES, Instruction, after_fetch, can_cycle, can_execute,
    cycle_spec, cycles_trace, decode_spec, end_frame, execute_spec, first_pressed, font,
    frame_randoms, initial_state, load_program, opcode_at, operands_in_range, run_cycles,
    sprite_column, sprite_covers, sprite_pixel, sprite_row, tick_timers_spec, with_font,
};

verus! {

/// A CHIP-8 machine: memory, screen, registers, call stack, timers and keypad.
pub struct CPU {
    pub memory: [u8; 4096],
    pub display: [bool; 2048],
    pub pc: u16,
    pub i: u16,
    pub stack: [u16; 16],
    pub sp: u8,
    pub delay_timer: u8,
    pub sound_timer: u8,
    pub v: [u8; 16],
    pub keyboard: [bool; 16],
    pub draw_flag: bool,
}

impl View for CPU {
    type V = CpuView;

    open spec fn view(&self) -> CpuView {
        CpuView {
            memory: self.memory@,
            display: self.display@,
            pc: self.pc,
            i: self.i,
            stack: self.stack@,
            sp: self.sp,
            delay_timer: self.delay_timer,
            sound_timer: self.sound_timer,
            v: self.v@,
            keyboard: self.keyboard@,
            draw_flag: self.draw_flag,
        }
    }
}

/// The fields of an opcode, as masks and shifts compute them, are its
/// hexadecimal digits.
proof fn lemma_opcode_fields(op: u16)
    by (bit_vector)
    ensures
        (op & 0xF000) >> 12 == op / 0x1000,
        (op & 0x0F00) >> 8 == (op / 0x100) % 0x10,
        (op & 0x00F0) >> 4 == (op / 0x10) % 0x10,
        op & 0x000F == op % 0x10,
        op & 0x00FF == op % 0x100,
        op & 0x0FFF == op % 0x1000,
        op / 0x1000 < 0x10,
        op == (op / 0x1000) * 0x1000 + ((op / 0x100) % 0x10) * 0x100 + ((op / 0x10) % 0x10) * 0x10
            + op % 0x10,
        op % 0x100 == ((op / 0x10) % 0x10) * 0x10 + op % 0x10,
        op % 0x1000 == ((op / 0x100) % 0x10) * 0x100 + op % 0x100,
{
}

/// Decodes an opcode by its four hexadecimal digits; the first pattern that
/// matches wins, and an opcode that no pattern matches is `Unknown`.
pub fn decode(opcode: u16) -> (ins: Instruction)
    ensures
        ins == decode_spec(opcode),
{
    let k = (opcode & 0xF000) >> 12;
    let x16 = (opcode & 0x0F00) >> 8;
    let y16 = (opcode & 0x00F0) >> 4;
    let n16 = opcode & 0x000F;
    let nn16 = opcode & 0x00FF;
    let nnn = opcode & 0x0FFF;
    proof {
        lemma_opcode_fields(opcode);
    }
    let x = x16 as usize;
    let y = y16 as usize;
    let n = n16 as u8;
    let nn = nn16 as u8;
    match (k, x16, y16, n16) {
        (0x0, 0x0, 0xE, 0x0) => Instruction::ClearScreen,
        (0x0, 0x0, 0xE, 0xE) => Instruction::Return,
        (0x1, _, _, _) => Instruction::Jump(nnn),
        (0x2, _, _, _) => Instruction::Call(nnn),
        (0x3, _, _, _) => Instruction::SkipIfEqual(x, nn),
        (0x4, _, _, _) => Instruction::SkipIfNotEqual(x, nn),
        (0x5, _, _, 0x0) => Instruction::SkipIfRegistersEqual(x, y),
        (0x6, _, _, _) => Instruction::SetRegister(x, nn),
        (0x7, _, _, _) => Instruction::AddImmediate(x, nn),
        (0x8, _, _, 0x0) => Instruction::Copy(x, y),
        (0x8, _, _, 0x1) => Instruction::Or(x, y),
        (0x8, _, _, 0x2) => Instruction::And(x, y),
        (0x8, _, _, 0x3) => Instruction::Xor(x, y),
        (0x8, _, _, 0x4) => Instruction::AddRegisters(x, y),
        (0x8, _, _, 0x5) => Instruction::Subtract(x, y),
        (0x8, _, _, 0x6) => Instruction::ShiftRight(x, y),
        (0x8, _, _, 0x7) => Instruction::SubtractReversed(x, y),
        (0x8, _, _, 0xE) => Instruction::ShiftLeft(x, y),
        (0x9, _, _, 0x0) => Instruction::SkipIfRegistersDiffer(x, y),
        (0xA, _, _, _) => Instruction::SetIndex(nnn),
        (0xB, _, _, _) => Instruction::JumpOffset(nnn),
        (0xD, _, _, _) => Instruction::Draw(x, y, n),
        (0xE, _, 0x9, 0xE) => Instruction::SkipIfKey(x),
        (0xE, _, 0xA, 0x1) => Instruction::SkipIfNotKey(x),
        (0xF, _, 0x0, 0x7) => Instruction::ReadDelay(x),
        (0xF, _, 0x0, 0xA) => Instruction::WaitKey(x),
        (0xF, _, 0x1, 0x5) => Instruction::SetDelay(x),
        (0xF, _, 0x1, 0x8) => Instruction::SetSound(x),
        (0xF, _, 0x1, 0xE) => Instruction::AddIndex(x),
        (0xF, _, 0x2, 0x9) => Instruction::FontChar(x),
        (0xF, _, 0x3, 0x3) => Instruction::StoreBcd(x),
        (0xF, _, 0x5, 0x5) => Instruction::StoreRegisters(x),
        (0xF, _, 0x6, 0x5) => Instruction::LoadRegisters(x),
        (0xC, _, _, _) => Instruction::Random(x, nn),
        _ => Instruction::Unknown(opcode),
    }
}

impl CPU {
    /// A machine with cleared memory and registers, the font loaded, and the
    /// program counter at `PROGRAM_START`.
    pub fn new() -> (cpu: Self)
        ensures
            cpu@ == initial_state(),
            cpu.pc == 0x200 && cpu.i == 0 && cpu.sp == 0 && !cpu.draw_flag,
            cpu.delay_timer == 0 && cpu.sound_timer == 0,
            forall|k: int| 0 <= k < 16 ==> cpu.v@[k] == 0 && cpu.stack@[k] == 0 && !cpu.keyboard@[k],
            forall|p: int| 0 <= p < 2048 ==> !cpu.display@[p],
            forall|a: int| 0 <= a < 4096 && !(0x50 <= a < 0xA0) ==> cpu.memory@[a] == 0,
    {
        let mut cpu = CPU {
            memory: [0u8; 4096],
            display: [false; 2048],
            pc: 0x200,
            i: 0,
            stack: [0u16; 16],
            sp: 0,
            delay_timer: 0,
            sound_timer: 0,
            v: [0u8; 16],
            keyboard: [false; 16],
            draw_flag: false,
        };
        cpu.load_fonts();
        cpu
    }

    /// Writes the font at `FONT_START`, leaving everything else as it was.
    fn load_fonts(&mut self)
        ensures
            final(self)@ == (CpuView { memory: with_font(old(self)@.memory), ..old(self)@ }),
    {
        let fonts: [u8; 80] = [
            0xF0, 0x90, 0x90, 0x90, 0xF0,
            0x20, 0x60, 0x20, 0x20, 0x70,
            0xF0, 0x10, 0xF0, 0x80, 0xF0,
            0xF0, 0x10, 0xF0, 0x10, 0xF0,
            0x90, 0x90, 0xF0, 0x10, 0x10,
            0xF0, 0x80, 0xF0, 0x10, 0xF0,
            0xF0, 0x80, 0xF0, 0x90, 0xF0,
            0xF0, 0x10, 0x20, 0x40, 0x40,
            0xF0, 0x90, 0xF0, 0x90, 0xF0,
            0xF0, 0x90, 0xF0, 0x10, 0xF0,
            0xF0, 0x90, 0xF0, 0x90, 0x90,
            0xE0, 0x90, 0xE0, 0x90, 0xE0,
            0xF0, 0x80, 0x80, 0x80, 0xF0,
            0xE0, 0x90, 0x90, 0x90, 0xE0,
            0xF0, 0x80, 0xF0, 0x80, 0xF0,
            0xF0, 0x80, 0xF0, 0x80, 0x80,
        ];
        assert(fonts@ == font());
        let ghost before = self.memory@;
        let ghost start = self@;
        let mut k: usize = 0;
        while k < 80
            invariant
                0 <= k <= 80,
                fonts@ == font(),
                before.len() == 4096,
                self@ == (CpuView { memory: self.memory@, ..start }),
                start.memory == before,
                forall|a: int|
                    0 <= a < 4096 ==> #[trigger] self.memory@[a] == (if FONT_START <= a < FONT_START + k {
                        font()[a - FONT_START]
                    } else {
                        before[a]
                    }),
            decreases 80 - k,
        {
            self.memory[0x50 + k] = fonts[k];
            k = k + 1;
        }
        assert(self.memory@ =~= with_font(before));
    }
}


/// Facts on bytes that the shift and mask forms of the arithmetic rely on.
proof fn lemma_byte_bits(b: u8)
    by (bit_vector)
    ensures
        b & 1 == b % 2,
        b >> 1u8 == b / 2,
        (b >> 7u8) & 1 == b / 128,
        b << 1u8 == ((b * 2) % 256) as u8,
{
}

impl CPU {
    /// `00E0`.
    pub fn op_00e0(&mut self)
        ensures
            final(self)@ == execute_spec(old(self)@, Instruction::ClearScreen, 0),
    {
        self.display = [false; 2048];
        self.draw_flag = true;
    }

    /// `00EE`.
    pub fn op_00ee(&mut self)
        requires
            can_execute(old(self)@, Instruction::Return),
        ensures
            final(self)@ == execute_spec(old(self)@, Instruction::Return, 0),
    {
        self.sp -= 1;
        self.pc = self.stack[self.sp as usize];
    }

    /// `1NNN`.
    pub fn op_1nnn(&mut self, nnn: u16)
        ensures
            final(self)@ == execute_spec(old(self)@, Instruction::Jump(nnn), 0),
    {
        self.pc = nnn;
    }

    /// `2NNN`.
    pub fn op_2nnn(&mut self, nnn: u16)
        requires
            can_execute(old(self)@, Instruction::Call(nnn)),
        ensures
            final(self)@ == execute_spec(old(self)@, Instruction::Call(nnn), 0),
    {
        self.stack[self.sp as usize] = self.pc;
        self.sp += 1;
        self.pc = nnn;
    }

    /// `3XNN`.
    pub fn op_3xnn(&mut self, x: usize, nn: u8)
        requires
            x < 16,
            can_execute(old(self)@, Instruction::SkipIfEqual(x, nn)),
        ensures
            final(self)@ == execute_spec(old(self)@, Instruction::SkipIfEqual(x, nn), 0),
            final(self).pc == if old(self).v[x as int] == nn {
                old(self).pc + 2
            } else {
                old(self).pc as int
            },
    {
        if self.v[x] == nn {
            self.pc += 2;
        }
    }

    /// `4XNN`.
    pub fn op_4xnn(&mut self, x: usize, nn: u8)
        requires
            x < 16,
            can_execute(old(self)@, Instruction::SkipIfNotEqual(x, nn)),
        ensures
            final(self)@ == execute_spec(old(self)@, Instruction::SkipIfNotEqual(x, nn), 0),
            final(self).pc == if old(self).v[x as int] != nn {
                old(self).pc + 2
            } else {
                old(self).pc as int
            },
    {
        if self.v[x] != nn {
            self.pc += 2
        }
    }

    /// `5XY0`.
    pub fn op_5xy0(&mut self, x: usize, y: usize)
        requires
            x < 16,
            y < 16,
            can_execute(old(self)@, Instruction::SkipIfRegistersEqual(x, y)),
        ensures
            final(self)@ == execute_spec(old(self)@, Instruction::SkipIfRegistersEqual(x, y), 0),
            final(self).pc == if old(self).v[x as int] == old(self).v[y as int] {
                old(self).pc + 2
            } else {
                old(self).pc as int
            },
    {
        if self.v[x] == self.v[y] {
            self.pc += 2
        }
    }

    /// `6XNN`.
    pub fn op_6xnn(&mut self, x: usize, nn: u8)
        requires
            x < 16,
        ensures
            final(self)@ == execute_spec(old(self)@, Instruction::SetRegister(x, nn), 0),
    {
        self.v[x] = nn;
    }

    /// `7XNN`.
    pub fn op_7xnn(&mut self, x: usize, nn: u8)
        requires
            x < 16,
        ensures
            final(self)@ == execute_spec(old(self)@, Instruction::AddImmediate(x, nn), 0),
    {
        self.v[x] = self.v[x].wrapping_add(nn)
    }

    /// `9XY0`.
    pub fn op_9xy0(&mut self, x: usize, y: usize)
        requires
            x < 16,
            y < 16,
            can_execute(old(self)@, Instruction::SkipIfRegistersDiffer(x, y)),
        ensures
            final(self)@ == execute_spec(old(self)@, Instruction::SkipIfRegistersDiffer(x, y), 0),
            final(self).pc == if old(self).v[x as int] != old(self).v[y as int] {
                old(self).pc + 2
            } else {
                old(self).pc as int
            },
    {
        if self.v[x] != self.v[y] {
            self.pc += 2;
        }
    }

    /// `ANNN`.
    pub fn op_annn(&mut self, nnn: u16)
        ensures
            final(self)@ == execute_spec(old(self)@, Instruction::SetIndex(nnn), 0),
    {
        self.i = nnn;
    }

    /// `BNNN`.
    pub fn op_bnnn(&mut self, nnn: u16)
        requires
            nnn < 0x1000,
        ensures
            final(self)@ == execute_spec(old(self)@, Instruction::JumpOffset(nnn), 0),
    {
        self.pc = nnn + self.v[0] as u16;
    }

    /// `8XY0`.
    pub fn op_8xy0(&mut self, x: usize, y: usize)
        requires
            x < 16,
            y < 16,
        ensures
            final(self)@ == execute_spec(old(self)@, Instruction::Copy(x, y), 0),
    {
        self.v[x] = self.v[y];
    }

    /// `8XY1`.
    pub fn op_8xy1(&mut self, x: usize, y: usize)
        requires
            x < 16,
            y < 16,
        ensures
            final(self)@ == execute_spec(old(self)@, Instruction::Or(x, y), 0),
    {
        self.v[x] = self.v[x] | self.v[y];
    }

    /// `8XY2`.
    pub fn op_8xy2(&mut self, x: usize, y: usize)
        requires
            x < 16,
            y < 16,
        ensures
            final(self)@ == execute_spec(old(self)@, Instruction::And(x, y), 0),
    {
        self.v[x] = self.v[x] & self.v[y];
    }

    /// `8XY3`.
    pub fn op_8xy3(&mut self, x: usize, y: usize)
        requires
            x < 16,
            y < 16,
        ensures
            final(self)@ == execute_spec(old(self)@, Instruction::Xor(x, y), 0),
    {
        self.v[x] = self.v[x] ^ self.v[y];
    }

    /// `8XY4`.
    pub fn op_8xy4(&mut self, x: usize, y: usize)
        requires
            x < 16,
            y < 16,
        ensures
            final(self)@ == execute_spec(old(self)@, Instruction::AddRegisters(x, y), 0),
    {
        let a = self.v[x];
        let b = self.v[y];
        let result = a.wrapping_add(b);
        let overflow = a > 255 - b;
        self.v[x] = result;
        self.v[0xF] = if overflow { 1 } else { 0 };
    }

    /// `8XY5`.
    pub fn op_8xy5(&mut self, x: usize, y: usize)
        requires
            x < 16,
            y < 16,
        ensures
            final(self)@ == execute_spec(old(self)@, Instruction::Subtract(x, y), 0),
    {
        let a = self.v[x];
        let b = self.v[y];
        let result = a.wrapping_sub(b);
        let borrow = a < b;
        self.v[x] = result;
        self.v[0xF] = if !borrow { 1 } else { 0 };
    }

    /// `8XY6`.
    pub fn op_8xy6(&mut self, x: usize, _y: usize)
        requires
            x < 16,
        ensures
            final(self)@ == execute_spec(old(self)@, Instruction::ShiftRight(x, _y), 0),
    {
        proof {
            lemma_byte_bits(self.v[x as int]);
        }
        self.v[0xF] = self.v[x] & 0x1;
        let shifted = self.v[x];
        proof {
            lemma_byte_bits(shifted);
        }
        self.v[x] = shifted >> 1u8;
    }

    /// `8XY7`.
    pub fn op_8xy7(&mut self, x: usize, y: usize)
        requires
            x < 16,
            y < 16,
        ensures
            final(self)@ == execute_spec(old(self)@, Instruction::SubtractReversed(x, y), 0),
    {
        let a = self.v[x];
        let b = self.v[y];
        let result = b.wrapping_sub(a);
        let borrow = b < a;
        self.v[x] = result;
        self.v[0xF] = if !borrow { 1 } else { 0 };
    }

    /// `8XYE`.
    pub fn op_8xye(&mut self, x: usize, _y: usize)
        requires
            x < 16,
        ensures
            final(self)@ == execute_spec(old(self)@, Instruction::ShiftLeft(x, _y), 0),
    {
        proof {
            lemma_byte_bits(self.v[x as int]);
        }
        self.v[0xF] = (self.v[x] >> 7u8) & 0x1;
        let shifted = self.v[x];
        proof {
            lemma_byte_bits(shifted);
        }
        self.v[x] = shifted << 1u8;
    }

    /// `EX9E`.
    pub fn op_ex9e(&mut self, x: usize)
        requires
            x < 16,
            can_execute(old(self)@, Instruction::SkipIfKey(x)),
        ensures
            final(self)@ == execute_spec(old(self)@, Instruction::SkipIfKey(x), 0),
            final(self).pc == if old(self).keyboard[old(self).v[x as int] as int] {
                old(self).pc + 2
            } else {
                old(self).pc as int
            },
    {
        if self.keyboard[self.v[x] as usize] {
            self.pc += 2;
        }
    }

    /// `EXA1`.
    pub fn op_exa1(&mut self, x: usize)
        requires
            x < 16,
            can_execute(old(self)@, Instruction::SkipIfNotKey(x)),
        ensures
            final(self)@ == execute_spec(old(self)@, Instruction::SkipIfNotKey(x), 0),
            final(self).pc == if !old(self).keyboard[old(self).v[x as int] as int] {
                old(self).pc + 2
            } else {
                old(self).pc as int
            },
    {
        if !self.keyboard[self.v[x] as usize] {
            self.pc += 2;
        }
    }

    /// `FX07`.
    pub fn op_fx07(&mut self, x: usize)
        requires
            x < 16,
        ensures
            final(self)@ == execute_spec(old(self)@, Instruction::ReadDelay(x), 0),
    {
        self.v[x] = self.delay_timer;
    }

    /// `FX0A`: stores the lowest held key, or steps back to run again.
    pub fn op_fx0a(&mut self, x: usize)
        requires
            x < 16,
            can_execute(old(self)@, Instruction::WaitKey(x)),
        ensures
            final(self)@ == execute_spec(old(self)@, Instruction::WaitKey(x), 0),
    {
        let mut pressed = false;
        let mut k: usize = 0;
        while k < 16
            invariant_except_break
                0 <= k <= 16,
                x < 16,
                !pressed,
                self@ == old(self)@,
                first_pressed(self.keyboard@, 0) == first_pressed(self.keyboard@, k as int),
            ensures
                pressed ==> self@ == execute_spec(old(self)@, Instruction::WaitKey(x), 0),
                !pressed ==> self@ == old(self)@ && first_pressed(self.keyboard@, 0) == 16,
            decreases 16 - k,
        {
            if self.keyboard[k] {
                self.v[x] = k as u8;
                pressed = true;
                break;
            }
            k = k + 1;
        }
        if !pressed {
            self.pc -= 2
        }
    }

    /// `FX15`.
    pub fn op_fx15(&mut self, x: usize)
        requires
            x < 16,
        ensures
            final(self)@ == execute_spec(old(self)@, Instruction::SetDelay(x), 0),
    {
        self.delay_timer = self.v[x];
    }

    /// `FX18`.
    pub fn op_fx18(&mut self, x: usize)
        requires
            x < 16,
        ensures
            final(self)@ == execute_spec(old(self)@, Instruction::SetSound(x), 0),
    {
        self.sound_timer = self.v[x];
    }

    /// `FX1E`.
    pub fn op_fx1e(&mut self, x: usize)
        requires
            x < 16,
            can_execute(old(self)@, Instruction::AddIndex(x)),
        ensures
            final(self)@ == execute_spec(old(self)@, Instruction::AddIndex(x), 0),
    {
        self.i += self.v[x] as u16;
    }

    /// `FX29`.
    pub fn op_fx29(&mut self, x: usize)
        requires
            x < 16,
        ensures
            final(self)@ == execute_spec(old(self)@, Instruction::FontChar(x), 0),
    {
        self.i = 0x50 + self.v[x] as u16 * 5;
    }

    /// `FX33`.
    pub fn op_fx33(&mut self, x: usize)
        requires
            x < 16,
            can_execute(old(self)@, Instruction::StoreBcd(x)),
        ensures
            final(self)@ == execute_spec(old(self)@, Instruction::StoreBcd(x), 0),
    {
        let val = self.v[x];
        self.memory[self.i as usize] = val / 100;
        self.memory[self.i as usize + 1] = (val / 10) % 10;
        self.memory[self.i as usize + 2] = val % 10;
    }

    /// `FX55`.
    pub fn op_fx55(&mut self, x: usize)
        requires
            x < 16,
            can_execute(old(self)@, Instruction::StoreRegisters(x)),
        ensures
            final(self)@ == execute_spec(old(self)@, Instruction::StoreRegisters(x), 0),
    {
        let ghost start = self@;
        let mut idx: usize = 0;
        while idx <= x
            invariant
                0 <= idx <= x + 1,
                x < 16,
                start.i + x < 4096,
                self@ == (CpuView { memory: self.memory@, ..start }),
                forall|a: int|
                    0 <= a < 4096 ==> #[trigger] self.memory@[a] == (if start.i <= a < start.i + idx {
                        start.v[a - start.i]
                    } else {
                        start.memory[a]
                    }),
            decreases x + 1 - idx,
        {
            self.memory[self.i as usize + idx] = self.v[idx];
            idx = idx + 1;
        }
        assert(self@ =~= execute_spec(start, Instruction::StoreRegisters(x), 0));
    }

    /// `FX65`.
    pub fn op_fx65(&mut self, x: usize)
        requires
            x < 16,
            can_execute(old(self)@, Instruction::LoadRegisters(x)),
        ensures
            final(self)@ == execute_spec(old(self)@, Instruction::LoadRegisters(x), 0),
    {
        let ghost start = self@;
        let mut idx: usize = 0;
        while idx <= x
            invariant
                0 <= idx <= x + 1,
                x < 16,
                start.i + x < 4096,
                self@ == (CpuView { v: self.v@, ..start }),
                forall|k: int|
                    0 <= k < 16 ==> #[trigger] self.v@[k] == (if k < idx {
                        start.memory[start.i + k]
                    } else {
                        start.v[k]
                    }),
            decreases x + 1 - idx,
        {
            self.v[idx] = self.memory[self.i as usize + idx];
            idx = idx + 1;
        }
        assert(self@ =~= execute_spec(start, Instruction::LoadRegisters(x), 0));
    }

    /// `CXNN`, with `random` as the byte drawn.
    pub fn op_cxnn(&mut self, x: usize, nn: u8, random: u8)
        requires
            x < 16,
        ensures
            final(self)@ == execute_spec(old(self)@, Instruction::Random(x, nn), random),
    {
        self.v[x] = random & nn;
    }
}

/// Sprite pixel `(row, col)` drawn from origin `(xp, yp)` lands on `idx`,
/// and the inverse maps give `row` and `col` back there.
pub proof fn lemma_sprite_target(xp: int, yp: int, row: int, col: int, idx: int)
    requires
        0 <= xp < 64,
        0 <= yp < 32,
        0 <= row < 32,
        0 <= col < 64,
        idx == ((yp + row) % 32) * 64 + (xp + col) % 64,
    ensures
        0 <= idx < 2048,
        idx % 64 == (xp + col) % 64,
        idx / 64 == (yp + row) % 32,
        (idx % 64 - xp) % 64 == col,
        (idx / 64 - yp) % 32 == row,
{
    let a = (yp + row) % 32;
    let b = (xp + col) % 64;
    vstd::arithmetic::div_mod::lemma_fundamental_div_mod_converse(idx, 64, a, b);
}

/// No screen index other than `idx` maps back to the same sprite pixel.
pub proof fn lemma_sprite_target_unique(xp: int, yp: int, row: int, col: int, idx: int, j: int)
    requires
        0 <= xp < 64,
        0 <= yp < 32,
        0 <= row < 32,
        0 <= col < 64,
        idx == ((yp + row) % 32) * 64 + (xp + col) % 64,
        0 <= j < 2048,
        (j % 64 - xp) % 64 == col,
        (j / 64 - yp) % 32 == row,
    ensures
        j == idx,
{
    vstd::arithmetic::div_mod::lemma_fundamental_div_mod(j, 64);
    vstd::arithmetic::div_mod::lemma_div_pos_is_pos(j, 64);
    vstd::arithmetic::div_mod::lemma_div_is_ordered(j, 2047, 64);
    assert(j % 64 == (xp + col) % 64);
    assert(j / 64 == (yp + row) % 32);
}

/// Whether sprite pixel `(row, col)` of a draw has been handled once the
/// drawing loop has reached row `r`, column `c`.
spec fn drawn_before(s: CpuView, x: int, y: int, n: int, idx: int, r: int, c: int) -> bool {
    &&& sprite_covers(s, x, y, n, idx)
    &&& (sprite_row(s, y, idx) < r || (sprite_row(s, y, idx) == r && sprite_column(s, x, idx) < c))
}

impl CPU {
    /// `DXYN`.
    pub fn op_dxyn(&mut self, x: usize, y: usize, n: u8)
        requires
            x < 16,
            y < 16,
            n < 16,
            can_execute(old(self)@, Instruction::Draw(x, y, n)),
        ensures
            final(self)@ == execute_spec(old(self)@, Instruction::Draw(x, y, n), 0),
    {
        let ghost s = self@;
        let ghost (xi, yi, ni) = (x as int, y as int, n as int);
        let x_pos = self.v[x] as usize % 64;
        let y_pos = self.v[y] as usize % 32;
        self.v[0xF] = 0;
        let mut row: usize = 0;
        while row < n as usize
            invariant
                0 <= row <= n,
                x < 16,
                y < 16,
                n < 16,
                xi == x && yi == y && ni == n,
                n > 0 ==> s.i + n <= 4096,
                x_pos == s.v[xi] % 64,
                y_pos == s.v[yi] % 32,
                s.v.len() == 16 && s.display.len() == 2048 && s.memory.len() == 4096,
                self@ == (CpuView { display: self.display@, v: self.v@, ..s }),
                self.v@ == s.v.update(15, self.v@[15]),
                forall|j: int|
                    0 <= j < 2048 ==> #[trigger] self.display@[j] == (s.display[j] != drawn_before(
                        s,
                        xi,
                        yi,
                        ni,
                        j,
                        row as int,
                        0,
                    )),
                self.v@[15] == (if exists|j: int|
                    0 <= j < 2048 && #[trigger] drawn_before(s, xi, yi, ni, j, row as int, 0)
                        && s.display[j] {
                    1u8
                } else {
                    0u8
                }),
            decreases n - row,
        {
            let sprite_byte = self.memory[self.i as usize + row];
            let mut col: usize = 0;
            while col < 8
                invariant
                    0 <= col <= 8,
                    0 <= row < n,
                    x < 16,
                    y < 16,
                    n < 16,
                    xi == x && yi == y && ni == n,
                    x_pos == s.v[xi] % 64,
                    y_pos == s.v[yi] % 32,
                    sprite_byte == s.memory[s.i + row],
                    s.v.len() == 16 && s.display.len() == 2048 && s.memory.len() == 4096,
                    self@ == (CpuView { display: self.display@, v: self.v@, ..s }),
                    self.v@ == s.v.update(15, self.v@[15]),
                    forall|j: int|
                        0 <= j < 2048 ==> #[trigger] self.display@[j] == (s.display[j]
                            != drawn_before(s, xi, yi, ni, j, row as int, col as int)),
                    self.v@[15] == (if exists|j: int|
                        0 <= j < 2048 && #[trigger] drawn_before(
                            s,
                            xi,
                            yi,
                            ni,
                            j,
                            row as int,
                            col as int,
                        ) && s.display[j] {
                        1u8
                    } else {
                        0u8
                    }),
                decreases 8 - col,
            {
                let shift: u8 = (7 - col) as u8;
                let pixel = (sprite_byte >> shift) & 0x1;
                let x_wrapped = (x_pos + col) % 64;
                let y_wrapped = (y_pos + row) % 32;
                let idx = y_wrapped * 64 + x_wrapped;
                let ghost (r, c, t) = (row as int, col as int, idx as int);
                proof {
                    lemma_sprite_target(x_pos as int, y_pos as int, r, c, t);
                    assert(sprite_pixel(sprite_byte, c) == (pixel == 1));
                    assert(drawn_before(s, xi, yi, ni, t, r, c + 1) == (pixel == 1));
                    assert forall|j: int| 0 <= j < 2048 && j != t implies drawn_before(
                        s,
                        xi,
                        yi,
                        ni,
                        j,
                        r,
                        c + 1,
                    ) == drawn_before(s, xi, yi, ni, j, r, c) by {
                        if sprite_column(s, xi, j) == c && sprite_row(s, yi, j) == r {
                            lemma_sprite_target_unique(x_pos as int, y_pos as int, r, c, t, j);
                        }
                    }
                }
                if pixel == 1 {
                    if self.display[idx] {
                        self.v[0xF] = 1;
                    }
                    self.display[idx] = !self.display[idx];
                }
                proof {
                    let was = exists|j: int|
                        0 <= j < 2048 && #[trigger] drawn_before(s, xi, yi, ni, j, r, c) && s.display[j];
                    let now = exists|j: int|
                        0 <= j < 2048 && #[trigger] drawn_before(s, xi, yi, ni, j, r, c + 1) && s.display[j];
                    if was {
                        let w = choose|j: int|
                            0 <= j < 2048 && #[trigger] drawn_before(s, xi, yi, ni, j, r, c) && s.display[j];
                        assert(drawn_before(s, xi, yi, ni, w, r, c + 1));
                    }
                    if pixel == 1 && s.display[t] {
                        assert(drawn_before(s, xi, yi, ni, t, r, c + 1));
                    }
                    if now {
                        let w = choose|j: int|
                            0 <= j < 2048 && #[trigger] drawn_before(s, xi, yi, ni, j, r, c + 1) && s.display[j];
                        if w != t {
                            assert(drawn_before(s, xi, yi, ni, w, r, c));
                        }
                    }
                    assert(now == (was || (pixel == 1 && s.display[t])));
                }
                col += 1;
            }
            proof {
                let r = row as int;
                assert forall|j: int| 0 <= j < 2048 implies #[trigger] drawn_before(
                    s,
                    xi,
                    yi,
                    ni,
                    j,
                    r,
                    8,
                ) == drawn_before(s, xi, yi, ni, j, r + 1, 0) by {}
                let was = exists|j: int|
                    0 <= j < 2048 && #[trigger] drawn_before(s, xi, yi, ni, j, r, 8) && s.display[j];
                let now = exists|j: int|
                    0 <= j < 2048 && #[trigger] drawn_before(s, xi, yi, ni, j, r + 1, 0) && s.display[j];
                if was {
                    let w = choose|j: int|
                        0 <= j < 2048 && #[trigger] drawn_before(s, xi, yi, ni, j, r, 8) && s.display[j];
                    assert(drawn_before(s, xi, yi, ni, w, r + 1, 0));
                }
                if now {
                    let w = choose|j: int|
                        0 <= j < 2048 && #[trigger] drawn_before(s, xi, yi, ni, j, r + 1, 0) && s.display[j];
                    assert(drawn_before(s, xi, yi, ni, w, r, 8));
                }
                assert(now == was);
            }
            row += 1;
        }
        self.draw_flag = true;
        proof {
            assert forall|j: int| 0 <= j < 2048 implies #[trigger] drawn_before(
                s,
                xi,
                yi,
                ni,
                j,
                ni,
                0,
            ) == sprite_covers(s, xi, yi, ni, j) by {}
            let was = exists|j: int|
                0 <= j < 2048 && #[trigger] drawn_before(s, xi, yi, ni, j, ni, 0) && s.display[j];
            let now = exists|j: int|
                0 <= j < 2048 && #[trigger] sprite_covers(s, xi, yi, ni, j) && s.display[j];
            if was {
                let w = choose|j: int|
                    0 <= j < 2048 && #[trigger] drawn_before(s, xi, yi, ni, j, ni, 0) && s.display[j];
                assert(sprite_covers(s, xi, yi, ni, w));
            }
            if now {
                let w = choose|j: int|
                    0 <= j < 2048 && #[trigger] sprite_covers(s, xi, yi, ni, j) && s.display[j];
                assert(drawn_before(s, xi, yi, ni, w, ni, 0));
            }
            assert(now == was);
            let target = execute_spec(s, Instruction::Draw(x, y, n), 0);
            assert(self.display@ =~= target.display);
            assert(self.v@ =~= target.v);
        }
    }
}

/// Every decoded instruction has its operands in range.
proof fn lemma_decode_in_range(op: u16)
    ensures
        operands_in_range(decode_spec(op)),
{
}

/// Two bytes joined by shift and or are their big-endian value.
proof fn lemma_join_bytes(hi: u16, lo: u16)
    by (bit_vector)
    requires
        hi < 256,
        lo < 256,
    ensures
        (hi << 8u16) | lo == hi * 256 + lo,
{
}

/// A byte from `rand::random`, the thread-local generator of the `rand` crate.
/// Nothing is stated of its value: it is chance.
#[verifier::external_body]
fn random_byte() -> u8 {
    rand::random::<u8>()
}

impl CPU {
    /// Reads the opcode at the program counter and moves past it.
    pub fn fetch(&mut self) -> (opcode: u16)
        requires
            old(self).pc + 1 < 4096,
        ensures
            opcode == opcode_at(old(self)@),
            opcode / 256 == old(self).memory[old(self).pc as int],
            opcode % 256 == old(self).memory[old(self).pc + 1],
            final(self)@ == after_fetch(old(self)@),
            final(self).pc == old(self).pc + 2,
    {
        let hi = self.memory[self.pc as usize] as u16;
        let lo = self.memory[self.pc as usize + 1] as u16;
        self.pc += 2;
        proof {
            lemma_join_bytes(hi, lo);
        }
        (hi << 8u16) | lo
    }

    /// Runs one decoded instruction, with `random` as the byte `CXNN` draws.
    fn run(&mut self, ins: Instruction, random: u8)
        requires
            operands_in_range(ins),
            can_execute(old(self)@, ins),
        ensures
            final(self)@ == execute_spec(old(self)@, ins, random),
    {
        match ins {
            Instruction::ClearScreen => self.op_00e0(),
            Instruction::Return => self.op_00ee(),
            Instruction::Jump(nnn) => self.op_1nnn(nnn),
            Instruction::Call(nnn) => self.op_2nnn(nnn),
            Instruction::SkipIfEqual(x, nn) => self.op_3xnn(x, nn),
            Instruction::SkipIfNotEqual(x, nn) => self.op_4xnn(x, nn),
            Instruction::SkipIfRegistersEqual(x, y) => self.op_5xy0(x, y),
            Instruction::SetRegister(x, nn) => self.op_6xnn(x, nn),
            Instruction::AddImmediate(x, nn) => self.op_7xnn(x, nn),
            Instruction::Copy(x, y) => self.op_8xy0(x, y),
            Instruction::Or(x, y) => self.op_8xy1(x, y),
            Instruction::And(x, y) => self.op_8xy2(x, y),
            Instruction::Xor(x, y) => self.op_8xy3(x, y),
            Instruction::AddRegisters(x, y) => self.op_8xy4(x, y),
            Instruction::Subtract(x, y) => self.op_8xy5(x, y),
            Instruction::ShiftRight(x, y) => self.op_8xy6(x, y),
            Instruction::SubtractReversed(x, y) => self.op_8xy7(x, y),
            Instruction::ShiftLeft(x, y) => self.op_8xye(x, y),
            Instruction::SkipIfRegistersDiffer(x, y) => self.op_9xy0(x, y),
            Instruction::SetIndex(nnn) => self.op_annn(nnn),
            Instruction::JumpOffset(nnn) => self.op_bnnn(nnn),
            Instruction::Draw(x, y, n) => self.op_dxyn(x, y, n),
            Instruction::SkipIfKey(x) => self.op_ex9e(x),
            Instruction::SkipIfNotKey(x) => self.op_exa1(x),
            Instruction::ReadDelay(x) => self.op_fx07(x),
            Instruction::WaitKey(x) => self.op_fx0a(x),
            Instruction::SetDelay(x) => self.op_fx15(x),
            Instruction::SetSound(x) => self.op_fx18(x),
            Instruction::AddIndex(x) => self.op_fx1e(x),
            Instruction::FontChar(x) => self.op_fx29(x),
            Instruction::StoreBcd(x) => self.op_fx33(x),
            Instruction::StoreRegisters(x) => self.op_fx55(x),
            Instruction::LoadRegisters(x) => self.op_fx65(x),
            Instruction::Random(x, nn) => self.op_cxnn(x, nn, random),
            Instruction::Unknown(_) => {},
        }
    }

    /// Decodes and runs `opcode`, with `random` as the byte that `CXNN`
    /// draws, and returns the decoded instruction (`Unknown` changes nothing).
    pub fn execute(&mut self, opcode: u16, random: u8) -> (ins: Instruction)
        requires
            can_execute(old(self)@, decode_spec(opcode)),
        ensures
            ins == decode_spec(opcode),
            final(self)@ == execute_spec(old(self)@, ins, random),
    {
        let ins = decode(opcode);
        proof {
            lemma_decode_in_range(opcode);
        }
        self.run(ins, random);
        ins
    }

    /// One fetch-decode-execute cycle. `CXNN` draws its byte from `rand`;
    /// every other instruction is fully determined by the state.
    pub fn cycle(&mut self) -> (ins: Instruction)
        requires
            can_cycle(old(self)@),
        ensures
            ins == decode_spec(opcode_at(old(self)@)),
            exists|random: u8| final(self)@ == #[trigger] cycle_spec(old(self)@, random),
            !(ins is Random) ==> final(self)@ == cycle_spec(old(self)@, 0),
    {
        let op_code = self.fetch();
        let ins = decode(op_code);
        proof {
            lemma_decode_in_range(op_code);
        }
        let random = match ins {
            Instruction::Random(_, _) => random_byte(),
            _ => 0,
        };
        self.run(ins, random);
        proof {
            reveal(cycle_spec);
            assert(self@ == cycle_spec(old(self)@, random));
        }
        ins
    }
}

impl CPU {
    /// Whether some key is held down.
    fn any_key_pressed(&self) -> (b: bool)
        ensures
            b == (first_pressed(self.keyboard@, 0) < 16),
    {
        let mut k: usize = 0;
        while k < 16
            invariant
                0 <= k <= 16,
                first_pressed(self.keyboard@, 0) == first_pressed(self.keyboard@, k as int),
            decreases 16 - k,
        {
            if self.keyboard[k] {
                return true;
            }
            k = k + 1;
        }
        false
    }

    /// Whether `ins` is defined in this state with the program counter at `pc`.
    fn is_defined_at(&self, ins: Instruction, pc: u16) -> (b: bool)
        requires
            operands_in_range(ins),
        ensures
            b == can_execute(CpuView { pc: pc, ..self@ }, ins),
    {
        match ins {
            Instruction::Return => 1 <= self.sp && self.sp <= 16,
            Instruction::Call(_) => self.sp < 16,
            Instruction::SkipIfEqual(x, nn) => self.v[x] != nn || pc <= 0xFFFD,
            Instruction::SkipIfNotEqual(x, nn) => self.v[x] == nn || pc <= 0xFFFD,
            Instruction::SkipIfRegistersEqual(x, y) => self.v[x] != self.v[y] || pc <= 0xFFFD,
            Instruction::SkipIfRegistersDiffer(x, y) => self.v[x] == self.v[y] || pc <= 0xFFFD,
            Instruction::Draw(_, _, n) => n == 0 || self.i as u32 + n as u32 <= 4096,
            Instruction::SkipIfKey(x) => self.v[x] < 16 && (!self.keyboard[self.v[x] as usize]
                || pc <= 0xFFFD),
            Instruction::SkipIfNotKey(x) => self.v[x] < 16 && (self.keyboard[self.v[x] as usize]
                || pc <= 0xFFFD),
            Instruction::WaitKey(_) => self.any_key_pressed() || pc >= 2,
            Instruction::AddIndex(x) => self.i as u32 + self.v[x] as u32 <= 0xFFFF,
            Instruction::StoreBcd(_) => (self.i as u32) + 2 < 4096,
            Instruction::StoreRegisters(x) => (self.i as usize) + x < 4096,
            Instruction::LoadRegisters(x) => (self.i as usize) + x < 4096,
            _ => true,
        }
    }

    /// Whether `execute(opcode, ..)` is defined in this state, that is
    /// `can_execute` of the decoded instruction: callers test this before
    /// `execute`.
    pub fn can_execute_opcode(&self, opcode: u16) -> (b: bool)
        ensures
            b == can_execute(self@, decode_spec(opcode)),
    {
        let ins = decode(opcode);
        proof {
            lemma_decode_in_range(opcode);
        }
        self.is_defined_at(ins, self.pc)
    }

    /// Whether the next cycle is defined, that is `can_cycle`: callers test
    /// this before `cycle`.
    pub fn is_cycle_defined(&self) -> (b: bool)
        ensures
            b == can_cycle(self@),
    {
        if self.pc >= 4095 {
            return false;
        }
        let hi = self.memory[self.pc as usize] as u16;
        let lo = self.memory[self.pc as usize + 1] as u16;
        proof {
            lemma_join_bytes(hi, lo);
        }
        let ins = decode((hi << 8u16) | lo);
        proof {
            lemma_decode_in_range((hi << 8u16) | lo);
        }
        self.is_defined_at(ins, self.pc + 2)
    }

    /// Copies a program into memory at `PROGRAM_START`; nothing else changes.
    pub fn load_rom(&mut self, rom: &[u8])
        requires
            rom@.len() <= 4096 - 0x200,
        ensures
            final(self)@ == (CpuView { memory: load_program(old(self)@.memory, rom@), ..old(self)@ }),
            forall|k: int| 0 <= k < rom@.len() ==> #[trigger] final(self).memory@[0x200 + k] == rom@[k],
            forall|a: int|
                0 <= a < 4096 && !(0x200 <= a < 0x200 + rom@.len()) ==> #[trigger] final(self).memory@[a]
                    == old(self).memory@[a],
    {
        let ghost start = self@;
        let mut k: usize = 0;
        while k < rom.len()
            invariant
                0 <= k <= rom@.len(),
                rom@.len() <= 4096 - 0x200,
                start.memory.len() == 4096,
                self@ == (CpuView { memory: self.memory@, ..start }),
                forall|a: int|
                    0 <= a < 4096 ==> #[trigger] self.memory@[a] == (if 0x200 <= a < 0x200 + k {
                        rom@[a - 0x200]
                    } else {
                        start.memory[a]
                    }),
            decreases rom@.len() - k,
        {
            self.memory[0x200 + k] = rom[k];
            k = k + 1;
        }
        assert(self.memory@ =~= load_program(start.memory, rom@));
    }

    /// Counts each timer down by one, stopping at zero.
    pub fn tick_timers(&mut self)
        ensures
            final(self)@ == tick_timers_spec(old(self)@),
            final(self).delay_timer == if old(self).delay_timer > 0 {
                old(self).delay_timer - 1
            } else {
                0int
            },
            final(self).sound_timer == if old(self).sound_timer > 0 {
                old(self).sound_timer - 1
            } else {
                0int
            },
    {
        if self.delay_timer > 0 {
            self.delay_timer -= 1;
        }
        if self.sound_timer > 0 {
            self.sound_timer -= 1;
        }
    }
}

/// What one frame did: the instructions its cycles decoded, and whether the
/// screen has to be redrawn.
pub struct Frame {
    pub executed: Vec<Instruction>,
    pub redraw: bool,
}

/// Running the cycles of `a` and then those of `b` is running those of `a + b`.
pub proof fn lemma_run_cycles_append(s: CpuView, a: Seq<u8>, b: Seq<u8>)
    ensures
        run_cycles(s, a + b) == (match run_cycles(s, a) {
            Some(m) => run_cycles(m, b),
            None => None,
        }),
        cycles_trace(s, a + b) == cycles_trace(s, a) + (match run_cycles(s, a) {
            Some(m) => cycles_trace(m, b),
            None => Seq::empty(),
        }),
    decreases a.len(),
{
    if a.len() == 0 {
        assert(a + b =~= b);
        assert(cycles_trace(s, a) + cycles_trace(s, b) =~= cycles_trace(s, b));
    } else if !can_cycle(s) {
        assert(cycles_trace(s, a) + Seq::<Instruction>::empty() =~= Seq::<Instruction>::empty());
    } else {
        let next = cycle_spec(s, a[0]);
        assert((a + b).drop_first() =~= a.drop_first() + b);
        assert((a + b)[0] == a[0]);
        lemma_run_cycles_append(next, a.drop_first(), b);
        let tail = match run_cycles(next, a.drop_first()) {
            Some(m) => cycles_trace(m, b),
            None => Seq::empty(),
        };
        assert(seq![decode_spec(opcode_at(s))] + (cycles_trace(next, a.drop_first()) + tail)
            =~= (seq![decode_spec(opcode_at(s))] + cycles_trace(next, a.drop_first())) + tail);
    }
}

/// When every cycle is defined, one instruction is decoded per cycle.
pub proof fn lemma_trace_length(s: CpuView, randoms: Seq<u8>)
    ensures
        run_cycles(s, randoms) is Some ==> cycles_trace(s, randoms).len() == randoms.len(),
    decreases randoms.len(),
{
    if randoms.len() > 0 && can_cycle(s) {
        lemma_trace_length(cycle_spec(s, randoms[0]), randoms.drop_first());
    }
}

/// One defined cycle, and cycles from an undefined state.
proof fn lemma_run_cycles_short(s: CpuView, r: u8, pad: Seq<u8>)
    ensures
        can_cycle(s) ==> run_cycles(s, seq![r]) == Some(cycle_spec(s, r)),
        can_cycle(s) ==> cycles_trace(s, seq![r]) == seq![decode_spec(opcode_at(s))],
        !can_cycle(s) && pad.len() > 0 ==> run_cycles(s, pad) is None,
        !can_cycle(s) ==> cycles_trace(s, pad) == Seq::<Instruction>::empty(),
{
    if can_cycle(s) {
        let next = cycle_spec(s, r);
        assert(seq![r].drop_first() =~= Seq::<u8>::empty());
        assert(seq![r][0] == r);
        assert(run_cycles(next, Seq::<u8>::empty()) == Some(next));
        assert(cycles_trace(next, Seq::<u8>::empty()) =~= Seq::<Instruction>::empty());
        assert(seq![decode_spec(opcode_at(s))] + Seq::<Instruction>::empty() =~= seq![
            decode_spec(opcode_at(s)),
        ]);
    }
}

impl CPU {
    /// One displayed frame: `FRAME_CYCLES` cycles, then the timers tick and a
    /// pending redraw is taken. `Err` holds the instructions run before a
    /// cycle that is undefined (where the machine cannot go on).
    pub fn run_frame(&mut self) -> (r: Result<Frame, Vec<Instruction>>)
        ensures
            exists|randoms: Seq<u8>|
                #[trigger] frame_randoms(randoms) && match r {
                    Ok(f) => {
                        &&& run_cycles(old(self)@, randoms) is Some
                        &&& f.executed@ == cycles_trace(old(self)@, randoms)
                        &&& f.executed@.len() == 10
                        &&& f.redraw == run_cycles(old(self)@, randoms)->0.draw_flag
                        &&& final(self)@ == end_frame(run_cycles(old(self)@, randoms)->0)
                        &&& final(self).delay_timer == if run_cycles(old(self)@, randoms)->0.delay_timer > 0 {
                            run_cycles(old(self)@, randoms)->0.delay_timer - 1
                        } else {
                            0int
                        }
                        &&& final(self).sound_timer == if run_cycles(old(self)@, randoms)->0.sound_timer > 0 {
                            run_cycles(old(self)@, randoms)->0.sound_timer - 1
                        } else {
                            0int
                        }
                        &&& !final(self).draw_flag
                    },
                    Err(e) => {
                        &&& run_cycles(old(self)@, randoms) is None
                        &&& e@ == cycles_trace(old(self)@, randoms)
                    },
                },
    {
        let ghost s0 = self@;
        let ghost mut randoms: Seq<u8> = Seq::empty();
        let mut executed: Vec<Instruction> = Vec::new();
        let mut k: usize = 0;
        while k < FRAME_CYCLES
            invariant
                k <= FRAME_CYCLES,
                s0 == old(self)@,
                randoms.len() == k,
                run_cycles(s0, randoms) == Some(self@),
                cycles_trace(s0, randoms) == executed@,
            decreases FRAME_CYCLES - k,
        {
            if !self.is_cycle_defined() {
                proof {
                    let pad = Seq::new((FRAME_CYCLES - k) as nat, |j: int| 0u8);
                    lemma_run_cycles_append(s0, randoms, pad);
                    lemma_run_cycles_short(self@, 0, pad);
                    assert(executed@ + Seq::<Instruction>::empty() =~= executed@);
                    assert(run_cycles(s0, randoms + pad) is None);
                    assert(cycles_trace(s0, randoms + pad) == executed@);
                    assert(frame_randoms(randoms + pad));
                }
                return Err(executed);
            }
            let ghost before = self@;
            let ins = self.cycle();
            proof {
                let r = choose|r: u8| self@ == #[trigger] cycle_spec(before, r);
                lemma_run_cycles_append(s0, randoms, seq![r]);
                lemma_run_cycles_short(before, r, seq![r]);
                randoms = randoms + seq![r];
            }
            executed.push(ins);
            k = k + 1;
        }
        let redraw = self.draw_flag;
        self.tick_timers();
        self.draw_flag = false;
        proof {
            assert(frame_randoms(randoms));
            lemma_trace_length(s0, randoms);
        }
        Ok(Frame { executed, redraw })
    }
}
} // verus!
