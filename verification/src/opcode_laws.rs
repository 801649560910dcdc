//! What each opcode does to the machine, stated from the opcode's hexadecimal
//! digits `KXYN` (with `NN` its low byte and `NNN` its low twelve bits)
//! directly in terms of the machine's registers, memory, screen and stack.
use vstd::prelude::*;
use crate::model::{
    CpuView, Instruction, can_execute, decode_spec, execute_spec, first_pressed, has_machine_shape,
    sprite_column, sprite_covers, sprite_pixel, sprite_row,
};
use crate::cpu::{lemma_sprite_target, lemma_sprite_target_unique};
use crate::laws::{
    lemma_add_carries, lemma_shifts_keep_lost_bit, lemma_subtract_borrows,
    lemma_subtract_reversed_borrows,
};

verus! {

/// `FX15` sets the delay timer to `VX`, `FX18` the sound timer, and `FX07`
/// reads the delay timer into `VX`; nothing else changes.
pub proof fn lemma_opcode_timers(s: CpuView, op: u16, r: u8)
    requires
        has_machine_shape(s),
    ensures
        ({
            let x = ((op / 0x100) % 0x10) as int;
            let t = execute_spec(s, decode_spec(op), r);
            &&& op / 0x1000 == 0xF && op % 0x100 == 0x15 ==> t == CpuView {
                delay_timer: s.v[x],
                ..s
            }
            &&& op / 0x1000 == 0xF && op % 0x100 == 0x18 ==> t == CpuView {
                sound_timer: s.v[x],
                ..s
            }
            &&& op / 0x1000 == 0xF && op % 0x100 == 0x07 ==> t == CpuView {
                v: s.v.update(x, s.delay_timer),
                ..s
            }
        }),
{
}

/// The conditional skips move the program counter on by one instruction
/// exactly when their condition holds, and change nothing else: `3XNN` when
/// `VX == NN`, `4XNN` when `VX != NN`, `5XY0` when `VX == VY`, `9XY0` when
/// `VX != VY`, `EX9E` when key `VX` is down, `EXA1` when it is up.
pub proof fn lemma_opcode_skips(s: CpuView, op: u16, r: u8)
    requires
        has_machine_shape(s),
        s.pc <= 0xFFFD,
    ensures
        ({
            let k = op / 0x1000;
            let x = ((op / 0x100) % 0x10) as int;
            let y = ((op / 0x10) % 0x10) as int;
            let nn = (op % 0x100) as u8;
            let t = execute_spec(s, decode_spec(op), r);
            let skipped = CpuView { pc: (s.pc + 2) as u16, ..s };
            &&& k == 0x3 ==> t == if s.v[x] == nn { skipped } else { s }
            &&& k == 0x4 ==> t == if s.v[x] != nn { skipped } else { s }
            &&& k == 0x5 && op % 0x10 == 0 ==> t == if s.v[x] == s.v[y] { skipped } else { s }
            &&& k == 0x9 && op % 0x10 == 0 ==> t == if s.v[x] != s.v[y] { skipped } else { s }
            &&& k == 0xE && nn == 0x9E && s.v[x] < 16 ==> t == if s.keyboard[s.v[x] as int] {
                skipped
            } else {
                s
            }
            &&& k == 0xE && nn == 0xA1 && s.v[x] < 16 ==> t == if !s.keyboard[s.v[x] as int] {
                skipped
            } else {
                s
            }
        }),
{
}

/// Control flow: `00E0` blanks the screen and asks for a redraw, `00EE`
/// pops the return address, `1NNN` jumps to `NNN`, `2NNN` pushes the program
/// counter and jumps, `BNNN` jumps to `NNN + V0`, and `ANNN` sets `I`.
pub proof fn lemma_opcode_flow(s: CpuView, op: u16, r: u8)
    requires
        has_machine_shape(s),
    ensures
        ({
            let k = op / 0x1000;
            let nnn = op % 0x1000;
            let t = execute_spec(s, decode_spec(op), r);
            &&& op == 0x00E0 ==> {
                &&& t.draw_flag
                &&& t.display.len() == 2048
                &&& forall|p: int| 0 <= p < 2048 ==> !#[trigger] t.display[p]
                &&& t == CpuView { display: t.display, draw_flag: true, ..s }
            }
            &&& op == 0x00EE && 1 <= s.sp <= 16 ==> t == CpuView {
                sp: (s.sp - 1) as u8,
                pc: s.stack[s.sp - 1],
                ..s
            }
            &&& k == 0x1 ==> t == CpuView { pc: nnn, ..s }
            &&& k == 0x2 && s.sp < 16 ==> {
                &&& t.pc == nnn
                &&& t.sp == s.sp + 1
                &&& t.stack.len() == 16
                &&& t.stack[s.sp as int] == s.pc
                &&& forall|j: int| 0 <= j < 16 && j != s.sp ==> t.stack[j] == s.stack[j]
                &&& t == CpuView { pc: t.pc, sp: t.sp, stack: t.stack, ..s }
            }
            &&& k == 0xA ==> t == CpuView { i: nnn, ..s }
            &&& k == 0xB ==> t.pc == nnn + s.v[0] && t == CpuView { pc: t.pc, ..s }
        }),
{
    let t = execute_spec(s, decode_spec(op), r);
    if op / 0x1000 == 0x2 && s.sp < 16 {
        assert(forall|j: int| 0 <= j < 16 && j != s.sp ==> t.stack[j] == s.stack[j]);
    }
}

/// The register instructions change only the registers: `6XNN` sets `VX`,
/// `7XNN` adds `NN` modulo 256, `8XY0`..`8XY3` copy, or, and, xor `VY` into
/// `VX`, and `CXNN` masks the drawn byte with `NN`.
pub proof fn lemma_opcode_registers(s: CpuView, op: u16, r: u8)
    requires
        has_machine_shape(s),
    ensures
        ({
            let k = op / 0x1000;
            let x = ((op / 0x100) % 0x10) as int;
            let y = ((op / 0x10) % 0x10) as int;
            let n = op % 0x10;
            let nn = (op % 0x100) as u8;
            let t = execute_spec(s, decode_spec(op), r);
            &&& k == 0x6 ==> t == CpuView { v: s.v.update(x, nn), ..s }
            &&& k == 0x7 ==> t == CpuView { v: s.v.update(x, ((s.v[x] + nn) % 256) as u8), ..s }
            &&& k == 0x8 && n == 0 ==> t == CpuView { v: s.v.update(x, s.v[y]), ..s }
            &&& k == 0x8 && n == 1 ==> t == CpuView { v: s.v.update(x, s.v[x] | s.v[y]), ..s }
            &&& k == 0x8 && n == 2 ==> t == CpuView { v: s.v.update(x, s.v[x] & s.v[y]), ..s }
            &&& k == 0x8 && n == 3 ==> t == CpuView { v: s.v.update(x, s.v[x] ^ s.v[y]), ..s }
            &&& k == 0xC ==> t == CpuView { v: s.v.update(x, r & nn), ..s }
        }),
{
}

/// The flag instructions, for `X` other than `F`: `8XY4` leaves the 9-bit sum
/// of `VX` and `VY` in `VX` and `VF`, `8XY5` and `8XY7` a difference with `VF`
/// clear exactly on borrow, `8XY6` and `8XYE` a one-bit shift of `VX` with the
/// bit shifted out in `VF`. Only `VX` and `VF` change.
pub proof fn lemma_opcode_flags(s: CpuView, op: u16, r: u8)
    requires
        has_machine_shape(s),
        (op / 0x100) % 0x10 != 0xF,
    ensures
        ({
            let k = op / 0x1000;
            let x = ((op / 0x100) % 0x10) as int;
            let y = ((op / 0x10) % 0x10) as int;
            let n = op % 0x10;
            let t = execute_spec(s, decode_spec(op), r);
            let only_vx_vf = t.v.len() == 16 && t == CpuView { v: t.v, ..s } && t.v[15] <= 1
                && forall|j: int| 0 <= j < 15 && j != x ==> t.v[j] == s.v[j];
            &&& k == 0x8 && n == 4 ==> only_vx_vf && t.v[x] + 256 * t.v[15] == s.v[x] + s.v[y]
            &&& k == 0x8 && n == 5 ==> only_vx_vf && t.v[x] - 256 * (1 - t.v[15]) == s.v[x] - s.v[y]
            &&& k == 0x8 && n == 7 ==> only_vx_vf && t.v[x] - 256 * (1 - t.v[15]) == s.v[y] - s.v[x]
            &&& k == 0x8 && n == 6 ==> only_vx_vf && 2 * t.v[x] + t.v[15] == s.v[x]
            &&& k == 0x8 && n == 0xE ==> only_vx_vf && t.v[x] + 256 * t.v[15] == 2 * s.v[x]
        }),
{
    let k = op / 0x1000;
    let n = op % 0x10;
    let xu = ((op / 0x100) % 0x10) as usize;
    let yu = ((op / 0x10) % 0x10) as usize;
    let t = execute_spec(s, decode_spec(op), r);
    if k == 0x8 && n == 4 {
        assert(decode_spec(op) == Instruction::AddRegisters(xu, yu));
        lemma_add_carries(s, xu, yu, r);
    } else if k == 0x8 && n == 5 {
        assert(decode_spec(op) == Instruction::Subtract(xu, yu));
        lemma_subtract_borrows(s, xu, yu, r);
    } else if k == 0x8 && n == 7 {
        assert(decode_spec(op) == Instruction::SubtractReversed(xu, yu));
        lemma_subtract_reversed_borrows(s, xu, yu, r);
    } else if k == 0x8 && n == 6 {
        assert(decode_spec(op) == Instruction::ShiftRight(xu, yu));
        lemma_shifts_keep_lost_bit(s, xu, yu, r);
    } else if k == 0x8 && n == 0xE {
        assert(decode_spec(op) == Instruction::ShiftLeft(xu, yu));
        lemma_shifts_keep_lost_bit(s, xu, yu, r);
    }
}

/// The memory instructions: `FX33` writes the three decimal digits of `VX` at
/// `I`, `FX55` copies `V0..=VX` to `I..`, `FX65` copies `I..` to `V0..=VX`,
/// `FX1E` adds `VX` to `I`, and `FX29` points `I` at the font glyph of `VX`
/// (five bytes per digit from `0x50`). Everything else is left as it was.
pub proof fn lemma_opcode_memory(s: CpuView, op: u16, r: u8)
    requires
        has_machine_shape(s),
    ensures
        ({
            let k = op / 0x1000;
            let x = ((op / 0x100) % 0x10) as int;
            let nn = op % 0x100;
            let i = s.i as int;
            let t = execute_spec(s, decode_spec(op), r);
            &&& k == 0xF && nn == 0x33 && i + 2 < 4096 ==> {
                &&& t == CpuView { memory: t.memory, ..s }
                &&& t.memory.len() == 4096
                &&& t.memory[i] < 10 && t.memory[i + 1] < 10 && t.memory[i + 2] < 10
                &&& 100 * t.memory[i] + 10 * t.memory[i + 1] + t.memory[i + 2] == s.v[x]
                &&& forall|a: int| 0 <= a < 4096 && (a < i || a > i + 2) ==> t.memory[a] == s.memory[a]
            }
            &&& k == 0xF && nn == 0x55 && i + x < 4096 ==> {
                &&& t == CpuView { memory: t.memory, ..s }
                &&& t.memory.len() == 4096
                &&& forall|j: int| 0 <= j <= x ==> #[trigger] t.memory[i + j] == s.v[j]
                &&& forall|a: int| 0 <= a < 4096 && (a < i || a > i + x) ==> t.memory[a] == s.memory[a]
            }
            &&& k == 0xF && nn == 0x65 && i + x < 4096 ==> {
                &&& t == CpuView { v: t.v, ..s }
                &&& t.v.len() == 16
                &&& forall|j: int| 0 <= j <= x ==> #[trigger] t.v[j] == s.memory[i + j]
                &&& forall|j: int| x < j < 16 ==> #[trigger] t.v[j] == s.v[j]
            }
            &&& k == 0xF && nn == 0x1E && i + s.v[x] <= 0xFFFF ==> t == CpuView {
                i: (i + s.v[x]) as u16,
                ..s
            }
            &&& k == 0xF && nn == 0x29 ==> t.i == 0x50 + 5 * s.v[x] && t == CpuView { i: t.i, ..s }
        }),
{
}

/// The lowest held key is the one `first_pressed` finds from `from`.
proof fn lemma_first_pressed(keyboard: Seq<bool>, from: int)
    requires
        keyboard.len() == 16,
        0 <= from <= 16,
    ensures
        from <= first_pressed(keyboard, from) <= 16,
        first_pressed(keyboard, from) < 16 ==> keyboard[first_pressed(keyboard, from)],
        forall|j: int| from <= j < first_pressed(keyboard, from) ==> !keyboard[j],
    decreases 16 - from,
{
    if from < 16 && !keyboard[from] {
        lemma_first_pressed(keyboard, from + 1);
    }
}

/// `FX0A` stores the lowest held key in `VX`, or, with no key held, steps
/// back so that it runs again.
pub proof fn lemma_opcode_wait_key(s: CpuView, op: u16, r: u8)
    requires
        has_machine_shape(s),
        op / 0x1000 == 0xF,
        op % 0x100 == 0x0A,
    ensures
        ({
            let x = ((op / 0x100) % 0x10) as int;
            let t = execute_spec(s, decode_spec(op), r);
            &&& (exists|j: int| 0 <= j < 16 && #[trigger] s.keyboard[j]) ==> {
                &&& t == CpuView { v: s.v.update(x, t.v[x]), ..s }
                &&& t.v[x] < 16
                &&& s.keyboard[t.v[x] as int]
                &&& forall|j: int| 0 <= j < t.v[x] ==> !#[trigger] s.keyboard[j]
            }
            &&& (forall|j: int| 0 <= j < 16 ==> !#[trigger] s.keyboard[j]) && s.pc >= 2 ==> t
                == CpuView { pc: (s.pc - 2) as u16, ..s }
        }),
{
    lemma_first_pressed(s.keyboard, 0);
    let x = ((op / 0x100) % 0x10) as int;
    let t = execute_spec(s, decode_spec(op), r);
    if exists|j: int| 0 <= j < 16 && #[trigger] s.keyboard[j] {
        let j = choose|j: int| 0 <= j < 16 && #[trigger] s.keyboard[j];
        assert(first_pressed(s.keyboard, 0) <= j);
        assert(t.v =~= s.v.update(x, t.v[x]));
    }
}

/// The weight of the `col`-th pixel of a sprite row, counted from the left:
/// rows are drawn most significant bit first.
pub open spec fn column_weight(col: int) -> int {
    if col == 0 {
        128
    } else if col == 1 {
        64
    } else if col == 2 {
        32
    } else if col == 3 {
        16
    } else if col == 4 {
        8
    } else if col == 5 {
        4
    } else if col == 6 {
        2
    } else {
        1
    }
}

/// Whether the `col`-th pixel from the left of a sprite row is lit.
pub open spec fn row_pixel_lit(byte: u8, col: int) -> bool {
    (byte as int / column_weight(col)) % 2 == 1
}

/// The screen index on which pixel `(row, col)` of a sprite drawn at
/// `(vx, vy)` lands, wrapping round both edges of the 64 by 32 screen.
pub open spec fn landing(vx: u8, vy: u8, row: int, col: int) -> int {
    ((vy as int % 32 + row) % 32) * 64 + (vx as int % 64 + col) % 64
}

/// The shift-and-mask reading of a sprite row agrees with its weights.
proof fn lemma_sprite_pixel_weights(b: u8, col: int)
    requires
        0 <= col < 8,
    ensures
        sprite_pixel(b, col) == row_pixel_lit(b, col),
{
    if col == 0 {
        assert(((b >> 7u8) & 1u8 == 1u8) == ((b / 128) % 2 == 1)) by (bit_vector);
    } else if col == 1 {
        assert(((b >> 6u8) & 1u8 == 1u8) == ((b / 64) % 2 == 1)) by (bit_vector);
    } else if col == 2 {
        assert(((b >> 5u8) & 1u8 == 1u8) == ((b / 32) % 2 == 1)) by (bit_vector);
    } else if col == 3 {
        assert(((b >> 4u8) & 1u8 == 1u8) == ((b / 16) % 2 == 1)) by (bit_vector);
    } else if col == 4 {
        assert(((b >> 3u8) & 1u8 == 1u8) == ((b / 8) % 2 == 1)) by (bit_vector);
    } else if col == 5 {
        assert(((b >> 2u8) & 1u8 == 1u8) == ((b / 4) % 2 == 1)) by (bit_vector);
    } else if col == 6 {
        assert(((b >> 1u8) & 1u8 == 1u8) == ((b / 2) % 2 == 1)) by (bit_vector);
    } else {
        assert(((b >> 0u8) & 1u8 == 1u8) == (b % 2 == 1)) by (bit_vector);
    }
}

/// `DXYN` draws the `N` rows at `I` with their top-left corner at
/// `(VX mod 64, VY mod 32)`, wrapping round the screen: each lit sprite
/// pixel flips the screen pixel it lands on, no other screen pixel changes,
/// `VF` is 1 exactly when some lit screen pixel was turned off, and a redraw
/// is requested. Nothing but the screen and `VF` changes.
pub proof fn lemma_opcode_draw(s: CpuView, op: u16, r: u8, row: int, col: int, p: int)
    requires
        has_machine_shape(s),
        op / 0x1000 == 0xD,
        op % 0x10 >= 1,
        s.i + op % 0x10 <= 4096,
    ensures
        ({
            let x = ((op / 0x100) % 0x10) as int;
            let y = ((op / 0x10) % 0x10) as int;
            let n = (op % 0x10) as int;
            let t = execute_spec(s, decode_spec(op), r);
            &&& t == CpuView { display: t.display, v: s.v.update(15, t.v[15]), draw_flag: true, ..s }
            &&& t.display.len() == 2048
            &&& 0 <= row < n && 0 <= col < 8 ==> {
                let q = landing(s.v[x], s.v[y], row, col);
                t.display[q] == (s.display[q] != row_pixel_lit(s.memory[s.i + row], col))
            }
            &&& 0 <= p < 2048 && t.display[p] != s.display[p] ==> exists|row2: int, col2: int|
                0 <= row2 < n && 0 <= col2 < 8 && p == #[trigger] landing(s.v[x], s.v[y], row2, col2)
                    && row_pixel_lit(s.memory[s.i + row2], col2)
            &&& t.v[15] == if exists|q: int| 0 <= q < 2048 && #[trigger] s.display[q] && !t.display[q] {
                1u8
            } else {
                0u8
            }
        }),
{
    let x = ((op / 0x100) % 0x10) as int;
    let y = ((op / 0x10) % 0x10) as int;
    let n = (op % 0x10) as int;
    let xp = s.v[x] as int % 64;
    let yp = s.v[y] as int % 32;
    let t = execute_spec(s, decode_spec(op), r);
    assert(t.v =~= s.v.update(15, t.v[15]));
    if 0 <= row < n && 0 <= col < 8 {
        let q = landing(s.v[x], s.v[y], row, col);
        lemma_sprite_target(xp, yp, row, col, q);
        assert(sprite_column(s, x, q) == col);
        assert(sprite_row(s, y, q) == row);
        lemma_sprite_pixel_weights(s.memory[s.i + row], col);
    }
    if 0 <= p < 2048 && t.display[p] != s.display[p] {
        assert(sprite_covers(s, x, y, n, p));
        let row2 = sprite_row(s, y, p);
        let col2 = sprite_column(s, x, p);
        let q = landing(s.v[x], s.v[y], row2, col2);
        lemma_sprite_target_unique(xp, yp, row2, col2, q, p);
        lemma_sprite_pixel_weights(s.memory[s.i + row2], col2);
        assert(p == landing(s.v[x], s.v[y], row2, col2));
    }
    let turned_off = exists|q: int| 0 <= q < 2048 && #[trigger] s.display[q] && !t.display[q];
    let collided = exists|q: int|
        0 <= q < 2048 && #[trigger] sprite_covers(s, x, y, n, q) && s.display[q];
    if turned_off {
        let q = choose|q: int| 0 <= q < 2048 && #[trigger] s.display[q] && !t.display[q];
        assert(sprite_covers(s, x, y, n, q));
    }
    if collided {
        let q = choose|q: int| 0 <= q < 2048 && #[trigger] sprite_covers(s, x, y, n, q) && s.display[q];
        assert(s.display[q] && !t.display[q]);
    }
    assert(turned_off == collided);
}

/// Every opcode outside the instruction set leaves the machine unchanged:
/// `0NNN` other than `00E0` and `00EE`, `5XYN` and `9XYN` with `N` not 0,
/// `8XYN` with `N` in `8..=D` or `F`, `EXNN` other than `9E` and `A1`, and
/// `FXNN` other than `07 0A 15 18 1E 29 33 55 65`.
pub proof fn lemma_opcode_unknown(s: CpuView, op: u16, r: u8)
    ensures
        ({
            let k = op / 0x1000;
            let n = op % 0x10;
            let nn = op % 0x100;
            let unknown = {
                ||| k == 0x0 && op != 0x00E0 && op != 0x00EE
                ||| (k == 0x5 || k == 0x9) && n != 0
                ||| k == 0x8 && 8 <= n <= 0xD
                ||| k == 0x8 && n == 0xF
                ||| k == 0xE && nn != 0x9E && nn != 0xA1
                ||| k == 0xF && nn != 0x07 && nn != 0x0A && nn != 0x15 && nn != 0x18 && nn != 0x1E
                    && nn != 0x29 && nn != 0x33 && nn != 0x55 && nn != 0x65
            };
            unknown ==> decode_spec(op) == Instruction::Unknown(op) && execute_spec(
                s,
                decode_spec(op),
                r,
            ) == s
        }),
{
}

/// An opcode cannot be executed exactly when it would pop an empty stack
/// (`00EE`), push onto a full one (`2NNN`), skip past the end of the address
/// space, read or write past the end of memory (`DXYN`, `FX33`, `FX55`,
/// `FX65`), read a key that does not exist (`EX9E`, `EXA1`), step back below
/// address 0 while waiting for a key (`FX0A`), or overflow `I` (`FX1E`).
pub proof fn lemma_opcode_definedness(s: CpuView, op: u16)
    requires
        has_machine_shape(s),
    ensures
        ({
            let k = op / 0x1000;
            let x = ((op / 0x100) % 0x10) as int;
            let y = ((op / 0x10) % 0x10) as int;
            let n = op % 0x10;
            let nn = op % 0x100;
            let skip_overflows = s.pc > 0xFFFD;
            !can_execute(s, decode_spec(op)) <==> {
                ||| op == 0x00EE && !(1 <= s.sp <= 16)
                ||| k == 0x2 && s.sp >= 16
                ||| k == 0x3 && s.v[x] == nn && skip_overflows
                ||| k == 0x4 && s.v[x] != nn && skip_overflows
                ||| k == 0x5 && n == 0 && s.v[x] == s.v[y] && skip_overflows
                ||| k == 0x9 && n == 0 && s.v[x] != s.v[y] && skip_overflows
                ||| k == 0xD && n > 0 && s.i + n > 4096
                ||| k == 0xE && (nn == 0x9E || nn == 0xA1) && s.v[x] >= 16
                ||| k == 0xE && nn == 0x9E && s.v[x] < 16 && s.keyboard[s.v[x] as int]
                    && skip_overflows
                ||| k == 0xE && nn == 0xA1 && s.v[x] < 16 && !s.keyboard[s.v[x] as int]
                    && skip_overflows
                ||| k == 0xF && nn == 0x0A && (forall|j: int| 0 <= j < 16 ==> !#[trigger] s.keyboard[j])
                    && s.pc < 2
                ||| k == 0xF && nn == 0x1E && s.i + s.v[x] > 0xFFFF
                ||| k == 0xF && nn == 0x33 && s.i + 2 >= 4096
                ||| k == 0xF && (nn == 0x55 || nn == 0x65) && s.i + x >= 4096
            }
        }),
{
    lemma_first_pressed(s.keyboard, 0);
    if first_pressed(s.keyboard, 0) < 16 {
        assert(s.keyboard[first_pressed(s.keyboard, 0)]);
    }
}

} // verus!
