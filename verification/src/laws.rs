//! Properties of the instruction set that hold across instructions and states.
use vstd::prelude::*;
use crate::model::{
    CpuView, FONT_START, Instruction, can_execute, cycle_spec, decode_spec, end_frame,
    execute_spec, first_pressed, font, initial_state, opcode_at, sprite_column, sprite_covers,
    sprite_pixel, sprite_row, tick_timers_spec,
};
use crate::cpu::lemma_sprite_target;
use crate::display::{THEME_COUNT, palette, theme_name_spec};

verus! {

/// Calling a subroutine and returning from it comes back to the instruction
/// after the call with the stack pointer restored; only the stack slot that
/// held the return address keeps it.
pub proof fn lemma_call_then_return(s: CpuView, target: u16, r1: u8, r2: u8)
    requires
        s.sp < 16,
        s.stack.len() == 16,
    ensures
        execute_spec(execute_spec(s, Instruction::Call(target), r1), Instruction::Return, r2)
            == (CpuView { stack: s.stack.update(s.sp as int, s.pc), ..s }),
{
}

/// Drawing the same sprite twice at the same place leaves the screen as it
/// was, as long as neither coordinate register is `VF` (which the first draw
/// overwrites with its collision flag).
pub proof fn lemma_draw_twice_restores_screen(s: CpuView, x: usize, y: usize, n: u8, r1: u8, r2: u8)
    requires
        x < 15,
        y < 15,
        s.v.len() == 16,
        s.display.len() == 2048,
    ensures
        execute_spec(execute_spec(s, Instruction::Draw(x, y, n), r1), Instruction::Draw(x, y, n), r2).display
            == s.display,
{
    let s1 = execute_spec(s, Instruction::Draw(x, y, n), r1);
    let s2 = execute_spec(s1, Instruction::Draw(x, y, n), r2);
    assert forall|idx: int| 0 <= idx < 2048 implies #[trigger] sprite_covers(
        s1,
        x as int,
        y as int,
        n as int,
        idx,
    ) == sprite_covers(s, x as int, y as int, n as int, idx) by {
        assert(s1.v[x as int] == s.v[x as int]);
        assert(s1.v[y as int] == s.v[y as int]);
    }
    assert(s2.display =~= s.display);
}

/// A sprite row of zero bits has no lit pixel; any other row has one.
proof fn lemma_sprite_row_bits(b: u8)
    ensures
        b == 0 ==> forall|col: int| 0 <= col < 8 ==> !#[trigger] sprite_pixel(b, col),
        b != 0 ==> exists|col: int| 0 <= col < 8 && #[trigger] sprite_pixel(b, col),
{
    assert(forall|k: u8| (0u8 >> k) & 1u8 == 0u8) by (bit_vector);
    assert(b != 0 ==> (b >> 7u8) & 1u8 == 1u8 || (b >> 6u8) & 1u8 == 1u8 || (b >> 5u8) & 1u8 == 1u8
        || (b >> 4u8) & 1u8 == 1u8 || (b >> 3u8) & 1u8 == 1u8 || (b >> 2u8) & 1u8 == 1u8 || (b
        >> 1u8) & 1u8 == 1u8 || (b >> 0u8) & 1u8 == 1u8) by (bit_vector);
    if b != 0 {
        if sprite_pixel(b, 0) {
        } else if sprite_pixel(b, 1) {
        } else if sprite_pixel(b, 2) {
        } else if sprite_pixel(b, 3) {
        } else if sprite_pixel(b, 4) {
        } else if sprite_pixel(b, 5) {
        } else if sprite_pixel(b, 6) {
        } else {
            assert(sprite_pixel(b, 7));
        }
    }
}

/// On a blank screen, drawing a sprite reports no collision, and drawing it
/// again at the same place reports one exactly when some row of the sprite is
/// not zero (neither coordinate register being `VF`).
pub proof fn lemma_redraw_on_blank_reports_sprite(s: CpuView, x: usize, y: usize, n: u8, r1: u8, r2: u8)
    requires
        x < 15,
        y < 15,
        n < 16,
        s.v.len() == 16,
        s.display.len() == 2048,
        s.memory.len() == 4096,
        n > 0 ==> s.i + n <= 4096,
        forall|k: int| 0 <= k < 2048 ==> !#[trigger] s.display[k],
    ensures
        execute_spec(s, Instruction::Draw(x, y, n), r1).v[15] == 0,
        execute_spec(execute_spec(s, Instruction::Draw(x, y, n), r1), Instruction::Draw(x, y, n), r2).v[15]
            == (if exists|row: int| 0 <= row < n && #[trigger] s.memory[s.i + row] != 0 {
            1u8
        } else {
            0u8
        }),
{
    let (xi, yi, ni) = (x as int, y as int, n as int);
    let s1 = execute_spec(s, Instruction::Draw(x, y, n), r1);
    assert(!exists|idx: int|
        0 <= idx < 2048 && #[trigger] sprite_covers(s, xi, yi, ni, idx) && s.display[idx]);
    assert forall|idx: int| 0 <= idx < 2048 implies #[trigger] sprite_covers(s1, xi, yi, ni, idx)
        == sprite_covers(s, xi, yi, ni, idx) by {
        assert(s1.v[xi] == s.v[xi]);
        assert(s1.v[yi] == s.v[yi]);
    }
    let hit = exists|idx: int|
        0 <= idx < 2048 && #[trigger] sprite_covers(s1, xi, yi, ni, idx) && s1.display[idx];
    let nonzero = exists|row: int| 0 <= row < n && #[trigger] s.memory[s.i + row] != 0;
    if hit {
        let idx = choose|idx: int|
            0 <= idx < 2048 && #[trigger] sprite_covers(s1, xi, yi, ni, idx) && s1.display[idx];
        let row = sprite_row(s, yi, idx);
        lemma_sprite_row_bits(s.memory[s.i + row]);
        assert(s.memory[s.i + row] != 0);
    }
    if nonzero {
        let row = choose|row: int| 0 <= row < n && #[trigger] s.memory[s.i + row] != 0;
        lemma_sprite_row_bits(s.memory[s.i + row]);
        let col = choose|col: int| 0 <= col < 8 && #[trigger] sprite_pixel(s.memory[s.i + row], col);
        let xp = s.v[xi] as int % 64;
        let yp = s.v[yi] as int % 32;
        let idx = ((yp + row) % 32) * 64 + (xp + col) % 64;
        lemma_sprite_target(xp, yp, row, col, idx);
        assert(sprite_column(s, xi, idx) == col);
        assert(sprite_row(s, yi, idx) == row);
        assert(sprite_covers(s, xi, yi, ni, idx));
        assert(sprite_covers(s1, xi, yi, ni, idx) && s1.display[idx]);
    }
    assert(hit == nonzero);
}

/// `FX29` points `I` at the glyph of the digit in `VX`: while the font loaded
/// at start is in place, the five bytes at `I` are that glyph.
pub proof fn lemma_font_char_points_at_glyph(s: CpuView, x: usize, r: u8)
    requires
        x < 16,
        s.v.len() == 16,
        s.v[x as int] < 16,
        s.memory.len() == 4096,
        forall|k: int| 0 <= k < 80 ==> #[trigger] s.memory[FONT_START + k] == font()[k],
    ensures
        ({
            let t = execute_spec(s, Instruction::FontChar(x), r);
            &&& t.i == FONT_START + 5 * s.v[x as int]
            &&& forall|k: int|
                0 <= k < 5 ==> #[trigger] t.memory[t.i + k] == font()[5 * s.v[x as int] + k]
        }),
{
    let t = execute_spec(s, Instruction::FontChar(x), r);
    assert forall|k: int| 0 <= k < 5 implies #[trigger] t.memory[t.i + k] == font()[5
        * s.v[x as int] + k] by {
        assert(s.memory[FONT_START + (5 * s.v[x as int] + k)] == font()[5 * s.v[x as int] + k]);
    }
}

/// Of the paired skips `3XNN`/`4XNN`, `5XY0`/`9XY0` and `EX9E`/`EXA1`, exactly
/// one skips the next instruction in any state, and neither changes anything
/// but the program counter.
pub proof fn lemma_paired_skips_complement(s: CpuView, x: usize, y: usize, nn: u8, r: u8)
    requires
        x < 16,
        y < 16,
        s.v.len() == 16,
        s.keyboard.len() == 16,
        s.pc <= 0xFFFD,
    ensures
        ({
            let a = execute_spec(s, Instruction::SkipIfEqual(x, nn), r);
            let b = execute_spec(s, Instruction::SkipIfNotEqual(x, nn), r);
            &&& a == (CpuView { pc: a.pc, ..s }) && b == (CpuView { pc: b.pc, ..s })
            &&& (a.pc == s.pc + 2 && b.pc == s.pc) || (a.pc == s.pc && b.pc == s.pc + 2)
        }),
        ({
            let a = execute_spec(s, Instruction::SkipIfRegistersEqual(x, y), r);
            let b = execute_spec(s, Instruction::SkipIfRegistersDiffer(x, y), r);
            &&& a == (CpuView { pc: a.pc, ..s }) && b == (CpuView { pc: b.pc, ..s })
            &&& (a.pc == s.pc + 2 && b.pc == s.pc) || (a.pc == s.pc && b.pc == s.pc + 2)
        }),
        s.v[x as int] < 16 ==> ({
            let a = execute_spec(s, Instruction::SkipIfKey(x), r);
            let b = execute_spec(s, Instruction::SkipIfNotKey(x), r);
            &&& a == (CpuView { pc: a.pc, ..s }) && b == (CpuView { pc: b.pc, ..s })
            &&& (a.pc == s.pc + 2 && b.pc == s.pc) || (a.pc == s.pc && b.pc == s.pc + 2)
        }),
{
}

/// `FX33` stores the three decimal digits of `VX`, most significant first.
pub proof fn lemma_bcd_digits(s: CpuView, x: usize, r: u8)
    requires
        x < 16,
        s.v.len() == 16,
        s.memory.len() == 4096,
        can_execute(s, Instruction::StoreBcd(x)),
    ensures
        ({
            let t = execute_spec(s, Instruction::StoreBcd(x), r);
            let at = s.i as int;
            &&& t.memory[at] < 10 && t.memory[at + 1] < 10 && t.memory[at + 2] < 10
            &&& 100 * t.memory[at] + 10 * t.memory[at + 1] + t.memory[at + 2] == s.v[x as int]
        }),
{
}

/// Loading registers right after storing them (`FX55` then `FX65` with the
/// same `X`) gives them back unchanged.
pub proof fn lemma_store_then_load(s: CpuView, x: usize, r1: u8, r2: u8)
    requires
        x < 16,
        s.v.len() == 16,
        s.memory.len() == 4096,
        can_execute(s, Instruction::StoreRegisters(x)),
    ensures
        ({
            let stored = execute_spec(s, Instruction::StoreRegisters(x), r1);
            execute_spec(stored, Instruction::LoadRegisters(x), r2) == stored
        }),
{
    let stored = execute_spec(s, Instruction::StoreRegisters(x), r1);
    let loaded = execute_spec(stored, Instruction::LoadRegisters(x), r2);
    assert(loaded.v =~= s.v);
}

/// `8XY4` leaves the 9-bit sum in `VX` and the carry in `VF` (when `X` is
/// not `F`, whose flag would overwrite the result).
pub proof fn lemma_add_carries(s: CpuView, x: usize, y: usize, r: u8)
    requires
        x < 15,
        y < 16,
        s.v.len() == 16,
    ensures
        ({
            let t = execute_spec(s, Instruction::AddRegisters(x, y), r);
            t.v[x as int] + 256 * t.v[15] == s.v[x as int] + s.v[y as int]
        }),
{
    let sum = s.v[x as int] + s.v[y as int];
    assert(sum > 255 ==> sum % 256 == sum - 256);
}

/// `8XY5` leaves `VX - VY` in `VX`, borrowing 256 exactly when `VF` is clear.
pub proof fn lemma_subtract_borrows(s: CpuView, x: usize, y: usize, r: u8)
    requires
        x < 15,
        y < 16,
        s.v.len() == 16,
    ensures
        ({
            let t = execute_spec(s, Instruction::Subtract(x, y), r);
            t.v[x as int] - 256 * (1 - t.v[15]) == s.v[x as int] - s.v[y as int]
        }),
{
    let d = s.v[x as int] - s.v[y as int];
    assert(d < 0 ==> d % 256 == d + 256);
}

/// `8XY7` leaves `VY - VX` in `VX`, borrowing 256 exactly when `VF` is clear.
pub proof fn lemma_subtract_reversed_borrows(s: CpuView, x: usize, y: usize, r: u8)
    requires
        x < 15,
        y < 16,
        s.v.len() == 16,
    ensures
        ({
            let t = execute_spec(s, Instruction::SubtractReversed(x, y), r);
            t.v[x as int] - 256 * (1 - t.v[15]) == s.v[y as int] - s.v[x as int]
        }),
{
    let d = s.v[y as int] - s.v[x as int];
    assert(d < 0 ==> d % 256 == d + 256);
}

/// `8XY6` and `8XYE` shift `VX` by one bit and keep the bit shifted out in `VF`.
pub proof fn lemma_shifts_keep_lost_bit(s: CpuView, x: usize, y: usize, r: u8)
    requires
        x < 15,
        s.v.len() == 16,
    ensures
        ({
            let t = execute_spec(s, Instruction::ShiftRight(x, y), r);
            2 * t.v[x as int] + t.v[15] == s.v[x as int]
        }),
        ({
            let t = execute_spec(s, Instruction::ShiftLeft(x, y), r);
            t.v[x as int] + 256 * t.v[15] == 2 * s.v[x as int]
        }),
{
    let b = s.v[x as int];
    assert((b * 2) % 256 == b * 2 - 256 * (b / 128));
}

/// Every defined instruction keeps the stack pointer within the 16-entry
/// stack, and keeps the sizes of memory, screen, stack, registers and keypad.
pub proof fn lemma_execute_keeps_shape(s: CpuView, op: u16, r: u8)
    requires
        s.sp <= 16,
        s.memory.len() == 4096,
        s.display.len() == 2048,
        s.stack.len() == 16,
        s.v.len() == 16,
        s.keyboard.len() == 16,
        can_execute(s, decode_spec(op)),
    ensures
        ({
            let t = execute_spec(s, decode_spec(op), r);
            &&& t.sp <= 16
            &&& t.memory.len() == 4096
            &&& t.display.len() == 2048
            &&& t.stack.len() == 16
            &&& t.v.len() == 16
            &&& t.keyboard.len() == 16
        }),
{
}

/// Only `00E0` and `DXYN` change the screen or raise the redraw flag, and
/// only `FX33` and `FX55` write memory.
pub proof fn lemma_screen_and_memory_writers(s: CpuView, op: u16, r: u8)
    ensures
        ({
            let ins = decode_spec(op);
            let t = execute_spec(s, ins, r);
            &&& !(ins is ClearScreen || ins is Draw) ==> t.display == s.display && t.draw_flag
                == s.draw_flag
            &&& !(ins is StoreBcd || ins is StoreRegisters) ==> t.memory == s.memory
        }),
{
}

/// A cycle on `FX0A` while no key is held changes nothing: the machine waits
/// on the same instruction.
pub proof fn lemma_wait_key_blocks(s: CpuView, r: u8)
    requires
        s.pc + 1 < 4096,
        decode_spec(opcode_at(s)) is WaitKey,
        first_pressed(s.keyboard, 0) >= 16,
    ensures
        cycle_spec(s, r) == s,
{
    reveal(cycle_spec);
}

/// Timers never count up, and a running timer counts down by exactly one.
pub proof fn lemma_timers_count_down(s: CpuView)
    ensures
        tick_timers_spec(s).delay_timer <= s.delay_timer,
        tick_timers_spec(s).sound_timer <= s.sound_timer,
        s.delay_timer > 0 ==> tick_timers_spec(s).delay_timer == s.delay_timer - 1,
        s.sound_timer > 0 ==> tick_timers_spec(s).sound_timer == s.sound_timer - 1,
{
}

/// Moving to the next theme and back returns to the same theme, and moving
/// forward `THEME_COUNT` times comes round to the start.
pub proof fn lemma_theme_cycle(theme: int)
    requires
        0 <= theme < THEME_COUNT,
    ensures
        ({
            let next = (theme + 1) % (THEME_COUNT as int);
            (if next == 0 { THEME_COUNT - 1 } else { next - 1 }) == theme
        }),
        0 <= (theme + 1) % (THEME_COUNT as int) < THEME_COUNT,
{
}

/// The end of a frame counts each running timer down by exactly one, leaves
/// a stopped timer at zero, takes the redraw flag, and changes nothing else.
pub proof fn lemma_end_frame_ticks_timers(s: CpuView)
    ensures
        end_frame(s) == (CpuView {
            delay_timer: if s.delay_timer > 0 { (s.delay_timer - 1) as u8 } else { 0 },
            sound_timer: if s.sound_timer > 0 { (s.sound_timer - 1) as u8 } else { 0 },
            draw_flag: false,
            ..s
        }),
{
}

/// A fresh machine holds the standard CHIP-8 hexadecimal glyphs, five rows
/// each, from `0x50`: the glyph of digit `d` at `0x50 + 5 * d`.
pub proof fn lemma_fresh_machine_font()
    ensures
        ({
            let m = initial_state().memory;
            &&& m.subrange(0x50, 0x55) == seq![0xF0u8, 0x90, 0x90, 0x90, 0xF0]
            &&& m.subrange(0x55, 0x5A) == seq![0x20u8, 0x60, 0x20, 0x20, 0x70]
            &&& m.subrange(0x5A, 0x5F) == seq![0xF0u8, 0x10, 0xF0, 0x80, 0xF0]
            &&& m.subrange(0x5F, 0x64) == seq![0xF0u8, 0x10, 0xF0, 0x10, 0xF0]
            &&& m.subrange(0x64, 0x69) == seq![0x90u8, 0x90, 0xF0, 0x10, 0x10]
            &&& m.subrange(0x69, 0x6E) == seq![0xF0u8, 0x80, 0xF0, 0x10, 0xF0]
            &&& m.subrange(0x6E, 0x73) == seq![0xF0u8, 0x80, 0xF0, 0x90, 0xF0]
            &&& m.subrange(0x73, 0x78) == seq![0xF0u8, 0x10, 0x20, 0x40, 0x40]
            &&& m.subrange(0x78, 0x7D) == seq![0xF0u8, 0x90, 0xF0, 0x90, 0xF0]
            &&& m.subrange(0x7D, 0x82) == seq![0xF0u8, 0x90, 0xF0, 0x10, 0xF0]
            &&& m.subrange(0x82, 0x87) == seq![0xF0u8, 0x90, 0xF0, 0x90, 0x90]
            &&& m.subrange(0x87, 0x8C) == seq![0xE0u8, 0x90, 0xE0, 0x90, 0xE0]
            &&& m.subrange(0x8C, 0x91) == seq![0xF0u8, 0x80, 0x80, 0x80, 0xF0]
            &&& m.subrange(0x91, 0x96) == seq![0xE0u8, 0x90, 0x90, 0x90, 0xE0]
            &&& m.subrange(0x96, 0x9B) == seq![0xF0u8, 0x80, 0xF0, 0x80, 0xF0]
            &&& m.subrange(0x9B, 0xA0) == seq![0xF0u8, 0x80, 0xF0, 0x80, 0x80]
        }),
{
    let m = initial_state().memory;
    assert(m.subrange(0x50, 0x55) =~= seq![0xF0u8, 0x90, 0x90, 0x90, 0xF0]);
    assert(m.subrange(0x55, 0x5A) =~= seq![0x20u8, 0x60, 0x20, 0x20, 0x70]);
    assert(m.subrange(0x5A, 0x5F) =~= seq![0xF0u8, 0x10, 0xF0, 0x80, 0xF0]);
    assert(m.subrange(0x5F, 0x64) =~= seq![0xF0u8, 0x10, 0xF0, 0x10, 0xF0]);
    assert(m.subrange(0x64, 0x69) =~= seq![0x90u8, 0x90, 0xF0, 0x10, 0x10]);
    assert(m.subrange(0x69, 0x6E) =~= seq![0xF0u8, 0x80, 0xF0, 0x10, 0xF0]);
    assert(m.subrange(0x6E, 0x73) =~= seq![0xF0u8, 0x80, 0xF0, 0x90, 0xF0]);
    assert(m.subrange(0x73, 0x78) =~= seq![0xF0u8, 0x10, 0x20, 0x40, 0x40]);
    assert(m.subrange(0x78, 0x7D) =~= seq![0xF0u8, 0x90, 0xF0, 0x90, 0xF0]);
    assert(m.subrange(0x7D, 0x82) =~= seq![0xF0u8, 0x90, 0xF0, 0x10, 0xF0]);
    assert(m.subrange(0x82, 0x87) =~= seq![0xF0u8, 0x90, 0xF0, 0x90, 0x90]);
    assert(m.subrange(0x87, 0x8C) =~= seq![0xE0u8, 0x90, 0xE0, 0x90, 0xE0]);
    assert(m.subrange(0x8C, 0x91) =~= seq![0xF0u8, 0x80, 0x80, 0x80, 0xF0]);
    assert(m.subrange(0x91, 0x96) =~= seq![0xE0u8, 0x90, 0x90, 0x90, 0xE0]);
    assert(m.subrange(0x96, 0x9B) =~= seq![0xF0u8, 0x80, 0xF0, 0x80, 0xF0]);
    assert(m.subrange(0x9B, 0xA0) =~= seq![0xF0u8, 0x80, 0xF0, 0x80, 0x80]);
}

/// The glyph of a digit in the font, five rows of one byte.
pub open spec fn glyph(d: int) -> Seq<u8> {
    font().subrange(5 * d, 5 * d + 5)
}

/// The glyph rows of a digit read as one number, first row highest.
spec fn glyph_number(d: int) -> int {
    font()[5 * d] * 0x1_0000_0000 + font()[5 * d + 1] * 0x100_0000 + font()[5 * d + 2] * 0x1_0000
        + font()[5 * d + 3] * 0x100 + font()[5 * d + 4]
}

/// Every glyph is four pixels wide (the low four bits of each row are clear),
/// and no two digits share a glyph.
pub proof fn lemma_font_glyphs_distinct(d1: int, d2: int)
    requires
        0 <= d1 < 16,
        0 <= d2 < 16,
    ensures
        forall|k: int| 0 <= k < 80 ==> #[trigger] font()[k] % 16 == 0,
        d1 != d2 ==> glyph(d1) != glyph(d2),
{
    assert(glyph_number(0) == 0xF0909090F0);
    assert(glyph_number(1) == 0x2060202070);
    assert(glyph_number(2) == 0xF010F080F0);
    assert(glyph_number(3) == 0xF010F010F0);
    assert(glyph_number(4) == 0x9090F01010);
    assert(glyph_number(5) == 0xF080F010F0);
    assert(glyph_number(6) == 0xF080F090F0);
    assert(glyph_number(7) == 0xF010204040);
    assert(glyph_number(8) == 0xF090F090F0);
    assert(glyph_number(9) == 0xF090F010F0);
    assert(glyph_number(10) == 0xF090F09090);
    assert(glyph_number(11) == 0xE090E090E0);
    assert(glyph_number(12) == 0xF0808080F0);
    assert(glyph_number(13) == 0xE0909090E0);
    assert(glyph_number(14) == 0xF080F080F0);
    assert(glyph_number(15) == 0xF080F08080);
    if d1 != d2 && glyph(d1) == glyph(d2) {
        assert(glyph(d1)[0] == glyph(d2)[0] && glyph(d1)[1] == glyph(d2)[1] && glyph(d1)[2]
            == glyph(d2)[2] && glyph(d1)[3] == glyph(d2)[3] && glyph(d1)[4] == glyph(d2)[4]);
        assert(glyph_number(d1) == glyph_number(d2));
    }
}

/// A colour read as one number, red highest.
spec fn color_number(c: Seq<u8>) -> int {
    c[0] * 0x100_0000 + c[1] * 0x1_0000 + c[2] * 0x100 + c[3]
}

/// There are six themes; every theme shows lit and unlit pixels in different
/// opaque colours, no two themes share their colours, "Classic" is white on black, and "Green
/// Phosphor" lights pixels pure green.
pub proof fn lemma_theme_colors(t1: int, t2: int)
    requires
        0 <= t1 < THEME_COUNT,
        0 <= t2 < THEME_COUNT,
    ensures
        THEME_COUNT == 6,
        palette(t1).0.len() == 4 && palette(t1).1.len() == 4,
        palette(t1).0[3] == 0xFF && palette(t1).1[3] == 0xFF,
        palette(t1).0 != palette(t1).1,
        t1 != t2 ==> palette(t1) != palette(t2),
        theme_name_spec(0) == "Classic"@,
        palette(0) == (seq![0x00u8, 0x00, 0x00, 0xFF], seq![0xFFu8, 0xFF, 0xFF, 0xFF]),
        theme_name_spec(1) == "Green Phosphor"@,
        theme_name_spec(2) == "Amber Monitor"@,
        theme_name_spec(3) == "Synthwave"@,
        theme_name_spec(4) == "Cyan Neon"@,
        theme_name_spec(5) == "Game Boy"@,
        palette(1).1 == seq![0x00u8, 0xFF, 0x00, 0xFF],
{
    let code = |t: int| color_number(palette(t).0) * 0x1_0000_0000 + color_number(palette(t).1);
    assert(code(0) == 0x000000FF_FFFFFFFF);
    assert(code(1) == 0x000000FF_00FF00FF);
    assert(code(2) == 0x000000FF_FF6B00FF);
    assert(code(3) == 0x1A1A2EFF_E94F6FFF);
    assert(code(4) == 0x0D0D0DFF_00F5FFFF);
    assert(code(5) == 0x0F380FFF_8BAC0FFF);
    if palette(t1).0 == palette(t1).1 {
        assert(color_number(palette(t1).0) == color_number(palette(t1).1));
    }
    if t1 != t2 && palette(t1) == palette(t2) {
        assert(code(t1) == code(t2));
    }
    assert(palette(0).0 =~= seq![0x00u8, 0x00, 0x00, 0xFF]);
    assert(palette(0).1 =~= seq![0xFFu8, 0xFF, 0xFF, 0xFF]);
    assert(palette(1).1 =~= seq![0x00u8, 0xFF, 0x00, 0xFF]);
}

} // verus!
