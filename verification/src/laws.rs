//! Laws of the instruction set, each proved from the definitions of the
//! decoder, the executor and the blitter.

use vstd::prelude::*;
use crate::display::{
    blit, collides, landing, lemma_landing_unique, sprite_bit, sprite_covers_index,
    SCREEN_SIZE,
};
use crate::driver::{DriverState, Mode};
use crate::execute::{decimal_digits, flag, readable, step_spec, Flow};
use crate::fault::{Fault, FaultKind};
use crate::instruction::{
    decode_spec, field_n, field_nn, field_nnn, field_top, field_x, field_y, Instruction,
};
use crate::machine::{
    font, State, FLAG, FONT_BASE, FONT_SIZE, MEMORY_SIZE, PROGRAM_CAPACITY, PROGRAM_START,
    REGISTER_COUNT, STACK_DEPTH,
};

verus! {

/// Whether the two bytes at address `at` of the memory of `s` are `opcode`,
/// high byte first.
pub open spec fn holds_opcode(s: State, at: int, opcode: int) -> bool {
    &&& 0 <= at
    &&& at + 1 < MEMORY_SIZE
    &&& s.memory[at] * 256 + s.memory[at + 1] == opcode
}

/// The decoder takes an opcode apart into the nibbles it was put together
/// from.
pub proof fn lemma_fields(top: u16, x: u16, y: u16, n: u16)
    requires
        top < 16,
        x < 16,
        y < 16,
        n < 16,
    ensures
        top * 4096 + x * 256 + y * 16 + n <= u16::MAX,
        field_top((top * 4096 + x * 256 + y * 16 + n) as u16) == top,
        field_x((top * 4096 + x * 256 + y * 16 + n) as u16) == x,
        field_y((top * 4096 + x * 256 + y * 16 + n) as u16) == y,
        field_n((top * 4096 + x * 256 + y * 16 + n) as u16) == n,
        field_nn((top * 4096 + x * 256 + y * 16 + n) as u16) == y * 16 + n,
        field_nnn((top * 4096 + x * 256 + y * 16 + n) as u16) == x * 256 + y * 16 + n,
{
    let opcode: u16 = (top * 4096 + x * 256 + y * 16 + n) as u16;
    assert(opcode / 0x1000 == top && (opcode / 0x100) % 0x10 == x && (opcode / 0x10) % 0x10 == y
        && opcode % 0x10 == n && opcode % 0x100 == y * 16 + n && opcode % 0x1000 == x * 256 + y
        * 16 + n) by (bit_vector)
        requires
            top < 16,
            x < 16,
            y < 16,
            n < 16,
            opcode == top * 4096 + x * 256 + y * 16 + n,
    ;
}

/// An opcode made of a primary selector, a register selector and an
/// immediate byte decodes to these.
pub proof fn lemma_fields_xnn(top: u16, x: u16, nn: u16)
    requires
        top < 16,
        x < 16,
        nn < 256,
    ensures
        top * 4096 + x * 256 + nn <= u16::MAX,
        field_top((top * 4096 + x * 256 + nn) as u16) == top,
        field_x((top * 4096 + x * 256 + nn) as u16) == x,
        field_n((top * 4096 + x * 256 + nn) as u16) == nn % 16,
        field_nn((top * 4096 + x * 256 + nn) as u16) == nn,
{
    lemma_fields(top, x, nn / 16, nn % 16);
}

/// An opcode made of a primary selector and an immediate address decodes to
/// these.
pub proof fn lemma_fields_nnn(top: u16, nnn: u16)
    requires
        top < 16,
        nnn < 4096,
    ensures
        top * 4096 + nnn <= u16::MAX,
        field_top((top * 4096 + nnn) as u16) == top,
        field_n((top * 4096 + nnn) as u16) == nnn % 16,
        field_nn((top * 4096 + nnn) as u16) == nnn % 256,
        field_nnn((top * 4096 + nnn) as u16) == nnn,
{
    lemma_fields(top, nnn / 256, (nnn / 16) % 16, nnn % 16);
}

/// `6xnn` puts exactly `nn` in Vx, for every register, and moves the program
/// counter forward by exactly 2; nothing else changes.
pub proof fn law_load_immediate(s: State, x: u8, nn: u8, keys: Set<u8>, random: u8)
    requires
        s.wf(),
        x < REGISTER_COUNT,
        holds_opcode(s, s.pc as int, 0x6000 + x * 256 + nn),
    ensures
        step_spec(s, keys, random) == Ok::<(State, Flow), Fault>(
            (s.with_register(x as int, nn).next(), Flow::Continue),
        ),
        step_spec(s, keys, random)->Ok_0.0.v[x as int] == nn,
        step_spec(s, keys, random)->Ok_0.0.pc == s.pc + 2,
{
    lemma_fields_xnn(6, x as u16, nn as u16);
    assert(decode_spec(s.opcode()) == Instruction::Load { x, nn });
}

/// `7xnn` adds modulo 256 and sets no flag: Vx becomes (Vx + nn) mod 256 and
/// every other register, VF among them, keeps its value.
pub proof fn law_add_immediate_wraps(s: State, x: u8, nn: u8, keys: Set<u8>, random: u8)
    requires
        s.wf(),
        x < REGISTER_COUNT,
        holds_opcode(s, s.pc as int, 0x7000 + x * 256 + nn),
    ensures
        step_spec(s, keys, random) is Ok,
        step_spec(s, keys, random)->Ok_0.0.v[x as int] == (s.v[x as int] + nn) % 256,
        forall|r: int|
            0 <= r < REGISTER_COUNT && r != x ==> step_spec(s, keys, random)->Ok_0.0.v[r]
                == s.v[r],
        step_spec(s, keys, random)->Ok_0.0.pc == s.pc + 2,
{
    lemma_fields_xnn(7, x as u16, nn as u16);
    assert(decode_spec(s.opcode()) == Instruction::Add { x, nn });
}

/// `8xy4` sets the carry: Vx becomes (Vx + Vy) mod 256, and VF becomes 1 if
/// the sum exceeds 255 and 0 if not. Stated for a target register other than
/// VF, which cannot hold both the flag and the sum.
pub proof fn law_add_carry(s: State, x: u8, y: u8, keys: Set<u8>, random: u8)
    requires
        s.wf(),
        x < REGISTER_COUNT,
        y < REGISTER_COUNT,
        x != FLAG,
        holds_opcode(s, s.pc as int, 0x8004 + x * 256 + y * 16),
    ensures
        step_spec(s, keys, random) is Ok,
        step_spec(s, keys, random)->Ok_0.0.v[x as int] == (s.v[x as int] + s.v[y as int]) % 256,
        step_spec(s, keys, random)->Ok_0.0.v[FLAG as int] == flag(
            s.v[x as int] + s.v[y as int] > 255,
        ),
        step_spec(s, keys, random)->Ok_0.0.pc == s.pc + 2,
{
    lemma_fields(8, x as u16, y as u16, 4);
    assert(decode_spec(s.opcode()) == Instruction::AddRegisters { x, y });
    assert(step_spec(s, keys, random) == Ok::<(State, Flow), Fault>(
        (s.add_registers(x as int, y as int).next(), Flow::Continue),
    ));
}

/// `8xy5` sets the borrow flag: Vx becomes (Vx - Vy) mod 256, and VF becomes
/// 1 if Vx >= Vy and 0 if not. Stated for operands other than VF: the flag is
/// written before the difference is taken.
pub proof fn law_subtract_borrow(s: State, x: u8, y: u8, keys: Set<u8>, random: u8)
    requires
        s.wf(),
        x < REGISTER_COUNT,
        y < REGISTER_COUNT,
        x != FLAG,
        y != FLAG,
        holds_opcode(s, s.pc as int, 0x8005 + x * 256 + y * 16),
    ensures
        step_spec(s, keys, random) is Ok,
        step_spec(s, keys, random)->Ok_0.0.v[x as int] == (s.v[x as int] - s.v[y as int]) % 256,
        step_spec(s, keys, random)->Ok_0.0.v[FLAG as int] == flag(s.v[x as int] >= s.v[y as int]),
        step_spec(s, keys, random)->Ok_0.0.pc == s.pc + 2,
{
    lemma_fields(8, x as u16, y as u16, 5);
    assert(s.opcode() == 0x8005 + x * 256 + y * 16);
    assert(decode_spec(s.opcode()) == Instruction::Subtract { x, y });
    assert(step_spec(s, keys, random) == Ok::<(State, Flow), Fault>(
        (s.subtract(x as int, y as int).next(), Flow::Continue),
    ));
}

/// `8xy7` sets the borrow flag: Vx becomes (Vy - Vx) mod 256, and VF becomes
/// 1 if Vy >= Vx and 0 if not. Stated for operands other than VF: the flag is
/// written before the difference is taken.
pub proof fn law_subtract_reversed_borrow(s: State, x: u8, y: u8, keys: Set<u8>, random: u8)
    requires
        s.wf(),
        x < REGISTER_COUNT,
        y < REGISTER_COUNT,
        x != FLAG,
        y != FLAG,
        holds_opcode(s, s.pc as int, 0x8007 + x * 256 + y * 16),
    ensures
        step_spec(s, keys, random) is Ok,
        step_spec(s, keys, random)->Ok_0.0.v[x as int] == (s.v[y as int] - s.v[x as int]) % 256,
        step_spec(s, keys, random)->Ok_0.0.v[FLAG as int] == flag(s.v[y as int] >= s.v[x as int]),
        step_spec(s, keys, random)->Ok_0.0.pc == s.pc + 2,
{
    lemma_fields(8, x as u16, y as u16, 7);
    assert(s.opcode() == 0x8007 + x * 256 + y * 16);
    assert(decode_spec(s.opcode()) == Instruction::SubtractReversed { x, y });
    assert(step_spec(s, keys, random) == Ok::<(State, Flow), Fault>(
        (s.subtract_reversed(x as int, y as int).next(), Flow::Continue),
    ));
}

/// Whether a sprite drawn at `(cx, cy)` has a set bit on a pixel of `screen`
/// that is off.
pub open spec fn lights_a_pixel(screen: Seq<bool>, sprite: Seq<u8>, cx: int, cy: int) -> bool {
    exists|k: int|
        0 <= k < screen.len() && !screen[k] && #[trigger] sprite_covers_index(sprite, cx, cy, k)
}

/// XORing the same sprite at the same place twice restores the framebuffer,
/// and the second pass reports a collision exactly when the first one lit a
/// pixel.
pub proof fn law_blit_twice(screen: Seq<bool>, sprite: Seq<u8>, cx: int, cy: int)
    ensures
        blit(blit(screen, sprite, cx, cy), sprite, cx, cy) == screen,
        collides(blit(screen, sprite, cx, cy), sprite, cx, cy) == lights_a_pixel(
            screen,
            sprite,
            cx,
            cy,
        ),
{
    let once = blit(screen, sprite, cx, cy);
    assert(blit(once, sprite, cx, cy) =~= screen);
    if collides(once, sprite, cx, cy) {
        let k = choose|k: int|
            0 <= k < once.len() && once[k] && #[trigger] sprite_covers_index(sprite, cx, cy, k);
        assert(!screen[k]);
    }
    if lights_a_pixel(screen, sprite, cx, cy) {
        let k = choose|k: int|
            0 <= k < screen.len() && !screen[k] && #[trigger] sprite_covers_index(
                sprite,
                cx,
                cy,
                k,
            );
        assert(once[k]);
    }
}

/// Executing the same `Dxyn` twice in succession restores the framebuffer,
/// and leaves VF at 1 exactly when the first pass lit a pixel: so always when
/// the sprite was first drawn onto a region that was not fully lit.
///
/// Stated for coordinate registers other than VF, which the first pass
/// overwrites.
pub proof fn law_draw_twice(s: State, x: u8, y: u8, n: u8, keys: Set<u8>, random: u8)
    requires
        s.wf(),
        x < REGISTER_COUNT,
        y < REGISTER_COUNT,
        n < 16,
        x != FLAG,
        y != FLAG,
        holds_opcode(s, s.pc as int, 0xD000 + x * 256 + y * 16 + n),
        holds_opcode(s, s.pc + 2, 0xD000 + x * 256 + y * 16 + n),
        readable(s.index as int, n as int),
    ensures
        step_spec(s, keys, random) is Ok,
        step_spec(step_spec(s, keys, random)->Ok_0.0, keys, random) is Ok,
        step_spec(step_spec(s, keys, random)->Ok_0.0, keys, random)->Ok_0.0.screen == s.screen,
        step_spec(step_spec(s, keys, random)->Ok_0.0, keys, random)->Ok_0.0.v[FLAG as int] == flag(
            lights_a_pixel(s.screen, s.sprite(n as int), s.v[x as int] as int, s.v[y as int] as int),
        ),
{
    lemma_fields(0xD, x as u16, y as u16, n as u16);
    assert(s.opcode() == 0xD000 + x * 256 + y * 16 + n);
    assert(decode_spec(s.opcode()) == Instruction::Draw { x, y, n });
    let drawn = s.draw(x as int, y as int, n as int);
    assert(step_spec(s, keys, random) == Ok::<(State, Flow), Fault>((drawn.next(), Flow::Continue)));
    let once = drawn.next();
    assert(once.opcode() == s.opcode());
    assert(once.sprite(n as int) == s.sprite(n as int));
    assert(step_spec(once, keys, random) == Ok::<(State, Flow), Fault>(
        (once.draw(x as int, y as int, n as int).next(), Flow::Continue),
    ));
    law_blit_twice(s.screen, s.sprite(n as int), s.v[x as int] as int, s.v[y as int] as int);
}

/// Sprites wrap around both edges instead of being clipped: the bit at
/// `column` of `row` of a sprite drawn at `(cx, cy)` is XORed onto the pixel
/// at column `(cx + column) mod 64` of row `(cy + row) mod 32`.
pub proof fn law_sprite_wraps(
    screen: Seq<bool>,
    sprite: Seq<u8>,
    cx: int,
    cy: int,
    row: int,
    column: int,
)
    requires
        screen.len() == SCREEN_SIZE,
        sprite.len() <= 32,
        0 <= cx,
        0 <= cy,
        0 <= row < sprite.len(),
        0 <= column < 8,
    ensures
        0 <= landing(cx, cy, row, column) < SCREEN_SIZE,
        landing(cx, cy, row, column) % 64 == (cx + column) % 64,
        landing(cx, cy, row, column) / 64 == (cy + row) % 32,
        blit(screen, sprite, cx, cy)[landing(cx, cy, row, column)] == (screen[landing(
            cx,
            cy,
            row,
            column,
        )] != sprite_bit(sprite[row], column)),
{
    let at = landing(cx, cy, row, column);
    lemma_landing_unique(cx, cy, row, column, 0);
    lemma_landing_unique(cx, cy, row, column, at);
}

/// A sprite has a set bit on a pixel exactly when one of its set bits lands
/// there: one at some `column` of some `row`, on the pixel at column
/// `(cx + column) mod 64` of row `(cy + row) mod 32`.
pub proof fn law_cover_is_landing(sprite: Seq<u8>, cx: int, cy: int, k: int)
    requires
        sprite.len() <= 32,
        0 <= cx,
        0 <= cy,
        0 <= k < SCREEN_SIZE,
    ensures
        sprite_covers_index(sprite, cx, cy, k) <==> exists|row: int, column: int|
            0 <= row < sprite.len() && 0 <= column < 8 && sprite_bit(sprite[row], column) && k
                == #[trigger] landing(cx, cy, row, column),
{
    if sprite_covers_index(sprite, cx, cy, k) {
        let column = (k % 64 - cx) % 64;
        let row = (k / 64 - cy) % 32;
        lemma_landing_unique(cx, cy, row, column, k);
        assert(k == landing(cx, cy, row, column));
    }
    if exists|row: int, column: int|
        0 <= row < sprite.len() && 0 <= column < 8 && sprite_bit(sprite[row], column) && k
            == #[trigger] landing(cx, cy, row, column) {
        let (row, column) = choose|row: int, column: int|
            0 <= row < sprite.len() && 0 <= column < 8 && sprite_bit(sprite[row], column) && k
                == #[trigger] landing(cx, cy, row, column);
        lemma_landing_unique(cx, cy, row, column, k);
    }
}

/// After `00E0` every pixel of the framebuffer is off.
pub proof fn law_clear_screen(s: State, keys: Set<u8>, random: u8)
    requires
        s.wf(),
        holds_opcode(s, s.pc as int, 0x00E0),
    ensures
        step_spec(s, keys, random) is Ok,
        step_spec(s, keys, random)->Ok_0.0.screen.len() == SCREEN_SIZE,
        forall|k: int| 0 <= k < SCREEN_SIZE ==> !step_spec(s, keys, random)->Ok_0.0.screen[k],
        step_spec(s, keys, random)->Ok_0.0.pc == s.pc + 2,
{
    lemma_fields(0, 0, 0xE, 0);
    assert(decode_spec(s.opcode()) == Instruction::ClearScreen);
}

/// The three digits that `Fx33` stores are decimal digits, and read as
/// hundreds, tens and ones they give the value back.
pub proof fn law_decimal_digits(value: u8)
    ensures
        decimal_digits(value).len() == 3,
        forall|k: int| 0 <= k < 3 ==> decimal_digits(value)[k] <= 9,
        decimal_digits(value)[0] * 100 + decimal_digits(value)[1] * 10 + decimal_digits(value)[2]
            == value,
{
}

/// A call followed by a return comes back to the instruction after the call
/// and leaves the stack, and everything else, as it was before the call.
pub proof fn law_call_return(s: State, nnn: u16, keys: Set<u8>, random: u8)
    requires
        s.wf(),
        nnn < 0x1000,
        s.stack.len() < STACK_DEPTH,
        holds_opcode(s, s.pc as int, 0x2000 + nnn),
        holds_opcode(s, nnn as int, 0x00EE),
    ensures
        step_spec(s, keys, random) is Ok,
        step_spec(s, keys, random)->Ok_0.0.pc == nnn,
        step_spec(step_spec(s, keys, random)->Ok_0.0, keys, random) == Ok::<(State, Flow), Fault>(
            (s.next(), Flow::Continue),
        ),
{
    lemma_fields_nnn(2, nnn);
    lemma_fields(0, 0, 0xE, 0xE);
    assert(decode_spec(s.opcode()) == Instruction::Call { nnn });
    let called = step_spec(s, keys, random)->Ok_0.0;
    assert(decode_spec(called.opcode()) == Instruction::Return);
    assert(s.stack.push((s.pc + 2) as u16).drop_last() =~= s.stack);
}

/// A return with an empty stack is a stack underflow, and changes nothing.
pub proof fn law_return_underflow(s: State, keys: Set<u8>, random: u8)
    requires
        s.wf(),
        s.stack.len() == 0,
        holds_opcode(s, s.pc as int, 0x00EE),
    ensures
        step_spec(s, keys, random) == Err::<(State, Flow), Fault>(
            Fault { kind: FaultKind::StackUnderflow, opcode: 0x00EE, pc: s.pc },
        ),
{
    lemma_fields(0, 0, 0xE, 0xE);
    assert(decode_spec(s.opcode()) == Instruction::Return);
}

/// A call at full stack depth is a stack overflow, reported with the address
/// that was called.
pub proof fn law_call_overflow(s: State, nnn: u16, keys: Set<u8>, random: u8)
    requires
        s.wf(),
        nnn < 0x1000,
        s.stack.len() == STACK_DEPTH,
        holds_opcode(s, s.pc as int, 0x2000 + nnn),
    ensures
        step_spec(s, keys, random) == Err::<(State, Flow), Fault>(
            Fault {
                kind: FaultKind::StackOverflow { address: nnn },
                opcode: (0x2000 + nnn) as u16,
                pc: s.pc,
            },
        ),
{
    lemma_fields_nnn(2, nnn);
    assert(decode_spec(s.opcode()) == Instruction::Call { nnn });
}

/// A program that fits is loaded whole and leaves the font in place: the
/// machine starts well formed, with the program's bytes from `PROGRAM_START`
/// on and the font below them.
pub proof fn law_boot(program: Seq<u8>)
    requires
        program.len() <= PROGRAM_CAPACITY,
    ensures
        State::boot(program).wf(),
        State::boot(program).pc == PROGRAM_START,
        State::boot(program).memory.subrange(
            PROGRAM_START as int,
            PROGRAM_START + program.len(),
        ) == program,
        State::boot(program).memory.subrange(FONT_BASE as int, FONT_BASE + FONT_SIZE) == font(),
{
    let boot = State::boot(program);
    assert(boot.memory.subrange(PROGRAM_START as int, PROGRAM_START + program.len()) =~= program);
    assert(boot.memory.subrange(FONT_BASE as int, FONT_BASE + FONT_SIZE) =~= font());
}

/// No cycle breaks the machine's invariant: the stack stays within its depth,
/// I stays a memory address, and the font stays where it was loaded.
pub proof fn law_step_preserves_wf(s: State, keys: Set<u8>, random: u8)
    requires
        s.wf(),
        step_spec(s, keys, random) is Ok,
    ensures
        step_spec(s, keys, random)->Ok_0.0.wf(),
{
    let t = step_spec(s, keys, random)->Ok_0.0;
    assert(t.memory.len() == MEMORY_SIZE);
    assert(t.font_intact());
}

/// Timer ticks depend on the time that has passed and on nothing else: two
/// spans of time passing one after the other bring as many ticks, and leave
/// the driver in the same state, as their sum passing at once.
pub proof fn law_elapse_adds(d: DriverState, first: int, second: int)
    requires
        d.wf(),
        0 <= first,
        0 <= second,
    ensures
        d.ticks_due(first) + d.elapsed(first).ticks_due(second) == d.ticks_due(first + second),
        d.elapsed(first).elapsed(second) == d.elapsed(first + second),
{
}

/// Nothing that happens to a driver breaks its invariant: not a cycle, not a
/// key going down or up, not time passing.
pub proof fn law_driver_preserves_wf(d: DriverState, random: u8, key: u8, micros: int)
    requires
        d.wf(),
        0 <= micros,
    ensures
        d.cycle(random) is Ok ==> d.cycle(random)->Ok_0.wf(),
        d.key_down(key).wf(),
        (DriverState { keys: d.keys.remove(key), ..d }).wf(),
        d.elapsed(micros).wf(),
{
    if d.mode == Mode::Running && step_spec(d.machine, d.keys, random) is Ok {
        law_step_preserves_wf(d.machine, d.keys, random);
    }
}

/// While a key is awaited no instruction is executed, whatever the random
/// source gives, but time goes on: the timers still count down.
pub proof fn law_suspension(d: DriverState, x: u8, random: u8, micros: int)
    requires
        d.wf(),
        d.mode == (Mode::AwaitingKey { x }),
        0 <= micros,
    ensures
        d.cycle(random) == Ok::<DriverState, Fault>(d),
        d.elapsed(micros).machine == d.machine.ticked_by(d.ticks_due(micros)),
        d.elapsed(micros).mode == d.mode,
{
}

} // verus!
