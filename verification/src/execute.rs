//! The executor: what each instruction does to the machine.

use vstd::prelude::*;
use crate::display::{blank, blit, collides, MAX_SPRITE_ROWS};
use crate::entropy::random_byte;
use crate::fault::{Fault, FaultKind};
use crate::instruction::{decode, decode_spec, Instruction};
use crate::keypad::Keypad;
use crate::machine::{
    Chip8, State, FLAG, FONT_BASE, GLYPH_SIZE, MEMORY_SIZE, PROGRAM_START, REGISTER_COUNT,
    STACK_DEPTH,
};

verus! {

/// How execution goes on after an instruction.
#[derive(Clone, Copy, Debug, PartialEq, Eq, Structural)]
pub enum Flow {
    /// The next instruction can be fetched.
    Continue,
    /// The machine waits for a key press, whose code goes to register `x`.
    AwaitKey { x: u8 },
}

/// A flag register's value for a condition: 1 if it holds, 0 if not.
pub open spec fn flag(condition: bool) -> u8 {
    if condition {
        1
    } else {
        0
    }
}

/// The memory with `bytes` written from address `at` on.
pub open spec fn stored(memory: Seq<u8>, at: int, bytes: Seq<u8>) -> Seq<u8> {
    Seq::new(
        memory.len(),
        |a: int|
            if at <= a < at + bytes.len() {
                bytes[a - at]
            } else {
                memory[a]
            },
    )
}

/// The registers with the first `count` of them read from memory at address
/// `at` on.
pub open spec fn restored(v: Seq<u8>, memory: Seq<u8>, at: int, count: int) -> Seq<u8> {
    Seq::new(
        v.len(),
        |r: int|
            if r < count {
                memory[at + r]
            } else {
                v[r]
            },
    )
}

/// The decimal digits of a byte: hundreds, tens, ones.
pub open spec fn decimal_digits(value: u8) -> Seq<u8> {
    seq![(value / 100) as u8, ((value / 10) % 10) as u8, (value % 10) as u8]
}

/// Whether `count` bytes from address `at` on may be read.
pub open spec fn readable(at: int, count: int) -> bool {
    at + count <= MEMORY_SIZE
}

/// Whether `count` bytes from address `at` on may be written: they must lie
/// in the writable region, which starts at `PROGRAM_START`.
pub open spec fn writable(at: int, count: int) -> bool {
    PROGRAM_START <= at && at + count <= MEMORY_SIZE
}

impl State {
    /// The state with the program counter at `target`.
    pub open spec fn goto(self, target: int) -> State {
        State { pc: target as u16, ..self }
    }

    /// The state with the program counter on the next instruction.
    pub open spec fn next(self) -> State {
        self.goto(self.pc + 2)
    }

    /// The state with the program counter past the next instruction if
    /// `condition` holds, and on it if not.
    pub open spec fn skip_if(self, condition: bool) -> State {
        self.goto(
            self.pc + if condition {
                4int
            } else {
                2int
            },
        )
    }

    /// `8xy4`: VF becomes the carry of Vx + Vy, then Vx their sum modulo 256.
    pub open spec fn add_registers(self, x: int, y: int) -> State {
        let sum = self.v[x] + self.v[y];
        self.with_register(FLAG as int, flag(sum > 255)).with_register(x, (sum % 256) as u8)
    }

    /// `8xy5`: VF becomes 1 if Vx >= Vy and 0 if not, then Vx becomes
    /// Vx - Vy modulo 256.
    pub open spec fn subtract(self, x: int, y: int) -> State {
        let flagged = self.with_register(FLAG as int, flag(self.v[x] >= self.v[y]));
        flagged.with_register(x, ((flagged.v[x] - flagged.v[y]) % 256) as u8)
    }

    /// `8xy7`: VF becomes 1 if Vy >= Vx and 0 if not, then Vx becomes
    /// Vy - Vx modulo 256.
    pub open spec fn subtract_reversed(self, x: int, y: int) -> State {
        let flagged = self.with_register(FLAG as int, flag(self.v[y] >= self.v[x]));
        flagged.with_register(x, ((flagged.v[y] - flagged.v[x]) % 256) as u8)
    }

    /// `8xy6`: VF becomes the lowest bit of Vx, then Vx is halved.
    pub open spec fn shift_right(self, x: int) -> State {
        let flagged = self.with_register(FLAG as int, (self.v[x] % 2) as u8);
        flagged.with_register(x, (flagged.v[x] / 2) as u8)
    }

    /// `8xyE`: VF becomes the highest bit of Vx, then Vx is doubled modulo
    /// 256.
    pub open spec fn shift_left(self, x: int) -> State {
        let flagged = self.with_register(FLAG as int, (self.v[x] / 128) as u8);
        flagged.with_register(x, ((flagged.v[x] * 2) % 256) as u8)
    }

    /// `Dxyn`: the sprite of `n` rows at the address in I is XORed onto the
    /// framebuffer at `(Vx, Vy)`, and VF becomes 1 if that turned a lit pixel
    /// off and 0 if not.
    pub open spec fn draw(self, x: int, y: int, n: int) -> State {
        let cx = self.v[x] as int;
        let cy = self.v[y] as int;
        let sprite = self.sprite(n);
        State { screen: blit(self.screen, sprite, cx, cy), ..self }.with_register(
            FLAG as int,
            flag(collides(self.screen, sprite, cx, cy)),
        )
    }

    /// `Fx33`: the decimal digits of Vx go to memory at the address in I.
    pub open spec fn store_digits(self, x: int) -> State {
        State { memory: stored(self.memory, self.index as int, decimal_digits(self.v[x])), ..self }
    }

    /// `Fx55`: V0 to Vx go to memory at the address in I.
    pub open spec fn store_registers(self, x: int) -> State {
        State { memory: stored(self.memory, self.index as int, self.v.subrange(0, x + 1)), ..self }
    }

    /// `Fx65`: V0 to Vx are read from memory at the address in I.
    pub open spec fn restore_registers(self, x: int) -> State {
        State { v: restored(self.v, self.memory, self.index as int, x + 1), ..self }
    }

    /// Whether an instruction can stand at the program counter: both of its
    /// bytes lie in memory.
    pub open spec fn pc_in_range(self) -> bool {
        self.pc + 1 < MEMORY_SIZE
    }

    /// The opcode at the program counter: the byte there is its high half,
    /// the byte after it its low half.
    pub open spec fn opcode(self) -> u16 {
        (self.memory[self.pc as int] * 256 + self.memory[self.pc + 1]) as u16
    }
}

/// The outcome of executing `instruction` in state `s`, with `keys` as the
/// codes of the keys held down, and with `random` as the byte that the random source
/// gives: the next state and how execution goes on, or the fault raised.
///
/// Where an instruction writes several registers, it writes them in the order
/// given here, and reads each operand when it is used; this matters only
/// where VF is itself an operand.
pub open spec fn execute_spec(s: State, instruction: Instruction, keys: Set<u8>, random: u8) -> Result<
    (State, Flow),
    FaultKind,
> {
    if !s.pc_in_range() {
        Err(FaultKind::AddressOutOfRange { address: s.pc })
    } else {
        match instruction {
            Instruction::ClearScreen => Ok((State { screen: blank(), ..s }.next(), Flow::Continue)),
            Instruction::Return => if s.stack.len() == 0 {
                Err(FaultKind::StackUnderflow)
            } else {
                Ok(
                    (
                        State { stack: s.stack.drop_last(), ..s }.goto(s.stack.last() as int),
                        Flow::Continue,
                    ),
                )
            },
            Instruction::Jump { nnn } => Ok((s.goto(nnn as int), Flow::Continue)),
            Instruction::Call { nnn } => if s.stack.len() >= STACK_DEPTH {
                Err(FaultKind::StackOverflow { address: nnn })
            } else {
                Ok(
                    (
                        State { stack: s.stack.push((s.pc + 2) as u16), ..s }.goto(nnn as int),
                        Flow::Continue,
                    ),
                )
            },
            Instruction::SkipIfEqual { x, nn } => Ok(
                (s.skip_if(s.v[x as int] == nn), Flow::Continue),
            ),
            Instruction::SkipIfNotEqual { x, nn } => Ok(
                (s.skip_if(s.v[x as int] != nn), Flow::Continue),
            ),
            Instruction::SkipIfRegistersEqual { x, y } => Ok(
                (s.skip_if(s.v[x as int] == s.v[y as int]), Flow::Continue),
            ),
            Instruction::Load { x, nn } => Ok((s.with_register(x as int, nn).next(), Flow::Continue)),
            Instruction::Add { x, nn } => Ok(
                (
                    s.with_register(x as int, ((s.v[x as int] + nn) % 256) as u8).next(),
                    Flow::Continue,
                ),
            ),
            Instruction::Move { x, y } => Ok(
                (s.with_register(x as int, s.v[y as int]).next(), Flow::Continue),
            ),
            Instruction::Or { x, y } => Ok(
                (s.with_register(x as int, s.v[x as int] | s.v[y as int]).next(), Flow::Continue),
            ),
            Instruction::And { x, y } => Ok(
                (s.with_register(x as int, s.v[x as int] & s.v[y as int]).next(), Flow::Continue),
            ),
            Instruction::Xor { x, y } => Ok(
                (s.with_register(x as int, s.v[x as int] ^ s.v[y as int]).next(), Flow::Continue),
            ),
            Instruction::AddRegisters { x, y } => Ok(
                (s.add_registers(x as int, y as int).next(), Flow::Continue),
            ),
            Instruction::Subtract { x, y } => Ok(
                (s.subtract(x as int, y as int).next(), Flow::Continue),
            ),
            Instruction::ShiftRight { x } => Ok((s.shift_right(x as int).next(), Flow::Continue)),
            Instruction::SubtractReversed { x, y } => Ok(
                (s.subtract_reversed(x as int, y as int).next(), Flow::Continue),
            ),
            Instruction::ShiftLeft { x } => Ok((s.shift_left(x as int).next(), Flow::Continue)),
            Instruction::SkipIfRegistersNotEqual { x, y } => Ok(
                (s.skip_if(s.v[x as int] != s.v[y as int]), Flow::Continue),
            ),
            Instruction::LoadIndex { nnn } => Ok((State { index: nnn, ..s }.next(), Flow::Continue)),
            Instruction::JumpOffset { nnn } => Ok((s.goto(s.v[0] + nnn), Flow::Continue)),
            Instruction::Random { x, nn } => Ok(
                (s.with_register(x as int, random & nn).next(), Flow::Continue),
            ),
            Instruction::Draw { x, y, n } => if !readable(s.index as int, n as int) {
                Err(FaultKind::AddressOutOfRange { address: s.index })
            } else {
                Ok((s.draw(x as int, y as int, n as int).next(), Flow::Continue))
            },
            Instruction::SkipIfKey { x } => Ok(
                (s.skip_if(keys.contains(s.v[x as int])), Flow::Continue),
            ),
            Instruction::SkipIfNotKey { x } => Ok(
                (s.skip_if(!keys.contains(s.v[x as int])), Flow::Continue),
            ),
            Instruction::ReadDelay { x } => Ok(
                (s.with_register(x as int, s.delay).next(), Flow::Continue),
            ),
            Instruction::WaitKey { x } => Ok((s.next(), Flow::AwaitKey { x })),
            Instruction::SetDelay { x } => Ok(
                (State { delay: s.v[x as int], ..s }.next(), Flow::Continue),
            ),
            Instruction::SetSound { x } => Ok(
                (State { sound: s.v[x as int], ..s }.next(), Flow::Continue),
            ),
            Instruction::AddIndex { x } => Ok(
                (
                    State { index: ((s.index + s.v[x as int]) % 4096) as u16, ..s }.next(),
                    Flow::Continue,
                ),
            ),
            Instruction::Glyph { x } => Ok(
                (
                    State { index: (FONT_BASE + s.v[x as int] * GLYPH_SIZE) as u16, ..s }.next(),
                    Flow::Continue,
                ),
            ),
            Instruction::Bcd { x } => if !writable(s.index as int, 3) {
                Err(FaultKind::AddressOutOfRange { address: s.index })
            } else {
                Ok((s.store_digits(x as int).next(), Flow::Continue))
            },
            Instruction::Store { x } => if !writable(s.index as int, x + 1) {
                Err(FaultKind::AddressOutOfRange { address: s.index })
            } else {
                Ok((s.store_registers(x as int).next(), Flow::Continue))
            },
            Instruction::Restore { x } => if !readable(s.index as int, x + 1) {
                Err(FaultKind::AddressOutOfRange { address: s.index })
            } else {
                Ok((s.restore_registers(x as int).next(), Flow::Continue))
            },
            Instruction::Unknown => Err(FaultKind::UnknownOpcode),
        }
    }
}

/// Whether executing `instruction` in state `before` with `random` as the
/// random byte leaves the machine in state `after` and reports `outcome`. A
/// fault leaves the state as it was.
pub open spec fn executes(
    before: State,
    instruction: Instruction,
    keys: Set<u8>,
    random: u8,
    after: State,
    outcome: Result<Flow, FaultKind>,
) -> bool {
    match execute_spec(before, instruction, keys, random) {
        Ok((state, flow)) => outcome == Ok::<Flow, FaultKind>(flow) && after == state,
        Err(kind) => outcome == Err::<Flow, FaultKind>(kind) && after == before,
    }
}

/// What fetching the opcode at the program counter gives: the opcode, or a
/// fault if its two bytes do not both lie in memory.
pub open spec fn fetch_spec(s: State) -> Result<u16, Fault> {
    if s.pc_in_range() {
        Ok(s.opcode())
    } else {
        Err(Fault { kind: FaultKind::AddressOutOfRange { address: s.pc }, opcode: 0, pc: s.pc })
    }
}

/// Whether the instruction at the program counter is `Random`.
pub open spec fn draws_random(s: State) -> bool {
    s.pc_in_range() && decode_spec(s.opcode()) is Random
}

/// The outcome of one fetch-decode-execute cycle in state `s`: the next state
/// and how execution goes on, or the fault raised, with the opcode and the
/// program counter at which it was raised.
pub open spec fn step_spec(s: State, keys: Set<u8>, random: u8) -> Result<(State, Flow), Fault> {
    match fetch_spec(s) {
        Err(fault) => Err(fault),
        Ok(opcode) => match execute_spec(s, decode_spec(opcode), keys, random) {
            Ok(next) => Ok(next),
            Err(kind) => Err(Fault { kind, opcode, pc: s.pc }),
        },
    }
}

/// Whether one cycle in state `before` with `random` as the random byte
/// leaves the machine in state `after` and reports `outcome`. A fault leaves
/// the state as it was.
pub open spec fn steps(
    before: State,
    keys: Set<u8>,
    random: u8,
    after: State,
    outcome: Result<Flow, Fault>,
) -> bool {
    match step_spec(before, keys, random) {
        Ok((state, flow)) => outcome == Ok::<Flow, Fault>(flow) && after == state,
        Err(fault) => outcome == Err::<Flow, Fault>(fault) && after == before,
    }
}

impl Chip8 {
    /// Moves the program counter forward by `by` bytes.
    fn advance(&mut self, by: u16)
        requires
            old(self).wf(),
            old(self)@.pc_in_range(),
            by <= 4,
        ensures
            final(self).wf(),
            final(self)@ == old(self)@.goto(old(self)@.pc + by),
    {
        let pc: u16 = self.pc();
        self.set_pc(pc + by);
    }

    /// Moves the program counter onto the next instruction and does nothing
    /// else: what a driver that tolerates unknown opcodes does with one.
    pub(crate) fn skip(&mut self)
        requires
            old(self).wf(),
            old(self)@.pc_in_range(),
        ensures
            final(self).wf(),
            final(self)@ == old(self)@.next(),
    {
        self.advance(2);
    }

    /// Stores the code of a pressed key in register `x`: what ends the wait
    /// that a `WaitKey` instruction began.
    pub(crate) fn deliver_key(&mut self, x: u8, key: u8)
        requires
            old(self).wf(),
            x < REGISTER_COUNT,
        ensures
            final(self).wf(),
            final(self)@ == old(self)@.with_register(x as int, key),
    {
        self.set_register(x as usize, key);
    }

    /// Moves the program counter past the next instruction if `condition`
    /// holds, and onto it if not.
    fn skip_if(&mut self, condition: bool)
        requires
            old(self).wf(),
            old(self)@.pc_in_range(),
        ensures
            final(self).wf(),
            final(self)@ == old(self)@.skip_if(condition),
    {
        if condition {
            self.advance(4);
        } else {
            self.advance(2);
        }
    }

    /// `8xy4`.
    fn add_registers(&mut self, x: usize, y: usize)
        requires
            old(self).wf(),
            x < REGISTER_COUNT,
            y < REGISTER_COUNT,
        ensures
            final(self).wf(),
            final(self)@ == old(self)@.add_registers(x as int, y as int),
    {
        let sum: u16 = self.register(x) as u16 + self.register(y) as u16;
        self.set_register(FLAG, if sum > 255 { 1 } else { 0 });
        self.set_register(x, (sum % 256) as u8);
    }

    /// `8xy5`.
    fn subtract(&mut self, x: usize, y: usize)
        requires
            old(self).wf(),
            x < REGISTER_COUNT,
            y < REGISTER_COUNT,
        ensures
            final(self).wf(),
            final(self)@ == old(self)@.subtract(x as int, y as int),
    {
        let borrow_free: bool = self.register(x) >= self.register(y);
        self.set_register(FLAG, if borrow_free { 1 } else { 0 });
        let vx: u16 = self.register(x) as u16;
        let vy: u16 = self.register(y) as u16;
        self.set_register(x, ((256 + vx - vy) % 256) as u8);
    }

    /// `8xy7`.
    fn subtract_reversed(&mut self, x: usize, y: usize)
        requires
            old(self).wf(),
            x < REGISTER_COUNT,
            y < REGISTER_COUNT,
        ensures
            final(self).wf(),
            final(self)@ == old(self)@.subtract_reversed(x as int, y as int),
    {
        let borrow_free: bool = self.register(y) >= self.register(x);
        self.set_register(FLAG, if borrow_free { 1 } else { 0 });
        let vx: u16 = self.register(x) as u16;
        let vy: u16 = self.register(y) as u16;
        self.set_register(x, ((256 + vy - vx) % 256) as u8);
    }

    /// `8xy6`.
    fn shift_right(&mut self, x: usize)
        requires
            old(self).wf(),
            x < REGISTER_COUNT,
        ensures
            final(self).wf(),
            final(self)@ == old(self)@.shift_right(x as int),
    {
        let low: u8 = self.register(x) & 1;
        assert(low == old(self)@.v[x as int] % 2) by {
            let vx = old(self)@.v[x as int];
            assert(vx & 1 == vx % 2) by (bit_vector);
        }
        self.set_register(FLAG, low);
        let vx: u8 = self.register(x);
        assert(vx >> 1 == vx / 2) by (bit_vector);
        self.set_register(x, vx >> 1);
    }

    /// `8xyE`.
    fn shift_left(&mut self, x: usize)
        requires
            old(self).wf(),
            x < REGISTER_COUNT,
        ensures
            final(self).wf(),
            final(self)@ == old(self)@.shift_left(x as int),
    {
        let high: u8 = (self.register(x) >> 7) & 1;
        assert(high == old(self)@.v[x as int] / 128) by {
            let vx = old(self)@.v[x as int];
            assert((vx >> 7) & 1 == vx / 128) by (bit_vector);
        }
        self.set_register(FLAG, high);
        let vx: u8 = self.register(x);
        assert(vx << 1 == (vx * 2) % 256) by (bit_vector);
        self.set_register(x, vx << 1);
    }

    /// `Dxyn`, once the sprite is known to lie in memory.
    fn draw(&mut self, x: usize, y: usize, n: usize)
        requires
            old(self).wf(),
            x < REGISTER_COUNT,
            y < REGISTER_COUNT,
            n <= MAX_SPRITE_ROWS,
            readable(old(self)@.index as int, n as int),
        ensures
            final(self).wf(),
            final(self)@ == old(self)@.draw(x as int, y as int, n as int),
    {
        let cx: u8 = self.register(x);
        let cy: u8 = self.register(y);
        let collision: bool = self.draw_sprite(cx, cy, n);
        self.set_register(FLAG, if collision { 1 } else { 0 });
    }

    /// `Fx33`, once the target is known to be writable.
    fn store_digits(&mut self, x: usize)
        requires
            old(self).wf(),
            x < REGISTER_COUNT,
            writable(old(self)@.index as int, 3),
        ensures
            final(self).wf(),
            final(self)@ == old(self)@.store_digits(x as int),
    {
        let at: usize = self.index() as usize;
        let value: u8 = self.register(x);
        self.write_memory(at, value / 100);
        self.write_memory(at + 1, (value / 10) % 10);
        self.write_memory(at + 2, value % 10);
        assert(self@.memory =~= stored(old(self)@.memory, at as int, decimal_digits(value)));
    }

    /// `Fx55`, once the target is known to be writable.
    fn store_registers(&mut self, x: usize)
        requires
            old(self).wf(),
            x < REGISTER_COUNT,
            writable(old(self)@.index as int, x + 1),
        ensures
            final(self).wf(),
            final(self)@ == old(self)@.store_registers(x as int),
    {
        let at: usize = self.index() as usize;
        let mut r: usize = 0;
        assert(self@.memory =~= stored(old(self)@.memory, at as int, old(self)@.v.subrange(0, 0)));
        while r <= x
            invariant
                r <= x + 1,
                x < REGISTER_COUNT,
                at == old(self)@.index,
                old(self).wf(),
                writable(at as int, x + 1),
                self.wf(),
                self@ == (State {
                    memory: stored(old(self)@.memory, at as int, old(self)@.v.subrange(0, r as int)),
                    ..old(self)@
                }),
            decreases x + 1 - r,
        {
            let value: u8 = self.register(r);
            self.write_memory(at + r, value);
            assert(self@.memory =~= stored(
                old(self)@.memory,
                at as int,
                old(self)@.v.subrange(0, r + 1),
            ));
            r += 1;
        }
    }

    /// `Fx65`, once the source is known to lie in memory.
    fn restore_registers(&mut self, x: usize)
        requires
            old(self).wf(),
            x < REGISTER_COUNT,
            readable(old(self)@.index as int, x + 1),
        ensures
            final(self).wf(),
            final(self)@ == old(self)@.restore_registers(x as int),
    {
        let at: usize = self.index() as usize;
        let mut r: usize = 0;
        assert(self@.v =~= restored(old(self)@.v, old(self)@.memory, at as int, 0));
        while r <= x
            invariant
                r <= x + 1,
                x < REGISTER_COUNT,
                at == old(self)@.index,
                old(self).wf(),
                readable(at as int, x + 1),
                self.wf(),
                self@ == (State {
                    v: restored(old(self)@.v, old(self)@.memory, at as int, r as int),
                    ..old(self)@
                }),
            decreases x + 1 - r,
        {
            let value: u8 = self.memory()[at + r];
            self.set_register(r, value);
            assert(self@.v =~= restored(old(self)@.v, old(self)@.memory, at as int, r + 1));
            r += 1;
        }
    }

    /// Executes one decoded instruction, with `random` as the byte that the
    /// random source gives. A fault leaves the machine as it was.
    pub fn execute_with(&mut self, instruction: Instruction, keys: &Keypad, random: u8) -> (outcome:
        Result<Flow, FaultKind>)
        requires
            old(self).wf(),
            instruction.wf(),
        ensures
            final(self).wf(),
            executes(old(self)@, instruction, keys@, random, final(self)@, outcome),
    {
        let pc: u16 = self.pc();
        if pc as usize + 1 >= MEMORY_SIZE {
            return Err(FaultKind::AddressOutOfRange { address: pc });
        }
        match instruction {
            Instruction::ClearScreen => {
                self.clear_screen();
                self.advance(2);
            },
            Instruction::Return => {
                if self.stack_depth() == 0 {
                    return Err(FaultKind::StackUnderflow);
                }
                let target: u16 = self.pop_return();
                self.set_pc(target);
            },
            Instruction::Jump { nnn } => {
                self.set_pc(nnn);
            },
            Instruction::Call { nnn } => {
                if self.stack_depth() >= STACK_DEPTH {
                    return Err(FaultKind::StackOverflow { address: nnn });
                }
                self.push_return(pc + 2);
                self.set_pc(nnn);
            },
            Instruction::SkipIfEqual { x, nn } => {
                let vx: u8 = self.register(x as usize);
                self.skip_if(vx == nn);
            },
            Instruction::SkipIfNotEqual { x, nn } => {
                let vx: u8 = self.register(x as usize);
                self.skip_if(vx != nn);
            },
            Instruction::SkipIfRegistersEqual { x, y } => {
                let vx: u8 = self.register(x as usize);
                let vy: u8 = self.register(y as usize);
                self.skip_if(vx == vy);
            },
            Instruction::Load { x, nn } => {
                self.set_register(x as usize, nn);
                self.advance(2);
            },
            Instruction::Add { x, nn } => {
                let sum: u16 = self.register(x as usize) as u16 + nn as u16;
                self.set_register(x as usize, (sum % 256) as u8);
                self.advance(2);
            },
            Instruction::Move { x, y } => {
                let vy: u8 = self.register(y as usize);
                self.set_register(x as usize, vy);
                self.advance(2);
            },
            Instruction::Or { x, y } => {
                let vx: u8 = self.register(x as usize);
                let vy: u8 = self.register(y as usize);
                self.set_register(x as usize, vx | vy);
                self.advance(2);
            },
            Instruction::And { x, y } => {
                let vx: u8 = self.register(x as usize);
                let vy: u8 = self.register(y as usize);
                self.set_register(x as usize, vx & vy);
                self.advance(2);
            },
            Instruction::Xor { x, y } => {
                let vx: u8 = self.register(x as usize);
                let vy: u8 = self.register(y as usize);
                self.set_register(x as usize, vx ^ vy);
                self.advance(2);
            },
            Instruction::AddRegisters { x, y } => {
                self.add_registers(x as usize, y as usize);
                self.advance(2);
            },
            Instruction::Subtract { x, y } => {
                self.subtract(x as usize, y as usize);
                self.advance(2);
            },
            Instruction::ShiftRight { x } => {
                self.shift_right(x as usize);
                self.advance(2);
            },
            Instruction::SubtractReversed { x, y } => {
                self.subtract_reversed(x as usize, y as usize);
                self.advance(2);
            },
            Instruction::ShiftLeft { x } => {
                self.shift_left(x as usize);
                self.advance(2);
            },
            Instruction::SkipIfRegistersNotEqual { x, y } => {
                let vx: u8 = self.register(x as usize);
                let vy: u8 = self.register(y as usize);
                self.skip_if(vx != vy);
            },
            Instruction::LoadIndex { nnn } => {
                self.set_index(nnn);
                self.advance(2);
            },
            Instruction::JumpOffset { nnn } => {
                let v0: u16 = self.register(0) as u16;
                self.set_pc(v0 + nnn);
            },
            Instruction::Random { x, nn } => {
                self.set_register(x as usize, random & nn);
                self.advance(2);
            },
            Instruction::Draw { x, y, n } => {
                if self.index() as usize + n as usize > MEMORY_SIZE {
                    return Err(FaultKind::AddressOutOfRange { address: self.index() });
                }
                self.draw(x as usize, y as usize, n as usize);
                self.advance(2);
            },
            Instruction::SkipIfKey { x } => {
                let vx: u8 = self.register(x as usize);
                self.skip_if(keys.is_pressed(vx));
            },
            Instruction::SkipIfNotKey { x } => {
                let vx: u8 = self.register(x as usize);
                self.skip_if(!keys.is_pressed(vx));
            },
            Instruction::ReadDelay { x } => {
                let delay: u8 = self.delay_timer();
                self.set_register(x as usize, delay);
                self.advance(2);
            },
            Instruction::WaitKey { x } => {
                self.advance(2);
                return Ok(Flow::AwaitKey { x });
            },
            Instruction::SetDelay { x } => {
                let vx: u8 = self.register(x as usize);
                self.set_delay(vx);
                self.advance(2);
            },
            Instruction::SetSound { x } => {
                let vx: u8 = self.register(x as usize);
                self.set_sound(vx);
                self.advance(2);
            },
            Instruction::AddIndex { x } => {
                let sum: u16 = self.index() + self.register(x as usize) as u16;
                self.set_index(sum % 4096);
                self.advance(2);
            },
            Instruction::Glyph { x } => {
                let vx: u16 = self.register(x as usize) as u16;
                self.set_index(FONT_BASE + vx * GLYPH_SIZE);
                self.advance(2);
            },
            Instruction::Bcd { x } => {
                let at: usize = self.index() as usize;
                if at < PROGRAM_START as usize || at + 3 > MEMORY_SIZE {
                    return Err(FaultKind::AddressOutOfRange { address: self.index() });
                }
                self.store_digits(x as usize);
                self.advance(2);
            },
            Instruction::Store { x } => {
                let at: usize = self.index() as usize;
                if at < PROGRAM_START as usize || at + x as usize + 1 > MEMORY_SIZE {
                    return Err(FaultKind::AddressOutOfRange { address: self.index() });
                }
                self.store_registers(x as usize);
                self.advance(2);
            },
            Instruction::Restore { x } => {
                let at: usize = self.index() as usize;
                if at + x as usize + 1 > MEMORY_SIZE {
                    return Err(FaultKind::AddressOutOfRange { address: self.index() });
                }
                self.restore_registers(x as usize);
                self.advance(2);
            },
            Instruction::Unknown => {
                return Err(FaultKind::UnknownOpcode);
            },
        }
        Ok(Flow::Continue)
    }

    /// Executes one decoded instruction, drawing a byte from the random
    /// source if the instruction is `Random`. A fault leaves the machine as it
    /// was.
    ///
    /// What the random source gives is not known beforehand, so the outcome is
    /// stated for some byte; for every instruction but `Random` the byte does
    /// not matter and the outcome is fully determined.
    pub fn execute(&mut self, instruction: Instruction, keys: &Keypad) -> (outcome: Result<
        Flow,
        FaultKind,
    >)
        requires
            old(self).wf(),
            instruction.wf(),
        ensures
            final(self).wf(),
            exists|random: u8|
                executes(old(self)@, instruction, keys@, random, final(self)@, outcome),
            !(instruction is Random) ==> forall|random: u8|
                executes(old(self)@, instruction, keys@, random, final(self)@, outcome),
    {
        let random: u8 = match instruction {
            Instruction::Random { .. } => random_byte(),
            _ => 0,
        };
        let outcome = self.execute_with(instruction, keys, random);
        proof {
            if !(instruction is Random) {
                assert forall|other: u8|
                    executes(old(self)@, instruction, keys@, other, self@, outcome) by {
                    lemma_random_matters_to_random_only(old(self)@, instruction, keys@, random, other);
                }
            }
        }
        outcome
    }

    /// Reads the opcode at the program counter.
    ///
    /// Fails with `AddressOutOfRange` exactly when the opcode's two bytes do
    /// not both lie in memory; the fault then carries no opcode.
    pub fn fetch(&self) -> (fetched: Result<u16, Fault>)
        requires
            self.wf(),
        ensures
            fetched == fetch_spec(self@),
    {
        let pc: u16 = self.pc();
        if pc as usize + 1 >= MEMORY_SIZE {
            return Err(Fault { kind: FaultKind::AddressOutOfRange { address: pc }, opcode: 0, pc });
        }
        let high: u8 = self.memory()[pc as usize];
        let low: u8 = self.memory()[pc as usize + 1];
        assert(((high as u16) << 8) | (low as u16) == high * 256 + low) by (bit_vector);
        Ok(((high as u16) << 8) | (low as u16))
    }

    /// Runs one fetch-decode-execute cycle, with `random` as the byte that the
    /// random source gives. A fault leaves the machine as it was.
    pub fn step_with(&mut self, keys: &Keypad, random: u8) -> (outcome: Result<Flow, Fault>)
        requires
            old(self).wf(),
        ensures
            final(self).wf(),
            steps(old(self)@, keys@, random, final(self)@, outcome),
    {
        let pc: u16 = self.pc();
        match self.fetch() {
            Err(fault) => Err(fault),
            Ok(opcode) => match self.execute_with(decode(opcode), keys, random) {
                Ok(flow) => Ok(flow),
                Err(kind) => Err(Fault { kind, opcode, pc }),
            },
        }
    }

    /// Runs one fetch-decode-execute cycle, drawing a byte from the random
    /// source if the instruction fetched is `Random`. A fault leaves the
    /// machine as it was.
    ///
    /// What the random source gives is not known beforehand, so the outcome is
    /// stated for some byte; unless the instruction fetched is `Random` the
    /// byte does not matter and the outcome is fully determined.
    pub fn step(&mut self, keys: &Keypad) -> (outcome: Result<Flow, Fault>)
        requires
            old(self).wf(),
        ensures
            final(self).wf(),
            exists|random: u8| steps(old(self)@, keys@, random, final(self)@, outcome),
            !draws_random(old(self)@) ==> forall|random: u8|
                steps(old(self)@, keys@, random, final(self)@, outcome),
    {
        let pc: u16 = self.pc();
        match self.fetch() {
            Err(fault) => {
                assert(steps(old(self)@, keys@, 0, self@, Err::<Flow, Fault>(fault)));
                Err(fault)
            },
            Ok(opcode) => {
                let instruction: Instruction = decode(opcode);
                let random: u8 = match instruction {
                    Instruction::Random { .. } => random_byte(),
                    _ => 0,
                };
                let outcome = match self.execute_with(instruction, keys, random) {
                    Ok(flow) => Ok(flow),
                    Err(kind) => Err(Fault { kind, opcode, pc }),
                };
                proof {
                    assert(steps(old(self)@, keys@, random, self@, outcome));
                    if !draws_random(old(self)@) {
                        assert forall|other: u8|
                            steps(old(self)@, keys@, other, self@, outcome) by {
                            lemma_random_matters_to_random_only(
                                old(self)@,
                                instruction,
                                keys@,
                                random,
                                other,
                            );
                        }
                    }
                }
                outcome
            },
        }
    }
}

/// The random byte has no part in the outcome of any instruction but
/// `Random`.
pub proof fn lemma_random_matters_to_random_only(
    s: State,
    instruction: Instruction,
    keys: Set<u8>,
    random: u8,
    other: u8,
)
    requires
        !(instruction is Random),
    ensures
        execute_spec(s, instruction, keys, random) == execute_spec(s, instruction, keys, other),
{
}

} // verus!
