//! The machine state: registers, memory, stack, timers and framebuffer.

use vstd::prelude::*;
use crate::display::{blank, blit, collides, Framebuffer, MAX_SPRITE_ROWS, SCREEN_SIZE};
use crate::fault::{Fault, FaultKind};

verus! {

/// Number of addressable bytes.
pub const MEMORY_SIZE: usize = 4096;

/// Address at which programs are loaded and execution starts. Everything
/// below it is reserved; only memory from here onward is writable at run time.
pub const PROGRAM_START: u16 = 0x200;

/// Largest program that fits between `PROGRAM_START` and the end of memory.
pub const PROGRAM_CAPACITY: usize = 3584;

/// Address of the first glyph of the built-in font.
pub const FONT_BASE: u16 = 0x050;

/// Bytes per glyph.
pub const GLYPH_SIZE: u16 = 5;

/// Bytes in the whole font: sixteen glyphs.
pub const FONT_SIZE: usize = 80;

/// Number of general-purpose registers.
pub const REGISTER_COUNT: usize = 16;

/// Index of the flag register VF.
pub const FLAG: usize = 15;

/// Greatest call depth.
pub const STACK_DEPTH: usize = 16;

/// The built-in font: glyphs for the hexadecimal digits 0 to F, five rows
/// each, one byte per row, the four leftmost bits of a byte being the row.
pub open spec fn font() -> Seq<u8> {
    seq![
        0xF0u8, 0x90, 0x90, 0x90, 0xF0,
        0x20, 0x60, 0x20, 0x20, 0x70,
        0xF0, 0x10, 0xF0, 0x80, 0xF0,
        0xF0, 0x10, 0xF0, 0x10, 0xF0,
        0x90, 0x90, 0xF0, 0x10, 0x10,
        0xF0, 0x80, 0xF0, 0x10, 0xF0,
        0xF0, 0x80, 0xF0, 0x90, 0xF0,
        0xF0, 0x10, 0x20, 0x40, 0x40,
        0xF0, 0x90, 0xF0, 0x90, 0xF0,
        0xF0, 0x90, 0xF0, 0x10, 0xF0,
        0xF0, 0x90, 0xF0, 0x90, 0x90,
        0xE0, 0x90, 0xE0, 0x90, 0xE0,
        0xF0, 0x80, 0x80, 0x80, 0xF0,
        0xE0, 0x90, 0x90, 0x90, 0xE0,
        0xF0, 0x80, 0xF0, 0x80, 0xF0,
        0xF0, 0x80, 0xF0, 0x80, 0x80,
    ]
}

/// The font as stored bytes.
fn font_table() -> (table: [u8; FONT_SIZE])
    ensures
        table@ == font(),
{
    let table: [u8; FONT_SIZE] = [
        0xF0u8, 0x90, 0x90, 0x90, 0xF0,
        0x20, 0x60, 0x20, 0x20, 0x70,
        0xF0, 0x10, 0xF0, 0x80, 0xF0,
        0xF0, 0x10, 0xF0, 0x10, 0xF0,
        0x90, 0x90, 0xF0, 0x10, 0x10,
        0xF0, 0x80, 0xF0, 0x10, 0xF0,
        0xF0, 0x80, 0xF0, 0x90, 0xF0,
        0xF0, 0x10, 0x20, 0x40, 0x40,
        0xF0, 0x90, 0xF0, 0x90, 0xF0,
        0xF0, 0x90, 0xF0, 0x10, 0xF0,
        0xF0, 0x90, 0xF0, 0x90, 0x90,
        0xE0, 0x90, 0xE0, 0x90, 0xE0,
        0xF0, 0x80, 0x80, 0x80, 0xF0,
        0xE0, 0x90, 0x90, 0x90, 0xE0,
        0xF0, 0x80, 0xF0, 0x80, 0xF0,
        0xF0, 0x80, 0xF0, 0x80, 0x80,
    ];
    assert(table@ =~= font());
    table
}

/// The machine as a mathematical value.
pub struct State {
    /// Program counter.
    pub pc: u16,
    /// Index register I.
    pub index: u16,
    /// Registers V0 to VF.
    pub v: Seq<u8>,
    /// Delay timer.
    pub delay: u8,
    /// Sound timer.
    pub sound: u8,
    /// Return addresses, most recent call last.
    pub stack: Seq<u16>,
    /// Memory.
    pub memory: Seq<u8>,
    /// Framebuffer, row by row; the pixel at column `x` of row `y` is element
    /// `x + 64 * y`.
    pub screen: Seq<bool>,
}

impl State {
    /// The font occupies its place in memory.
    pub open spec fn font_intact(self) -> bool {
        forall|k: int| 0 <= k < FONT_SIZE ==> #[trigger] self.memory[FONT_BASE + k] == font()[k]
    }

    /// Every part has its fixed size, I is a memory address, and the font is
    /// where it was loaded.
    pub open spec fn wf(self) -> bool {
        &&& self.v.len() == REGISTER_COUNT
        &&& self.stack.len() <= STACK_DEPTH
        &&& self.memory.len() == MEMORY_SIZE
        &&& self.screen.len() == SCREEN_SIZE
        &&& self.index < MEMORY_SIZE
        &&& self.font_intact()
    }

    /// The state with register `r` set to `value`.
    pub open spec fn with_register(self, r: int, value: u8) -> State {
        State { v: self.v.update(r, value), ..self }
    }

    /// The rows of the sprite of `count` rows that starts at the address in I.
    pub open spec fn sprite(self, count: int) -> Seq<u8> {
        self.memory.subrange(self.index as int, self.index + count)
    }

    /// The state after one tick of the 60 Hz timer clock: both timers count
    /// down by one, and a timer at zero stays there.
    pub open spec fn ticked(self) -> State {
        State {
            delay: if self.delay > 0 {
                (self.delay - 1) as u8
            } else {
                0
            },
            sound: if self.sound > 0 {
                (self.sound - 1) as u8
            } else {
                0
            },
            ..self
        }
    }

    /// The state after `ticks` ticks of the timer clock: each timer has
    /// counted down by `ticks`, or to zero if it held less.
    pub open spec fn ticked_by(self, ticks: int) -> State {
        State {
            delay: if self.delay > ticks {
                (self.delay - ticks) as u8
            } else {
                0
            },
            sound: if self.sound > ticks {
                (self.sound - ticks) as u8
            } else {
                0
            },
            ..self
        }
    }

    /// The machine right after `program` has been loaded: registers, timers,
    /// stack and framebuffer cleared, the font and the program in memory, and
    /// the program counter at the program's first byte.
    pub open spec fn boot(program: Seq<u8>) -> State {
        State {
            pc: PROGRAM_START,
            index: 0,
            v: Seq::new(REGISTER_COUNT as nat, |r: int| 0u8),
            delay: 0,
            sound: 0,
            stack: Seq::empty(),
            memory: Seq::new(
                MEMORY_SIZE as nat,
                |a: int|
                    if FONT_BASE <= a < FONT_BASE + FONT_SIZE {
                        font()[a - FONT_BASE]
                    } else if PROGRAM_START <= a < PROGRAM_START + program.len() {
                        program[a - PROGRAM_START]
                    } else {
                        0u8
                    },
            ),
            screen: blank(),
        }
    }
}

/// The machine.
#[derive(Debug)]
pub struct Chip8 {
    pc: u16,
    sp: usize,
    index: u16,
    v: [u8; REGISTER_COUNT],
    delay: u8,
    sound: u8,
    stack: [u16; STACK_DEPTH],
    memory: [u8; MEMORY_SIZE],
    screen: Framebuffer,
}

impl View for Chip8 {
    type V = State;

    closed spec fn view(&self) -> State {
        State {
            pc: self.pc,
            index: self.index,
            v: self.v@,
            delay: self.delay,
            sound: self.sound,
            stack: self.stack@.subrange(0, self.sp as int),
            memory: self.memory@,
            screen: self.screen@,
        }
    }
}

impl Chip8 {
    /// The stack pointer lies within the stack.
    pub closed spec fn stack_bounded(&self) -> bool {
        self.sp <= STACK_DEPTH
    }

    /// The machine's state is well formed.
    pub open spec fn wf(&self) -> bool {
        self.stack_bounded() && self@.wf()
    }

    /// Builds a machine with `program` loaded at `PROGRAM_START`.
    ///
    /// Fails with `ProgramTooLarge` exactly when the program is longer than
    /// `PROGRAM_CAPACITY`.
    pub fn new(program: Vec<u8>) -> (made: Result<Chip8, Fault>)
        ensures
            program@.len() <= PROGRAM_CAPACITY ==> made is Ok && made->Ok_0@ == State::boot(
                program@,
            ) && made->Ok_0.wf(),
            program@.len() > PROGRAM_CAPACITY ==> made == Err::<Chip8, Fault>(
                Fault {
                    kind: FaultKind::ProgramTooLarge { len: program.len() },
                    opcode: 0,
                    pc: PROGRAM_START,
                },
            ),
    {
        if program.len() > PROGRAM_CAPACITY {
            return Err(
                Fault {
                    kind: FaultKind::ProgramTooLarge { len: program.len() },
                    opcode: 0,
                    pc: PROGRAM_START,
                },
            );
        }
        let fonts: [u8; FONT_SIZE] = font_table();
        let mut memory: [u8; MEMORY_SIZE] = [0u8; MEMORY_SIZE];
        let mut k: usize = 0;
        while k < FONT_SIZE
            invariant
                k <= FONT_SIZE,
                fonts@ == font(),
                forall|a: int|
                    0 <= a < MEMORY_SIZE ==> #[trigger] memory@[a] == if FONT_BASE <= a < FONT_BASE
                        + k {
                        font()[a - FONT_BASE]
                    } else {
                        0u8
                    },
            decreases FONT_SIZE - k,
        {
            memory[FONT_BASE as usize + k] = fonts[k];
            k += 1;
        }
        let mut i: usize = 0;
        while i < program.len()
            invariant
                i <= program.len(),
                program.len() <= PROGRAM_CAPACITY,
                forall|a: int|
                    0 <= a < MEMORY_SIZE ==> #[trigger] memory@[a] == if FONT_BASE <= a < FONT_BASE
                        + FONT_SIZE {
                        font()[a - FONT_BASE]
                    } else if PROGRAM_START <= a < PROGRAM_START + i {
                        program@[a - PROGRAM_START]
                    } else {
                        0u8
                    },
            decreases program.len() - i,
        {
            memory[PROGRAM_START as usize + i] = program[i];
            i += 1;
        }
        let chip = Chip8 {
            pc: PROGRAM_START,
            sp: 0,
            index: 0,
            v: [0u8; REGISTER_COUNT],
            delay: 0,
            sound: 0,
            stack: [0u16; STACK_DEPTH],
            memory,
            screen: Framebuffer::new(),
        };
        proof {
            let boot = State::boot(program@);
            assert(chip@.v =~= boot.v);
            assert(chip@.stack =~= boot.stack);
            assert(chip@.memory =~= boot.memory);
        }
        Ok(chip)
    }

    /// The program counter.
    pub fn pc(&self) -> (pc: u16)
        ensures
            pc == self@.pc,
    {
        self.pc
    }

    /// The index register I.
    pub fn index(&self) -> (index: u16)
        ensures
            index == self@.index,
    {
        self.index
    }

    /// The registers V0 to VF.
    pub fn registers(&self) -> (v: &[u8; REGISTER_COUNT])
        ensures
            v@ == self@.v,
    {
        &self.v
    }

    /// The value of register `r`.
    pub fn register(&self, r: usize) -> (value: u8)
        requires
            r < REGISTER_COUNT,
        ensures
            value == self@.v[r as int],
    {
        self.v[r]
    }

    /// The delay timer.
    pub fn delay_timer(&self) -> (delay: u8)
        ensures
            delay == self@.delay,
    {
        self.delay
    }

    /// The sound timer.
    pub fn sound_timer(&self) -> (sound: u8)
        ensures
            sound == self@.sound,
    {
        self.sound
    }

    /// The number of return addresses on the stack.
    pub fn stack_depth(&self) -> (depth: usize)
        requires
            self.wf(),
        ensures
            depth == self@.stack.len(),
    {
        self.sp
    }

    /// The whole memory.
    pub fn memory(&self) -> (memory: &[u8; MEMORY_SIZE])
        ensures
            memory@ == self@.memory,
    {
        &self.memory
    }

    /// The framebuffer, for display.
    pub fn framebuffer(&self) -> (screen: &Framebuffer)
        ensures
            screen@ == self@.screen,
    {
        &self.screen
    }

    /// Counts both timers down by one; a timer at zero stays there.
    pub fn tick_timers(&mut self)
        requires
            old(self).wf(),
        ensures
            final(self).wf(),
            final(self)@ == old(self)@.ticked(),
    {
        if self.delay > 0 {
            self.delay = self.delay - 1;
        }
        if self.sound > 0 {
            self.sound = self.sound - 1;
        }
    }

    /// Counts both timers down by `ticks`; a timer that holds less goes to
    /// zero.
    pub fn tick_timers_by(&mut self, ticks: u64)
        requires
            old(self).wf(),
        ensures
            final(self).wf(),
            final(self)@ == old(self)@.ticked_by(ticks as int),
    {
        if ticks >= self.delay as u64 {
            self.delay = 0;
        } else {
            self.delay = self.delay - ticks as u8;
        }
        if ticks >= self.sound as u64 {
            self.sound = 0;
        } else {
            self.sound = self.sound - ticks as u8;
        }
    }

    /// Sets the program counter.
    pub(crate) fn set_pc(&mut self, pc: u16)
        requires
            old(self).wf(),
        ensures
            final(self).wf(),
            final(self)@ == (State { pc, ..old(self)@ }),
    {
        self.pc = pc;
    }

    /// Sets the index register.
    pub(crate) fn set_index(&mut self, index: u16)
        requires
            old(self).wf(),
            index < MEMORY_SIZE,
        ensures
            final(self).wf(),
            final(self)@ == (State { index, ..old(self)@ }),
    {
        self.index = index;
    }

    /// Sets register `r`.
    pub(crate) fn set_register(&mut self, r: usize, value: u8)
        requires
            old(self).wf(),
            r < REGISTER_COUNT,
        ensures
            final(self).wf(),
            final(self)@ == old(self)@.with_register(r as int, value),
    {
        self.v[r] = value;
    }

    /// Sets the delay timer.
    pub(crate) fn set_delay(&mut self, delay: u8)
        requires
            old(self).wf(),
        ensures
            final(self).wf(),
            final(self)@ == (State { delay, ..old(self)@ }),
    {
        self.delay = delay;
    }

    /// Sets the sound timer.
    pub(crate) fn set_sound(&mut self, sound: u8)
        requires
            old(self).wf(),
        ensures
            final(self).wf(),
            final(self)@ == (State { sound, ..old(self)@ }),
    {
        self.sound = sound;
    }

    /// Pushes a return address.
    pub(crate) fn push_return(&mut self, address: u16)
        requires
            old(self).wf(),
            old(self)@.stack.len() < STACK_DEPTH,
        ensures
            final(self).wf(),
            final(self)@ == (State { stack: old(self)@.stack.push(address), ..old(self)@ }),
    {
        self.stack[self.sp] = address;
        self.sp = self.sp + 1;
        assert(self@.stack =~= old(self)@.stack.push(address));
    }

    /// Pops the most recent return address.
    pub(crate) fn pop_return(&mut self) -> (address: u16)
        requires
            old(self).wf(),
            old(self)@.stack.len() > 0,
        ensures
            final(self).wf(),
            address == old(self)@.stack.last(),
            final(self)@ == (State { stack: old(self)@.stack.drop_last(), ..old(self)@ }),
    {
        self.sp = self.sp - 1;
        assert(self@.stack =~= old(self)@.stack.drop_last());
        self.stack[self.sp]
    }

    /// Writes one byte of writable memory.
    pub(crate) fn write_memory(&mut self, address: usize, value: u8)
        requires
            old(self).wf(),
            PROGRAM_START <= address < MEMORY_SIZE,
        ensures
            final(self).wf(),
            final(self)@ == (State {
                memory: old(self)@.memory.update(address as int, value),
                ..old(self)@
            }),
    {
        self.memory[address] = value;
    }

    /// Turns every pixel off.
    pub(crate) fn clear_screen(&mut self)
        requires
            old(self).wf(),
        ensures
            final(self).wf(),
            final(self)@ == (State { screen: blank(), ..old(self)@ }),
    {
        self.screen.clear();
    }

    /// XORs onto the framebuffer, at `(cx, cy)`, the sprite of `count` rows
    /// that starts at the address in I, and returns whether a lit pixel was
    /// turned off.
    pub(crate) fn draw_sprite(&mut self, cx: u8, cy: u8, count: usize) -> (collision: bool)
        requires
            old(self).wf(),
            count <= MAX_SPRITE_ROWS,
            old(self)@.index + count <= MEMORY_SIZE,
        ensures
            final(self).wf(),
            final(self)@ == (State {
                screen: blit(old(self)@.screen, old(self)@.sprite(count as int), cx as int, cy as int),
                ..old(self)@
            }),
            collision == collides(
                old(self)@.screen,
                old(self)@.sprite(count as int),
                cx as int,
                cy as int,
            ),
    {
        self.screen.draw(self.memory.as_slice(), self.index as usize, count, cx, cy)
    }
}

} // verus!
