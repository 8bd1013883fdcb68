//! The driver: paces instruction cycles and timer ticks, holds the keypad,
//! and keeps the machine suspended while it waits for a key.

use vstd::prelude::*;
use crate::execute::{draws_random, step_spec, steps, Flow};
use crate::fault::{Fault, FaultKind};
use crate::keypad::{Keypad, KEY_COUNT};
use crate::machine::{Chip8, State, PROGRAM_CAPACITY, PROGRAM_START, REGISTER_COUNT};

verus! {

/// Rate of the timer clock, in ticks per second.
pub const TIMER_HZ: u64 = 60;

/// Microseconds per second.
pub const MICROS_PER_SECOND: u64 = 1_000_000;

/// Time allotted to one frame, in microseconds: a sixtieth of a second,
/// rounded down.
pub const FRAME_MICROS: u64 = 16_666;

/// What the driver does with an opcode that matches no instruction.
#[derive(Clone, Copy, Debug, PartialEq, Eq, Structural)]
pub enum Policy {
    /// Halt and report the fault.
    Strict,
    /// Step over the opcode and go on.
    Permissive,
}

impl Default for Policy {
    /// The strict policy: an unknown opcode is a bug in the program, and
    /// stepping over it hides the bug.
    fn default() -> (policy: Policy)
        ensures
            policy == Policy::Strict,
    {
        Policy::Strict
    }
}

/// Whether instructions are being executed.
#[derive(Clone, Copy, Debug, PartialEq, Eq, Structural)]
pub enum Mode {
    /// Each cycle executes one instruction.
    Running,
    /// Execution is suspended until a key is pressed; its code goes to
    /// register `x`.
    AwaitingKey { x: u8 },
}

/// The driver as a mathematical value.
pub struct DriverState {
    /// The machine.
    pub machine: State,
    /// The codes of the keys held down.
    pub keys: Set<u8>,
    /// Whether instructions are being executed.
    pub mode: Mode,
    /// What is done with an unknown opcode.
    pub policy: Policy,
    /// Time since the last timer tick, in sixtieths of a microsecond.
    pub phase: int,
}

impl DriverState {
    /// The machine is well formed, less than one tick's worth of time is
    /// pending, and a key that is waited for goes to an existing register.
    pub open spec fn wf(self) -> bool {
        &&& self.machine.wf()
        &&& 0 <= self.phase < MICROS_PER_SECOND
        &&& (self.mode matches Mode::AwaitingKey { x } ==> x < REGISTER_COUNT)
    }

    /// The driver right after `program` has been loaded.
    pub open spec fn boot(program: Seq<u8>, policy: Policy) -> DriverState {
        DriverState {
            machine: State::boot(program),
            keys: Set::empty(),
            mode: Mode::Running,
            policy,
            phase: 0,
        }
    }

    /// The driver after one cycle, with `random` as the byte that the random
    /// source gives, or the fault that halts it.
    ///
    /// While a key is awaited nothing is executed. Otherwise one instruction
    /// is fetched, decoded and executed; a `WaitKey` suspends execution; an
    /// unknown opcode is stepped over if the policy is permissive; any other
    /// fault, and an unknown opcode under the strict policy, is reported and
    /// leaves the driver as it was.
    pub open spec fn cycle(self, random: u8) -> Result<DriverState, Fault> {
        match self.mode {
            Mode::AwaitingKey { x } => Ok(self),
            Mode::Running => match step_spec(self.machine, self.keys, random) {
                Ok((machine, Flow::Continue)) => Ok(DriverState { machine, ..self }),
                Ok((machine, Flow::AwaitKey { x })) => Ok(
                    DriverState { machine, mode: Mode::AwaitingKey { x }, ..self },
                ),
                Err(fault) => if fault.kind == FaultKind::UnknownOpcode && self.policy
                    == Policy::Permissive {
                    Ok(DriverState { machine: self.machine.next(), ..self })
                } else {
                    Err(fault)
                },
            },
        }
    }

    /// The driver after the key with code `key` went down: the key is held
    /// down, and if a key was awaited its code goes to the register that
    /// waits for it and execution resumes. A code that names no key changes
    /// nothing.
    pub open spec fn key_down(self, key: u8) -> DriverState {
        if key >= KEY_COUNT {
            self
        } else {
            match self.mode {
                Mode::Running => DriverState { keys: self.keys.insert(key), ..self },
                Mode::AwaitingKey { x } => DriverState {
                    machine: self.machine.with_register(x as int, key),
                    keys: self.keys.insert(key),
                    mode: Mode::Running,
                    ..self
                },
            }
        }
    }

    /// Whether the next cycle draws a byte from the random source.
    pub open spec fn draws_random(self) -> bool {
        self.mode == Mode::Running && draws_random(self.machine)
    }

    /// The number of timer ticks that fall due when `micros` microseconds
    /// pass.
    pub open spec fn ticks_due(self, micros: int) -> int {
        (self.phase + micros * TIMER_HZ) / (MICROS_PER_SECOND as int)
    }

    /// The driver after `micros` microseconds have passed: the timers have
    /// counted down once for each tick that fell due, and the rest of the
    /// time stays pending. Nothing else changes, whatever the mode.
    pub open spec fn elapsed(self, micros: int) -> DriverState {
        DriverState {
            machine: self.machine.ticked_by(self.ticks_due(micros)),
            phase: (self.phase + micros * TIMER_HZ) % (MICROS_PER_SECOND as int),
            ..self
        }
    }
}

/// Whether one cycle of a driver in state `before`, with `random` as the
/// random byte, leaves it in state `after` and reports `outcome`: the mode it
/// is then in, or the fault. A fault leaves the state as it was.
pub open spec fn cycles(
    before: DriverState,
    random: u8,
    after: DriverState,
    outcome: Result<Mode, Fault>,
) -> bool {
    match before.cycle(random) {
        Ok(state) => outcome == Ok::<Mode, Fault>(state.mode) && after == state,
        Err(fault) => outcome == Err::<Mode, Fault>(fault) && after == before,
    }
}

/// The driver: a machine, its keypad, and the clock that paces them.
#[derive(Debug)]
pub struct Driver {
    machine: Chip8,
    keys: Keypad,
    mode: Mode,
    policy: Policy,
    phase: u32,
}

impl View for Driver {
    type V = DriverState;

    closed spec fn view(&self) -> DriverState {
        DriverState {
            machine: self.machine@,
            keys: self.keys@,
            mode: self.mode,
            policy: self.policy,
            phase: self.phase as int,
        }
    }
}

/// Time left of a frame of which `elapsed_micros` microseconds have been
/// spent: how long to sleep so that frames follow each other at 60 Hz. Zero
/// once the frame's time is used up.
pub fn frame_budget_left(elapsed_micros: u64) -> (left: u64)
    ensures
        left == if elapsed_micros < FRAME_MICROS {
            FRAME_MICROS - elapsed_micros
        } else {
            0
        },
{
    if elapsed_micros < FRAME_MICROS {
        FRAME_MICROS - elapsed_micros
    } else {
        0
    }
}

impl Driver {
    /// The machine's private invariant holds.
    pub closed spec fn machine_bounded(&self) -> bool {
        self.machine.stack_bounded()
    }

    /// The driver's state is well formed.
    pub open spec fn wf(&self) -> bool {
        self.machine_bounded() && self@.wf()
    }

    /// Builds a driver around a machine with `program` loaded, running, with
    /// no key held down and no time pending.
    ///
    /// Fails with `ProgramTooLarge` exactly when the program is longer than
    /// `PROGRAM_CAPACITY`.
    pub fn new(program: Vec<u8>, policy: Policy) -> (made: Result<Driver, Fault>)
        ensures
            program@.len() <= PROGRAM_CAPACITY ==> made is Ok && made->Ok_0@ == DriverState::boot(
                program@,
                policy,
            ) && made->Ok_0.wf(),
            program@.len() > PROGRAM_CAPACITY ==> made == Err::<Driver, Fault>(
                Fault {
                    kind: FaultKind::ProgramTooLarge { len: program.len() },
                    opcode: 0,
                    pc: PROGRAM_START,
                },
            ),
    {
        match Chip8::new(program) {
            Err(fault) => Err(fault),
            Ok(machine) => Ok(
                Driver { machine, keys: Keypad::new(), mode: Mode::Running, policy, phase: 0 },
            ),
        }
    }

    /// The machine, for reading registers, timers and the framebuffer.
    pub fn machine(&self) -> (machine: &Chip8)
        ensures
            machine@ == self@.machine,
            self.wf() ==> machine.wf(),
    {
        &self.machine
    }

    /// The keypad.
    pub fn keys(&self) -> (keys: &Keypad)
        ensures
            keys@ == self@.keys,
    {
        &self.keys
    }

    /// Whether instructions are being executed.
    pub fn mode(&self) -> (mode: Mode)
        ensures
            mode == self@.mode,
    {
        self.mode
    }

    /// What is done with an unknown opcode.
    pub fn policy(&self) -> (policy: Policy)
        ensures
            policy == self@.policy,
    {
        self.policy
    }

    /// Runs one cycle, with `random` as the byte that the random source
    /// gives, and returns the mode the driver is then in. A fault leaves the
    /// driver as it was.
    pub fn cycle_with(&mut self, random: u8) -> (outcome: Result<Mode, Fault>)
        requires
            old(self).wf(),
        ensures
            final(self).wf(),
            cycles(old(self)@, random, final(self)@, outcome),
    {
        match self.mode {
            Mode::AwaitingKey { x } => Ok(self.mode),
            Mode::Running => match self.machine.step_with(&self.keys, random) {
                Ok(Flow::Continue) => Ok(Mode::Running),
                Ok(Flow::AwaitKey { x }) => {
                    self.mode = Mode::AwaitingKey { x };
                    Ok(self.mode)
                },
                Err(fault) => {
                    if fault.kind == FaultKind::UnknownOpcode && self.policy == Policy::Permissive {
                        self.machine.skip();
                        Ok(Mode::Running)
                    } else {
                        Err(fault)
                    }
                },
            },
        }
    }

    /// Runs one cycle, drawing a byte from the random source if the
    /// instruction fetched is `Random`, and returns the mode the driver is
    /// then in. A fault leaves the driver as it was.
    ///
    /// What the random source gives is not known beforehand, so the outcome is
    /// stated for some byte; unless a `Random` instruction is executed the
    /// byte does not matter and the outcome is fully determined.
    pub fn cycle(&mut self) -> (outcome: Result<Mode, Fault>)
        requires
            old(self).wf(),
        ensures
            final(self).wf(),
            exists|random: u8| cycles(old(self)@, random, final(self)@, outcome),
            !old(self)@.draws_random() ==> forall|random: u8|
                cycles(old(self)@, random, final(self)@, outcome),
    {
        match self.mode {
            Mode::AwaitingKey { x } => {
                assert(cycles(old(self)@, 0, self@, Ok::<Mode, Fault>(self.mode)));
                Ok(self.mode)
            },
            Mode::Running => {
                let stepped = self.machine.step(&self.keys);
                let ghost random: u8 = choose|random: u8|
                    steps(old(self)@.machine, old(self)@.keys, random, self.machine@, stepped);
                let outcome = match stepped {
                    Ok(Flow::Continue) => Ok(Mode::Running),
                    Ok(Flow::AwaitKey { x }) => {
                        self.mode = Mode::AwaitingKey { x };
                        Ok(self.mode)
                    },
                    Err(fault) => {
                        if fault.kind == FaultKind::UnknownOpcode && self.policy
                            == Policy::Permissive {
                            self.machine.skip();
                            Ok(Mode::Running)
                        } else {
                            Err(fault)
                        }
                    },
                };
                assert(cycles(old(self)@, random, self@, outcome));
                outcome
            },
        }
    }

    /// Records that `key` went down. If the machine was waiting for a key,
    /// the key's code goes to the register that waits for it and execution
    /// resumes. A code that names no key is ignored.
    pub fn key_down(&mut self, key: u8)
        requires
            old(self).wf(),
        ensures
            final(self).wf(),
            final(self)@ == old(self)@.key_down(key),
    {
        if key < KEY_COUNT {
            self.keys.press(key);
            match self.mode {
                Mode::AwaitingKey { x } => {
                    self.machine.deliver_key(x, key);
                    self.mode = Mode::Running;
                },
                Mode::Running => {},
            }
        }
    }

    /// Records that `key` went up.
    pub fn key_up(&mut self, key: u8)
        requires
            old(self).wf(),
        ensures
            final(self).wf(),
            final(self)@ == (DriverState { keys: old(self)@.keys.remove(key), ..old(self)@ }),
    {
        self.keys.release(key);
    }

    /// Lets `micros` microseconds pass: counts the timers down once for each
    /// sixtieth of a second that has gone by since the last tick, keeps the
    /// rest of the time for later, and returns the number of ticks. Time
    /// passes in the same way whether instructions are being executed or a
    /// key is awaited.
    pub fn elapse(&mut self, micros: u64) -> (ticks: u64)
        requires
            old(self).wf(),
        ensures
            final(self).wf(),
            ticks == old(self)@.ticks_due(micros as int),
            final(self)@ == old(self)@.elapsed(micros as int),
    {
        let total: u128 = self.phase as u128 + micros as u128 * (TIMER_HZ as u128);
        let ticks: u64 = (total / (MICROS_PER_SECOND as u128)) as u64;
        self.phase = (total % (MICROS_PER_SECOND as u128)) as u32;
        self.machine.tick_timers_by(ticks);
        ticks
    }
}

} // verus!
