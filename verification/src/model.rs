//! The machine as a mathematical value, and what one cycle does to it.
//!
//! [`State`] is what an observer can tell about a machine. [`step`] maps a
//! state to the state after one fetch-decode-execute cycle, or to the error
//! that stops it. Two choices are made here once and for all: a word that
//! matches no instruction is an error in every family, and an error leaves
//! the state untouched.

use vstd::prelude::*;
use crate::display::blank;
use crate::display::collides;
use crate::display::drawn;
use crate::display::is_frame;
use crate::error::Chip8Error;
use crate::memory::initial_image;
use crate::memory::overlaid;
use crate::memory::MEMORY_SIZE;
use crate::memory::PROGRAM_START;
use crate::opcode::is_key_wait;
use crate::opcode::op_kind;
use crate::opcode::op_n;
use crate::opcode::op_nn;
use crate::opcode::op_nnn;
use crate::opcode::op_x;
use crate::opcode::op_y;
use crate::opcode::word;

verus! {

/// Number of general registers, and of keys on the keypad.
pub const REGISTERS: usize = 16;

/// Number of return addresses that the call stack can hold.
pub const STACK_DEPTH: usize = 16;

/// Index of the register that doubles as carry, borrow and collision flag.
pub const FLAG: usize = 15;

/// Where the machine stands with respect to the wait-for-key instruction.
pub enum KeyWait {
    /// Instructions execute normally.
    Idle,
    /// A wait-for-key instruction has begun and no key has been pressed since.
    Awaiting,
    /// The key with this code was pressed while the machine was waiting.
    Delivered(u8),
}

/// Everything that can be observed of a machine.
#[verifier::ext_equal]
pub struct State {
    /// The `MEMORY_SIZE` bytes of memory.
    pub memory: Seq<u8>,
    /// The general registers `V0` to `VF`.
    pub v: Seq<u8>,
    /// The index register.
    pub i: u16,
    /// The program counter.
    pub pc: u16,
    /// The return addresses of the calls in progress, the latest last.
    pub stack: Seq<u16>,
    /// The delay timer.
    pub delay_timer: u8,
    /// The sound timer; a tone is due while it is not zero.
    pub sound_timer: u8,
    /// The framebuffer, one byte per cell, row after row.
    pub gfx: Seq<u8>,
    /// For each key, whether it is held down.
    pub keys: Seq<bool>,
    /// Whether the framebuffer was written since the flag was last cleared.
    pub draw_flag: bool,
    /// The key-wait state.
    pub wait: KeyWait,
}

/// The value of a timer one cycle later.
pub open spec fn decayed(timer: u8) -> u8 {
    if timer > 0 {
        (timer - 1) as u8
    } else {
        0
    }
}

/// The words that `load_raw` takes, spelt out as bytes, the more significant
/// byte of each word first.
pub open spec fn words_to_bytes(words: Seq<u16>) -> Seq<u8> {
    Seq::new(
        2 * words.len(),
        |k: int| if k % 2 == 0 {
            (words[k / 2] as int / 0x100) as u8
        } else {
            (words[k / 2] as int % 0x100) as u8
        },
    )
}

impl State {
    /// The validity of a state: the sizes are right, the stack is not deeper
    /// than it can be, every cell of the framebuffer is 0 or 1, and a key that
    /// was delivered is a key of the keypad.
    pub open spec fn wf(self) -> bool {
        &&& self.memory.len() == MEMORY_SIZE
        &&& self.v.len() == REGISTERS
        &&& self.keys.len() == REGISTERS
        &&& self.stack.len() <= STACK_DEPTH
        &&& is_frame(self.gfx)
        &&& (self.wait matches KeyWait::Delivered(k) ==> k < REGISTERS)
    }

    /// The machine as it is built: the font in memory, the program counter at
    /// the start of the program area, everything else zero.
    pub open spec fn initial() -> State {
        State {
            memory: initial_image(),
            v: Seq::new(REGISTERS as nat, |r: int| 0u8),
            i: 0,
            pc: PROGRAM_START,
            stack: Seq::empty(),
            delay_timer: 0,
            sound_timer: 0,
            gfx: blank(),
            keys: Seq::new(REGISTERS as nat, |k: int| false),
            draw_flag: false,
            wait: KeyWait::Idle,
        }
    }

    /// Whether a program of `len` bytes fits between the start of the program
    /// area and the end of memory.
    pub open spec fn fits(len: nat) -> bool {
        PROGRAM_START + len <= MEMORY_SIZE
    }

    /// The state after `bytes` were copied to the program area. Nothing but
    /// the addresses `PROGRAM_START .. PROGRAM_START + bytes.len()` changes.
    pub open spec fn loaded(self, bytes: Seq<u8>) -> State {
        State {
            memory: overlaid(self.memory, PROGRAM_START as int, bytes),
            ..self
        }
    }

    /// What loading `bytes` comes to: the state with the program in place,
    /// or the error of a program that does not fit.
    pub open spec fn load(self, bytes: Seq<u8>) -> Result<State, Chip8Error> {
        if State::fits(bytes.len()) {
            Ok(self.loaded(bytes))
        } else {
            Err(Chip8Error::OutOfBounds)
        }
    }

    /// Whether an operation that was to do `expected` did so: on success it
    /// reports success and leaves the state that was expected, on failure
    /// it reports that error and leaves the state `self` as it was.
    pub open spec fn yields(
        self,
        expected: Result<State, Chip8Error>,
        after: State,
        result: Result<(), Chip8Error>,
    ) -> bool {
        match expected {
            Ok(next) => result is Ok && after =~= next,
            Err(e) => result == Err::<(), Chip8Error>(e) && after =~= self,
        }
    }

    /// The state after key `code` went down. A waiting machine takes note of
    /// the key; where several arrive before the next cycle, the last one counts.
    pub open spec fn key_pressed(self, code: u8) -> State {
        if code < REGISTERS {
            State {
                keys: self.keys.update(code as int, true),
                wait: if self.wait is Idle {
                    KeyWait::Idle
                } else {
                    KeyWait::Delivered(code)
                },
                ..self
            }
        } else {
            self
        }
    }

    /// The state after key `code` went up.
    pub open spec fn key_released(self, code: u8) -> State {
        if code < REGISTERS {
            State { keys: self.keys.update(code as int, false), ..self }
        } else {
            self
        }
    }

    /// The same state with register `x` holding `value`.
    pub open spec fn with_register(self, x: int, value: u8) -> State {
        State { v: self.v.update(x, value), ..self }
    }

    /// The same state with the flag register holding 1 if `raised`, else 0.
    pub open spec fn with_flag(self, raised: bool) -> State {
        self.with_register(FLAG as int, if raised { 1u8 } else { 0u8 })
    }

    /// The same state with the program counter at `target`.
    pub open spec fn jumped(self, target: int) -> State {
        State { pc: target as u16, ..self }
    }

    /// The same state with the program counter on the next instruction.
    pub open spec fn advanced(self) -> State {
        self.jumped(self.pc + 2)
    }

    /// The same state with the program counter past the next instruction if
    /// `skip`, on it otherwise.
    pub open spec fn branched(self, skip: bool) -> State {
        self.jumped(if skip { self.pc + 4 } else { self.pc + 2 })
    }

    /// The same state with both timers one cycle older.
    pub open spec fn ticked(self) -> State {
        State {
            delay_timer: decayed(self.delay_timer),
            sound_timer: decayed(self.sound_timer),
            ..self
        }
    }

    /// The word at the program counter, or the error of reading past the end
    /// of memory.
    pub open spec fn fetch(self) -> Result<u16, Chip8Error> {
        if self.pc + 1 < MEMORY_SIZE {
            Ok(word(self.memory[self.pc as int], self.memory[self.pc + 1]))
        } else {
            Err(Chip8Error::OutOfBounds)
        }
    }

    /// `00E0` clears the screen, `00EE` returns from a subroutine.
    pub open spec fn run_system(self, op: u16) -> Result<State, Chip8Error> {
        if op == 0x00E0 {
            Ok(State { gfx: blank(), draw_flag: true, ..self }.advanced())
        } else if op == 0x00EE {
            if self.stack.len() == 0 {
                Err(Chip8Error::StackUnderflow)
            } else {
                Ok(State { stack: self.stack.drop_last(), ..self }.jumped(self.stack.last() as int))
            }
        } else {
            Err(Chip8Error::IllegalOpcode(op))
        }
    }

    /// `2NNN` calls the subroutine at `NNN`: the address of the instruction
    /// after the call goes on the stack.
    pub open spec fn run_call(self, op: u16) -> Result<State, Chip8Error> {
        if self.stack.len() >= STACK_DEPTH {
            Err(Chip8Error::StackOverflow)
        } else {
            Ok(
                State { stack: self.stack.push((self.pc + 2) as u16), ..self }.jumped(
                    op_nnn(op) as int,
                ),
            )
        }
    }

    /// `8XY0` to `8XY7` and `8XYE`: register-to-register moves, logic and
    /// arithmetic. Where an instruction sets the flag, the flag is written
    /// last. The two shifts take their operand from `VY`.
    pub open spec fn run_alu(self, op: u16) -> Result<State, Chip8Error> {
        let x = op_x(op);
        let vx = self.v[x];
        let vy = self.v[op_y(op)];
        let n = op_n(op);
        if n == 0x0 {
            Ok(self.with_register(x, vy).advanced())
        } else if n == 0x1 {
            Ok(self.with_register(x, vx | vy).advanced())
        } else if n == 0x2 {
            Ok(self.with_register(x, vx & vy).advanced())
        } else if n == 0x3 {
            Ok(self.with_register(x, vx ^ vy).advanced())
        } else if n == 0x4 {
            Ok(
                self.with_register(x, ((vx + vy) % 0x100) as u8).with_flag(
                    vx + vy > 0xFF,
                ).advanced(),
            )
        } else if n == 0x5 {
            Ok(self.with_register(x, ((vx - vy) % 0x100) as u8).with_flag(vx >= vy).advanced())
        } else if n == 0x6 {
            Ok(self.with_register(x, vy / 2).with_flag(vy % 2 == 1).advanced())
        } else if n == 0x7 {
            Ok(self.with_register(x, ((vy - vx) % 0x100) as u8).with_flag(vy >= vx).advanced())
        } else if n == 0xE {
            Ok(
                self.with_register(x, ((vy * 2) % 0x100) as u8).with_flag(
                    vy >= 0x80,
                ).advanced(),
            )
        } else {
            Err(Chip8Error::IllegalOpcode(op))
        }
    }

    /// `DXYN` draws the `N` bytes at `I` as a sprite at `(VX, VY)` and sets
    /// the flag to whether a lit cell went off.
    pub open spec fn run_draw(self, op: u16) -> Result<State, Chip8Error> {
        let n = op_n(op);
        let x = self.v[op_x(op)];
        let y = self.v[op_y(op)];
        if self.i + n > MEMORY_SIZE {
            Err(Chip8Error::OutOfBounds)
        } else {
            let sprite = self.memory.subrange(self.i as int, self.i + n);
            Ok(
                State {
                    gfx: drawn(self.gfx, sprite, x, y),
                    draw_flag: true,
                    ..self
                }.with_flag(collides(self.gfx, sprite, x, y)).advanced(),
            )
        }
    }

    /// `EX9E` skips if key `VX` is down, `EXA1` if it is up.
    pub open spec fn run_keys(self, op: u16) -> Result<State, Chip8Error> {
        let key = self.v[op_x(op)];
        let nn = op_nn(op);
        if nn != 0x9E && nn != 0xA1 {
            Err(Chip8Error::IllegalOpcode(op))
        } else if key >= REGISTERS {
            Err(Chip8Error::InvalidKey)
        } else if nn == 0x9E {
            Ok(self.branched(self.keys[key as int]))
        } else {
            Ok(self.branched(!self.keys[key as int]))
        }
    }

    /// The `FX..` family: timers, the index register, and transfers between
    /// registers and memory. `FX0A` is taken to be complete here: it is
    /// reached only once a key was delivered.
    pub open spec fn run_misc(self, op: u16) -> Result<State, Chip8Error> {
        let x = op_x(op);
        let vx = self.v[x];
        let nn = op_nn(op);
        if nn == 0x07 {
            Ok(self.with_register(x, self.delay_timer).advanced())
        } else if nn == 0x0A {
            match self.wait {
                KeyWait::Delivered(key) => Ok(
                    State { wait: KeyWait::Idle, ..self }.with_register(x, key).advanced(),
                ),
                _ => Ok(self),
            }
        } else if nn == 0x15 {
            Ok(State { delay_timer: vx, ..self }.advanced())
        } else if nn == 0x18 {
            Ok(State { sound_timer: vx, ..self }.advanced())
        } else if nn == 0x1E {
            Ok(State { i: ((self.i + vx) % 0x10000) as u16, ..self }.advanced())
        } else if nn == 0x29 {
            Ok(State { i: (5 * vx) as u16, ..self }.advanced())
        } else if nn == 0x33 {
            if self.i + 2 >= MEMORY_SIZE {
                Err(Chip8Error::OutOfBounds)
            } else {
                Ok(
                    State {
                        memory: self.memory.update(self.i as int, vx / 100).update(
                            self.i + 1,
                            (vx / 10) % 10,
                        ).update(self.i + 2, vx % 10),
                        ..self
                    }.advanced(),
                )
            }
        } else if nn == 0x55 {
            if self.i + x >= MEMORY_SIZE {
                Err(Chip8Error::OutOfBounds)
            } else {
                Ok(
                    State {
                        memory: overlaid(self.memory, self.i as int, self.v.subrange(0, x + 1)),
                        ..self
                    }.advanced(),
                )
            }
        } else if nn == 0x65 {
            if self.i + x >= MEMORY_SIZE {
                Err(Chip8Error::OutOfBounds)
            } else {
                Ok(
                    State {
                        v: Seq::new(
                            REGISTERS as nat,
                            |r: int| if r <= x {
                                self.memory[self.i + r]
                            } else {
                                self.v[r]
                            },
                        ),
                        ..self
                    }.advanced(),
                )
            }
        } else {
            Err(Chip8Error::IllegalOpcode(op))
        }
    }

    /// The effect of the instruction `op`, timers apart. `random` is the
    /// byte that `CXNN` masks.
    pub open spec fn run(self, op: u16, random: u8) -> Result<State, Chip8Error> {
        let kind = op_kind(op);
        let x = op_x(op);
        let vx = self.v[x];
        let vy = self.v[op_y(op)];
        let nn = op_nn(op);
        let nnn = op_nnn(op);
        if kind == 0x0 {
            self.run_system(op)
        } else if kind == 0x1 {
            Ok(self.jumped(nnn as int))
        } else if kind == 0x2 {
            self.run_call(op)
        } else if kind == 0x3 {
            Ok(self.branched(vx == nn))
        } else if kind == 0x4 {
            Ok(self.branched(vx != nn))
        } else if kind == 0x5 {
            if op_n(op) == 0 {
                Ok(self.branched(vx == vy))
            } else {
                Err(Chip8Error::IllegalOpcode(op))
            }
        } else if kind == 0x6 {
            Ok(self.with_register(x, nn).advanced())
        } else if kind == 0x7 {
            Ok(self.with_register(x, ((vx + nn) % 0x100) as u8).advanced())
        } else if kind == 0x8 {
            self.run_alu(op)
        } else if kind == 0x9 {
            if op_n(op) == 0 {
                Ok(self.branched(vx != vy))
            } else {
                Err(Chip8Error::IllegalOpcode(op))
            }
        } else if kind == 0xA {
            Ok(State { i: nnn, ..self }.advanced())
        } else if kind == 0xB {
            Ok(self.jumped(nnn + self.v[0]))
        } else if kind == 0xC {
            Ok(self.with_register(x, nn & random).advanced())
        } else if kind == 0xD {
            self.run_draw(op)
        } else if kind == 0xE {
            self.run_keys(op)
        } else {
            self.run_misc(op)
        }
    }

    /// One instruction from start to end. A wait-for-key instruction that no
    /// key has been delivered to puts or keeps the machine waiting: nothing
    /// else changes, and the timers stand still. Every other instruction
    /// that succeeds is followed by one tick of both timers.
    pub open spec fn execute(self, op: u16, random: u8) -> Result<State, Chip8Error> {
        if is_key_wait(op) && !(self.wait is Delivered) {
            Ok(State { wait: KeyWait::Awaiting, ..self })
        } else {
            match self.run(op, random) {
                Ok(next) => Ok(next.ticked()),
                Err(e) => Err(e),
            }
        }
    }

    /// One cycle: fetch the word at the program counter and execute it. The
    /// all-zero word stands for memory that no program was written to: the
    /// cycle then changes nothing at all.
    pub open spec fn step(self, random: u8) -> Result<State, Chip8Error> {
        match self.fetch() {
            Ok(op) => if op == 0 {
                Ok(self)
            } else {
                self.execute(op, random)
            },
            Err(e) => Err(e),
        }
    }
}

} // verus!
