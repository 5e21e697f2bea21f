//! The machine itself: its registers, stack, timers, keypad and framebuffer,
//! and the cycle that drives them.

use vstd::prelude::*;
use rand::Rng;
use crate::display::blank;
use crate::display::draw_sprite;
use crate::display::is_frame;
use crate::display::SCREEN_CELLS;
use crate::error::Chip8Error;
use crate::memory::overlaid;
use crate::memory::MEMORY_SIZE;
use crate::memory::PROGRAM_START;
use crate::model::words_to_bytes;
use crate::model::KeyWait;
use crate::model::State;
use crate::model::FLAG;
use crate::model::REGISTERS;
use crate::model::STACK_DEPTH;
use crate::opcode::assemble;
use crate::opcode::is_random;
use crate::opcode::kind_of;
use crate::opcode::n_of;
use crate::opcode::nn_of;
use crate::opcode::nnn_of;
use crate::opcode::x_of;
use crate::opcode::y_of;

pub use crate::memory::Memory;

verus! {

/// A CHIP-8 machine.
pub struct Chip8 {
    gfx: [u8; SCREEN_CELLS],
    memory: Memory,
    stack: [u16; STACK_DEPTH],
    sp: usize,
    v: [u8; REGISTERS],
    i: u16,
    pc: u16,
    delay_timer: u8,
    sound_timer: u8,
    key: [bool; REGISTERS],
    draw_flag: bool,
    await_key_flag: bool,
    await_key_pressed: u8,
    await_key_notify: bool,
}

impl View for Chip8 {
    type V = State;

    closed spec fn view(&self) -> State {
        State {
            memory: self.memory@,
            v: self.v@,
            i: self.i,
            pc: self.pc,
            stack: self.stack@.subrange(0, self.sp as int),
            delay_timer: self.delay_timer,
            sound_timer: self.sound_timer,
            gfx: self.gfx@,
            keys: self.key@,
            draw_flag: self.draw_flag,
            wait: if !self.await_key_flag {
                KeyWait::Idle
            } else if !self.await_key_notify {
                KeyWait::Awaiting
            } else {
                KeyWait::Delivered(self.await_key_pressed)
            },
        }
    }
}

impl Chip8 {
    /// The validity of a machine. `new` establishes it and every operation
    /// keeps it.
    pub closed spec fn wf(&self) -> bool {
        &&& self.sp <= STACK_DEPTH
        &&& is_frame(self.gfx@)
        &&& (self.await_key_notify ==> self.await_key_flag && self.await_key_pressed < REGISTERS)
    }

    /// A valid machine shows a valid state.
    pub proof fn lemma_valid_state(&self)
        requires
            self.wf(),
        ensures
            self@.wf(),
    {
        self.memory.lemma_size();
    }

    /// A machine with the font loaded, the program counter at the start of
    /// the program area, and everything else zero.
    pub fn new() -> (machine: Chip8)
        ensures
            machine.wf(),
            machine@ == State::initial(),
    {
        let machine = Chip8 {
            gfx: [0; SCREEN_CELLS],
            memory: Memory::new(),
            stack: [0; STACK_DEPTH],
            sp: 0,
            v: [0; REGISTERS],
            i: 0,
            pc: PROGRAM_START,
            delay_timer: 0,
            sound_timer: 0,
            key: [false; REGISTERS],
            draw_flag: false,
            await_key_flag: false,
            await_key_pressed: 0,
            await_key_notify: false,
        };
        assert(machine@ =~= State::initial());
        machine
    }

    /// Installs the program `rom` at the start of the program area. A
    /// program too long for memory is refused, and nothing is written.
    pub fn load_rom(&mut self, rom: &[u8]) -> (result: Result<(), Chip8Error>)
        requires
            old(self).wf(),
        ensures
            final(self).wf(),
            old(self)@.yields(old(self)@.load(rom@), final(self)@, result),
    {
        if rom.len() > MEMORY_SIZE - 0x200 {
            return Err(Chip8Error::OutOfBounds);
        }
        self.memory.store(PROGRAM_START, rom);
        Ok(())
    }

    /// Installs a program given as instruction words, each stored with its
    /// more significant byte first. A program too long for memory is
    /// refused, and nothing is written.
    pub fn load_raw(&mut self, rom: &Vec<u16>) -> (result: Result<(), Chip8Error>)
        requires
            old(self).wf(),
        ensures
            final(self).wf(),
            old(self)@.yields(old(self)@.load(words_to_bytes(rom@)), final(self)@, result),
    {
        if rom.len() > (MEMORY_SIZE - 0x200) / 2 {
            return Err(Chip8Error::OutOfBounds);
        }
        store_words(&mut self.memory, rom);
        Ok(())
    }

    /// Records that key `code` went down. A machine that waits for a key
    /// takes it as the key waited for. A code that is no key of the keypad
    /// is ignored.
    pub fn set_key(&mut self, code: u8)
        requires
            old(self).wf(),
        ensures
            final(self).wf(),
            final(self)@ == old(self)@.key_pressed(code),
    {
        if (code as usize) < REGISTERS {
            self.key[code as usize] = true;
            if self.await_key_flag {
                self.await_key_pressed = code;
                self.await_key_notify = true;
            }
        }
        assert(self@ =~= old(self)@.key_pressed(code));
    }

    /// Records that key `code` went up. A code that is no key of the keypad
    /// is ignored.
    pub fn clear_key(&mut self, code: u8)
        requires
            old(self).wf(),
        ensures
            final(self).wf(),
            final(self)@ == old(self)@.key_released(code),
    {
        if (code as usize) < REGISTERS {
            self.key[code as usize] = false;
        }
        assert(self@ =~= old(self)@.key_released(code));
    }

    /// The framebuffer: one byte per cell, 0 or 1, row after row.
    pub fn framebuffer(&self) -> (cells: &[u8; SCREEN_CELLS])
        ensures
            cells@ == self@.gfx,
    {
        &self.gfx
    }

    /// Whether the framebuffer was written since the flag was last cleared.
    pub fn draw_flag(&self) -> (dirty: bool)
        ensures
            dirty == self@.draw_flag,
    {
        self.draw_flag
    }

    /// Clears the draw flag, as a consumer does once it has shown the frame.
    pub fn clear_draw_flag(&mut self)
        requires
            old(self).wf(),
        ensures
            final(self).wf(),
            final(self)@ == (State { draw_flag: false, ..old(self)@ }),
    {
        self.draw_flag = false;
    }

    /// The frame to show, if the framebuffer was written since the last one
    /// was taken or the flag cleared; the draw flag is cleared either way.
    pub fn take_frame(&mut self) -> (frame: Option<[u8; SCREEN_CELLS]>)
        requires
            old(self).wf(),
        ensures
            final(self).wf(),
            final(self)@ == (State { draw_flag: false, ..old(self)@ }),
            match frame {
                Some(cells) => old(self)@.draw_flag && cells@ == old(self)@.gfx,
                None => !old(self)@.draw_flag,
            },
    {
        if self.draw_flag {
            self.draw_flag = false;
            Some(self.gfx)
        } else {
            None
        }
    }

    /// The memory.
    pub fn memory(&self) -> (memory: &Memory)
        ensures
            memory@ == self@.memory,
    {
        &self.memory
    }

    /// The general registers `V0` to `VF`.
    pub fn registers(&self) -> (v: &[u8; REGISTERS])
        ensures
            v@ == self@.v,
    {
        &self.v
    }

    /// For each key, whether it is held down.
    pub fn keys(&self) -> (keys: &[bool; REGISTERS])
        ensures
            keys@ == self@.keys,
    {
        &self.key
    }

    /// The index register.
    pub fn index(&self) -> (i: u16)
        ensures
            i == self@.i,
    {
        self.i
    }

    /// The program counter.
    pub fn pc(&self) -> (pc: u16)
        ensures
            pc == self@.pc,
    {
        self.pc
    }

    /// The number of calls in progress.
    pub fn stack_depth(&self) -> (depth: usize)
        requires
            self.wf(),
        ensures
            depth == self@.stack.len(),
    {
        self.sp
    }

    /// The delay timer.
    pub fn delay_timer(&self) -> (timer: u8)
        ensures
            timer == self@.delay_timer,
    {
        self.delay_timer
    }

    /// The sound timer; a tone is due while it is not zero.
    pub fn sound_timer(&self) -> (timer: u8)
        ensures
            timer == self@.sound_timer,
    {
        self.sound_timer
    }

    /// Whether the machine is held up by a wait-for-key instruction.
    pub fn is_awaiting_key(&self) -> (waiting: bool)
        ensures
            waiting == !(self@.wait is Idle),
    {
        self.await_key_flag
    }

    /// Whether the instruction at the program counter lies within memory,
    /// so that the counter can move on past it.
    spec fn fetchable(&self) -> bool {
        self.pc + 1 < MEMORY_SIZE
    }

    /// Reads the instruction word at the program counter.
    fn fetch(&self) -> (result: Result<u16, Chip8Error>)
        ensures
            result == self@.fetch(),
            result is Ok ==> self.fetchable(),
    {
        proof {
            self.memory.lemma_size();
        }
        if self.pc >= 0xFFF {
            return Err(Chip8Error::OutOfBounds);
        }
        let high = self.memory.read(self.pc);
        let low = self.memory.read(self.pc + 1);
        Ok(assemble(high, low))
    }

    /// Moves the program counter to `target`.
    fn jump(&mut self, target: u16)
        requires
            old(self).wf(),
        ensures
            final(self).wf(),
            final(self)@ == old(self)@.jumped(target as int),
    {
        self.pc = target;
        assert(self@ =~= old(self)@.jumped(target as int));
    }

    /// Moves the program counter on the next instruction.
    fn advance(&mut self)
        requires
            old(self).wf(),
            old(self).fetchable(),
        ensures
            final(self).wf(),
            final(self)@ == old(self)@.advanced(),
    {
        self.pc += 2;
        assert(self@ =~= old(self)@.advanced());
    }

    /// Moves the program counter past the next instruction if `skip`, on it
    /// otherwise.
    fn branch(&mut self, skip: bool)
        requires
            old(self).wf(),
            old(self).fetchable(),
        ensures
            final(self).wf(),
            final(self)@ == old(self)@.branched(skip),
    {
        if skip {
            self.pc += 4;
        } else {
            self.pc += 2;
        }
        assert(self@ =~= old(self)@.branched(skip));
    }

    /// Stores `value` in register `x`.
    fn set_register(&mut self, x: usize, value: u8)
        requires
            old(self).wf(),
            x < REGISTERS,
        ensures
            final(self).wf(),
            final(self).fetchable() == old(self).fetchable(),
            final(self)@ == old(self)@.with_register(x as int, value),
    {
        self.v[x] = value;
        assert(self@ =~= old(self)@.with_register(x as int, value));
    }

    /// Sets the flag register to 1 if `raised`, else to 0.
    fn set_flag(&mut self, raised: bool)
        requires
            old(self).wf(),
        ensures
            final(self).wf(),
            final(self).fetchable() == old(self).fetchable(),
            final(self)@ == old(self)@.with_flag(raised),
    {
        self.set_register(FLAG, if raised { 1 } else { 0 });
    }

    /// Clear screen and return.
    fn run_system(&mut self, op: u16) -> (result: Result<(), Chip8Error>)
        requires
            old(self).wf(),
            old(self).fetchable(),
        ensures
            final(self).wf(),
            old(self)@.yields(old(self)@.run_system(op), final(self)@, result),
    {
        if op == 0x00E0 {
            self.gfx = [0; SCREEN_CELLS];
            self.draw_flag = true;
            assert(self.gfx@ =~= blank());
            assert(self@ =~= (State { gfx: blank(), draw_flag: true, ..old(self)@ }));
            self.advance();
            Ok(())
        } else if op == 0x00EE {
            if self.sp == 0 {
                return Err(Chip8Error::StackUnderflow);
            }
            self.sp -= 1;
            let target = self.stack[self.sp];
            assert(self@ =~= (State { stack: old(self)@.stack.drop_last(), ..old(self)@ }));
            self.jump(target);
            Ok(())
        } else {
            Err(Chip8Error::IllegalOpcode(op))
        }
    }

    /// Subroutine call.
    fn run_call(&mut self, op: u16) -> (result: Result<(), Chip8Error>)
        requires
            old(self).wf(),
            old(self).fetchable(),
        ensures
            final(self).wf(),
            old(self)@.yields(old(self)@.run_call(op), final(self)@, result),
    {
        if self.sp >= STACK_DEPTH {
            return Err(Chip8Error::StackOverflow);
        }
        self.stack[self.sp] = self.pc + 2;
        self.sp += 1;
        assert(self@ =~= (State {
            stack: old(self)@.stack.push((old(self)@.pc + 2) as u16),
            ..old(self)@
        }));
        self.jump(nnn_of(op));
        Ok(())
    }

    /// Register-to-register moves, logic and arithmetic.
    fn run_alu(&mut self, op: u16) -> (result: Result<(), Chip8Error>)
        requires
            old(self).wf(),
            old(self).fetchable(),
        ensures
            final(self).wf(),
            old(self)@.yields(old(self)@.run_alu(op), final(self)@, result),
    {
        let x = x_of(op);
        let vx = self.v[x];
        let vy = self.v[y_of(op)];
        let n = n_of(op);
        if n == 0x0 {
            self.set_register(x, vy);
        } else if n == 0x1 {
            self.set_register(x, vx | vy);
        } else if n == 0x2 {
            self.set_register(x, vx & vy);
        } else if n == 0x3 {
            self.set_register(x, vx ^ vy);
        } else if n == 0x4 {
            self.set_register(x, sum_of(vx, vy));
            self.set_flag(vx as u16 + vy as u16 > 0xFF);
        } else if n == 0x5 {
            self.set_register(x, difference_of(vx, vy));
            self.set_flag(vx >= vy);
        } else if n == 0x6 {
            assert(vy >> 1 == vy / 2 && (vy & 0x01 == 1) == (vy % 2 == 1)) by (bit_vector);
            self.set_register(x, vy >> 1);
            self.set_flag(vy & 0x01 == 1);
        } else if n == 0x7 {
            self.set_register(x, difference_of(vy, vx));
            self.set_flag(vy >= vx);
        } else if n == 0xE {
            assert(vy << 1 == (vy * 2) % 0x100 && (vy >> 7 == 1) == (vy >= 0x80))
                by (bit_vector);
            self.set_register(x, vy << 1);
            self.set_flag(vy >> 7 == 1);
        } else {
            return Err(Chip8Error::IllegalOpcode(op));
        }
        self.advance();
        Ok(())
    }

    /// Sprite drawing.
    fn run_draw(&mut self, op: u16) -> (result: Result<(), Chip8Error>)
        requires
            old(self).wf(),
            old(self).fetchable(),
        ensures
            final(self).wf(),
            old(self)@.yields(old(self)@.run_draw(op), final(self)@, result),
    {
        let n = n_of(op);
        let x = self.v[x_of(op)];
        let y = self.v[y_of(op)];
        if self.i as usize + n as usize > MEMORY_SIZE {
            return Err(Chip8Error::OutOfBounds);
        }
        let collision = draw_sprite(&mut self.gfx, &self.memory, self.i, n, x, y);
        self.draw_flag = true;
        assert(self@ =~= (State { gfx: self@.gfx, draw_flag: true, ..old(self)@ }));
        self.set_flag(collision);
        self.advance();
        Ok(())
    }

    /// Skips that depend on the keypad.
    fn run_keys(&mut self, op: u16) -> (result: Result<(), Chip8Error>)
        requires
            old(self).wf(),
            old(self).fetchable(),
        ensures
            final(self).wf(),
            old(self)@.yields(old(self)@.run_keys(op), final(self)@, result),
    {
        let key = self.v[x_of(op)] as usize;
        let nn = nn_of(op);
        if nn != 0x9E && nn != 0xA1 {
            return Err(Chip8Error::IllegalOpcode(op));
        }
        if key >= REGISTERS {
            return Err(Chip8Error::InvalidKey);
        }
        let down = self.key[key];
        if nn == 0x9E {
            self.branch(down);
        } else {
            self.branch(!down);
        }
        Ok(())
    }

    /// Writes the three decimal digits of `value` to memory at the index
    /// register and the two addresses after it.
    fn store_digits(&mut self, value: u8)
        requires
            old(self).wf(),
            old(self).i + 2 < MEMORY_SIZE,
        ensures
            final(self).wf(),
            final(self).fetchable() == old(self).fetchable(),
            final(self)@ == (State {
                memory: old(self)@.memory.update(old(self)@.i as int, value / 100).update(
                    old(self)@.i + 1,
                    (value / 10) % 10,
                ).update(old(self)@.i + 2, value % 10),
                ..old(self)@
            }),
    {
        self.memory.write(self.i, value / 100);
        self.memory.write(self.i + 1, (value / 10) % 10);
        self.memory.write(self.i + 2, (value % 100) % 10);
        assert(self@ =~= (State {
            memory: old(self)@.memory.update(old(self)@.i as int, value / 100).update(
                old(self)@.i + 1,
                (value / 10) % 10,
            ).update(old(self)@.i + 2, value % 10),
            ..old(self)@
        }));
    }

    /// Completes a wait-for-key instruction with the key that was delivered.
    fn take_key(&mut self, x: usize)
        requires
            old(self).wf(),
            x < REGISTERS,
            old(self)@.wait is Delivered,
        ensures
            final(self).wf(),
            final(self).fetchable() == old(self).fetchable(),
            final(self)@ == (State { wait: KeyWait::Idle, ..old(self)@ }).with_register(
                x as int,
                old(self)@.wait->Delivered_0,
            ),
    {
        self.v[x] = self.await_key_pressed;
        self.await_key_flag = false;
        self.await_key_notify = false;
        assert(self@ =~= (State { wait: KeyWait::Idle, ..old(self)@ }).with_register(
            x as int,
            old(self)@.wait->Delivered_0,
        ));
    }

    /// Timers, the index register, and transfers between registers and
    /// memory.
    fn run_misc(&mut self, op: u16) -> (result: Result<(), Chip8Error>)
        requires
            old(self).wf(),
            old(self).fetchable(),
        ensures
            final(self).wf(),
            old(self)@.yields(old(self)@.run_misc(op), final(self)@, result),
    {
        let x = x_of(op);
        let vx = self.v[x];
        let nn = nn_of(op);
        if nn == 0x07 {
            self.set_register(x, self.delay_timer);
        } else if nn == 0x0A {
            if !(self.await_key_flag && self.await_key_notify) {
                return Ok(());
            }
            self.take_key(x);
        } else if nn == 0x15 {
            self.delay_timer = vx;
            assert(self@ =~= (State { delay_timer: vx, ..old(self)@ }));
        } else if nn == 0x18 {
            self.sound_timer = vx;
            assert(self@ =~= (State { sound_timer: vx, ..old(self)@ }));
        } else if nn == 0x1E {
            self.i = self.i.wrapping_add(vx as u16);
            assert(self@ =~= (State {
                i: ((old(self)@.i + vx) % 0x10000) as u16,
                ..old(self)@
            }));
        } else if nn == 0x29 {
            self.i = 5 * (vx as u16);
            assert(self@ =~= (State { i: (5 * vx) as u16, ..old(self)@ }));
        } else if nn == 0x33 {
            if self.i as usize + 2 >= MEMORY_SIZE {
                return Err(Chip8Error::OutOfBounds);
            }
            self.store_digits(vx);
        } else if nn == 0x55 {
            if self.i as usize + x >= MEMORY_SIZE {
                return Err(Chip8Error::OutOfBounds);
            }
            store_registers(&mut self.memory, &self.v, self.i, x);
            assert(self@ =~= (State {
                memory: overlaid(
                    old(self)@.memory,
                    old(self)@.i as int,
                    old(self)@.v.subrange(0, x + 1),
                ),
                ..old(self)@
            }));
        } else if nn == 0x65 {
            if self.i as usize + x >= MEMORY_SIZE {
                return Err(Chip8Error::OutOfBounds);
            }
            load_registers(&mut self.v, &self.memory, self.i, x);
            assert(self@ =~= (State { v: self@.v, ..old(self)@ }));
        } else {
            return Err(Chip8Error::IllegalOpcode(op));
        }
        self.advance();
        Ok(())
    }

    /// Loads the index register.
    fn set_index(&mut self, value: u16)
        requires
            old(self).wf(),
        ensures
            final(self).wf(),
            final(self).fetchable() == old(self).fetchable(),
            final(self)@ == (State { i: value, ..old(self)@ }),
    {
        self.i = value;
        assert(self@ =~= (State { i: value, ..old(self)@ }));
    }

    /// The effect of `op`, timers apart.
    fn run(&mut self, op: u16, random: u8) -> (result: Result<(), Chip8Error>)
        requires
            old(self).wf(),
            old(self).fetchable(),
        ensures
            final(self).wf(),
            old(self)@.yields(old(self)@.run(op, random), final(self)@, result),
    {
        let kind = kind_of(op);
        let x = x_of(op);
        let vx = self.v[x];
        let vy = self.v[y_of(op)];
        let nn = nn_of(op);
        let nnn = nnn_of(op);
        if kind == 0x0 {
            return self.run_system(op);
        } else if kind == 0x1 {
            self.jump(nnn);
        } else if kind == 0x2 {
            return self.run_call(op);
        } else if kind == 0x3 {
            self.branch(vx == nn);
        } else if kind == 0x4 {
            self.branch(vx != nn);
        } else if kind == 0x5 {
            if n_of(op) != 0 {
                return Err(Chip8Error::IllegalOpcode(op));
            }
            self.branch(vx == vy);
        } else if kind == 0x6 {
            self.set_register(x, nn);
            self.advance();
        } else if kind == 0x7 {
            self.set_register(x, sum_of(vx, nn));
            self.advance();
        } else if kind == 0x8 {
            return self.run_alu(op);
        } else if kind == 0x9 {
            if n_of(op) != 0 {
                return Err(Chip8Error::IllegalOpcode(op));
            }
            self.branch(vx != vy);
        } else if kind == 0xA {
            self.set_index(nnn);
            self.advance();
        } else if kind == 0xB {
            self.jump(nnn + self.v[0] as u16);
        } else if kind == 0xC {
            self.set_register(x, nn & random);
            self.advance();
        } else if kind == 0xD {
            return self.run_draw(op);
        } else if kind == 0xE {
            return self.run_keys(op);
        } else {
            return self.run_misc(op);
        }
        Ok(())
    }

    /// Lets both timers fall by one, down to zero.
    fn tick(&mut self)
        requires
            old(self).wf(),
        ensures
            final(self).wf(),
            final(self)@ == old(self)@.ticked(),
    {
        if self.delay_timer > 0 {
            self.delay_timer -= 1;
        }
        if self.sound_timer > 0 {
            self.sound_timer -= 1;
        }
        assert(self@ =~= old(self)@.ticked());
    }

    /// Puts or keeps the machine waiting for a key.
    fn await_key(&mut self)
        requires
            old(self).wf(),
            !(old(self)@.wait is Delivered),
        ensures
            final(self).wf(),
            final(self)@ == (State { wait: KeyWait::Awaiting, ..old(self)@ }),
    {
        self.await_key_flag = true;
        assert(self@ =~= (State { wait: KeyWait::Awaiting, ..old(self)@ }));
    }

    /// Whether a key was delivered to a waiting machine.
    fn key_delivered(&self) -> (delivered: bool)
        requires
            self.wf(),
        ensures
            delivered == (self@.wait is Delivered),
    {
        self.await_key_flag && self.await_key_notify
    }

    /// One instruction from start to end, the tick of the timers included.
    fn execute(&mut self, op: u16, random: u8) -> (result: Result<(), Chip8Error>)
        requires
            old(self).wf(),
            old(self).fetchable(),
        ensures
            final(self).wf(),
            old(self)@.yields(old(self)@.execute(op, random), final(self)@, result),
    {
        if kind_of(op) == 0xF && nn_of(op) == 0x0A && !self.key_delivered() {
            self.await_key();
            return Ok(());
        }
        let result = self.run(op, random);
        if result.is_ok() {
            self.tick();
        }
        result
    }

    /// Runs one cycle with `random` as the byte that a random-number
    /// instruction would draw.
    pub fn cycle_with(&mut self, random: u8) -> (result: Result<(), Chip8Error>)
        requires
            old(self).wf(),
        ensures
            final(self).wf(),
            old(self)@.yields(old(self)@.step(random), final(self)@, result),
    {
        match self.fetch() {
            Ok(op) => {
                if op == 0x0000 {
                    Ok(())
                } else {
                    self.execute(op, random)
                }
            },
            Err(e) => Err(e),
        }
    }

    /// Runs one cycle: fetches the instruction at the program counter,
    /// executes it and lets the timers tick. Only a random-number
    /// instruction leaves the outcome open, and then only in the byte drawn.
    pub fn cycle(&mut self) -> (result: Result<(), Chip8Error>)
        requires
            old(self).wf(),
        ensures
            final(self).wf(),
            exists|random: u8|
                old(self)@.yields(#[trigger] old(self)@.step(random), final(self)@, result),
            !(old(self)@.fetch() matches Ok(op) && is_random(op)) ==> old(self)@.yields(
                old(self)@.step(0),
                final(self)@,
                result,
            ),
    {
        match self.fetch() {
            Ok(op) => {
                if op == 0x0000 {
                    assert(old(self)@.yields(old(self)@.step(0), self@, Ok(())));
                    Ok(())
                } else {
                    let random = if kind_of(op) == 0xC {
                        random_byte()
                    } else {
                        0
                    };
                    let result = self.execute(op, random);
                    assert(old(self)@.yields(old(self)@.step(random), self@, result));
                    result
                }
            },
            Err(e) => {
                assert(old(self)@.yields(old(self)@.step(0), self@, Err(e)));
                Err(e)
            },
        }
    }
}

/// Writes `words` to the program area, two bytes each.
fn store_words(memory: &mut Memory, words: &Vec<u16>)
    requires
        State::fits(2 * words@.len()),
    ensures
        final(memory)@ == overlaid(old(memory)@, PROGRAM_START as int, words_to_bytes(words@)),
{
    let count = words.len();
    let mut k: usize = 0;
    proof {
        memory.lemma_size();
    }
    assert(memory@ =~= overlaid(
        memory@,
        PROGRAM_START as int,
        words_to_bytes(words@.take(0)),
    ));
    while k < count
        invariant
            k <= count,
            count == words@.len(),
            State::fits(2 * count as nat),
            memory@.len() == MEMORY_SIZE,
            memory@ == overlaid(
                old(memory)@,
                PROGRAM_START as int,
                words_to_bytes(words@.take(k as int)),
            ),
        decreases count - k,
    {
        let opcode = words[k];
        let left = (opcode >> 8) as u8;
        let right = (opcode & 0x00FF) as u8;
        assert(opcode >> 8 == opcode / 0x100 && opcode & 0x00FF == opcode % 0x100)
            by (bit_vector);
        let at: u16 = PROGRAM_START + 2 * (k as u16);
        memory.write(at, left);
        memory.write(at + 1, right);
        proof {
            memory.lemma_size();
            assert(memory@ =~= overlaid(
                old(memory)@,
                PROGRAM_START as int,
                words_to_bytes(words@.take(k + 1)),
            ));
        }
        k += 1;
    }
    assert(words@.take(count as int) =~= words@);
}

/// The sum of two bytes modulo 256.
fn sum_of(a: u8, b: u8) -> (sum: u8)
    ensures
        sum == (a + b) % 0x100,
{
    a.wrapping_add(b)
}

/// The difference of two bytes modulo 256.
fn difference_of(a: u8, b: u8) -> (difference: u8)
    ensures
        difference == (a - b) % 0x100,
{
    a.wrapping_sub(b)
}

/// Copies the registers `V0` to `V[last]` to memory from `start` on.
fn store_registers(memory: &mut Memory, v: &[u8; REGISTERS], start: u16, last: usize)
    requires
        last < REGISTERS,
        start + last < MEMORY_SIZE,
    ensures
        final(memory)@ == overlaid(old(memory)@, start as int, v@.subrange(0, last + 1)),
{
    proof {
        memory.lemma_size();
    }
    assert(memory@ =~= overlaid(memory@, start as int, v@.subrange(0, 0)));
    let mut p: usize = 0;
    while p <= last
        invariant
            p <= last + 1,
            last < REGISTERS,
            start + last < MEMORY_SIZE,
            memory@.len() == MEMORY_SIZE,
            memory@ == overlaid(old(memory)@, start as int, v@.subrange(0, p as int)),
        decreases last + 1 - p,
    {
        memory.write(start + p as u16, v[p]);
        proof {
            memory.lemma_size();
            assert(memory@ =~= overlaid(old(memory)@, start as int, v@.subrange(0, p + 1)));
        }
        p += 1;
    }
}

/// Fills the registers `V0` to `V[last]` from memory at `start` on.
fn load_registers(v: &mut [u8; REGISTERS], memory: &Memory, start: u16, last: usize)
    requires
        last < REGISTERS,
        start + last < MEMORY_SIZE,
    ensures
        final(v)@ == Seq::new(
            REGISTERS as nat,
            |r: int| if r <= last {
                memory@[start + r]
            } else {
                old(v)@[r]
            },
        ),
{
    proof {
        memory.lemma_size();
    }
    let mut p: usize = 0;
    while p <= last
        invariant
            p <= last + 1,
            last < REGISTERS,
            start + last < MEMORY_SIZE,
            memory@.len() == MEMORY_SIZE,
            forall|r: int| 0 <= r < p ==> v@[r] == memory@[start + r],
            forall|r: int| p <= r < REGISTERS ==> v@[r] == old(v)@[r],
        decreases last + 1 - p,
    {
        v[p] = memory.read(start + p as u16);
        p += 1;
    }
    assert(v@ =~= Seq::new(
        REGISTERS as nat,
        |r: int| if r <= last {
            memory@[start + r]
        } else {
            old(v)@[r]
        },
    ));
}

/// One byte from `rand`'s thread-local generator (`rand::thread_rng`
/// followed by `Rng::gen_range` over the whole range of a byte). Nothing is
/// claimed of the byte: two calls need not agree.
#[verifier::external_body]
fn random_byte() -> u8 {
    rand::thread_rng().gen_range(0..=255)
}

} // verus!
