//! Laws of the instruction set, proved of the model that the machine's
//! operations are specified by.

use vstd::prelude::*;
use crate::display::collides;
use crate::display::drawn;
use crate::display::is_frame;
use crate::display::sprite_bit;
use crate::display::target_cell;
use crate::display::toggled;
use crate::display::toggled_within;
use crate::display::SCREEN_CELLS;
use crate::display::SCREEN_HEIGHT;
use crate::display::SCREEN_WIDTH;
use crate::error::Chip8Error;
use crate::memory::initial_image;
use crate::memory::MEMORY_SIZE;
use crate::memory::PROGRAM_START;
use crate::model::decayed;
use crate::model::KeyWait;
use crate::model::REGISTERS;
use crate::model::State;
use crate::model::FLAG;
use crate::model::STACK_DEPTH;
use crate::opcode::is_key_wait;
use crate::opcode::is_random;
use crate::opcode::op_kind;
use crate::opcode::op_n;
use crate::opcode::op_nn;
use crate::opcode::op_x;
use crate::opcode::op_y;

verus! {

/// What `7XNN` comes to: `VX` becomes `VX + NN` modulo 256, the program
/// counter moves on, the timers tick, and nothing else changes.
pub proof fn lemma_add_immediate(s: State, op: u16, random: u8)
    requires
        op_kind(op) == 0x7,
    ensures
        s.execute(op, random) == Ok::<State, Chip8Error>(
            s.with_register(
                op_x(op),
                ((s.v[op_x(op)] + op_nn(op)) % 0x100) as u8,
            ).advanced().ticked(),
        ),
{
}

/// Adding `a` and then `b` modulo 256 changes nothing where `a + b` is a
/// multiple of 256.
proof fn lemma_complement_cancels(v: int, a: int, b: int)
    requires
        0 <= v < 0x100,
        0 <= a < 0x100,
        0 <= b < 0x100,
        (a + b) % 0x100 == 0,
    ensures
        (((v + a) % 0x100) + b) % 0x100 == v,
{
}

/// `7XNN` adds `NN` to `VX` modulo 256 and touches no other register, the
/// flag included. Two such additions whose operands sum to a multiple of 256
/// bring every register back to where it was.
pub proof fn lemma_add_immediate_wraps(s: State, first: u16, second: u16, r1: u8, r2: u8)
    requires
        s.wf(),
        op_kind(first) == 0x7,
        op_kind(second) == 0x7,
        op_x(first) == op_x(second),
        (op_nn(first) + op_nn(second)) % 0x100 == 0,
    ensures
        s.execute(first, r1) is Ok,
        s.execute(first, r1)->Ok_0.v == s.v.update(
            op_x(first),
            ((s.v[op_x(first)] + op_nn(first)) % 0x100) as u8,
        ),
        s.execute(first, r1)->Ok_0.execute(second, r2) is Ok,
        s.execute(first, r1)->Ok_0.execute(second, r2)->Ok_0.v == s.v,
{
    let x = op_x(first);
    let mid = s.execute(first, r1)->Ok_0;
    lemma_add_immediate(s, first, r1);
    lemma_add_immediate(mid, second, r2);
    lemma_complement_cancels(s.v[x] as int, op_nn(first) as int, op_nn(second) as int);
    let end = mid.execute(second, r2)->Ok_0;
    assert(end.v =~= s.v);
}

/// `8XY4` leaves 1 in the flag if `VX + VY` does not fit in a byte and 0 if it
/// does; where `X` is not the flag register, `VX` holds the sum modulo 256.
pub proof fn lemma_add_sets_carry(s: State, op: u16, random: u8)
    requires
        s.wf(),
        op_kind(op) == 0x8,
        op_n(op) == 0x4,
    ensures
        s.execute(op, random) is Ok,
        s.execute(op, random)->Ok_0.v[FLAG as int] == (if s.v[op_x(op)] + s.v[op_y(op)] > 0xFF {
            1u8
        } else {
            0u8
        }),
        op_x(op) != FLAG ==> s.execute(op, random)->Ok_0.v[op_x(op)] == (s.v[op_x(op)]
            + s.v[op_y(op)]) % 0x100,
{
}

/// `8XY5` leaves 1 in the flag if `VX >= VY`, so that nothing is borrowed,
/// and 0 otherwise; where `X` is not the flag register, `VX` holds the
/// difference modulo 256.
pub proof fn lemma_sub_sets_no_borrow(s: State, op: u16, random: u8)
    requires
        s.wf(),
        op_kind(op) == 0x8,
        op_n(op) == 0x5,
    ensures
        s.execute(op, random) is Ok,
        s.execute(op, random)->Ok_0.v[FLAG as int] == (if s.v[op_x(op)] >= s.v[op_y(op)] {
            1u8
        } else {
            0u8
        }),
        op_x(op) != FLAG ==> s.execute(op, random)->Ok_0.v[op_x(op)] == (s.v[op_x(op)]
            - s.v[op_y(op)]) % 0x100,
{
}

/// `00E0` turns every cell off and raises the draw flag, whatever the screen
/// showed before.
pub proof fn lemma_clear_blanks_screen(s: State, random: u8)
    requires
        s.wf(),
    ensures
        s.execute(0x00E0, random) is Ok,
        s.execute(0x00E0, random)->Ok_0.draw_flag,
        s.execute(0x00E0, random)->Ok_0.gfx.len() == SCREEN_CELLS,
        forall|p: int| 0 <= p < SCREEN_CELLS ==> s.execute(0x00E0, random)->Ok_0.gfx[p] == 0,
{
}

/// Going `col` columns right and `row` rows down from `(x, y)` and then
/// back again ends where it began.
proof fn lemma_target_cell_inverts(x: u8, y: u8, row: int, col: int)
    requires
        0 <= row < SCREEN_HEIGHT,
        0 <= col < SCREEN_WIDTH,
    ensures
        0 <= target_cell(x, y, row, col) < SCREEN_CELLS,
        (target_cell(x, y, row, col) % (SCREEN_WIDTH as int) - x) % (SCREEN_WIDTH as int) == col,
        (target_cell(x, y, row, col) / (SCREEN_WIDTH as int) - y) % (SCREEN_HEIGHT as int)
            == row,
{
    let a = (x + col) % 64;
    let b = (y + row) % 32;
    let p = a + b * 64;
    assert(p == target_cell(x, y, row, col));
    assert(p % 64 == a && p / 64 == b);
    assert((a - x) % 64 == col);
    assert((b - y) % 32 == row);
}

/// Every cell is reached from `(x, y)` by going right and down, round the
/// edges where need be.
proof fn lemma_cell_is_a_target(x: u8, y: u8, p: int)
    requires
        0 <= p < SCREEN_CELLS,
    ensures
        p == target_cell(
            x,
            y,
            (p / (SCREEN_WIDTH as int) - y) % (SCREEN_HEIGHT as int),
            (p % (SCREEN_WIDTH as int) - x) % (SCREEN_WIDTH as int),
        ),
{
    let a = p % 64;
    let b = p / 64;
    let col = (a - x) % 64;
    let row = (b - y) % 32;
    assert((x + col) % 64 == a);
    assert((y + row) % 32 == b);
}

/// Drawing toggles exactly the cells that lie under a set bit of the sprite:
/// bit `col` of row `row` lands `col` columns right of `x` and `row` rows
/// below `y`, counted round the edges of the screen.
pub proof fn lemma_toggled_cells(sprite: Seq<u8>, x: u8, y: u8, p: int)
    requires
        sprite.len() <= SCREEN_HEIGHT,
        0 <= p < SCREEN_CELLS,
    ensures
        toggled(sprite, x, y, p) <==> exists|row: int, col: int|
            0 <= row < sprite.len() && 0 <= col < 8 && sprite_bit(sprite[row], col as u8) && p
                == #[trigger] target_cell(x, y, row, col),
{
    reveal(toggled_within);
    if toggled(sprite, x, y, p) {
        let col = (p % (SCREEN_WIDTH as int) - x) % (SCREEN_WIDTH as int);
        let row = (p / (SCREEN_WIDTH as int) - y) % (SCREEN_HEIGHT as int);
        lemma_cell_is_a_target(x, y, p);
        assert(0 <= row < sprite.len() && 0 <= col < 8 && sprite_bit(sprite[row], col as u8) && p
            == target_cell(x, y, row, col));
    }
    if exists|row: int, col: int|
        0 <= row < sprite.len() && 0 <= col < 8 && sprite_bit(sprite[row], col as u8) && p
            == #[trigger] target_cell(x, y, row, col) {
        let (row, col) = choose|row: int, col: int|
            0 <= row < sprite.len() && 0 <= col < 8 && sprite_bit(sprite[row], col as u8) && p
                == #[trigger] target_cell(x, y, row, col);
        lemma_target_cell_inverts(x, y, row, col);
        assert(toggled(sprite, x, y, p));
    }
}

/// Drawing is its own inverse: the same sprite drawn twice at the same place
/// leaves the screen as it was. The second drawing reports a collision
/// exactly if the sprite covers a cell that was off to begin with.
pub proof fn lemma_draw_twice_restores(gfx: Seq<u8>, sprite: Seq<u8>, x: u8, y: u8)
    requires
        is_frame(gfx),
    ensures
        is_frame(drawn(gfx, sprite, x, y)),
        drawn(drawn(gfx, sprite, x, y), sprite, x, y) == gfx,
        collides(drawn(gfx, sprite, x, y), sprite, x, y) <==> exists|p: int|
            0 <= p < SCREEN_CELLS && gfx[p] == 0 && #[trigger] toggled(sprite, x, y, p),
{
    let once = drawn(gfx, sprite, x, y);
    let twice = drawn(once, sprite, x, y);
    assert(0u8 ^ 1u8 == 1u8 && 1u8 ^ 1u8 == 0u8) by (bit_vector);
    assert(twice =~= gfx);
    if collides(once, sprite, x, y) {
        let p = choose|p: int|
            0 <= p < SCREEN_CELLS && once[p] == 1 && #[trigger] toggled_within(
                sprite,
                x,
                y,
                p,
                sprite.len() as int,
                0,
            );
        assert(gfx[p] == 0 && toggled(sprite, x, y, p));
    }
    if exists|p: int| 0 <= p < SCREEN_CELLS && gfx[p] == 0 && #[trigger] toggled(sprite, x, y, p) {
        let p = choose|p: int|
            0 <= p < SCREEN_CELLS && gfx[p] == 0 && #[trigger] toggled(sprite, x, y, p);
        assert(once[p] == 1 && toggled_within(sprite, x, y, p, sprite.len() as int, 0));
    }
}

/// `DXYN` executed twice in a row, with neither coordinate taken from the
/// flag register, leaves the screen as it was, and leaves 1 in the flag
/// exactly if the sprite covers a cell that was off to begin with.
pub proof fn lemma_draw_instruction_twice(s: State, op: u16, r1: u8, r2: u8)
    requires
        s.wf(),
        op_kind(op) == 0xD,
        op_x(op) != FLAG,
        op_y(op) != FLAG,
        s.execute(op, r1) is Ok,
    ensures
        s.execute(op, r1)->Ok_0.execute(op, r2) is Ok,
        s.execute(op, r1)->Ok_0.execute(op, r2)->Ok_0.gfx == s.gfx,
        s.execute(op, r1)->Ok_0.execute(op, r2)->Ok_0.v[FLAG as int] == 1 <==> exists|p: int|
            0 <= p < SCREEN_CELLS && s.gfx[p] == 0 && #[trigger] toggled(
                s.memory.subrange(s.i as int, s.i + op_n(op)),
                s.v[op_x(op)],
                s.v[op_y(op)],
                p,
            ),
{
    let sprite = s.memory.subrange(s.i as int, s.i + op_n(op));
    lemma_draw_twice_restores(s.gfx, sprite, s.v[op_x(op)], s.v[op_y(op)]);
}

/// `FX33` writes the hundreds, tens and ones of `VX` at `I`, `I + 1` and
/// `I + 2`: three decimal digits that spell the value.
pub proof fn lemma_decimal_digits(s: State, op: u16, random: u8)
    requires
        s.wf(),
        op_kind(op) == 0xF,
        op_nn(op) == 0x33,
        s.i + 2 < MEMORY_SIZE,
    ensures
        s.execute(op, random) is Ok,
        s.execute(op, random)->Ok_0.memory[s.i as int] < 10,
        s.execute(op, random)->Ok_0.memory[s.i + 1] < 10,
        s.execute(op, random)->Ok_0.memory[s.i + 2] < 10,
        100 * s.execute(op, random)->Ok_0.memory[s.i as int] + 10 * s.execute(
            op,
            random,
        )->Ok_0.memory[s.i + 1] + s.execute(op, random)->Ok_0.memory[s.i + 2] == s.v[op_x(op)],
{
}

/// A call followed at once by a return comes back to the instruction after
/// the call, with the stack as deep as before.
pub proof fn lemma_call_then_return(s: State, r1: u8, r2: u8)
    requires
        s.wf(),
        s.fetch() is Ok,
        op_kind(s.fetch()->Ok_0) == 0x2,
        s.stack.len() < STACK_DEPTH,
        s.step(r1) is Ok ==> s.step(r1)->Ok_0.fetch() == Ok::<u16, Chip8Error>(
            0x00EE,
        ),
    ensures
        s.step(r1) is Ok,
        s.step(r1)->Ok_0.step(r2) is Ok,
        s.step(r1)->Ok_0.step(r2)->Ok_0.pc == s.pc + 2,
        s.step(r1)->Ok_0.step(r2)->Ok_0.stack == s.stack,
{
    let called = s.step(r1)->Ok_0;
    let back = called.step(r2)->Ok_0;
    assert(called.stack == s.stack.push((s.pc + 2) as u16));
    assert(back.stack =~= s.stack);
}

/// A program that fits is found byte for byte from the start of the program
/// area on, and what lies below that area is what it was before: on a new
/// machine, the font and zeros.
pub proof fn lemma_load_places_program(s: State, bytes: Seq<u8>)
    requires
        s.wf(),
        State::fits(bytes.len()),
    ensures
        s.load(bytes) == Ok::<State, Chip8Error>(s.loaded(bytes)),
        s.loaded(bytes).wf(),
        forall|k: int|
            0 <= k < bytes.len() ==> s.loaded(bytes).memory[PROGRAM_START + k] == bytes[k],
        forall|a: int| 0 <= a < PROGRAM_START ==> s.loaded(bytes).memory[a] == s.memory[a],
        forall|a: int|
            0 <= a < PROGRAM_START ==> State::initial().loaded(bytes).memory[a]
                == initial_image()[a],
{
}

/// Every instruction that runs to its end lets each timer fall by one, down
/// to zero and no further, unless it is the instruction that sets that
/// timer. While the machine waits for a key the timers stand still.
pub proof fn lemma_timers_decay(s: State, op: u16, random: u8)
    requires
        s.wf(),
        s.execute(op, random) is Ok,
    ensures
        decayed(0) == 0,
        is_key_wait(op) && !(s.wait is Delivered) ==> s.execute(op, random)->Ok_0.delay_timer
            == s.delay_timer && s.execute(op, random)->Ok_0.sound_timer == s.sound_timer,
        !is_key_wait(op) && !(op_kind(op) == 0xF && op_nn(op) == 0x15) ==> s.execute(
            op,
            random,
        )->Ok_0.delay_timer == decayed(s.delay_timer),
        !is_key_wait(op) && !(op_kind(op) == 0xF && op_nn(op) == 0x18) ==> s.execute(
            op,
            random,
        )->Ok_0.sound_timer == decayed(s.sound_timer),
{
}

/// A machine that meets the wait-for-key instruction stands still, cycle
/// after cycle, until a key goes down: only the wait is recorded. The cycle
/// after the key went down completes the instruction: `VX` holds the key,
/// the machine is idle again, and the program counter moves on.
pub proof fn lemma_wait_for_key(s: State, code: u8, r1: u8, r2: u8, r3: u8)
    requires
        s.wf(),
        s.wait is Idle,
        s.fetch() is Ok,
        is_key_wait(s.fetch()->Ok_0),
        code < REGISTERS,
    ensures
        s.step(r1) == Ok::<State, Chip8Error>(State { wait: KeyWait::Awaiting, ..s }),
        s.step(r1)->Ok_0.step(r2) == s.step(r1),
        s.step(r1)->Ok_0.key_pressed(code).step(r3) is Ok,
        s.step(r1)->Ok_0.key_pressed(code).step(r3)->Ok_0.wait is Idle,
        s.step(r1)->Ok_0.key_pressed(code).step(r3)->Ok_0.v == s.v.update(
            op_x(s.fetch()->Ok_0),
            code,
        ),
        s.step(r1)->Ok_0.key_pressed(code).step(r3)->Ok_0.pc == s.pc + 2,
{
    let op = s.fetch()->Ok_0;
    let waiting = State { wait: KeyWait::Awaiting, ..s };
    assert(waiting.fetch() == s.fetch());
    assert(s.step(r1) == Ok::<State, Chip8Error>(waiting));
    assert(waiting.step(r2) == Ok::<State, Chip8Error>(waiting));
    let pressed = waiting.key_pressed(code);
    assert(pressed.fetch() == s.fetch());
    assert(pressed.wait == KeyWait::Delivered(code));
}

/// Where the word at the program counter is zero, a cycle changes nothing:
/// no register, not the program counter, no timer.
pub proof fn lemma_zero_word_is_idle(s: State, random: u8)
    requires
        s.fetch() == Ok::<u16, Chip8Error>(0),
    ensures
        s.step(random) == Ok::<State, Chip8Error>(s),
{
}

/// Only the random-number instruction looks at the byte drawn.
pub proof fn lemma_only_random_reads_byte(s: State, op: u16, r1: u8, r2: u8)
    requires
        !is_random(op),
    ensures
        s.execute(op, r1) == s.execute(op, r2),
{
}

} // verus!
