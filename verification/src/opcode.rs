//! The layout of an instruction word, and the functions that take one apart.
//!
//! A word is four hexadecimal digits. The first names the family; the others
//! are read, as the instruction demands, as register numbers `X` and `Y`, a
//! digit `N`, a byte `NN` or an address `NNN`.

use vstd::prelude::*;

verus! {

/// The instruction word made of two consecutive bytes, the first being the
/// more significant.
pub open spec fn word(high: u8, low: u8) -> u16 {
    (high * 0x100 + low) as u16
}

/// The first hexadecimal digit of an instruction word: its family.
pub open spec fn op_kind(op: u16) -> int {
    op as int / 0x1000
}

/// The second hexadecimal digit: the register `X`.
pub open spec fn op_x(op: u16) -> int {
    (op as int / 0x100) % 0x10
}

/// The third hexadecimal digit: the register `Y`.
pub open spec fn op_y(op: u16) -> int {
    (op as int / 0x10) % 0x10
}

/// The last hexadecimal digit: `N`.
pub open spec fn op_n(op: u16) -> int {
    op as int % 0x10
}

/// The low byte: `NN`.
pub open spec fn op_nn(op: u16) -> u8 {
    (op as int % 0x100) as u8
}

/// The low twelve bits: the address `NNN`.
pub open spec fn op_nnn(op: u16) -> u16 {
    (op as int % 0x1000) as u16
}

/// Whether `op` is the wait-for-key instruction `FX0A`.
pub open spec fn is_key_wait(op: u16) -> bool {
    op_kind(op) == 0xF && op_nn(op) == 0x0A
}

/// Whether `op` is the random-number instruction `CXNN`, the only one whose
/// effect depends on anything but the state.
pub open spec fn is_random(op: u16) -> bool {
    op_kind(op) == 0xC
}

/// Joins the two bytes of an instruction word.
pub fn assemble(high: u8, low: u8) -> (op: u16)
    ensures
        op == word(high, low),
{
    assert(((high as u16) << 8 | (low as u16)) == (high as u16) * 0x100 + (low as u16))
        by (bit_vector);
    (high as u16) << 8 | (low as u16)
}

/// The family of `op`.
pub fn kind_of(op: u16) -> (kind: u8)
    ensures
        kind == op_kind(op),
        kind < 0x10,
{
    assert(op >> 12 == op / 0x1000 && op >> 12 < 0x10) by (bit_vector);
    (op >> 12) as u8
}

/// The register `X` of `op`.
pub fn x_of(op: u16) -> (x: usize)
    ensures
        x == op_x(op),
        x < 0x10,
{
    assert((op & 0x0F00) >> 8 == (op / 0x100) % 0x10) by (bit_vector);
    ((op & 0x0F00) >> 8) as usize
}

/// The register `Y` of `op`.
pub fn y_of(op: u16) -> (y: usize)
    ensures
        y == op_y(op),
        y < 0x10,
{
    assert((op & 0x00F0) >> 4 == (op / 0x10) % 0x10) by (bit_vector);
    ((op & 0x00F0) >> 4) as usize
}

/// The digit `N` of `op`.
pub fn n_of(op: u16) -> (n: u8)
    ensures
        n == op_n(op),
        n < 0x10,
{
    assert(op & 0x000F == op % 0x10) by (bit_vector);
    (op & 0x000F) as u8
}

/// The byte `NN` of `op`.
pub fn nn_of(op: u16) -> (nn: u8)
    ensures
        nn == op_nn(op),
{
    assert(op & 0x00FF == op % 0x100) by (bit_vector);
    (op & 0x00FF) as u8
}

/// The address `NNN` of `op`.
pub fn nnn_of(op: u16) -> (nnn: u16)
    ensures
        nnn == op_nnn(op),
        nnn < 0x1000,
{
    assert(op & 0x0FFF == op % 0x1000) by (bit_vector);
    op & 0x0FFF
}

} // verus!
