//! The machine's 4 KiB address space and the hexadecimal glyph font that is
//! seeded at its base.

use vstd::prelude::*;

verus! {

/// Number of addressable bytes.
pub const MEMORY_SIZE: usize = 0x1000;

/// Number of bytes taken by the sixteen five-byte glyphs.
pub const FONT_SIZE: usize = 80;

/// Address at which programs are installed and execution starts.
pub const PROGRAM_START: u16 = 0x200;

/// The glyphs `0` to `F`, five rows each, one row per byte, in the high nibble.
pub open spec fn font() -> Seq<u8> {
    seq![
        0xF0u8, 0x90, 0x90, 0x90, 0xF0,
        0x20, 0x60, 0x20, 0x20, 0x70,
        0xF0, 0x10, 0xF0, 0x80, 0xF0,
        0xF0, 0x10, 0xF0, 0x10, 0xF0,
        0x90, 0x90, 0xF0, 0x10, 0x10,
        0xF0, 0x80, 0xF0, 0x10, 0xF0,
        0xF0, 0x80, 0xF0, 0x90, 0xF0,
        0xF0, 0x10, 0x20, 0x40, 0x40,
        0xF0, 0x90, 0xF0, 0x90, 0xF0,
        0xF0, 0x90, 0xF0, 0x10, 0xF0,
        0xF0, 0x90, 0xF0, 0x90, 0x90,
        0xE0, 0x90, 0xE0, 0x90, 0xE0,
        0xF0, 0x80, 0x80, 0x80, 0xF0,
        0xE0, 0x90, 0x90, 0x90, 0xE0,
        0xF0, 0x80, 0xF0, 0x80, 0xF0,
        0xF0, 0x80, 0xF0, 0x80, 0x80,
    ]
}

/// What a freshly built memory holds: the font at the base, zero elsewhere.
pub open spec fn initial_image() -> Seq<u8> {
    Seq::new(MEMORY_SIZE as nat, |a: int| if a < FONT_SIZE { font()[a] } else { 0u8 })
}

/// `memory` with `bytes` written over it from address `start` on.
pub open spec fn overlaid(memory: Seq<u8>, start: int, bytes: Seq<u8>) -> Seq<u8> {
    Seq::new(
        memory.len(),
        |a: int| if start <= a < start + bytes.len() {
            bytes[a - start]
        } else {
            memory[a]
        },
    )
}

/// The executable copy of [`font`].
fn font_bytes() -> (bytes: [u8; FONT_SIZE])
    ensures
        bytes@ == font(),
{
    let bytes: [u8; FONT_SIZE] = [
        0xF0, 0x90, 0x90, 0x90, 0xF0,
        0x20, 0x60, 0x20, 0x20, 0x70,
        0xF0, 0x10, 0xF0, 0x80, 0xF0,
        0xF0, 0x10, 0xF0, 0x10, 0xF0,
        0x90, 0x90, 0xF0, 0x10, 0x10,
        0xF0, 0x80, 0xF0, 0x10, 0xF0,
        0xF0, 0x80, 0xF0, 0x90, 0xF0,
        0xF0, 0x10, 0x20, 0x40, 0x40,
        0xF0, 0x90, 0xF0, 0x90, 0xF0,
        0xF0, 0x90, 0xF0, 0x10, 0xF0,
        0xF0, 0x90, 0xF0, 0x90, 0x90,
        0xE0, 0x90, 0xE0, 0x90, 0xE0,
        0xF0, 0x80, 0x80, 0x80, 0xF0,
        0xE0, 0x90, 0x90, 0x90, 0xE0,
        0xF0, 0x80, 0xF0, 0x80, 0xF0,
        0xF0, 0x80, 0xF0, 0x80, 0x80,
    ];
    assert(bytes@ =~= font());
    bytes
}

/// A flat store of [`MEMORY_SIZE`] bytes, addressed from zero.
pub struct Memory {
    data: [u8; MEMORY_SIZE],
}

impl View for Memory {
    type V = Seq<u8>;

    closed spec fn view(&self) -> Seq<u8> {
        self.data@
    }
}

impl Memory {
    /// Every memory holds exactly [`MEMORY_SIZE`] bytes.
    pub proof fn lemma_size(&self)
        ensures
            self@.len() == MEMORY_SIZE,
    {
    }

    /// A memory with the font at addresses `0..FONT_SIZE` and zero above.
    pub fn new() -> (memory: Memory)
        ensures
            memory@ == initial_image(),
    {
        let mut memory = Memory { data: [0; MEMORY_SIZE] };
        let glyphs = font_bytes();
        let mut i: u16 = 0;
        while i < 80
            invariant
                i <= 80,
                glyphs@ == font(),
                memory@.len() == MEMORY_SIZE,
                forall|a: int| 0 <= a < i ==> memory@[a] == font()[a],
                forall|a: int| i <= a < MEMORY_SIZE ==> memory@[a] == 0u8,
            decreases 80 - i,
        {
            memory.write(i, glyphs[i as usize]);
            i += 1;
        }
        assert(memory@ =~= initial_image());
        memory
    }

    /// The byte at `loc`.
    pub fn read(&self, loc: u16) -> (byte: u8)
        requires
            loc < MEMORY_SIZE,
        ensures
            byte == self@[loc as int],
    {
        self.data[loc as usize]
    }

    /// Stores `val` at `loc` and leaves every other address as it was.
    pub fn write(&mut self, loc: u16, val: u8)
        requires
            loc < MEMORY_SIZE,
        ensures
            final(self)@ == old(self)@.update(loc as int, val),
    {
        self.data[loc as usize] = val;
    }

    /// Copies `bytes` to the addresses from `start` on and leaves every other
    /// address as it was.
    pub fn store(&mut self, start: u16, bytes: &[u8])
        requires
            start + bytes@.len() <= MEMORY_SIZE,
        ensures
            final(self)@ == overlaid(old(self)@, start as int, bytes@),
    {
        let count = bytes.len();
        let mut k: usize = 0;
        while k < count
            invariant
                k <= count,
                count == bytes@.len(),
                start + count <= MEMORY_SIZE,
                self@ == overlaid(old(self)@, start as int, bytes@.take(k as int)),
            decreases count - k,
        {
            self.write(start + k as u16, bytes[k]);
            k += 1;
        }
        assert(bytes@.take(count as int) =~= bytes@);
    }
}

} // verus!
