//! The 4 KiB byte-addressed memory of the machine, with the built-in font.
use vstd::prelude::*;

verus! {

/// Number of addressable bytes.
pub const MEMORY_SIZE: usize = 0x1000;

/// Address at which a program image is loaded and execution starts.
pub const PROGRAM_OFFSET: usize = 0x200;

/// Address at which the hexadecimal font glyphs are stored.
pub const FONT_SET_OFFSET: usize = 0x050;

/// Number of bytes in the font table: sixteen glyphs of five rows each.
pub const FONT_SET_LEN: usize = 80;

/// The glyph rows of the hexadecimal digits 0 to F, five bytes per digit.
/// The high nibble of each byte holds the four pixels of one row.
pub open spec fn font_set() -> Seq<u8> {
    seq![
        0xF0u8, 0x90, 0x90, 0x90, 0xF0, // 0
        0x20, 0x60, 0x20, 0x20, 0x70, // 1
        0xF0, 0x10, 0xF0, 0x80, 0xF0, // 2
        0xF0, 0x10, 0xF0, 0x10, 0xF0, // 3
        0x90, 0x90, 0xF0, 0x10, 0x10, // 4
        0xF0, 0x80, 0xF0, 0x10, 0xF0, // 5
        0xF0, 0x80, 0xF0, 0x90, 0xF0, // 6
        0xF0, 0x10, 0x20, 0x40, 0x40, // 7
        0xF0, 0x90, 0xF0, 0x90, 0xF0, // 8
        0xF0, 0x90, 0xF0, 0x10, 0xF0, // 9
        0xF0, 0x90, 0xF0, 0x90, 0x90, // A
        0xE0, 0x90, 0xE0, 0x90, 0xE0, // B
        0xF0, 0x80, 0x80, 0x80, 0xF0, // C
        0xE0, 0x90, 0x90, 0x90, 0xE0, // D
        0xF0, 0x80, 0xF0, 0x80, 0xF0, // E
        0xF0, 0x80, 0xF0, 0x80, 0x80, // F
    ]
}

/// The executable copy of [`font_set`].
fn font_set_bytes() -> (r: Vec<u8>)
    ensures
        r@ == font_set(),
{
    let r: Vec<u8> = vec![
        0xF0u8, 0x90, 0x90, 0x90, 0xF0,
        0x20, 0x60, 0x20, 0x20, 0x70,
        0xF0, 0x10, 0xF0, 0x80, 0xF0,
        0xF0, 0x10, 0xF0, 0x10, 0xF0,
        0x90, 0x90, 0xF0, 0x10, 0x10,
        0xF0, 0x80, 0xF0, 0x10, 0xF0,
        0xF0, 0x80, 0xF0, 0x90, 0xF0,
        0xF0, 0x10, 0x20, 0x40, 0x40,
        0xF0, 0x90, 0xF0, 0x90, 0xF0,
        0xF0, 0x90, 0xF0, 0x10, 0xF0,
        0xF0, 0x90, 0xF0, 0x90, 0x90,
        0xE0, 0x90, 0xE0, 0x90, 0xE0,
        0xF0, 0x80, 0x80, 0x80, 0xF0,
        0xE0, 0x90, 0x90, 0x90, 0xE0,
        0xF0, 0x80, 0xF0, 0x80, 0xF0,
        0xF0, 0x80, 0xF0, 0x80, 0x80,
    ];
    assert(r@ =~= font_set());
    r
}

/// The big-endian word stored at `a` and `a + 1`.
pub open spec fn word_at(mem: Seq<u8>, a: int) -> u16 {
    (mem[a] as int * 256 + mem[a + 1] as int) as u16
}

/// `mem` with the big-endian word `w` written at `a` and `a + 1`.
pub open spec fn with_word(mem: Seq<u8>, a: int, w: u16) -> Seq<u8> {
    mem.update(a, (w / 256) as u8).update(a + 1, (w % 256) as u8)
}

/// `mem` with the font table written at [`FONT_SET_OFFSET`].
pub open spec fn with_font_set(mem: Seq<u8>) -> Seq<u8> {
    Seq::new(
        mem.len(),
        |a: int|
            if FONT_SET_OFFSET <= a < FONT_SET_OFFSET + FONT_SET_LEN {
                font_set()[a - FONT_SET_OFFSET]
            } else {
                mem[a]
            },
    )
}

/// Byte-addressed memory of [`MEMORY_SIZE`] bytes.
///
/// Regions: 0x000-0x1FF is reserved for the interpreter and backs the call
/// stack, 0x050-0x09F holds the font set, 0x200-0xFFF holds the program and
/// scratch memory.
#[derive(Debug)]
pub struct Memory {
    bytes: Vec<u8>,
}

impl View for Memory {
    type V = Seq<u8>;

    closed spec fn view(&self) -> Seq<u8> {
        self.bytes@
    }
}

impl Memory {
    /// Memory of [`MEMORY_SIZE`] zero bytes.
    pub fn new() -> (r: Memory)
        ensures
            r@ == Seq::new(MEMORY_SIZE as nat, |a: int| 0u8),
    {
        let mut bytes: Vec<u8> = Vec::new();
        let mut i: usize = 0;
        while i < MEMORY_SIZE
            invariant
                i <= MEMORY_SIZE,
                bytes@ == Seq::new(i as nat, |a: int| 0u8),
            decreases MEMORY_SIZE - i,
        {
            bytes.push(0);
            i = i + 1;
            assert(bytes@ =~= Seq::new(i as nat, |a: int| 0u8));
        }
        Memory { bytes }
    }

    /// Reads the byte at `address`.
    pub fn byte(&self, address: usize) -> (r: u8)
        requires
            self@.len() == MEMORY_SIZE,
            address < MEMORY_SIZE,
        ensures
            r == self@[address as int],
    {
        self.bytes[address]
    }

    /// Writes `byte` at `address`.
    pub fn set_byte(&mut self, address: usize, byte: u8)
        requires
            old(self)@.len() == MEMORY_SIZE,
            address < MEMORY_SIZE,
        ensures
            final(self)@ == old(self)@.update(address as int, byte),
    {
        self.bytes.set(address, byte);
    }

    /// Reads the big-endian word made of the bytes at `address` and `address + 1`.
    pub fn word(&self, address: usize) -> (r: u16)
        requires
            self@.len() == MEMORY_SIZE,
            address + 1 < MEMORY_SIZE,
        ensures
            r == word_at(self@, address as int),
    {
        let hi = self.bytes[address];
        let lo = self.bytes[address + 1];
        let r: u16 = ((hi as u16) << 8u16) | (lo as u16);
        assert(r == hi as u16 * 256 + lo as u16) by (bit_vector)
            requires r == ((hi as u16) << 8u16) | (lo as u16);
        r
    }

    /// Writes `word` big-endian at `address` and `address + 1`.
    pub fn set_word(&mut self, address: usize, word: u16)
        requires
            old(self)@.len() == MEMORY_SIZE,
            address + 1 < MEMORY_SIZE,
        ensures
            final(self)@ == with_word(old(self)@, address as int, word),
    {
        let hi = (word >> 8u16) as u8;
        let lo = (word & 0xFFu16) as u8;
        assert(hi == word / 256 && lo == word % 256) by (bit_vector)
            requires hi == (word >> 8u16) as u8, lo == (word & 0xFFu16) as u8;
        self.bytes.set(address, hi);
        self.bytes.set(address + 1, lo);
    }

    /// Writes the font table at [`FONT_SET_OFFSET`].
    pub fn load_font_set(&mut self)
        requires
            old(self)@.len() == MEMORY_SIZE,
        ensures
            final(self)@ == with_font_set(old(self)@),
    {
        let font = font_set_bytes();
        let mut i: usize = 0;
        while i < FONT_SET_LEN
            invariant
                i <= FONT_SET_LEN,
                font@ == font_set(),
                self@.len() == MEMORY_SIZE,
                forall|a: int|
                    0 <= a < MEMORY_SIZE ==> #[trigger] self@[a] == if FONT_SET_OFFSET <= a
                        < FONT_SET_OFFSET + i {
                        font_set()[a - FONT_SET_OFFSET]
                    } else {
                        old(self)@[a]
                    },
            decreases FONT_SET_LEN - i,
        {
            self.set_byte(FONT_SET_OFFSET + i, font[i]);
            i = i + 1;
        }
        assert(self@ =~= with_font_set(old(self)@));
    }
}

} // verus!
