//! The monochrome 64 x 32 display.
use vstd::prelude::*;

use crate::{HEIGHT, WIDTH};

verus! {

/// Number of pixels on the display.
pub const SCREEN_SIZE: usize = 2048;

/// Index of the pixel at column `x` and row `y`; (0, 0) is the top left.
pub open spec fn pixel_index(x: int, y: int) -> int {
    y * WIDTH + x
}

/// A blank display.
pub open spec fn blank_screen() -> Seq<bool> {
    Seq::new(SCREEN_SIZE as nat, |i: int| false)
}

/// The pixel buffer of the display, one `bool` per pixel, `true` for lit.
/// The pixel at column `x` and row `y` is at index `y * 64 + x`.
#[derive(Debug)]
pub struct Screen {
    pixels: Vec<bool>,
}

impl View for Screen {
    type V = Seq<bool>;

    closed spec fn view(&self) -> Seq<bool> {
        self.pixels@
    }
}

impl Screen {
    /// A display with every pixel off.
    pub fn new() -> (r: Screen)
        ensures
            r@ == blank_screen(),
    {
        let mut pixels: Vec<bool> = Vec::new();
        let mut i: usize = 0;
        while i < SCREEN_SIZE
            invariant
                i <= SCREEN_SIZE,
                pixels@ == Seq::new(i as nat, |j: int| false),
            decreases SCREEN_SIZE - i,
        {
            pixels.push(false);
            i = i + 1;
            assert(pixels@ =~= Seq::new(i as nat, |j: int| false));
        }
        Screen { pixels }
    }

    /// Turns every pixel off.
    pub fn clear(&mut self)
        requires
            old(self)@.len() == SCREEN_SIZE,
        ensures
            final(self)@ == blank_screen(),
    {
        let mut i: usize = 0;
        while i < SCREEN_SIZE
            invariant
                i <= SCREEN_SIZE,
                self@.len() == SCREEN_SIZE,
                forall|j: int| 0 <= j < i ==> !#[trigger] self@[j],
            decreases SCREEN_SIZE - i,
        {
            self.pixels.set(i, false);
            i = i + 1;
        }
        assert(self@ =~= blank_screen());
    }

    /// Whether the pixel at (`x`, `y`) is lit.
    pub fn pixel(&self, x: u8, y: u8) -> (r: bool)
        requires
            self@.len() == SCREEN_SIZE,
            x < WIDTH,
            y < HEIGHT,
        ensures
            r == self@[pixel_index(x as int, y as int)],
    {
        self.pixels[y as usize * WIDTH + x as usize]
    }

    /// Flips the pixel at (`x`, `y`) and returns its new state. A result of
    /// `false` means that a lit pixel was turned off.
    pub fn invert(&mut self, x: u8, y: u8) -> (r: bool)
        requires
            old(self)@.len() == SCREEN_SIZE,
            x < WIDTH,
            y < HEIGHT,
        ensures
            r == !old(self)@[pixel_index(x as int, y as int)],
            final(self)@ == old(self)@.update(pixel_index(x as int, y as int), r),
    {
        let address = y as usize * WIDTH + x as usize;
        let new_state = !self.pixels[address];
        self.pixels.set(address, new_state);
        new_state
    }

    /// A copy of the pixel buffer.
    pub fn clone_frame(&self) -> (r: Vec<bool>)
        ensures
            r@ == self@,
    {
        self.pixels.clone()
    }
}

} // verus!
