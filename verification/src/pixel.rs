use vstd::prelude::*;

verus! {

/// One 8-bit-per-channel color sample of the raster grid.
#[derive(Clone)]
pub struct Pixel {
    r: u8,
    g: u8,
    b: u8,
}

impl Pixel {
    /// The channel triple, as mathematical integers, for contracts.
    pub closed spec fn rgb(self) -> (int, int, int) {
        (self.r as int, self.g as int, self.b as int)
    }

    pub fn new() -> (p: Pixel)
        ensures
            p.rgb() == (0int, 0int, 0int),
    {
        Pixel { r: 0, g: 0, b: 0 }
    }

    pub fn set_color(&mut self, r: u8, g: u8, b: u8)
        ensures
            final(self).rgb() == (r as int, g as int, b as int),
    {
        self.r = r;
        self.g = g;
        self.b = b;
    }

    pub fn get_color(&self) -> (c: (u8, u8, u8))
        ensures
            (c.0 as int, c.1 as int, c.2 as int) == self.rgb(),
    {
        (self.r, self.g, self.b)
    }
}

} // verus!
