use vstd::prelude::*;

verus! {

/// The four bytes of a 32-bit value, most significant first.
pub open spec fn be_bytes(v: i32) -> Seq<u8> {
    let u = v as u32;
    seq![(u >> 24u32) as u8, (u >> 16u32) as u8, (u >> 8u32) as u8, u as u8]
}

/// An opaque colour; each channel is one byte.
#[derive(Clone, Copy, Debug, PartialEq, Eq)]
pub struct Color {
    pub r: u8,
    pub g: u8,
    pub b: u8,
    pub a: u8,
}

impl Color {
    /// How a pixel of this colour is laid out in memory: B, G, R, A.
    pub open spec fn pixel_bytes(self) -> Seq<u8> {
        seq![self.b, self.g, self.r, self.a]
    }

    /// The `k`-th byte of a pixel of this colour.
    pub open spec fn channel(self, k: int) -> u8 {
        if k == 0 {
            self.b
        } else if k == 1 {
            self.g
        } else if k == 2 {
            self.r
        } else {
            self.a
        }
    }

    pub fn new(r: u8, g: u8, b: u8, a: u8) -> (c: Color)
        ensures
            c == (Color { r, g, b, a }),
    {
        Color { r, g, b, a }
    }

    /// The colour packed into one 32-bit value whose big-endian bytes are B, G, R, A.
    pub fn get_i32(&self) -> (res: i32)
        ensures
            be_bytes(res) == self.pixel_bytes(),
    {
        let (r, g, b, a) = (self.r, self.g, self.b, self.a);
        let packed: u32 = ((b as u32) << 24u32) | ((g as u32) << 16u32) | ((r as u32) << 8u32)
            | (a as u32);
        let res = packed as i32;
        assert((res as u32) >> 24u32 == b as u32 && ((res as u32) >> 16u32) as u8 == g && ((res as u32) >> 8u32) as u8 == r && (res as u32) as u8 == a) by (bit_vector)
            requires
                packed == ((b as u32) << 24u32) | ((g as u32) << 16u32) | ((r as u32) << 8u32)
                    | (a as u32),
                res == packed as i32,
        ;
        assert(be_bytes(res) =~= self.pixel_bytes());
        res
    }
}


// The palette.
impl Color {
    pub open spec fn spec_baby_pink() -> Color {
        Color { r: 250, g: 193, b: 235, a: 255 }
    }

    /// The paddles on the left and right.
    #[verifier::when_used_as_spec(spec_baby_pink)]
    pub fn baby_pink() -> (c: Color)
        ensures
            c == Color::spec_baby_pink(),
    {
        Color { r: 250, g: 193, b: 235, a: 255 }
    }

    pub open spec fn spec_dark_blue() -> Color {
        Color { r: 15, g: 5, b: 67, a: 255 }
    }

    /// The background.
    #[verifier::when_used_as_spec(spec_dark_blue)]
    pub fn dark_blue() -> (c: Color)
        ensures
            c == Color::spec_dark_blue(),
    {
        Color { r: 15, g: 5, b: 67, a: 255 }
    }

    pub open spec fn spec_neon_mint() -> Color {
        Color { r: 1, g: 255, b: 198, a: 255 }
    }

    /// The ball.
    #[verifier::when_used_as_spec(spec_neon_mint)]
    pub fn neon_mint() -> (c: Color)
        ensures
            c == Color::spec_neon_mint(),
    {
        Color { r: 1, g: 255, b: 198, a: 255 }
    }

    pub open spec fn spec_neon_yellow() -> Color {
        Color { r: 253, g: 255, b: 100, a: 255 }
    }

    /// The paddles at the top and bottom.
    #[verifier::when_used_as_spec(spec_neon_yellow)]
    pub fn neon_yellow() -> (c: Color)
        ensures
            c == Color::spec_neon_yellow(),
    {
        Color { r: 253, g: 255, b: 100, a: 255 }
    }

    pub open spec fn spec_red() -> Color {
        Color { r: 253, g: 61, b: 62, a: 255 }
    }

    /// The screen shown when the ball escapes.
    #[verifier::when_used_as_spec(spec_red)]
    pub fn red() -> (c: Color)
        ensures
            c == Color::spec_red(),
    {
        Color { r: 253, g: 61, b: 62, a: 255 }
    }
}

/// A two-dimensional vector of fixed-point components.
#[derive(Clone, Copy, Debug, PartialEq, Eq)]
pub struct V2 {
    pub x: i64,
    pub y: i64,
}

impl V2 {
    pub open spec fn fits(x: int) -> bool {
        i64::MIN <= x <= i64::MAX
    }

    pub fn zero() -> (r: V2)
        ensures
            r.x == 0 && r.y == 0,
    {
        V2 { x: 0, y: 0 }
    }

    pub fn add(self, a: V2) -> (r: V2)
        requires
            V2::fits(self.x + a.x),
            V2::fits(self.y + a.y),
        ensures
            r.x == self.x + a.x,
            r.y == self.y + a.y,
    {
        V2 { x: self.x + a.x, y: self.y + a.y }
    }

    pub fn add_assign(&mut self, a: V2)
        requires
            V2::fits(old(self).x + a.x),
            V2::fits(old(self).y + a.y),
        ensures
            final(self).x == old(self).x + a.x,
            final(self).y == old(self).y + a.y,
    {
        self.x = self.x + a.x;
        self.y = self.y + a.y;
    }

    pub fn mul(self, factor: i64) -> (r: V2)
        requires
            V2::fits(self.x * factor),
            V2::fits(self.y * factor),
        ensures
            r.x == self.x * factor,
            r.y == self.y * factor,
    {
        V2 { x: self.x * factor, y: self.y * factor }
    }

    pub fn mul_assign(&mut self, factor: i64)
        requires
            V2::fits(old(self).x * factor),
            V2::fits(old(self).y * factor),
        ensures
            final(self).x == old(self).x * factor,
            final(self).y == old(self).y * factor,
    {
        self.x = self.x * factor;
        self.y = self.y * factor;
    }
}

} // verus!
