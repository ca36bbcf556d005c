use vstd::prelude::*;

verus! {

/// The largest value of a color channel: full intensity.
pub const CHANNEL_MAX: u16 = 65535;

/// The fixed-point one of a weight: weights are counted in thousandths.
pub const WEIGHT_ONE: u16 = 1000;

/// A weight read as a fraction of `WEIGHT_ONE`; anything above one counts as one.
pub open spec fn weight_of(w: u16) -> int {
    if w > WEIGHT_ONE {
        WEIGHT_ONE as int
    } else {
        w as int
    }
}

/// A channel scaled by a weight, rounded down.
pub open spec fn scaled_channel(c: u16, w: u16) -> int {
    (c as int * weight_of(w)) / (WEIGHT_ONE as int)
}

/// The sum of two channels, saturating at full intensity.
pub open spec fn saturating_sum(a: u16, b: u16) -> int {
    if a as int + b as int > CHANNEL_MAX as int {
        CHANNEL_MAX as int
    } else {
        a as int + b as int
    }
}

/// The product of two channels read as fractions of full intensity, rounded down.
pub open spec fn filtered_channel(a: u16, b: u16) -> int {
    (a as int * b as int) / (CHANNEL_MAX as int)
}

/// An RGB color; each channel runs from 0 (none) to `CHANNEL_MAX` (full).
#[derive(Clone, Copy, Debug, PartialEq, Eq, Structural)]
pub struct Color {
    pub r: u16,
    pub g: u16,
    pub b: u16,
}

impl Color {
    pub fn new(r: u16, g: u16, b: u16) -> (c: Color)
        ensures
            c.r == r,
            c.g == g,
            c.b == b,
    {
        Color { r, g, b }
    }

    /// Black.
    pub fn zero() -> (c: Color)
        ensures
            c.r == 0,
            c.g == 0,
            c.b == 0,
    {
        Color { r: 0, g: 0, b: 0 }
    }

    /// Full intensity on every channel.
    pub fn white() -> (c: Color)
        ensures
            c.r == CHANNEL_MAX,
            c.g == CHANNEL_MAX,
            c.b == CHANNEL_MAX,
    {
        Color { r: CHANNEL_MAX, g: CHANNEL_MAX, b: CHANNEL_MAX }
    }

    /// Every channel scaled by `weight` thousandths (a weight above one counts as one).
    pub fn times(self, weight: u16) -> (c: Color)
        ensures
            c.r == scaled_channel(self.r, weight),
            c.g == scaled_channel(self.g, weight),
            c.b == scaled_channel(self.b, weight),
    {
        let w: u32 = if weight > WEIGHT_ONE {
            WEIGHT_ONE as u32
        } else {
            weight as u32
        };
        proof {
            assert(self.r as int * w <= 65535 * 1000) by (nonlinear_arith)
                requires
                    self.r <= 65535,
                    w <= 1000,
            ;
            assert(self.g as int * w <= 65535 * 1000) by (nonlinear_arith)
                requires
                    self.g <= 65535,
                    w <= 1000,
            ;
            assert(self.b as int * w <= 65535 * 1000) by (nonlinear_arith)
                requires
                    self.b <= 65535,
                    w <= 1000,
            ;
        }
        Color {
            r: (self.r as u32 * w / WEIGHT_ONE as u32) as u16,
            g: (self.g as u32 * w / WEIGHT_ONE as u32) as u16,
            b: (self.b as u32 * w / WEIGHT_ONE as u32) as u16,
        }
    }

    /// Channel-wise sum; a channel never exceeds full intensity.
    pub fn plus(self, other: &Color) -> (c: Color)
        ensures
            c.r == saturating_sum(self.r, other.r),
            c.g == saturating_sum(self.g, other.g),
            c.b == saturating_sum(self.b, other.b),
    {
        Color {
            r: saturating_channel_sum(self.r, other.r),
            g: saturating_channel_sum(self.g, other.g),
            b: saturating_channel_sum(self.b, other.b),
        }
    }

    /// Channel-wise product, each channel read as a fraction of full intensity.
    pub fn filter(self, other: &Color) -> (c: Color)
        ensures
            c.r == filtered_channel(self.r, other.r),
            c.g == filtered_channel(self.g, other.g),
            c.b == filtered_channel(self.b, other.b),
    {
        Color {
            r: filter_channel(self.r, other.r),
            g: filter_channel(self.g, other.g),
            b: filter_channel(self.b, other.b),
        }
    }
}

fn saturating_channel_sum(a: u16, b: u16) -> (r: u16)
    ensures
        r == saturating_sum(a, b),
{
    let s: u32 = a as u32 + b as u32;
    if s > CHANNEL_MAX as u32 {
        CHANNEL_MAX
    } else {
        s as u16
    }
}

fn filter_channel(a: u16, b: u16) -> (r: u16)
    ensures
        r == filtered_channel(a, b),
{
    proof {
        assert(a as int * b as int <= 65535 * 65535) by (nonlinear_arith)
            requires
                a <= 65535,
                b <= 65535,
        ;
        assert((a as int * b as int) / 65535 <= 65535) by (nonlinear_arith)
            requires
                a as int * b as int <= 65535 * 65535,
        ;
    }
    let p: u32 = a as u32 * b as u32;
    (p / CHANNEL_MAX as u32) as u16
}

} // verus!
