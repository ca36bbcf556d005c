use vstd::prelude::*;
use crate::color::{Color, WEIGHT_ONE, CHANNEL_MAX, weight_of};

verus! {

/// The refractive index of the space between shapes, in thousandths.
pub const AIR_INDEX: u32 = 1000;

/// A specular response: `value` is its blend weight and `roughness` how far a
/// glossy reflection may stray from the mirror direction, both in thousandths.
#[derive(Clone, Copy, Debug, PartialEq, Eq, Structural)]
pub struct Shininess {
    pub value: u16,
    pub roughness: u16,
}

/// A refractive response: `value` is its blend weight in thousandths, and
/// `density` the refractive index of the shape's inside, in thousandths.
#[derive(Clone, Copy, Debug, PartialEq, Eq, Structural)]
pub struct Transparency {
    pub value: u16,
    pub density: u32,
}

/// How a surface answers light.
#[derive(Clone, Copy, Debug)]
pub enum ShapeType {
    /// A light source: its color, with no further bounce.
    Emitter,
    /// A surface that blends its own color with what it reflects and refracts.
    Reflector { shininess: Option<Shininess>, transparency: Option<Transparency> },
}

/// The material of a shape.
#[derive(Clone, Copy, Debug)]
pub struct ShapeProperties {
    pub color: Color,
    pub shape_type: ShapeType,
}

/// The weight of the specular response of a surface met from the given side:
/// shininess counts only where the surface is met from outside.
pub open spec fn shininess_weight(p: ShapeProperties, from_inside: bool) -> int {
    match p.shape_type {
        ShapeType::Reflector { shininess: Some(s), .. } => if from_inside {
            0
        } else {
            weight_of(s.value)
        },
        _ => 0,
    }
}

/// The weight of the refractive response of a surface.
pub open spec fn transparency_weight(p: ShapeProperties) -> int {
    match p.shape_type {
        ShapeType::Reflector { transparency: Some(t), .. } => weight_of(t.value),
        _ => 0,
    }
}

/// One channel of a reflector's color. The reflected part takes weight `s`; the
/// refracted part takes weight `t` of what is retained after it, `1 - s`; the
/// base color takes what is retained after both, `(1 - s)(1 - t)`. The sum is
/// rounded down once, at the end.
pub open spec fn blend_channel(s: int, t: int, reflected: int, refracted: int, base: int) -> int {
    let one = WEIGHT_ONE as int;
    (s * one * reflected + (one - s) * t * refracted + (one - s) * (one - t) * base) / (one * one)
}

pub open spec fn red_or_black(c: Option<Color>) -> int {
    match c {
        Some(c) => c.r as int,
        None => 0,
    }
}

pub open spec fn green_or_black(c: Option<Color>) -> int {
    match c {
        Some(c) => c.g as int,
        None => 0,
    }
}

pub open spec fn blue_or_black(c: Option<Color>) -> int {
    match c {
        Some(c) => c.b as int,
        None => 0,
    }
}

/// The color a surface shows, given the colors brought back by its reflected
/// and refracted rays (`None` where no such ray was traced: it adds nothing).
pub open spec fn surface_color(
    p: ShapeProperties,
    from_inside: bool,
    reflected: Option<Color>,
    refracted: Option<Color>,
) -> Color {
    match p.shape_type {
        ShapeType::Emitter => p.color,
        ShapeType::Reflector { .. } => {
            let s = shininess_weight(p, from_inside);
            let t = transparency_weight(p);
            Color {
                r: blend_channel(s, t, red_or_black(reflected), red_or_black(refracted), p.color.r as int) as u16,
                g: blend_channel(s, t, green_or_black(reflected), green_or_black(refracted), p.color.g as int) as u16,
                b: blend_channel(s, t, blue_or_black(reflected), blue_or_black(refracted), p.color.b as int) as u16,
            }
        },
    }
}

/// The indices on the side a ray leaves and on the side it enters: leaving the
/// shape it is the shape's density, then air; entering, the other way round.
pub open spec fn refraction_indices_of(from_inside: bool, density: u32) -> (u32, u32) {
    if from_inside {
        (density, AIR_INDEX)
    } else {
        (AIR_INDEX, density)
    }
}

/// A blend of channels in range, with weights in range, is a channel in range:
/// the weights of the three parts add up to one.
pub proof fn lemma_blend_bounded(s: int, t: int, a: int, b: int, c: int)
    requires
        0 <= s <= WEIGHT_ONE,
        0 <= t <= WEIGHT_ONE,
        0 <= a <= CHANNEL_MAX,
        0 <= b <= CHANNEL_MAX,
        0 <= c <= CHANNEL_MAX,
    ensures
        0 <= blend_channel(s, t, a, b, c) <= CHANNEL_MAX,
        s * 1000 * a + (1000 - s) * t * b + (1000 - s) * (1000 - t) * c <= 1000 * 1000 * 65535,
{
    let m = CHANNEL_MAX as int;
    assert(s * 1000 * a <= s * 1000 * m) by (nonlinear_arith)
        requires 0 <= s, 0 <= a <= m;
    assert((1000 - s) * t * b <= (1000 - s) * t * m) by (nonlinear_arith)
        requires s <= 1000, 0 <= t, 0 <= b <= m;
    assert((1000 - s) * (1000 - t) * c <= (1000 - s) * (1000 - t) * m) by (nonlinear_arith)
        requires s <= 1000, t <= 1000, 0 <= c <= m;
    assert(s * 1000 * m + (1000 - s) * t * m + (1000 - s) * (1000 - t) * m == 1000 * 1000 * m)
        by (nonlinear_arith);
    assert(0 <= s * 1000 * a) by (nonlinear_arith)
        requires 0 <= s, 0 <= a;
    assert(0 <= (1000 - s) * t * b) by (nonlinear_arith)
        requires s <= 1000, 0 <= t, 0 <= b;
    assert(0 <= (1000 - s) * (1000 - t) * c) by (nonlinear_arith)
        requires s <= 1000, t <= 1000, 0 <= c;
    let n = s * 1000 * a + (1000 - s) * t * b + (1000 - s) * (1000 - t) * c;
    assert(n / 1000000 <= 65535) by (nonlinear_arith)
        requires 0 <= n <= 1000 * 1000 * 65535;
    assert(n / 1000000 >= 0) by (nonlinear_arith)
        requires 0 <= n;
}

proof fn lemma_opaque_channel(s: int, reflected: int, base: int)
    requires
        0 <= s <= WEIGHT_ONE,
        0 <= reflected <= CHANNEL_MAX,
        0 <= base <= CHANNEL_MAX,
    ensures
        blend_channel(s, 0, reflected, 0, base) == (s * reflected + (1000 - s) * base) / 1000,
        0 <= (s * reflected + (1000 - s) * base) / 1000 <= CHANNEL_MAX,
{
    lemma_blend_bounded(s, 0, reflected, 0, base);
    let x = s * reflected + (1000 - s) * base;
    assert(s * 1000 * reflected + (1000 - s) * 0 * 0 + (1000 - s) * (1000 - 0) * base == 1000 * x)
        by (nonlinear_arith)
        requires x == s * reflected + (1000 - s) * base;
    assert(0 <= x) by (nonlinear_arith)
        requires 0 <= s <= 1000, 0 <= reflected, 0 <= base, x == s * reflected + (1000 - s) * base;
    vstd::arithmetic::div_mod::lemma_div_multiples_vanish_quotient(1000, x, 1000);
}

/// A reflector whose only response is a shininess of weight `w`, met from
/// outside, shows `w` of the color its reflected ray brought back plus `1 - w`
/// of its own color: on each channel, `(w * reflected + (1 - w) * base)`
/// thousandths, rounded down once. Nothing is lost between the two parts.
pub proof fn lemma_shiny_opaque_blend(p: ShapeProperties, sh: Shininess, reflected: Color)
    requires
        p.shape_type == (ShapeType::Reflector { shininess: Some(sh), transparency: None }),
    ensures
        ({
            let w = weight_of(sh.value);
            let c = surface_color(p, false, Some(reflected), None);
            &&& c.r == (w * reflected.r + (1000 - w) * p.color.r) / 1000
            &&& c.g == (w * reflected.g + (1000 - w) * p.color.g) / 1000
            &&& c.b == (w * reflected.b + (1000 - w) * p.color.b) / 1000
        }),
{
    let w = weight_of(sh.value);
    lemma_opaque_channel(w, reflected.r as int, p.color.r as int);
    lemma_opaque_channel(w, reflected.g as int, p.color.g as int);
    lemma_opaque_channel(w, reflected.b as int, p.color.b as int);
}

fn blend_channel_exec(s: u16, t: u16, reflected: u16, refracted: u16, base: u16) -> (r: u16)
    requires
        s <= WEIGHT_ONE,
        t <= WEIGHT_ONE,
    ensures
        r == blend_channel(s as int, t as int, reflected as int, refracted as int, base as int),
{
    proof {
        lemma_blend_bounded(s as int, t as int, reflected as int, refracted as int, base as int);
        assert(s as int * 1000 * reflected as int <= 1000 * 1000 * 65535) by (nonlinear_arith)
            requires s <= 1000, reflected <= 65535;
        assert((1000 - s as int) * t as int <= 1000 * 1000) by (nonlinear_arith)
            requires s <= 1000, t <= 1000;
        assert((1000 - s as int) * t as int * refracted as int <= 1000 * 1000 * 65535) by (nonlinear_arith)
            requires 0 <= (1000 - s as int) * t as int <= 1000 * 1000, refracted <= 65535;
        assert((1000 - s as int) * (1000 - t as int) <= 1000 * 1000) by (nonlinear_arith)
            requires s <= 1000, t <= 1000;
        assert((1000 - s as int) * (1000 - t as int) * base as int <= 1000 * 1000 * 65535) by (nonlinear_arith)
            requires 0 <= (1000 - s as int) * (1000 - t as int) <= 1000 * 1000, base <= 65535;
    }
    let one: u64 = WEIGHT_ONE as u64;
    let s: u64 = s as u64;
    let t: u64 = t as u64;
    let n: u64 = s * one * reflected as u64 + (one - s) * t * refracted as u64 + (one - s) * (one - t)
        * base as u64;
    (n / (one * one)) as u16
}

fn clamped_weight(w: u16) -> (r: u16)
    ensures
        r == weight_of(w),
{
    if w > WEIGHT_ONE {
        WEIGHT_ONE
    } else {
        w
    }
}

impl ShapeProperties {
    /// The color this surface shows when met from the given side, given what
    /// its reflected and refracted rays brought back. An emitter shows its own
    /// color. A reflector blends: see `blend_channel`.
    pub fn surface_color(
        &self,
        from_inside: bool,
        reflected: Option<Color>,
        refracted: Option<Color>,
    ) -> (c: Color)
        ensures
            c == surface_color(*self, from_inside, reflected, refracted),
    {
        match self.shape_type {
            ShapeType::Emitter => self.color,
            ShapeType::Reflector { shininess, transparency } => {
                let s: u16 = match shininess {
                    Some(sh) => if from_inside {
                        0
                    } else {
                        clamped_weight(sh.value)
                    },
                    None => 0,
                };
                let t: u16 = match transparency {
                    Some(tr) => clamped_weight(tr.value),
                    None => 0,
                };
                let black = Color::zero();
                let a = match reflected {
                    Some(c) => c,
                    None => black,
                };
                let b = match refracted {
                    Some(c) => c,
                    None => black,
                };
                Color {
                    r: blend_channel_exec(s, t, a.r, b.r, self.color.r),
                    g: blend_channel_exec(s, t, a.g, b.g, self.color.g),
                    b: blend_channel_exec(s, t, a.b, b.b, self.color.b),
                }
            },
        }
    }
}

/// The refractive indices for a ray crossing a surface of the given density:
/// the index of the side it leaves, then of the side it enters.
pub fn refraction_indices(from_inside: bool, density: u32) -> (r: (u32, u32))
    ensures
        r == refraction_indices_of(from_inside, density),
{
    if from_inside {
        (density, AIR_INDEX)
    } else {
        (AIR_INDEX, density)
    }
}

} // verus!
