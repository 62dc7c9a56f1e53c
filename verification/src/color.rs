//! Colors as red/green/blue fixed-point scalars, with componentwise
//! arithmetic and the conversion to 8-bit channel values.

use vstd::prelude::*;

verus! {

use crate::fx;
use crate::fx::{spec_add, spec_sub, spec_mul, spec_div, SCALE};

#[derive(Clone, Copy, Debug)]
pub struct Color {
    pub r: i64,
    pub g: i64,
    pub b: i64,
}

pub open spec fn spec_color_add(a: Color, b: Color) -> Color {
    Color {
        r: spec_add(a.r as int, b.r as int) as i64,
        g: spec_add(a.g as int, b.g as int) as i64,
        b: spec_add(a.b as int, b.b as int) as i64,
    }
}

pub open spec fn spec_color_sub(a: Color, b: Color) -> Color {
    Color {
        r: spec_sub(a.r as int, b.r as int) as i64,
        g: spec_sub(a.g as int, b.g as int) as i64,
        b: spec_sub(a.b as int, b.b as int) as i64,
    }
}

/// The Hadamard (componentwise) product.
pub open spec fn spec_color_mul(a: Color, b: Color) -> Color {
    Color {
        r: spec_mul(a.r as int, b.r as int) as i64,
        g: spec_mul(a.g as int, b.g as int) as i64,
        b: spec_mul(a.b as int, b.b as int) as i64,
    }
}

pub open spec fn spec_color_scale(a: Color, s: int) -> Color {
    Color {
        r: spec_mul(a.r as int, s) as i64,
        g: spec_mul(a.g as int, s) as i64,
        b: spec_mul(a.b as int, s) as i64,
    }
}

pub open spec fn spec_color_div(a: Color, s: int) -> Color {
    Color {
        r: spec_div(a.r as int, s) as i64,
        g: spec_div(a.g as int, s) as i64,
        b: spec_div(a.b as int, s) as i64,
    }
}

pub open spec fn spec_black() -> Color {
    Color { r: 0i64, g: 0i64, b: 0i64 }
}

pub open spec fn spec_color_approx(a: Color, b: Color) -> bool {
    &&& fx::spec_approx_eq(a.r as int, b.r as int)
    &&& fx::spec_approx_eq(a.g as int, b.g as int)
    &&& fx::spec_approx_eq(a.b as int, b.b as int)
}

/// A channel scaled to 0..255 and clipped: `trunc(c * 255)` bounded below by
/// 0 and above by 255.
pub open spec fn spec_channel_u8(c: int) -> int {
    let v = spec_mul(c, 255 * SCALE);
    if v < 0 {
        0
    } else if v > 255 * SCALE {
        255
    } else {
        fx::div_trunc(v, SCALE as int)
    }
}

impl Color {
    pub fn new(r: i64, g: i64, b: i64) -> (c: Color)
        ensures
            c == (Color { r, g, b }),
    {
        Color { r, g, b }
    }

    pub fn black() -> (c: Color)
        ensures
            c == (Color { r: 0i64, g: 0i64, b: 0i64 }),
    {
        Color { r: 0, g: 0, b: 0 }
    }

    pub fn white() -> (c: Color)
        ensures
            c == (Color { r: SCALE, g: SCALE, b: SCALE }),
    {
        Color { r: SCALE, g: SCALE, b: SCALE }
    }

    pub fn red() -> (c: Color)
        ensures
            c == (Color { r: SCALE, g: 0i64, b: 0i64 }),
    {
        Color { r: SCALE, g: 0, b: 0 }
    }

    pub fn green() -> (c: Color)
        ensures
            c == (Color { r: 0i64, g: SCALE, b: 0i64 }),
    {
        Color { r: 0, g: SCALE, b: 0 }
    }

    pub fn blue() -> (c: Color)
        ensures
            c == (Color { r: 0i64, g: 0i64, b: SCALE }),
    {
        Color { r: 0, g: 0, b: SCALE }
    }

    pub fn add(self, other: Color) -> (c: Color)
        ensures
            c == spec_color_add(self, other),
    {
        Color {
            r: fx::fx_add(self.r, other.r),
            g: fx::fx_add(self.g, other.g),
            b: fx::fx_add(self.b, other.b),
        }
    }

    pub fn sub(self, other: Color) -> (c: Color)
        ensures
            c == spec_color_sub(self, other),
    {
        Color {
            r: fx::fx_sub(self.r, other.r),
            g: fx::fx_sub(self.g, other.g),
            b: fx::fx_sub(self.b, other.b),
        }
    }

    pub fn mul(self, other: Color) -> (c: Color)
        ensures
            c == spec_color_mul(self, other),
    {
        Color {
            r: fx::fx_mul(self.r, other.r),
            g: fx::fx_mul(self.g, other.g),
            b: fx::fx_mul(self.b, other.b),
        }
    }

    pub fn mul_scalar(self, s: i64) -> (c: Color)
        ensures
            c == spec_color_scale(self, s as int),
    {
        Color {
            r: fx::fx_mul(self.r, s),
            g: fx::fx_mul(self.g, s),
            b: fx::fx_mul(self.b, s),
        }
    }

    pub fn div_scalar(self, s: i64) -> (c: Color)
        ensures
            c == spec_color_div(self, s as int),
    {
        Color {
            r: fx::fx_div(self.r, s),
            g: fx::fx_div(self.g, s),
            b: fx::fx_div(self.b, s),
        }
    }

    pub fn approx_eq(&self, other: &Color) -> (r: bool)
        ensures
            r == spec_color_approx(*self, *other),
    {
        crate::approx_eq(self.r, other.r) && crate::approx_eq(self.g, other.g)
            && crate::approx_eq(self.b, other.b)
    }

    fn channel_u8(c: i64) -> (v: u8)
        ensures
            v as int == spec_channel_u8(c as int),
    {
        let scaled = fx::fx_mul(c, 255 * SCALE);
        if scaled < 0 {
            0
        } else if scaled > 255 * SCALE {
            255
        } else {
            (scaled / SCALE) as u8
        }
    }

    /// The three channels as bytes, each `trunc(channel * 255)` clipped to
    /// 0..255.
    pub fn to_u8_rgb(&self) -> (v: (u8, u8, u8))
        ensures
            v.0 as int == spec_channel_u8(self.r as int),
            v.1 as int == spec_channel_u8(self.g as int),
            v.2 as int == spec_channel_u8(self.b as int),
    {
        (Color::channel_u8(self.r), Color::channel_u8(self.g), Color::channel_u8(self.b))
    }

    /// Writes the three channel bytes at `index`, `index + 1`, `index + 2`.
    pub fn write_as_u8_rgb(&self, buff: &mut Vec<u8>, index: usize)
        requires
            index + 2 < old(buff)@.len(),
        ensures
            final(buff)@ == old(buff)@.update(index as int, spec_channel_u8(self.r as int) as u8)
                .update(index + 1, spec_channel_u8(self.g as int) as u8)
                .update(index + 2, spec_channel_u8(self.b as int) as u8),
    {
        let len = buff.len();
        assert(index + 2 < len);
        buff[index] = Color::channel_u8(self.r);
        buff[index + 1] = Color::channel_u8(self.g);
        buff[index + 2] = Color::channel_u8(self.b);
    }
}

} // verus!
