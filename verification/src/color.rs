//! RGBA colors with exact rational channels.

use crate::rat::{q_int, rat_small, Q, Rat};
use vstd::prelude::*;

verus! {

/// An RGBA color; each channel is an exact rational, nominally in `[0, 1]`.
#[derive(Clone, Copy, Debug, PartialEq, Eq, Structural)]
pub struct Color {
    pub r: Rat,
    pub g: Rat,
    pub b: Rat,
    pub a: Rat,
}

/// The byte a channel maps to in a hex color string: `floor(c * 255)`,
/// clamped into `0 ..= 255`.
pub open spec fn channel_byte(c: Q) -> int
    recommends
        c.d > 0,
{
    if c.n <= 0 {
        0
    } else if c.n >= c.d {
        255
    } else {
        (c.n * 255) / c.d
    }
}

/// The character for one hex digit, upper case.
pub open spec fn hex_digit(v: int) -> char
    recommends
        0 <= v < 16,
{
    if v < 10 {
        ((v + 0x30) as u8) as char
    } else {
        ((v + 0x37) as u8) as char
    }
}

/// The `#RRGGBB` rendering of a color.
pub open spec fn hex_chars_of(c: Color) -> Seq<char> {
    seq![
        '#',
        hex_digit(channel_byte(c.r@) / 16),
        hex_digit(channel_byte(c.r@) % 16),
        hex_digit(channel_byte(c.g@) / 16),
        hex_digit(channel_byte(c.g@) % 16),
        hex_digit(channel_byte(c.b@) / 16),
        hex_digit(channel_byte(c.b@) % 16),
    ]
}

/// Relies on `String::push`: appends exactly the given character.
#[verifier::external_body]
fn push_char(s: &mut String, c: char)
    ensures
        final(s)@ == old(s)@.push(c),
{
    s.push(c);
}

/// One hex digit as a character.
fn hex_digit_exec(v: u8) -> (r: char)
    requires
        v < 16,
    ensures
        r == hex_digit(v as int),
{
    if v < 10 {
        (v + 0x30) as char
    } else {
        (v + 0x37) as char
    }
}

impl Color {
    /// A color from red, green and blue channels; the alpha channel is one.
    pub fn from_rgb(r: Rat, g: Rat, b: Rat) -> (c: Color)
        requires
            rat_small(r),
            rat_small(g),
            rat_small(b),
        ensures
            c.r == r,
            c.g == g,
            c.b == b,
            c.a@ == q_int(1),
    {
        Color { r, g, b, a: Rat::one() }
    }

    pub fn red_value(&self) -> (r: Rat)
        ensures
            r == self.r,
    {
        self.r
    }

    pub fn green_value(&self) -> (r: Rat)
        ensures
            r == self.g,
    {
        self.g
    }

    pub fn blue_value(&self) -> (r: Rat)
        ensures
            r == self.b,
    {
        self.b
    }

    pub fn alpha(&self) -> (r: Rat)
        ensures
            r == self.a,
    {
        self.a
    }

    pub fn black() -> (c: Color)
        ensures
            c.r@ == q_int(0) && c.g@ == q_int(0) && c.b@ == q_int(0) && c.a@ == q_int(1),
    {
        Color::from_rgb(Rat::zero(), Rat::zero(), Rat::zero())
    }

    pub fn white() -> (c: Color)
        ensures
            c.r@ == q_int(1) && c.g@ == q_int(1) && c.b@ == q_int(1) && c.a@ == q_int(1),
    {
        Color::from_rgb(Rat::one(), Rat::one(), Rat::one())
    }

    pub fn red() -> (c: Color)
        ensures
            c.r@ == q_int(1) && c.g@ == q_int(0) && c.b@ == q_int(0) && c.a@ == q_int(1),
    {
        Color::from_rgb(Rat::one(), Rat::zero(), Rat::zero())
    }

    pub fn green() -> (c: Color)
        ensures
            c.r@ == q_int(0) && c.g@ == q_int(1) && c.b@ == q_int(0) && c.a@ == q_int(1),
    {
        Color::from_rgb(Rat::zero(), Rat::one(), Rat::zero())
    }

    pub fn blue() -> (c: Color)
        ensures
            c.r@ == q_int(0) && c.g@ == q_int(0) && c.b@ == q_int(1) && c.a@ == q_int(1),
    {
        Color::from_rgb(Rat::zero(), Rat::zero(), Rat::one())
    }

    /// The `#RRGGBB` hex string of the color, upper case, alpha ignored.
    pub fn to_hex(&self) -> (s: String)
        requires
            rat_small(self.r),
            rat_small(self.g),
            rat_small(self.b),
        ensures
            s@ == hex_chars_of(*self),
    {
        let mut s = String::new();
        push_char(&mut s, '#');
        let rb = channel_byte_exec(self.r);
        let gb = channel_byte_exec(self.g);
        let bb = channel_byte_exec(self.b);
        push_char(&mut s, hex_digit_exec(rb / 16));
        push_char(&mut s, hex_digit_exec(rb % 16));
        push_char(&mut s, hex_digit_exec(gb / 16));
        push_char(&mut s, hex_digit_exec(gb % 16));
        push_char(&mut s, hex_digit_exec(bb / 16));
        push_char(&mut s, hex_digit_exec(bb % 16));
        proof {
            assert(s@ =~= hex_chars_of(*self));
        }
        s
    }
}

/// The hex byte of one channel.
fn channel_byte_exec(c: Rat) -> (r: u8)
    requires
        rat_small(c),
    ensures
        r as int == channel_byte(c@),
{
    if c.num <= 0 {
        0
    } else if c.num >= c.den {
        255
    } else {
        let v = (c.num as u128) * 255;
        let q = v / (c.den as u128);
        proof {
            assert(c.num as int * 255 < c.den as int * 255) by (nonlinear_arith)
                requires
                    c.num < c.den,
            ;
            vstd::arithmetic::div_mod::lemma_multiply_divide_lt(
                c.num as int * 255,
                c.den as int,
                255,
            );
            vstd::arithmetic::div_mod::lemma_div_pos_is_pos(c.num as int * 255, c.den as int);
        }
        q as u8
    }
}

} // verus!
