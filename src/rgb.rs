use vstd::prelude::*;

use crate::channel::{clamp_micros, Channel, Unit, UNIT_SCALE};
use crate::color::Color;
use crate::sqrt::{floor_sqrt, isqrt, lemma_floor_sqrt_bounds};

verus! {

/// Tag of gamma-encoded, display-referred channels.
#[derive(Debug, Clone, Copy, PartialEq, Eq, Structural)]
pub struct Srgb;

/// Tag of linear, light-referred channels.
#[derive(Debug, Clone, Copy, PartialEq, Eq, Structural)]
pub struct Linear;

/// An RGB color over channel type `T`, tagged with its color space `S`.
///
/// The tag is a zero-sized marker; a linear color and a gamma-encoded one have different types, so
/// moving between them takes an explicit `std_decode` or `std_encode`.
#[derive(Debug, Clone, Copy, PartialEq, Eq)]
pub struct RGBColor<T, S> {
    pub r: T,
    pub g: T,
    pub b: T,
    pub space: S,
}

/// A generic RGB color is normal when each channel is in range.
impl<T: Channel, S> Color for RGBColor<T, S> {
    open spec fn spec_is_normal(&self) -> bool {
        self.r.spec_in_range() && self.g.spec_in_range() && self.b.spec_in_range()
    }

    open spec fn spec_normalize(&self) -> Self {
        RGBColor {
            r: self.r.spec_to_range(),
            g: self.g.spec_to_range(),
            b: self.b.spec_to_range(),
            space: self.space,
        }
    }

    fn normalize(self) -> (c: Self) {
        RGBColor { r: self.r.to_range(), g: self.g.to_range(), b: self.b.to_range(), space: self.space }
    }

    fn is_normal(&self) -> (c: bool) {
        self.r.in_range() && self.g.in_range() && self.b.in_range()
    }
}

/// A gamma-encoded color in the unit channel.
pub type SRGBColor = RGBColor<Unit, Srgb>;

/// A linear color in the unit channel.
pub type LinRGBColor = RGBColor<Unit, Linear>;

/// Gamma-encoded to linear by a square law (gamma 2): the clamped channel squared.
pub open spec fn decode_micros(m: int) -> int {
    let c = clamp_micros(m);
    c * c / (UNIT_SCALE as int)
}

/// Linear to gamma-encoded by a square law (gamma 2): the square root of the clamped
/// channel, rounded down.
pub open spec fn encode_micros(m: int) -> int {
    floor_sqrt((clamp_micros(m) * (UNIT_SCALE as int)) as nat) as int
}

impl<T: Channel, S> RGBColor<T, S> {
    /// Create a color from three channels, each clamped into its valid range.
    pub fn new(r: T, g: T, b: T, space: S) -> (c: Self)
        ensures
            c.r == r.spec_to_range(),
            c.g == g.spec_to_range(),
            c.b == b.spec_to_range(),
            c.space == space,
    {
        RGBColor { r: r.to_range(), g: g.to_range(), b: b.to_range(), space }
    }
}

/// Decoding an encoded channel gives back the linear value, rounded down by at most two
/// millionths.
pub proof fn lemma_decode_encode(m: int)
    requires
        0 <= m <= UNIT_SCALE,
    ensures
        m - 2 <= decode_micros(encode_micros(m)) <= m,
{
    let s = UNIT_SCALE as int;
    let n = m * s;
    assert(0 <= n <= s * s) by (nonlinear_arith)
        requires
            0 <= m <= s,
            n == m * s,
    ;
    lemma_floor_sqrt_bounds(n as nat);
    let e = encode_micros(m);
    assert(e == floor_sqrt(n as nat));
    assert(e <= s) by (nonlinear_arith)
        requires
            e * e <= n,
            n <= s * s,
            0 <= e,
            s > 0,
    ;
    assert(clamp_micros(e) == e);
    assert(e * e / s <= m) by (nonlinear_arith)
        requires
            e * e <= m * s,
            s > 0,
    ;
    assert(e * e / s >= m - 2) by (nonlinear_arith)
        requires
            m * s < (e + 1) * (e + 1),
            0 <= e <= s,
            s > 0,
    ;
}

/// Encoding a decoded channel gives back the encoded value, rounded down by at most a
/// thousandth of full intensity.
pub proof fn lemma_encode_decode(m: int)
    requires
        0 <= m <= UNIT_SCALE,
    ensures
        m - 1000 <= encode_micros(decode_micros(m)) <= m,
{
    let s = UNIT_SCALE as int;
    let d = decode_micros(m);
    assert(d == m * m / s);
    assert(0 <= m * m / s <= s) by (nonlinear_arith)
        requires
            0 <= m <= s,
            s == 1_000_000,
    ;
    assert(clamp_micros(d) == d);
    let n = d * s;
    assert(0 <= n) by (nonlinear_arith)
        requires
            0 <= d,
            0 <= s,
            n == d * s,
    ;
    lemma_floor_sqrt_bounds(n as nat);
    let e = encode_micros(m * m / s);
    assert(e == floor_sqrt(n as nat));
    assert(n <= m * m && n > m * m - s) by (nonlinear_arith)
        requires
            d == m * m / s,
            n == d * s,
            s > 0,
    ;
    assert(e <= m) by (nonlinear_arith)
        requires
            e * e <= n,
            n <= m * m,
            0 <= e,
            0 <= m,
    ;
    if m > 1000 {
        assert((m - 1000) * (m - 1000) <= n) by (nonlinear_arith)
            requires
                n > m * m - s,
                m > 1000,
                s == 1_000_000,
        ;
        assert(e >= m - 1000) by (nonlinear_arith)
            requires
                (m - 1000) * (m - 1000) <= n,
                n < (e + 1) * (e + 1),
                0 <= e,
                m > 1000,
        ;
    }
}

/// Decodes one unit channel.
fn decode_unit(x: Unit) -> (r: Unit)
    ensures
        r.micros as int == decode_micros(x.micros as int),
        r.spec_in_range(),
{
    let c = x.to_range();
    let c64: u64 = c.micros as u64;
    assert(c64 * c64 <= 1_000_000 * 1_000_000) by (nonlinear_arith)
        requires
            c64 <= 1_000_000,
    ;
    assert(c64 * c64 / 1_000_000 <= 1_000_000) by (nonlinear_arith)
        requires
            c64 * c64 <= 1_000_000 * 1_000_000,
    ;
    Unit { micros: (c64 * c64 / 1_000_000) as i32 }
}

/// Encodes one unit channel.
fn encode_unit(x: Unit) -> (r: Unit)
    ensures
        r.micros as int == encode_micros(x.micros as int),
        r.spec_in_range(),
{
    let c = x.to_range();
    let n: u64 = c.micros as u64 * 1_000_000;
    let e = isqrt(n);
    assert(e <= 1_000_000) by (nonlinear_arith)
        requires
            e * e <= n,
            n <= 1_000_000 * 1_000_000,
    ;
    Unit { micros: e as i32 }
}

impl RGBColor<Unit, Srgb> {
    /// The same color in linear space, each channel decoded by the square law.
    pub fn std_decode(self) -> (c: RGBColor<Unit, Linear>)
        ensures
            c.r.micros as int == decode_micros(self.r.micros as int),
            c.g.micros as int == decode_micros(self.g.micros as int),
            c.b.micros as int == decode_micros(self.b.micros as int),
    {
        RGBColor {
            r: decode_unit(self.r),
            g: decode_unit(self.g),
            b: decode_unit(self.b),
            space: Linear,
        }
    }
}

impl RGBColor<Unit, Linear> {
    /// The same color gamma-encoded, each channel encoded by the square law.
    pub fn std_encode(self) -> (c: RGBColor<Unit, Srgb>)
        ensures
            c.r.micros as int == encode_micros(self.r.micros as int),
            c.g.micros as int == encode_micros(self.g.micros as int),
            c.b.micros as int == encode_micros(self.b.micros as int),
    {
        RGBColor {
            r: encode_unit(self.r),
            g: encode_unit(self.g),
            b: encode_unit(self.b),
            space: Srgb,
        }
    }
}

} // verus!
