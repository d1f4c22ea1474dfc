use vstd::prelude::*;

use crate::channel::{Channel, Unit};
use crate::color::Color;
use crate::rgb::{decode_micros, encode_micros, Linear, RGBColor, Srgb};

verus! {

/// A color with an alpha channel.
///
/// Full alpha means the color is fully opaque, and zero alpha means it is fully transparent.
/// The alpha is straight, not premultiplied: the color's channels are not scaled by it.
#[derive(Debug, Clone, Copy, PartialEq, Eq)]
pub struct Alpha<C, A> {
    pub color: C,
    pub alpha: A,
}

/// A color at full opacity.
pub open spec fn opaque_of<C, A: Channel>(color: C) -> Alpha<C, A> {
    Alpha { color, alpha: A::spec_max() }
}

/// The channels of an RGB color with alpha, in red, green, blue, alpha order.
pub open spec fn channels_of<T, S>(a: Alpha<RGBColor<T, S>, T>) -> Seq<T> {
    seq![a.color.r, a.color.g, a.color.b, a.alpha]
}

/// Wrapping a color at full opacity and flattening it gives its red, green and blue channels
/// followed by the full-intensity alpha.
pub proof fn lemma_opaque_channels<T: Channel, S>(c: RGBColor<T, S>)
    ensures
        channels_of(opaque_of::<RGBColor<T, S>, T>(c)) == seq![c.r, c.g, c.b, T::spec_max()],
        channels_of(opaque_of::<RGBColor<T, S>, T>(c)).len() == 4,
{
}

impl<C, A: Channel> Alpha<C, A> {
    /// Wraps a color with an alpha channel, clamped into its valid range.
    pub fn new(color: C, alpha: A) -> (r: Self)
        ensures
            r.color == color,
            r.alpha == alpha.spec_to_range(),
            r.alpha.spec_in_range(),
    {
        Alpha { color, alpha: alpha.to_range() }
    }

    /// Wraps a color at full opacity.
    pub fn opaque(color: C) -> (r: Self)
        ensures
            r == opaque_of::<C, A>(color),
            r.alpha == A::spec_max(),
    {
        let alpha = A::ch_max();
        Alpha { color, alpha }
    }
}

/// The wrapped type's default color at full opacity.
impl<C: Default, A: Channel> Default for Alpha<C, A> {
    fn default() -> (r: Self)
        ensures
            r.alpha == A::spec_max(),
    {
        Alpha::opaque(C::default())
    }
}

impl<T: Channel, A: Channel, S> Alpha<RGBColor<T, S>, A> {
    /// Builds a color with alpha from red, green, blue and alpha channels, each clamped into
    /// its valid range.
    pub fn from_tuple(t: (T, T, T, A), space: S) -> (r: Self)
        ensures
            r.color.r == t.0.spec_to_range(),
            r.color.g == t.1.spec_to_range(),
            r.color.b == t.2.spec_to_range(),
            r.color.space == space,
            r.alpha == t.3.spec_to_range(),
    {
        let (cr, cg, cb, ca) = t;
        Alpha::new(RGBColor::new(cr, cg, cb, space), ca)
    }
}

impl<T: Channel + Copy, S> Alpha<RGBColor<T, S>, T> {
    /// Builds a color with alpha from an array of its channels in red, green, blue, alpha
    /// order, each clamped into its valid range.
    pub fn from_array(a: [T; 4], space: S) -> (r: Self)
        ensures
            r.color.r == a@[0].spec_to_range(),
            r.color.g == a@[1].spec_to_range(),
            r.color.b == a@[2].spec_to_range(),
            r.color.space == space,
            r.alpha == a@[3].spec_to_range(),
    {
        Alpha::new(RGBColor::new(a[0], a[1], a[2], space), a[3])
    }
}

/// An alpha-wrapped color is normal when both the color and the alpha are.
impl<C: Color, A: Channel> Color for Alpha<C, A> {
    open spec fn spec_is_normal(&self) -> bool {
        self.color.spec_is_normal() && self.alpha.spec_in_range()
    }

    open spec fn spec_normalize(&self) -> Self {
        Alpha { color: self.color.spec_normalize(), alpha: self.alpha.spec_to_range() }
    }

    fn normalize(self) -> (r: Self) {
        let color = self.color.normalize();
        let alpha = self.alpha.to_range();
        Alpha { color, alpha }
    }

    fn is_normal(&self) -> (r: bool) {
        self.color.is_normal() && self.alpha.in_range()
    }
}

impl<T, A, S> Alpha<RGBColor<T, S>, A> {
    /// Deconstructs this color into its channels, in red, green, blue, alpha order.
    pub fn tuple(self) -> (t: (T, T, T, A))
        ensures
            t == (self.color.r, self.color.g, self.color.b, self.alpha),
    {
        (self.color.r, self.color.g, self.color.b, self.alpha)
    }
}

impl<T, S> Alpha<RGBColor<T, S>, T> {
    /// Deconstructs this color into an array of its channels, in red, green, blue, alpha
    /// order.
    pub fn array(self) -> (a: [T; 4])
        ensures
            a@ == channels_of(self),
    {
        let a = [self.color.r, self.color.g, self.color.b, self.alpha];
        assert(a@ =~= channels_of(self));
        a
    }
}

impl<A> Alpha<RGBColor<Unit, Srgb>, A> {
    /// The same color in linear space, decoded by the square law; the alpha is kept as it is.
    pub fn std_decode(self) -> (r: Alpha<RGBColor<Unit, Linear>, A>)
        ensures
            r.color.r.micros as int == decode_micros(self.color.r.micros as int),
            r.color.g.micros as int == decode_micros(self.color.g.micros as int),
            r.color.b.micros as int == decode_micros(self.color.b.micros as int),
            r.alpha == self.alpha,
    {
        Alpha { color: self.color.std_decode(), alpha: self.alpha }
    }
}

impl<A> Alpha<RGBColor<Unit, Linear>, A> {
    /// The same color gamma-encoded by the square law; the alpha is kept as it is.
    pub fn std_encode(self) -> (r: Alpha<RGBColor<Unit, Srgb>, A>)
        ensures
            r.color.r.micros as int == encode_micros(self.color.r.micros as int),
            r.color.g.micros as int == encode_micros(self.color.g.micros as int),
            r.color.b.micros as int == encode_micros(self.color.b.micros as int),
            r.alpha == self.alpha,
    {
        Alpha { color: self.color.std_encode(), alpha: self.alpha }
    }
}

} // verus!
