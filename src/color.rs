use vstd::prelude::*;

use vstd::arithmetic::div_mod::{lemma_mod_multiples_vanish, lemma_small_mod};

verus! {

/// Hue is held in hundredths of a degree; a full turn is `HUE_TURN`.
pub const HUE_TURN: u32 = 36000;

/// Width of one sixty-degree hue sector, in hundredths of a degree.
pub const HUE_SECTOR: u32 = 6000;

/// Saturation and value are fractions of `UNIT_MAX`.
pub const UNIT_MAX: u32 = 65535;

/// The basic colors of the rainbow.
#[derive(Debug, Clone, Copy, PartialEq, Eq, Structural, PartialOrd, Ord)]
pub enum BaseColor {
    Black,
    Grey,
    White,
    Red,
    Yellow,
    Green,
    Cyan,
    Blue,
    Magenta,
}

/// A 24-bit color with red, green and blue channels.
#[derive(Debug, Clone, Copy, PartialEq, Eq, Structural, PartialOrd, Ord)]
pub struct ColorRGB {
    pub r: u8,
    pub g: u8,
    pub b: u8,
}

/// A color as hue, saturation and value.
///
/// `h` is in hundredths of a degree and lies in `0..HUE_TURN` for every value built by
/// [`ColorHSV::new`]; `s` and `v` are fractions of `UNIT_MAX`.
#[derive(Debug, Clone, Copy, PartialEq, Eq, Structural, PartialOrd, Ord)]
pub struct ColorHSV {
    pub h: u32,
    pub s: u32,
    pub v: u32,
}

/// What every color offers: a validity check and a normalization into valid values.
pub trait Color: Sized {
    /// Every channel of the color holds a valid value.
    spec fn spec_is_normal(&self) -> bool;

    /// The color with each channel brought into its valid range.
    spec fn spec_normalize(&self) -> Self;

    fn normalize(self) -> (r: Self)
        ensures
            r == self.spec_normalize(),
            r.spec_is_normal(),
            self.spec_is_normal() ==> r == self,
    ;

    fn is_normal(&self) -> (r: bool)
        ensures
            r == self.spec_is_normal(),
    ;
}

pub open spec fn clamp_unit(x: u32) -> u32 {
    if x > UNIT_MAX {
        UNIT_MAX
    } else {
        x
    }
}

/// The default RGB color is black.
impl Default for ColorRGB {
    fn default() -> (c: ColorRGB)
        ensures
            c == (ColorRGB { r: 0, g: 0, b: 0 }),
    {
        ColorRGB { r: 0, g: 0, b: 0 }
    }
}

impl Color for ColorRGB {
    open spec fn spec_is_normal(&self) -> bool {
        true
    }

    open spec fn spec_normalize(&self) -> ColorRGB {
        *self
    }

    fn normalize(self) -> (r: ColorRGB) {
        self
    }

    fn is_normal(&self) -> (r: bool) {
        true
    }
}

impl Color for BaseColor {
    open spec fn spec_is_normal(&self) -> bool {
        true
    }

    open spec fn spec_normalize(&self) -> BaseColor {
        *self
    }

    fn normalize(self) -> (r: BaseColor) {
        self
    }

    fn is_normal(&self) -> (r: bool) {
        true
    }
}

/// An HSV color is normal when its hue lies in one turn and its saturation and value do not
/// exceed full intensity; normalizing folds the hue and saturates the other two.
impl Color for ColorHSV {
    open spec fn spec_is_normal(&self) -> bool {
        self.h < HUE_TURN && self.s <= UNIT_MAX && self.v <= UNIT_MAX
    }

    open spec fn spec_normalize(&self) -> ColorHSV {
        ColorHSV {
            h: (self.h as int % HUE_TURN as int) as u32,
            s: clamp_unit(self.s),
            v: clamp_unit(self.v),
        }
    }

    fn normalize(self) -> (r: ColorHSV) {
        ColorHSV {
            h: self.h % HUE_TURN,
            s: if self.s > UNIT_MAX {
                UNIT_MAX
            } else {
                self.s
            },
            v: if self.v > UNIT_MAX {
                UNIT_MAX
            } else {
                self.v
            },
        }
    }

    fn is_normal(&self) -> (r: bool) {
        self.h < HUE_TURN && self.s <= UNIT_MAX && self.v <= UNIT_MAX
    }
}

pub open spec fn max3(a: int, b: int, c: int) -> int {
    if a >= b && a >= c {
        a
    } else if b >= c {
        b
    } else {
        c
    }
}

pub open spec fn min3(a: int, b: int, c: int) -> int {
    if a <= b && a <= c {
        a
    } else if b <= c {
        b
    } else {
        c
    }
}

/// `h` folded into one turn.
pub open spec fn fold_hue(h: int) -> int {
    h % (HUE_TURN as int)
}

/// `base + HUE_SECTOR * (p - q) / chroma`, the fraction truncated toward zero.
pub open spec fn hue_offset(base: int, p: int, q: int, chroma: int) -> int {
    if p >= q {
        base + (HUE_SECTOR as int) * (p - q) / chroma
    } else {
        base - (HUE_SECTOR as int) * (q - p) / chroma
    }
}

/// Hue of an RGB triple: zero when achromatic, otherwise picked by the maximal channel
/// (red first, then green, then blue) and folded into one turn.
pub open spec fn hue_of(r: int, g: int, b: int) -> int {
    let mx = max3(r, g, b);
    let chroma = mx - min3(r, g, b);
    if chroma == 0 {
        0
    } else if mx == r {
        fold_hue(hue_offset(0, g, b, chroma))
    } else if mx == g {
        fold_hue(hue_offset(2 * HUE_SECTOR as int, b, r, chroma))
    } else {
        fold_hue(hue_offset(4 * HUE_SECTOR as int, r, g, chroma))
    }
}

/// Saturation of an RGB triple: chroma over value, zero when the value is zero.
pub open spec fn saturation_of(r: int, g: int, b: int) -> int {
    let mx = max3(r, g, b);
    if mx == 0 {
        0
    } else {
        (UNIT_MAX as int) * (mx - min3(r, g, b)) / mx
    }
}

/// Value of an RGB triple: its largest channel, as a fraction of `UNIT_MAX`.
pub open spec fn value_of(r: int, g: int, b: int) -> int {
    257 * max3(r, g, b)
}

pub open spec fn rgb_to_hsv(c: ColorRGB) -> ColorHSV {
    ColorHSV {
        h: hue_of(c.r as int, c.g as int, c.b as int) as u32,
        s: saturation_of(c.r as int, c.g as int, c.b as int) as u32,
        v: value_of(c.r as int, c.g as int, c.b as int) as u32,
    }
}

/// An integer saturated into the byte range.
pub open spec fn to_byte(x: int) -> u8 {
    if x < 0 {
        0
    } else if x > 255 {
        255
    } else {
        x as u8
    }
}

/// Denominator of `channel_of`'s fraction.
pub open spec fn channel_den() -> int {
    (UNIT_MAX as int) * (UNIT_MAX as int) * (HUE_SECTOR as int)
}

/// One byte channel of an HSV color: `value * (1 - saturation * t / HUE_SECTOR)`, scaled to
/// 255, truncated and saturated. `t` runs from 0 (the largest channel) to `HUE_SECTOR` (the
/// smallest).
pub open spec fn channel_of(s: int, v: int, t: int) -> u8 {
    to_byte(255 * v * ((UNIT_MAX as int) * (HUE_SECTOR as int) - s * t) / channel_den())
}

/// The byte triple of an HSV color, by sixty-degree sector of its hue. In even sectors the
/// third channel rises with the hue, in odd ones it falls; the last sector, at a full turn,
/// continues the first.
pub open spec fn hsv_to_rgb(c: ColorHSV) -> ColorRGB {
    let n = HUE_SECTOR as int;
    let sector = c.h as int / n;
    let f = c.h as int % n;
    let hi = channel_of(c.s as int, c.v as int, 0);
    let lo = channel_of(c.s as int, c.v as int, n);
    let rising = channel_of(c.s as int, c.v as int, n - f);
    let falling = channel_of(c.s as int, c.v as int, f);
    if sector == 0 {
        ColorRGB { r: hi, g: rising, b: lo }
    } else if sector == 1 {
        ColorRGB { r: falling, g: hi, b: lo }
    } else if sector == 2 {
        ColorRGB { r: lo, g: hi, b: rising }
    } else if sector == 3 {
        ColorRGB { r: lo, g: falling, b: hi }
    } else if sector == 4 {
        ColorRGB { r: rising, g: lo, b: hi }
    } else if sector == 5 {
        ColorRGB { r: hi, g: lo, b: falling }
    } else {
        ColorRGB { r: hi, g: lo, b: rising }
    }
}

/// A numerator over `channel_den()`, scaled to 255 and truncated into a byte.
pub open spec fn cone_byte(y: int) -> u8 {
    to_byte(255 * y / channel_den())
}

/// HSV to RGB in the terms of the cone model. With `h' = h / 60°`: chroma `c = s·v`,
/// `x = c·(1 − |h' mod 2 − 1|)` and `m = v − c`; the sector `floor(h')` places `c`, `x` and `0`
/// on the channels, `m` is added to each, and each is scaled to 255 and truncated. Every
/// quantity here is a numerator over `channel_den()`.
pub open spec fn cone_rgb(hsv: ColorHSV) -> ColorRGB {
    let n = HUE_SECTOR as int;
    let sd = UNIT_MAX as int;
    let sector = hsv.h as int / n;
    let f = hsv.h as int % n;
    let c = hsv.s as int * hsv.v as int * n;
    let m = hsv.v as int * sd * n - c;
    let h_mod_2 = (sector % 2) * n + f;
    let dist_to_1 = if h_mod_2 >= n {
        h_mod_2 - n
    } else {
        n - h_mod_2
    };
    let x = hsv.s as int * hsv.v as int * (n - dist_to_1);
    let (r, g, b) = if sector == 0 {
        (c, x, 0)
    } else if sector == 1 {
        (x, c, 0)
    } else if sector == 2 {
        (0, c, x)
    } else if sector == 3 {
        (0, x, c)
    } else if sector == 4 {
        (x, 0, c)
    } else {
        (c, 0, x)
    };
    ColorRGB { r: cone_byte(r + m), g: cone_byte(g + m), b: cone_byte(b + m) }
}

/// A channel placed at `y = c·(1 − t / HUE_SECTOR)`, plus `m`, is the channel that
/// `channel_of` gives for `t`.
proof fn lemma_cone_slot(s: int, v: int, t: int, y: int)
    requires
        y == s * v * ((HUE_SECTOR as int) - t),
    ensures
        cone_byte(y + (v * (UNIT_MAX as int) * (HUE_SECTOR as int) - s * v * (
        HUE_SECTOR as int))) == channel_of(s, v, t),
{
    let n = HUE_SECTOR as int;
    let sd = UNIT_MAX as int;
    assert(s * v * (n - t) == s * v * n - s * v * t) by (nonlinear_arith);
    assert(v * (sd * n - s * t) == v * sd * n - s * v * t) by (nonlinear_arith);
    assert(255 * v * (sd * n - s * t) == 255 * (v * (sd * n - s * t))) by (nonlinear_arith);
    assert(y + (v * sd * n - s * v * n) == v * (sd * n - s * t));
}

/// The sector-wise channel formula agrees with the cone model on every hue of a valid sector.
pub proof fn lemma_hsv_to_rgb_is_cone(hsv: ColorHSV)
    requires
        hue_sector_ok(hsv),
    ensures
        hsv_to_rgb(hsv) == cone_rgb(hsv),
{
    let n = HUE_SECTOR as int;
    let sd = UNIT_MAX as int;
    let s = hsv.s as int;
    let v = hsv.v as int;
    let f = hsv.h as int % n;
    let c = s * v * n;
    let m = v * sd * n - c;
    lemma_cone_slot(s, v, 0, c);
    lemma_cone_slot(s, v, n, 0);
    lemma_cone_slot(s, v, n - f, s * v * f);
    lemma_cone_slot(s, v, f, s * v * (n - f));
    assert(n - (n - f) == f);
    assert(0 <= f < n);
}

/// The hue of an HSV color falls in one of the sectors `0..=6`.
pub open spec fn hue_sector_ok(c: ColorHSV) -> bool {
    c.h / HUE_SECTOR <= 6
}

pub open spec fn base_rgb(c: BaseColor) -> ColorRGB {
    match c {
        BaseColor::Black => ColorRGB { r: 0, g: 0, b: 0 },
        BaseColor::Grey => ColorRGB { r: 128, g: 128, b: 128 },
        BaseColor::White => ColorRGB { r: 255, g: 255, b: 255 },
        BaseColor::Red => ColorRGB { r: 255, g: 0, b: 0 },
        BaseColor::Yellow => ColorRGB { r: 255, g: 255, b: 0 },
        BaseColor::Green => ColorRGB { r: 0, g: 255, b: 0 },
        BaseColor::Cyan => ColorRGB { r: 0, g: 255, b: 255 },
        BaseColor::Blue => ColorRGB { r: 0, g: 0, b: 255 },
        BaseColor::Magenta => ColorRGB { r: 255, g: 0, b: 255 },
    }
}

pub open spec fn base_hsv(c: BaseColor) -> ColorHSV {
    match c {
        BaseColor::Black => ColorHSV { h: 0, s: 0, v: 0 },
        BaseColor::Grey => ColorHSV { h: 0, s: 0, v: 32768 },
        BaseColor::White => ColorHSV { h: 0, s: 0, v: 65535 },
        BaseColor::Red => ColorHSV { h: 0, s: 65535, v: 65535 },
        BaseColor::Yellow => ColorHSV { h: 6000, s: 65535, v: 65535 },
        BaseColor::Green => ColorHSV { h: 12000, s: 65535, v: 65535 },
        BaseColor::Cyan => ColorHSV { h: 18000, s: 65535, v: 65535 },
        BaseColor::Blue => ColorHSV { h: 24000, s: 65535, v: 65535 },
        BaseColor::Magenta => ColorHSV { h: 30000, s: 65535, v: 65535 },
    }
}

proof fn lemma_channel_constants()
    ensures
        channel_of(0, 0, 0) == 0,
        channel_of(0, 32768, 0) == 127,
        channel_of(0, 65535, 0) == 255,
        channel_of(65535, 65535, 0) == 255,
        channel_of(65535, 65535, 6000) == 0,
{
    let k = (UNIT_MAX as int) * (HUE_SECTOR as int);
    assert(k == 393210000);
    assert(channel_den() == 25769017350000);
    assert(255 * 32768 * (k - 0 * 0) == 3285599846400000 && 255 * 65535 * (k - 0 * 0)
        == 6571099424250000 && 255 * 65535 * (k - 65535 * 0) == 6571099424250000 && 255 * 65535
        * (k - 65535 * 6000) == 0 && 255 * 0 * (k - 0 * 0) == 0) by (nonlinear_arith)
        requires
            k == 393210000,
    ;
    assert(3285599846400000int / 25769017350000 == 127);
    assert(6571099424250000int / 25769017350000 == 255);
}

/// The literal RGB and HSV values of each named color agree under the conversions: converting
/// the RGB value gives the literal hue and saturation and a value within one byte step, and
/// converting the HSV value gives each literal byte channel within one.
pub proof fn lemma_base_colors_agree(k: BaseColor)
    ensures
        rgb_to_hsv(base_rgb(k)).h == base_hsv(k).h,
        rgb_to_hsv(base_rgb(k)).s == base_hsv(k).s,
        -257 <= rgb_to_hsv(base_rgb(k)).v - base_hsv(k).v <= 257,
        hue_sector_ok(base_hsv(k)),
        -1 <= hsv_to_rgb(base_hsv(k)).r - base_rgb(k).r <= 1,
        -1 <= hsv_to_rgb(base_hsv(k)).g - base_rgb(k).g <= 1,
        -1 <= hsv_to_rgb(base_hsv(k)).b - base_rgb(k).b <= 1,
{
    lemma_channel_constants();
    let c = base_rgb(k);
    let (r, g, b) = (c.r as int, c.g as int, c.b as int);
    match k {
        BaseColor::Black => {},
        BaseColor::Grey => {},
        BaseColor::White => {},
        BaseColor::Red => {
            assert(hue_offset(0, g, b, 255) == 0);
        },
        BaseColor::Yellow => {
            assert(hue_offset(0, g, b, 255) == 6000);
        },
        BaseColor::Green => {
            assert(hue_offset(12000, b, r, 255) == 12000);
        },
        BaseColor::Cyan => {
            assert(hue_offset(12000, b, r, 255) == 18000);
        },
        BaseColor::Blue => {
            assert(hue_offset(24000, r, g, 255) == 24000);
        },
        BaseColor::Magenta => {
            assert(hue_offset(0, g, b, 255) == -6000);
            assert(fold_hue(-6000) == 30000);
        },
    }
}

/// The byte is an ASCII hexadecimal digit, in either case.
pub open spec fn is_hex_digit(c: u8) -> bool {
    (48 <= c <= 57) || (97 <= c <= 102) || (65 <= c <= 70)
}

/// Value of an ASCII hexadecimal digit.
pub open spec fn hex_digit_value(c: u8) -> int {
    if 48 <= c <= 57 {
        c - 48
    } else if 97 <= c <= 102 {
        c - 87
    } else {
        c - 55
    }
}

/// Value of the two-digit hexadecimal number at `i` in `s`.
pub open spec fn hex_pair(s: Seq<u8>, i: int) -> int {
    16 * hex_digit_value(s[i]) + hex_digit_value(s[i + 1])
}

fn hex_digit(c: u8) -> (d: u8)
    requires
        is_hex_digit(c),
    ensures
        d == hex_digit_value(c),
        d < 16,
{
    if 48 <= c && c <= 57 {
        c - 48
    } else if 97 <= c && c <= 102 {
        c - 87
    } else {
        c - 55
    }
}

fn max_u8(a: u8, b: u8, c: u8) -> (r: u8)
    ensures
        r == max3(a as int, b as int, c as int),
{
    if a >= b && a >= c {
        a
    } else if b >= c {
        b
    } else {
        c
    }
}

fn min_u8(a: u8, b: u8, c: u8) -> (r: u8)
    ensures
        r == min3(a as int, b as int, c as int),
{
    if a <= b && a <= c {
        a
    } else if b <= c {
        b
    } else {
        c
    }
}

/// `n * d / c` stays within `0..=n` when `d <= c`.
proof fn lemma_scaled_ratio(n: int, d: int, c: int)
    requires
        0 <= n,
        0 <= d <= c,
        0 < c,
    ensures
        0 <= n * d / c <= n,
        n * d <= n * c,
{
    assert(n * d <= n * c) by (nonlinear_arith)
        requires
            0 <= n,
            d <= c,
    ;
    assert(0 <= n * d) by (nonlinear_arith)
        requires
            0 <= n,
            0 <= d,
    ;
    assert(n * d / c <= n * c / c) by (nonlinear_arith)
        requires
            n * d <= n * c,
            0 < c,
    ;
    assert(n * c / c == n) by (nonlinear_arith)
        requires
            0 < c,
    ;
    assert(0 <= n * d / c) by (nonlinear_arith)
        requires
            0 <= n * d,
            0 < c,
    ;
}

fn hue_offset_exec(base: u32, p: u8, q: u8, chroma: u8) -> (r: u32)
    requires
        2 * HUE_SECTOR <= base <= 4 * HUE_SECTOR || base == HUE_TURN,
        0 < chroma,
        p <= chroma,
        q <= chroma,
    ensures
        r as int == fold_hue(hue_offset(base as int, p as int, q as int, chroma as int)),
        r < HUE_TURN,
{
    let n: u32 = HUE_SECTOR;
    let h: u32 = if p >= q {
        let d: u32 = (p - q) as u32;
        proof { lemma_scaled_ratio(n as int, d as int, chroma as int); }
        base + n * d / (chroma as u32)
    } else {
        let d: u32 = (q - p) as u32;
        proof { lemma_scaled_ratio(n as int, d as int, chroma as int); }
        base - n * d / (chroma as u32)
    };
    h % HUE_TURN
}

fn channel_exec(s: u32, v: u32, t: u32) -> (r: u8)
    requires
        t <= HUE_SECTOR,
    ensures
        r == channel_of(s as int, v as int, t as int),
{
    let pos: u128 = UNIT_MAX as u128 * HUE_SECTOR as u128;
    assert(s * t <= 0xffff_ffffu32 * HUE_SECTOR) by (nonlinear_arith)
        requires
            s <= 0xffff_ffffu32,
            t <= HUE_SECTOR,
    ;
    let st: u128 = s as u128 * t as u128;
    let den: u128 = UNIT_MAX as u128 * UNIT_MAX as u128 * HUE_SECTOR as u128;
    let ghost full = 255 * v * ((UNIT_MAX as int) * (HUE_SECTOR as int) - s * t);
    if st >= pos {
        assert(full <= 0) by (nonlinear_arith)
            requires
                full == 255 * v * ((UNIT_MAX as int) * (HUE_SECTOR as int) - s * t),
                s * t >= (UNIT_MAX as int) * (HUE_SECTOR as int),
                v >= 0,
        ;
        assert(full / channel_den() <= 0) by (nonlinear_arith)
            requires
                full <= 0,
                channel_den() > 0,
        ;
        0
    } else {
        let rest: u128 = pos - st;
        assert(255 * v * rest <= 255 * 0xffff_ffffu32 * pos) by (nonlinear_arith)
            requires
                v <= 0xffff_ffffu32,
                rest <= pos,
                0 <= rest,
        ;
        let num: u128 = 255 * v as u128 * rest;
        assert(num == full);
        let q: u128 = num / den;
        if q > 255 {
            255
        } else {
            q as u8
        }
    }
}

impl ColorRGB {
    /// Create a new RGB color.
    pub fn new(r: u8, g: u8, b: u8) -> (c: ColorRGB)
        ensures
            c == (ColorRGB { r, g, b }),
    {
        ColorRGB { r, g, b }
    }

    /// Create a color from the first six bytes of `hex`, read as three two-digit hexadecimal
    /// numbers for red, green and blue. Both letter cases are accepted.
    pub fn from_hex_unchecked(hex: &[u8]) -> (c: ColorRGB)
        requires
            hex@.len() >= 6,
            forall|i: int| 0 <= i < 6 ==> is_hex_digit(#[trigger] hex@[i]),
        ensures
            c.r == hex_pair(hex@, 0),
            c.g == hex_pair(hex@, 2),
            c.b == hex_pair(hex@, 4),
    {
        let r = 16 * hex_digit(hex[0]) + hex_digit(hex[1]);
        let g = 16 * hex_digit(hex[2]) + hex_digit(hex[3]);
        let b = 16 * hex_digit(hex[4]) + hex_digit(hex[5]);
        ColorRGB { r, g, b }
    }

    /// Create a color from exactly six hexadecimal digits; `None` when `hex` is anything else.
    pub fn from_hex(hex: &[u8]) -> (c: Option<ColorRGB>)
        ensures
            c.is_some() <==> (hex@.len() == 6 && forall|i: int|
                0 <= i < 6 ==> is_hex_digit(#[trigger] hex@[i])),
            c.is_some() ==> c.unwrap().r == hex_pair(hex@, 0) && c.unwrap().g == hex_pair(hex@, 2)
                && c.unwrap().b == hex_pair(hex@, 4),
    {
        if hex.len() != 6 {
            return None;
        }
        let mut i: usize = 0;
        while i < 6
            invariant
                hex@.len() == 6,
                i <= 6,
                forall|j: int| 0 <= j < i ==> is_hex_digit(#[trigger] hex@[j]),
            decreases 6 - i,
        {
            let c = hex[i];
            if !((48 <= c && c <= 57) || (97 <= c && c <= 102) || (65 <= c && c <= 70)) {
                return None;
            }
            i = i + 1;
        }
        Some(ColorRGB::from_hex_unchecked(hex))
    }

    pub fn to_tuple(&self) -> (t: (u8, u8, u8))
        ensures
            t == (self.r, self.g, self.b),
    {
        (self.r, self.g, self.b)
    }

    pub fn rgb(&self) -> (c: ColorRGB)
        ensures
            c == *self,
    {
        *self
    }

    /// Hue of the HSV representation.
    pub fn h(&self) -> (x: u32)
        ensures
            x == rgb_to_hsv(*self).h,
    {
        self.hsv().h
    }

    /// Saturation of the HSV representation.
    pub fn s(&self) -> (x: u32)
        ensures
            x == rgb_to_hsv(*self).s,
    {
        self.hsv().s
    }

    /// Value of the HSV representation.
    pub fn v(&self) -> (x: u32)
        ensures
            x == rgb_to_hsv(*self).v,
    {
        self.hsv().v
    }

    /// The HSV representation: value is the largest channel, saturation is chroma over
    /// value (zero for black), and hue is zero for an achromatic color.
    pub fn hsv(&self) -> (c: ColorHSV)
        ensures
            c == rgb_to_hsv(*self),
            c.h < HUE_TURN,
            c.s <= UNIT_MAX,
            c.v <= UNIT_MAX,
    {
        let (r, g, b) = (self.r, self.g, self.b);
        let mx = max_u8(r, g, b);
        let mn = min_u8(r, g, b);
        let chroma: u8 = mx - mn;
        let v: u32 = 257 * mx as u32;
        let s: u32 = if mx == 0 {
            0
        } else {
            proof { lemma_scaled_ratio(UNIT_MAX as int, chroma as int, mx as int); }
            UNIT_MAX * chroma as u32 / mx as u32
        };
        let h: u32 = if chroma == 0 {
            0
        } else if mx == r {
            hue_offset_exec(HUE_TURN, g - mn, b - mn, chroma)
        } else if mx == g {
            hue_offset_exec(2 * HUE_SECTOR, b - mn, r - mn, chroma)
        } else {
            hue_offset_exec(4 * HUE_SECTOR, r - mn, g - mn, chroma)
        };
        ColorHSV { h, s, v }
    }
}

impl ColorHSV {
    /// Create an HSV color; the hue, in hundredths of a degree, is folded into one turn.
    pub fn new(h: i32, s: u32, v: u32) -> (c: ColorHSV)
        ensures
            c.h as int == fold_hue(h as int),
            c.h < HUE_TURN,
            c.s == s,
            c.v == v,
    {
        let folded: u32 = if h >= 0 {
            (h as u32) % HUE_TURN
        } else {
            let m: u32 = ((-(h as i64)) as u64 % (HUE_TURN as u64)) as u32;
            proof {
                let t = HUE_TURN as int;
                let a = -(h as int);
                let k = a / t;
                assert(a == t * k + m && 0 <= m < t) by (nonlinear_arith)
                    requires
                        t > 0,
                        k == a / t,
                        m == a % t,
                ;
                if m == 0 {
                    assert(h as int == t * (-k) + 0) by (nonlinear_arith)
                        requires
                            a == t * k,
                            a == -(h as int),
                    ;
                    lemma_mod_multiples_vanish(-k, 0, t);
                } else {
                    assert(h as int == t * (-k - 1) + (t - m)) by (nonlinear_arith)
                        requires
                            a == t * k + m,
                            a == -(h as int),
                    ;
                    lemma_mod_multiples_vanish(-k - 1, t - m, t);
                    lemma_small_mod((t - m) as nat, t as nat);
                }
            }
            if m == 0 {
                0
            } else {
                HUE_TURN - m
            }
        };
        ColorHSV { h: folded, s, v }
    }

    pub fn to_tuple(&self) -> (t: (u32, u32, u32))
        ensures
            t == (self.h, self.s, self.v),
    {
        (self.h, self.s, self.v)
    }

    pub fn hsv(&self) -> (c: ColorHSV)
        ensures
            c == *self,
    {
        *self
    }

    /// Red channel of the RGB representation.
    pub fn r(&self) -> (x: u8)
        requires
            hue_sector_ok(*self),
        ensures
            x == hsv_to_rgb(*self).r,
    {
        self.rgb().r
    }

    /// Green channel of the RGB representation.
    pub fn g(&self) -> (x: u8)
        requires
            hue_sector_ok(*self),
        ensures
            x == hsv_to_rgb(*self).g,
    {
        self.rgb().g
    }

    /// Blue channel of the RGB representation.
    pub fn b(&self) -> (x: u8)
        requires
            hue_sector_ok(*self),
        ensures
            x == hsv_to_rgb(*self).b,
    {
        self.rgb().b
    }

    /// The RGB representation, chosen by the sixty-degree sector of the hue; each channel is
    /// truncated into the byte range. A hue beyond the last sector breaks the type's invariant
    /// and is not accepted.
    pub fn rgb(&self) -> (c: ColorRGB)
        requires
            hue_sector_ok(*self),
        ensures
            c == hsv_to_rgb(*self),
            c == cone_rgb(*self),
    {
        proof {
            lemma_hsv_to_rgb_is_cone(*self);
        }
        let n: u32 = HUE_SECTOR;
        let sector: u32 = self.h / n;
        let f: u32 = self.h % n;
        let hi = channel_exec(self.s, self.v, 0);
        let lo = channel_exec(self.s, self.v, n);
        let rising = channel_exec(self.s, self.v, n - f);
        let falling = channel_exec(self.s, self.v, f);
        if sector == 0 {
            ColorRGB { r: hi, g: rising, b: lo }
        } else if sector == 1 {
            ColorRGB { r: falling, g: hi, b: lo }
        } else if sector == 2 {
            ColorRGB { r: lo, g: hi, b: rising }
        } else if sector == 3 {
            ColorRGB { r: lo, g: falling, b: hi }
        } else if sector == 4 {
            ColorRGB { r: rising, g: lo, b: hi }
        } else if sector == 5 {
            ColorRGB { r: hi, g: lo, b: falling }
        } else {
            ColorRGB { r: hi, g: lo, b: rising }
        }
    }
}

impl BaseColor {
    /// The fixed RGB value of this named color.
    pub fn rgb(&self) -> (c: ColorRGB)
        ensures
            c == base_rgb(*self),
    {
        match self {
            BaseColor::Black => ColorRGB { r: 0, g: 0, b: 0 },
            BaseColor::Grey => ColorRGB { r: 128, g: 128, b: 128 },
            BaseColor::White => ColorRGB { r: 255, g: 255, b: 255 },
            BaseColor::Red => ColorRGB { r: 255, g: 0, b: 0 },
            BaseColor::Yellow => ColorRGB { r: 255, g: 255, b: 0 },
            BaseColor::Green => ColorRGB { r: 0, g: 255, b: 0 },
            BaseColor::Cyan => ColorRGB { r: 0, g: 255, b: 255 },
            BaseColor::Blue => ColorRGB { r: 0, g: 0, b: 255 },
            BaseColor::Magenta => ColorRGB { r: 255, g: 0, b: 255 },
        }
    }

    /// Red channel of the fixed RGB value.
    pub fn r(&self) -> (x: u8)
        ensures
            x == base_rgb(*self).r,
    {
        self.rgb().r
    }

    /// Green channel of the fixed RGB value.
    pub fn g(&self) -> (x: u8)
        ensures
            x == base_rgb(*self).g,
    {
        self.rgb().g
    }

    /// Blue channel of the fixed RGB value.
    pub fn b(&self) -> (x: u8)
        ensures
            x == base_rgb(*self).b,
    {
        self.rgb().b
    }

    /// Hue of the fixed HSV value.
    pub fn h(&self) -> (x: u32)
        ensures
            x == base_hsv(*self).h,
    {
        self.hsv().h
    }

    /// Saturation of the fixed HSV value.
    pub fn s(&self) -> (x: u32)
        ensures
            x == base_hsv(*self).s,
    {
        self.hsv().s
    }

    /// Value of the fixed HSV value.
    pub fn v(&self) -> (x: u32)
        ensures
            x == base_hsv(*self).v,
    {
        self.hsv().v
    }

    /// The fixed HSV value of this named color.
    pub fn hsv(&self) -> (c: ColorHSV)
        ensures
            c == base_hsv(*self),
    {
        match self {
            BaseColor::Black => ColorHSV { h: 0, s: 0, v: 0 },
            BaseColor::Grey => ColorHSV { h: 0, s: 0, v: 32768 },
            BaseColor::White => ColorHSV { h: 0, s: 0, v: 65535 },
            BaseColor::Red => ColorHSV { h: 0, s: 65535, v: 65535 },
            BaseColor::Yellow => ColorHSV { h: 6000, s: 65535, v: 65535 },
            BaseColor::Green => ColorHSV { h: 12000, s: 65535, v: 65535 },
            BaseColor::Cyan => ColorHSV { h: 18000, s: 65535, v: 65535 },
            BaseColor::Blue => ColorHSV { h: 24000, s: 65535, v: 65535 },
            BaseColor::Magenta => ColorHSV { h: 30000, s: 65535, v: 65535 },
        }
    }
}

} // verus!
