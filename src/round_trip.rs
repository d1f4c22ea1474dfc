use vstd::prelude::*;

use crate::color::{
    channel_den, channel_of, fold_hue, hsv_to_rgb, hue_offset, hue_sector_ok, max3,
    min3, rgb_to_hsv, saturation_of, to_byte, ColorRGB, HUE_SECTOR, HUE_TURN, UNIT_MAX,
};

verus! {

proof fn lemma_div_between(a: int, d: int, lo: int, hi: int)
    requires
        d > 0,
        d * lo <= a,
        a < d * (hi + 1),
    ensures
        lo <= a / d <= hi,
{
    let q = a / d;
    let r = a % d;
    assert(a == d * q + r && 0 <= r < d) by (nonlinear_arith)
        requires
            d > 0,
            q == a / d,
            r == a % d,
    ;
    assert(lo <= q) by (nonlinear_arith)
        requires
            d * lo <= d * q + r,
            r < d,
            d > 0,
    ;
    assert(q <= hi) by (nonlinear_arith)
        requires
            d * q + r < d * (hi + 1),
            0 <= r,
            d > 0,
    ;
}

pub(crate) proof fn lemma_div_bounds(a: int, d: int)
    requires
        d > 0,
    ensures
        d * (a / d) <= a < d * (a / d + 1),
{
    let q = a / d;
    let r = a % d;
    assert(a == d * q + r && 0 <= r < d) by (nonlinear_arith)
        requires
            d > 0,
            q == a / d,
            r == a % d,
    ;
    assert(d * q <= a < d * (q + 1)) by (nonlinear_arith)
        requires
            a == d * q + r,
            0 <= r < d,
    ;
}

/// With `K = UNIT_MAX * HUE_SECTOR`: a channel of value `257 * mx` lands in `lo..=hi` when
/// `mx * (K - s * t)` lies in `K * lo .. K * (hi + 1)`.
proof fn lemma_channel(mx: int, s: int, t: int, lo: int, hi: int)
    requires
        0 <= mx <= 255,
        -1 <= lo <= hi <= 255,
        0 <= hi,
        (UNIT_MAX as int) * (HUE_SECTOR as int) * lo <= mx * ((UNIT_MAX as int) * (
        HUE_SECTOR as int) - s * t),
        mx * ((UNIT_MAX as int) * (HUE_SECTOR as int) - s * t) < (UNIT_MAX as int) * (
        HUE_SECTOR as int) * (hi + 1),
    ensures
        lo <= channel_of(s, 257 * mx, t) <= hi,
{
    let k = (UNIT_MAX as int) * (HUE_SECTOR as int);
    let x = mx * (k - s * t);
    let sd = UNIT_MAX as int;
    assert(255 * (257 * mx) * (k - s * t) == sd * x) by (nonlinear_arith)
        requires
            x == mx * (k - s * t),
            sd == 65535,
    ;
    assert(channel_den() == sd * k);
    assert(sd * k * lo <= sd * x && sd * x < sd * k * (hi + 1)) by (nonlinear_arith)
        requires
            k * lo <= x,
            x < k * (hi + 1),
            sd > 0,
    ;
    lemma_div_between(sd * x, sd * k, lo, hi);
    assert(to_byte((sd * x) / (sd * k)) == channel_of(s, 257 * mx, t));
}

/// The saturation of a chromatic color, with chroma `c` and largest channel `mx`.
proof fn lemma_saturation(mx: int, c: int, s: int)
    requires
        0 < c <= mx <= 255,
        s == (UNIT_MAX as int) * c / mx,
    ensures
        s * mx <= (UNIT_MAX as int) * c < (s + 1) * mx,
        0 <= s <= UNIT_MAX,
{
    let sd = UNIT_MAX as int;
    lemma_div_bounds(sd * c, mx);
    assert(s * mx <= sd * c < (s + 1) * mx) by (nonlinear_arith)
        requires
            mx * s <= sd * c,
            sd * c < mx * (s + 1),
    ;
    assert(0 <= s <= sd) by (nonlinear_arith)
        requires
            s * mx <= sd * c,
            sd * c < (s + 1) * mx,
            0 < c <= mx,
            sd > 0,
    ;
}

/// The largest channel comes back exactly.
proof fn lemma_channel_hi(mx: int, s: int)
    requires
        0 <= mx <= 255,
    ensures
        channel_of(s, 257 * mx, 0) == mx,
{
    let k = (UNIT_MAX as int) * (HUE_SECTOR as int);
    assert(mx * (k - s * 0) == k * mx) by (nonlinear_arith);
    assert(k * mx < k * (mx + 1)) by (nonlinear_arith)
        requires
            k > 0,
    ;
    lemma_channel(mx, s, 0, mx, mx);
}

/// The smallest channel comes back exactly.
proof fn lemma_channel_lo(mx: int, c: int, s: int)
    requires
        0 < c <= mx <= 255,
        s * mx <= (UNIT_MAX as int) * c < (s + 1) * mx,
    ensures
        channel_of(s, 257 * mx, HUE_SECTOR as int) == mx - c,
{
    let n = HUE_SECTOR as int;
    let sd = UNIT_MAX as int;
    let k = sd * n;
    assert(k * (mx - c) <= mx * (k - s * n)) by (nonlinear_arith)
        requires
            s * mx <= sd * c,
            k == sd * n,
            n > 0,
    ;
    assert(mx * (k - s * n) < k * (mx - c + 1)) by (nonlinear_arith)
        requires
            sd * c < (s + 1) * mx,
            mx <= 255,
            k == sd * n,
            sd == 65535,
            n > 0,
    ;
    lemma_channel(mx, s, n, mx - c, mx - c);
}

/// The middle channel, `u` above the smallest, comes back at most one step below, when the
/// hue fraction is `q = HUE_SECTOR * u / c` rounded down.
proof fn lemma_channel_mid(mx: int, c: int, s: int, u: int, q: int)
    requires
        0 < c <= mx <= 255,
        0 <= u <= c,
        s * mx <= (UNIT_MAX as int) * c < (s + 1) * mx,
        q == (HUE_SECTOR as int) * u / c,
    ensures
        0 <= q <= HUE_SECTOR,
        mx - c + u - 1 <= channel_of(s, 257 * mx, HUE_SECTOR as int - q) <= mx - c + u,
{
    let n = HUE_SECTOR as int;
    let sd = UNIT_MAX as int;
    let k = sd * n;
    let w = c - u;
    let t = n - q;
    lemma_div_bounds(n * u, c);
    assert(0 <= q <= n) by (nonlinear_arith)
        requires
            c * q <= n * u,
            n * u < c * (q + 1),
            0 <= u <= c,
            n > 0,
    ;
    assert(t * c >= n * w && t * c < n * w + c) by (nonlinear_arith)
        requires
            c * q <= n * u,
            n * u < c * (q + 1),
            t == n - q,
            w == c - u,
    ;
    // upper bound on the drop below the largest channel
    assert(mx * s * t <= k * (w + 1)) by (nonlinear_arith)
        requires
            s * mx <= sd * c,
            t * c < n * w + c,
            0 <= t,
            c <= 255,
            k == sd * n,
            sd > 0,
            n == 6000,
    ;
    // lower bound on the drop
    assert(mx * s * t > k * w - k) by (nonlinear_arith)
        requires
            sd * c < (s + 1) * mx,
            t * c >= n * w,
            0 <= t <= n,
            mx <= 255,
            k == sd * n,
            sd == 65535,
            n == 6000,
    ;
    let target = mx - w;
    if target >= 1 {
        assert(k * (target - 1) <= mx * (k - s * t) && mx * (k - s * t) < k * (target + 1))
            by (nonlinear_arith)
            requires
                mx * s * t <= k * (w + 1),
                mx * s * t > k * w - k,
                target == mx - w,
        ;
        lemma_channel(mx, s, t, target - 1, target);
    } else {
        assert(k * (target - 1) <= mx * (k - s * t) && mx * (k - s * t) < k * (target + 1))
            by (nonlinear_arith)
            requires
                mx * s * t <= k * (w + 1),
                mx * s * t > k * w - k,
                target == mx - w,
        ;
        lemma_channel(mx, s, t, -1, 0);
    }
}

/// Converting a byte color to HSV and back gives every channel back, or one step below it:
/// the hue is stored rounded, so the middle channel may lose a fraction that truncation then
/// drops. The hue always falls in a valid sector.
pub proof fn lemma_rgb_hsv_round_trip(c: ColorRGB)
    ensures
        hue_sector_ok(rgb_to_hsv(c)),
        c.r - 1 <= hsv_to_rgb(rgb_to_hsv(c)).r <= c.r,
        c.g - 1 <= hsv_to_rgb(rgb_to_hsv(c)).g <= c.g,
        c.b - 1 <= hsv_to_rgb(rgb_to_hsv(c)).b <= c.b,
{
    let (r, g, b) = (c.r as int, c.g as int, c.b as int);
    let mx = max3(r, g, b);
    let mn = min3(r, g, b);
    let ch = mx - mn;
    let hsv = rgb_to_hsv(c);
    let n = HUE_SECTOR as int;
    assert(hsv.v == 257 * mx);
    if ch == 0 {
        assert(hsv.h == 0);
        assert(hsv.s == 0) by (nonlinear_arith)
            requires
                hsv.s == saturation_of(r, g, b),
                saturation_of(r, g, b) == if mx == 0 {
                    0
                } else {
                    (UNIT_MAX as int) * ch / mx
                },
                ch == 0,
        ;
        lemma_channel_hi(mx, 0);
        assert(0 * (n - 0) == 0 * 0 && 0 * n == 0 * 0);
        assert(r == mx && g == mx && b == mx);
    } else {
        let s = hsv.s as int;
        assert(s == (UNIT_MAX as int) * ch / mx);
        lemma_saturation(mx, ch, s);
        lemma_channel_hi(mx, s);
        lemma_channel_lo(mx, ch, s);
        if mx == r {
            if g >= b {
                let q = (HUE_SECTOR as int) * (g - b) / ch;
                lemma_channel_mid(mx, ch, s, g - b, q);
                assert(hue_offset(0, g, b, ch) == q);
                assert(fold_hue(q) == q);
                assert(hsv.h == q);
            } else {
                let q = (HUE_SECTOR as int) * (b - g) / ch;
                lemma_channel_mid(mx, ch, s, b - g, q);
                lemma_div_bounds(n * (b - g), ch);
                assert(q >= 1) by (nonlinear_arith)
                    requires
                        n * (b - g) < ch * (q + 1),
                        b - g >= 1,
                        0 < ch <= 255,
                        n == 6000,
                ;
                assert(hue_offset(0, g, b, ch) == -q);
                assert(fold_hue(-q) == HUE_TURN - q);
                assert(hsv.h == HUE_TURN - q);
                assert(hsv.h as int / n == 5 && hsv.h as int % n == n - q);
            }
        } else if mx == g {
            if b >= r {
                let q = (HUE_SECTOR as int) * (b - r) / ch;
                lemma_channel_mid(mx, ch, s, b - r, q);
                assert(hue_offset(2 * n, b, r, ch) == 2 * n + q);
                assert(fold_hue(2 * n + q) == 2 * n + q);
                assert(hsv.h == 2 * n + q);
            } else {
                let q = (HUE_SECTOR as int) * (r - b) / ch;
                lemma_channel_mid(mx, ch, s, r - b, q);
                lemma_div_bounds(n * (r - b), ch);
                assert(q >= 1) by (nonlinear_arith)
                    requires
                        n * (r - b) < ch * (q + 1),
                        r - b >= 1,
                        0 < ch <= 255,
                        n == 6000,
                ;
                assert(hue_offset(2 * n, b, r, ch) == 2 * n - q);
                assert(fold_hue(2 * n - q) == 2 * n - q);
                assert(hsv.h == 2 * n - q);
                assert(hsv.h as int / n == 1 && hsv.h as int % n == n - q);
            }
        } else {
            if r >= g {
                let q = (HUE_SECTOR as int) * (r - g) / ch;
                lemma_channel_mid(mx, ch, s, r - g, q);
                lemma_div_bounds(n * (r - g), ch);
                assert(q < n) by (nonlinear_arith)
                    requires
                        ch * q <= n * (r - g),
                        r - g < ch,
                        n > 0,
                        ch > 0,
                ;
                assert(hue_offset(4 * n, r, g, ch) == 4 * n + q);
                assert(fold_hue(4 * n + q) == 4 * n + q);
                assert(hsv.h == 4 * n + q);
                assert(hsv.h as int / n == 4 && hsv.h as int % n == q);
            } else {
                let q = (HUE_SECTOR as int) * (g - r) / ch;
                lemma_channel_mid(mx, ch, s, g - r, q);
                lemma_div_bounds(n * (g - r), ch);
                assert(1 <= q < n) by (nonlinear_arith)
                    requires
                        ch * q <= n * (g - r),
                        n * (g - r) < ch * (q + 1),
                        0 < g - r < ch,
                        ch <= 255,
                        n == 6000,
                ;
                assert(hue_offset(4 * n, r, g, ch) == 4 * n - q);
                assert(fold_hue(4 * n - q) == 4 * n - q);
                assert(hsv.h == 4 * n - q);
                assert(hsv.h as int / n == 3 && hsv.h as int % n == n - q);
            }
        }
    }
}

} // verus!
