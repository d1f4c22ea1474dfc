use vstd::prelude::*;

use crate::color::{base_rgb, hsv_to_rgb, hue_sector_ok, BaseColor, ColorHSV, ColorRGB};
use crate::round_trip::lemma_div_bounds;
use crate::sqrt::{floor_sqrt, isqrt, lemma_floor_sqrt_bounds, lemma_floor_sqrt_unique};

verus! {

/// Full weight of a shade: a weight is a fraction of `WEIGHT_SCALE`.
pub const WEIGHT_SCALE: i64 = 1_000_000_000;

/// The named colors in the order in which shades are reported.
pub open spec fn base_at(i: int) -> BaseColor {
    if i == 0 {
        BaseColor::Black
    } else if i == 1 {
        BaseColor::Grey
    } else if i == 2 {
        BaseColor::White
    } else if i == 3 {
        BaseColor::Red
    } else if i == 4 {
        BaseColor::Yellow
    } else if i == 5 {
        BaseColor::Green
    } else if i == 6 {
        BaseColor::Cyan
    } else if i == 7 {
        BaseColor::Blue
    } else {
        BaseColor::Magenta
    }
}

/// Position of a named color in the order of `base_at`.
pub open spec fn base_index(k: BaseColor) -> int {
    match k {
        BaseColor::Black => 0,
        BaseColor::Grey => 1,
        BaseColor::White => 2,
        BaseColor::Red => 3,
        BaseColor::Yellow => 4,
        BaseColor::Green => 5,
        BaseColor::Cyan => 6,
        BaseColor::Blue => 7,
        BaseColor::Magenta => 8,
    }
}

pub open spec fn sq(x: int) -> int {
    x * x
}

/// Squared Euclidean distance of two colors in RGB space.
pub open spec fn dist2(a: ColorRGB, b: ColorRGB) -> int {
    sq(a.r as int - b.r as int) + sq(a.g as int - b.g as int) + sq(a.b as int - b.b as int)
}

/// Euclidean distance from `c` to the `i`-th named color, in ten-thousandths, rounded down.
pub open spec fn shade_dist(c: ColorRGB, i: int) -> int {
    floor_sqrt((100_000_000 * dist2(c, base_rgb(base_at(i)))) as nat) as int
}

/// The distances from `c` to all named colors.
pub open spec fn shade_dists(c: ColorRGB) -> Seq<int> {
    Seq::new(9, |i: int| shade_dist(c, i))
}

pub open spec fn seq_min(s: Seq<int>) -> int
    decreases s.len(),
{
    if s.len() <= 1 {
        s[0]
    } else {
        let m = seq_min(s.drop_last());
        if s.last() < m {
            s.last()
        } else {
            m
        }
    }
}

pub open spec fn seq_max(s: Seq<int>) -> int
    decreases s.len(),
{
    if s.len() <= 1 {
        s[0]
    } else {
        let m = seq_max(s.drop_last());
        if s.last() > m {
            s.last()
        } else {
            m
        }
    }
}

/// `a / b` truncated toward zero, for `b > 0`.
pub open spec fn div_trunc(a: int, b: int) -> int {
    if a >= 0 {
        a / b
    } else {
        -((-a) / b)
    }
}

/// Weight of a shade at distance `d`, as a fraction of `WEIGHT_SCALE`, when the distances
/// range over `mn..=mx`: `(mx - d - 2 * mn) / (mx - mn)`, truncated toward zero. When all
/// distances are equal every weight is zero.
pub open spec fn weight(d: int, mn: int, mx: int) -> int {
    if mx == mn {
        0
    } else {
        div_trunc(WEIGHT_SCALE as int * (mx - d - 2 * mn), mx - mn)
    }
}

/// Weight of the `i`-th named color in `c`.
pub open spec fn shade_weight(c: ColorRGB, i: int) -> int {
    weight(shade_dist(c, i), seq_min(shade_dists(c)), seq_max(shade_dists(c)))
}

proof fn lemma_seq_min_max(s: Seq<int>)
    requires
        s.len() >= 1,
    ensures
        forall|i: int| 0 <= i < s.len() ==> seq_min(s) <= #[trigger] s[i] <= seq_max(s),
        exists|i: int| 0 <= i < s.len() && seq_min(s) == s[i],
        exists|i: int| 0 <= i < s.len() && seq_max(s) == s[i],
    decreases s.len(),
{
    if s.len() > 1 {
        let t = s.drop_last();
        lemma_seq_min_max(t);
        assert forall|i: int| 0 <= i < s.len() implies seq_min(s) <= #[trigger] s[i] <= seq_max(s) by {
            if i < s.len() - 1 {
                assert(s[i] == t[i]);
            }
        }
        let j = choose|j: int| 0 <= j < t.len() && seq_min(t) == t[j];
        if s.last() < seq_min(t) {
            assert(seq_min(s) == s[s.len() - 1]);
        } else {
            assert(seq_min(s) == s[j]);
        }
        let j2 = choose|j: int| 0 <= j < t.len() && seq_max(t) == t[j];
        if s.last() > seq_max(t) {
            assert(seq_max(s) == s[s.len() - 1]);
        } else {
            assert(seq_max(s) == s[j2]);
        }
    } else {
        assert(seq_min(s) == s[0]);
        assert(seq_max(s) == s[0]);
    }
}

/// The shades of a named color give that color the full weight, and every named color a
/// weight between zero and full.
pub proof fn lemma_shades_of_base(k: BaseColor)
    ensures
        shade_weight(base_rgb(k), base_index(k)) == WEIGHT_SCALE,
        forall|i: int|
            0 <= i < 9 ==> 0 <= #[trigger] shade_weight(base_rgb(k), i) <= WEIGHT_SCALE,
{
    let c = base_rgb(k);
    let all = shade_dists(c);
    let ki = base_index(k);
    assert(base_at(ki) == k);
    assert(dist2(c, c) == 0);
    assert(0 * 0 <= 0nat < (0 + 1) * (0 + 1)) by (nonlinear_arith);
    lemma_floor_sqrt_unique(0, 0);
    assert(all[ki] == 0);
    lemma_seq_min_max(all);
    let mn = seq_min(all);
    let mx = seq_max(all);
    assert(mn == 0);
    let other: int = if k == BaseColor::Black {
        2
    } else {
        0
    };
    let n = (100_000_000 * dist2(c, base_rgb(base_at(other)))) as nat;
    assert(sq(255) == 65025 && sq(-255) == 65025 && sq(128) == 16384 && sq(-128) == 16384
        && sq(0) == 0) by (nonlinear_arith);
    assert(dist2(c, base_rgb(base_at(other))) >= 1) by {
        match k {
            BaseColor::Black => assert(dist2(c, base_rgb(base_at(other))) == 3 * 255 * 255),
            BaseColor::Grey => assert(dist2(c, base_rgb(base_at(other))) == 3 * 128 * 128),
            BaseColor::White => assert(dist2(c, base_rgb(base_at(other))) == 3 * 255 * 255),
            BaseColor::Red => assert(dist2(c, base_rgb(base_at(other))) == 255 * 255),
            BaseColor::Yellow => assert(dist2(c, base_rgb(base_at(other))) == 2 * 255 * 255),
            BaseColor::Green => assert(dist2(c, base_rgb(base_at(other))) == 255 * 255),
            BaseColor::Cyan => assert(dist2(c, base_rgb(base_at(other))) == 2 * 255 * 255),
            BaseColor::Blue => assert(dist2(c, base_rgb(base_at(other))) == 255 * 255),
            BaseColor::Magenta => assert(dist2(c, base_rgb(base_at(other))) == 2 * 255 * 255),
        }
    }
    assert(n >= 100_000_000);
    lemma_floor_sqrt_bounds(n);
    assert(all[other] == floor_sqrt(n) as int);
    assert(floor_sqrt(n) > 0) by (nonlinear_arith)
        requires
            n < (floor_sqrt(n) + 1) * (floor_sqrt(n) + 1),
            n >= 100_000_000,
    ;
    assert(mx > 0);
    let ws = WEIGHT_SCALE as int;
    assert(div_trunc(ws * mx, mx) == ws) by (nonlinear_arith)
        requires
            mx > 0,
            ws > 0,
    ;
    assert forall|i: int| 0 <= i < 9 implies 0 <= #[trigger] shade_weight(c, i) <= ws by {
        let d = all[i];
        assert(0 <= d <= mx);
        assert(0 <= ws * (mx - d) / mx <= ws) by (nonlinear_arith)
            requires
                0 <= d <= mx,
                mx > 0,
                ws > 0,
        ;
    }
}

proof fn lemma_sq_bound(x: int)
    requires
        -255 <= x <= 255,
    ensures
        0 <= sq(x) <= 65025,
{
    assert(0 <= x * x <= 65025) by (nonlinear_arith)
        requires
            -255 <= x <= 255,
    ;
}

proof fn lemma_dist2_bound(a: ColorRGB, b: ColorRGB)
    ensures
        0 <= dist2(a, b) <= 195075,
{
    lemma_sq_bound(a.r as int - b.r as int);
    lemma_sq_bound(a.g as int - b.g as int);
    lemma_sq_bound(a.b as int - b.b as int);
}

/// Distinct squared distances stay distinct, in the same order, in ten-thousandths.
proof fn lemma_dist_strict(a: int, b: int)
    requires
        0 <= a < b <= 195075,
    ensures
        floor_sqrt((100_000_000 * a) as nat) < floor_sqrt((100_000_000 * b) as nat),
{
    let na = (100_000_000 * a) as nat;
    let nb = (100_000_000 * b) as nat;
    lemma_floor_sqrt_bounds(na);
    lemma_floor_sqrt_bounds(nb);
    let r = floor_sqrt(na) as int;
    let q = floor_sqrt(nb) as int;
    assert(r <= 4_500_000) by (nonlinear_arith)
        requires
            r * r <= na,
            na <= 100_000_000 * 195075,
            r >= 0,
    ;
    assert((r + 1) * (r + 1) <= nb) by (nonlinear_arith)
        requires
            r * r <= na,
            0 <= r <= 4_500_000,
            na == 100_000_000 * a,
            nb == 100_000_000 * b,
            a + 1 <= b,
    ;
    assert(r < q) by (nonlinear_arith)
        requires
            (r + 1) * (r + 1) <= nb,
            nb < (q + 1) * (q + 1),
            0 <= r,
            0 <= q,
    ;
}

proof fn lemma_div_trunc_bounds(n: int, d: int)
    requires
        d > 0,
    ensures
        n - d < d * div_trunc(n, d) < n + d,
{
    if n >= 0 {
        let q = n / d;
        lemma_div_bounds(n, d);
        assert(div_trunc(n, d) == q);
        assert(n - d < d * q < n + d) by (nonlinear_arith)
            requires
                d * q <= n < d * (q + 1),
                d > 0,
        ;
    } else {
        let m = -n;
        let q = m / d;
        lemma_div_bounds(m, d);
        assert(div_trunc(n, d) == -q);
        assert(n - d < d * (-q) < n + d) by (nonlinear_arith)
            requires
                d * q <= m < d * (q + 1),
                m == -n,
        ;
    }
}

/// A nearer named color gets a strictly larger weight, and named colors at equal distance get
/// equal weights.
pub proof fn lemma_shades_keep_order(c: ColorRGB, i: int, j: int)
    requires
        0 <= i < 9,
        0 <= j < 9,
    ensures
        dist2(c, base_rgb(base_at(i))) < dist2(c, base_rgb(base_at(j))) ==> shade_weight(c, i)
            > shade_weight(c, j),
        dist2(c, base_rgb(base_at(i))) == dist2(c, base_rgb(base_at(j))) ==> shade_weight(c, i)
            == shade_weight(c, j),
{
    let a = dist2(c, base_rgb(base_at(i)));
    let b = dist2(c, base_rgb(base_at(j)));
    if a < b {
        lemma_dist2_bound(c, base_rgb(base_at(i)));
        lemma_dist2_bound(c, base_rgb(base_at(j)));
        lemma_dist_strict(a, b);
        let all = shade_dists(c);
        lemma_seq_min_max(all);
        let mn = seq_min(all);
        let mx = seq_max(all);
        let k = choose|k: int| 0 <= k < all.len() && seq_max(all) == all[k];
        lemma_dist2_bound(c, base_rgb(base_at(k)));
        let nk = (100_000_000 * dist2(c, base_rgb(base_at(k)))) as nat;
        lemma_floor_sqrt_bounds(nk);
        let fk = floor_sqrt(nk) as int;
        assert(fk <= 4_500_000) by (nonlinear_arith)
            requires
                fk * fk <= nk,
                nk <= 100_000_000 * 195075,
                fk >= 0,
        ;
        assert(all[i] < all[j]);
        let di = all[i];
        let dj = all[j];
        assert(mn <= di < dj <= mx <= 4_500_000);
        assert(0 <= mn);
        let den = mx - mn;
        let ws = WEIGHT_SCALE as int;
        let ni = ws * (mx - di - 2 * mn);
        let nj = ws * (mx - dj - 2 * mn);
        assert(ni >= nj + 2 * den) by (nonlinear_arith)
            requires
                ni == ws * (mx - di - 2 * mn),
                nj == ws * (mx - dj - 2 * mn),
                di + 1 <= dj,
                0 < den <= 4_500_000,
                ws == 1_000_000_000,
        ;
        lemma_div_trunc_bounds(ni, den);
        lemma_div_trunc_bounds(nj, den);
        assert(div_trunc(ni, den) > div_trunc(nj, den)) by (nonlinear_arith)
            requires
                ni - den < den * div_trunc(ni, den),
                den * div_trunc(nj, den) < nj + den,
                ni >= nj + 2 * den,
                den > 0,
        ;
    }
}

fn base_at_exec(i: usize) -> (k: BaseColor)
    ensures
        k == base_at(i as int),
{
    if i == 0 {
        BaseColor::Black
    } else if i == 1 {
        BaseColor::Grey
    } else if i == 2 {
        BaseColor::White
    } else if i == 3 {
        BaseColor::Red
    } else if i == 4 {
        BaseColor::Yellow
    } else if i == 5 {
        BaseColor::Green
    } else if i == 6 {
        BaseColor::Cyan
    } else if i == 7 {
        BaseColor::Blue
    } else {
        BaseColor::Magenta
    }
}

fn diff_sq(a: u8, b: u8) -> (r: u64)
    ensures
        r == sq(a as int - b as int),
        r <= 65025,
{
    let d: u64 = if a >= b {
        (a - b) as u64
    } else {
        (b - a) as u64
    };
    assert(d * d <= 255 * 255) by (nonlinear_arith)
        requires
            d <= 255,
    ;
    assert(d * d == sq(a as int - b as int)) by (nonlinear_arith)
        requires
            d == a - b || d == b - a,
    ;
    d * d
}

fn dist_exec(c: &ColorRGB, i: usize) -> (d: u64)
    ensures
        d == shade_dist(*c, i as int),
        d <= 4_500_000,
{
    let k = base_at_exec(i).rgb();
    let d2: u64 = diff_sq(c.r, k.r) + diff_sq(c.g, k.g) + diff_sq(c.b, k.b);
    isqrt(100_000_000 * d2)
}

fn weight_exec(d: u64, mn: u64, mx: u64) -> (w: i64)
    requires
        mn <= d <= mx <= 4_500_000,
    ensures
        w == weight(d as int, mn as int, mx as int),
{
    if mx == mn {
        0
    } else {
        let den: i64 = (mx - mn) as i64;
        let diff: i64 = mx as i64 - d as i64 - 2 * mn as i64;
        assert(-10_000_000_000_000_000 <= WEIGHT_SCALE * diff <= 10_000_000_000_000_000)
            by (nonlinear_arith)
            requires
                -9_000_000 <= diff <= 4_500_000,
        ;
        let num: i64 = WEIGHT_SCALE * diff;
        if num >= 0 {
            ((num as u64) / (den as u64)) as i64
        } else {
            -(((-num) as u64 / den as u64) as i64)
        }
    }
}

impl ColorRGB {
    /// The weight of each named color in this color, as a fraction of `WEIGHT_SCALE`, in the
    /// order Black, Grey, White, Red, Yellow, Green, Cyan, Blue, Magenta.
    pub fn shades(&self) -> (r: Vec<(i64, BaseColor)>)
        ensures
            r@.len() == 9,
            forall|i: int|
                0 <= i < 9 ==> r@[i].0 as int == shade_weight(*self, i) && r@[i].1 == base_at(
                    i,
                ),
    {
        let mut ds: Vec<u64> = Vec::new();
        let mut i: usize = 0;
        while i < 9
            invariant
                i <= 9,
                ds@.len() == i,
                forall|j: int| 0 <= j < i ==> ds@[j] as int == shade_dist(*self, j),
                forall|j: int| 0 <= j < i ==> ds@[j] <= 4_500_000,
            decreases 9 - i,
        {
            let d = dist_exec(self, i);
            ds.push(d);
            i = i + 1;
        }
        let ghost all = shade_dists(*self);
        assert(all.len() == 9);
        assert(forall|j: int| 0 <= j < 9 ==> all[j] == ds@[j] as int);
        let mut mn: u64 = ds[0];
        let mut mx: u64 = ds[0];
        let mut i: usize = 1;
        while i < 9
            invariant
                1 <= i <= 9,
                ds@.len() == 9,
                all == shade_dists(*self),
                all.len() == 9,
                forall|j: int| 0 <= j < 9 ==> all[j] == ds@[j] as int,
                forall|j: int| 0 <= j < 9 ==> ds@[j] <= 4_500_000,
                mn as int == seq_min(all.take(i as int)),
                mx as int == seq_max(all.take(i as int)),
                mx <= 4_500_000,
            decreases 9 - i,
        {
            assert(all.take(i as int + 1).drop_last() =~= all.take(i as int));
            if ds[i] < mn {
                mn = ds[i];
            }
            if ds[i] > mx {
                mx = ds[i];
            }
            i = i + 1;
        }
        assert(all.take(9) =~= all);
        proof {
            lemma_seq_min_max(all);
        }
        let mut out: Vec<(i64, BaseColor)> = Vec::new();
        let mut i: usize = 0;
        while i < 9
            invariant
                i <= 9,
                ds@.len() == 9,
                all == shade_dists(*self),
                all.len() == 9,
                forall|j: int| 0 <= j < 9 ==> all[j] == ds@[j] as int,
                mn as int == seq_min(all),
                mx as int == seq_max(all),
                mx <= 4_500_000,
                forall|j: int| 0 <= j < 9 ==> seq_min(all) <= #[trigger] all[j] <= seq_max(all),
                forall|j: int| 0 <= j < 9 ==> ds@[j] <= 4_500_000,
                out@.len() == i,
                forall|j: int|
                    0 <= j < i ==> out@[j].0 as int == shade_weight(*self, j) && out@[j].1
                        == base_at(j),
            decreases 9 - i,
        {
            assert(all[i as int] == ds@[i as int] as int);
            let w = weight_exec(ds[i], mn, mx);
            out.push((w, base_at_exec(i)));
            i = i + 1;
        }
        out
    }
}

impl ColorHSV {
    /// The weight of each named color in this color's RGB representation.
    pub fn shades(&self) -> (r: Vec<(i64, BaseColor)>)
        requires
            hue_sector_ok(*self),
        ensures
            r@.len() == 9,
            forall|i: int|
                0 <= i < 9 ==> r@[i].0 as int == shade_weight(hsv_to_rgb(*self), i) && r@[i].1
                    == base_at(i),
    {
        self.rgb().shades()
    }
}

impl BaseColor {
    /// The weight of each named color in this named color.
    pub fn shades(&self) -> (r: Vec<(i64, BaseColor)>)
        ensures
            r@.len() == 9,
            forall|i: int|
                0 <= i < 9 ==> r@[i].0 as int == shade_weight(base_rgb(*self), i) && r@[i].1
                    == base_at(i),
    {
        self.rgb().shades()
    }
}

} // verus!
