use colors::shades::WEIGHT_SCALE;
use colors::{
    Alpha, BaseColor, Channel, Color, ColorHSV, ColorRGB, LinRGBColor, Linear, RGBColor,
    SRGBColor, Srgb, Unit, UNIT_SCALE,
};

const BASES: [BaseColor; 9] = [
    BaseColor::Black,
    BaseColor::Grey,
    BaseColor::White,
    BaseColor::Red,
    BaseColor::Yellow,
    BaseColor::Green,
    BaseColor::Cyan,
    BaseColor::Blue,
    BaseColor::Magenta,
];

fn within_one_below(back: u8, orig: u8) {
    assert!(back <= orig && orig - back <= 1, "{} vs {}", back, orig);
}

#[test]
fn red_to_hsv() {
    let hsv = ColorRGB::new(255, 0, 0).hsv();
    assert_eq!(hsv, ColorHSV { h: 0, s: 65535, v: 65535 });
}

#[test]
fn mixed_color_to_hsv() {
    assert_eq!(ColorRGB::new(100, 150, 200).hsv(), ColorHSV { h: 21000, s: 32767, v: 51400 });
    assert_eq!(ColorRGB::new(255, 128, 0).hsv(), ColorHSV { h: 3011, s: 65535, v: 65535 });
}

#[test]
fn achromatic_has_zero_hue_and_saturation() {
    let hsv = ColorRGB::new(77, 77, 77).hsv();
    assert_eq!(hsv.h, 0);
    assert_eq!(hsv.s, 0);
    assert_eq!(hsv.v, 77 * 257);
    let black = ColorRGB::new(0, 0, 0).hsv();
    assert_eq!(black, ColorHSV { h: 0, s: 0, v: 0 });
}

#[test]
fn hsv_to_rgb_truncates() {
    assert_eq!(ColorHSV::new(0, 0, 32768).rgb(), ColorRGB::new(127, 127, 127));
    assert_eq!(ColorHSV::new(3011, 65535, 65535).rgb(), ColorRGB::new(255, 127, 0));
    assert_eq!(ColorHSV::new(21000, 32767, 51400).rgb(), ColorRGB::new(100, 150, 200));
}

#[test]
fn hsv_sector_six_is_accepted() {
    let c = ColorHSV { h: 36000, s: 65535, v: 65535 };
    assert_eq!(c.rgb(), ColorRGB::new(255, 0, 0));
}

#[test]
fn round_trip_over_byte_lattice() {
    let mut r: u32 = 0;
    while r <= 255 {
        let mut g: u32 = 0;
        while g <= 255 {
            let mut b: u32 = 0;
            while b <= 255 {
                let c = ColorRGB::new(r as u8, g as u8, b as u8);
                let back = c.hsv().rgb();
                within_one_below(back.r, c.r);
                within_one_below(back.g, c.g);
                within_one_below(back.b, c.b);
                b += 3;
            }
            g += 3;
        }
        r += 3;
    }
}

#[test]
fn base_colors_agree() {
    for k in BASES.iter() {
        let rgb = k.rgb();
        let hsv = k.hsv();
        let from_rgb = rgb.hsv();
        assert_eq!(from_rgb.h, hsv.h);
        assert_eq!(from_rgb.s, hsv.s);
        assert!((from_rgb.v as i64 - hsv.v as i64).abs() <= 257);
        let back = hsv.rgb();
        assert!((back.r as i32 - rgb.r as i32).abs() <= 1);
        assert!((back.g as i32 - rgb.g as i32).abs() <= 1);
        assert!((back.b as i32 - rgb.b as i32).abs() <= 1);
    }
}

#[test]
fn base_color_tables() {
    assert_eq!(BaseColor::Grey.rgb().to_tuple(), (128, 128, 128));
    assert_eq!(BaseColor::Magenta.rgb().to_tuple(), (255, 0, 255));
    assert_eq!(BaseColor::Cyan.hsv().to_tuple(), (18000, 65535, 65535));
    assert_eq!(BaseColor::Grey.hsv().to_tuple(), (0, 0, 32768));
}

#[test]
fn hue_folds_negative() {
    assert_eq!(ColorHSV::new(-3000, 65535, 65535).h, 33000);
    assert_eq!(ColorHSV::new(-36000, 1, 2).h, 0);
    assert_eq!(ColorHSV::new(-72001, 1, 2).h, 35999);
}

#[test]
fn hue_folds_large() {
    assert_eq!(ColorHSV::new(36000, 1, 2).h, 0);
    assert_eq!(ColorHSV::new(40000, 1, 2).h, 4000);
    assert_eq!(ColorHSV::new(i32::MAX, 1, 2).h, (i32::MAX % 36000) as u32);
    assert_eq!(ColorHSV::new(i32::MIN, 1, 2).h, (i32::MIN as i64).rem_euclid(36000) as u32);
    for h in [-100000, -1, 0, 1, 35999, 100000] {
        assert!(ColorHSV::new(h, 0, 0).h < 36000);
    }
}

#[test]
fn hsv_keeps_saturation_and_value_unclamped() {
    let c = ColorHSV::new(100, 70000, 80000);
    assert_eq!((c.s, c.v), (70000, 80000));
    assert!(!c.is_normal());
    let n = c.normalize();
    assert_eq!(n, ColorHSV { h: 100, s: 65535, v: 65535 });
    assert!(n.is_normal());
}

#[test]
fn accessors() {
    let c = ColorRGB::new(100, 150, 200);
    assert_eq!((c.h(), c.s(), c.v()), (21000, 32767, 51400));
    let h = ColorHSV::new(21000, 32767, 51400);
    assert_eq!((h.r(), h.g(), h.b()), (100, 150, 200));
    assert_eq!(c.rgb(), c);
    assert_eq!(h.hsv(), h);
}

#[test]
fn hex_lower_and_upper() {
    assert_eq!(ColorRGB::from_hex_unchecked(b"ff8000"), ColorRGB::new(255, 128, 0));
    assert_eq!(ColorRGB::from_hex_unchecked(b"0A0b9C"), ColorRGB::new(10, 11, 156));
}

#[test]
fn unit_channel_clamps() {
    assert_eq!(Unit::new(-5).micros, 0);
    assert_eq!(Unit::new(2_000_000).micros, UNIT_SCALE);
    assert_eq!(Unit::new(123).micros, 123);
    assert!(!Unit { micros: -1 }.in_range());
    assert!(Unit { micros: 0 }.in_range());
    assert_eq!(Unit::ch_max().micros, UNIT_SCALE);
    assert_eq!(Unit { micros: 1_000_001 }.to_range().micros, UNIT_SCALE);
}

#[test]
fn byte_channel_is_total() {
    assert_eq!(<u8 as Channel>::ch_max(), 255);
    assert_eq!(17u8.to_range(), 17);
    assert!(0u8.in_range());
}

fn unit_rgb<S>(r: i32, g: i32, b: i32, space: S) -> RGBColor<Unit, S> {
    RGBColor::new(Unit { micros: r }, Unit { micros: g }, Unit { micros: b }, space)
}

#[test]
fn gamma_exact_values() {
    let enc: SRGBColor = unit_rgb(500_000, 0, 1_000_000, Srgb);
    let lin = enc.std_decode();
    assert_eq!((lin.r.micros, lin.g.micros, lin.b.micros), (250_000, 0, 1_000_000));
    let back = lin.std_encode();
    assert_eq!((back.r.micros, back.g.micros, back.b.micros), (500_000, 0, 1_000_000));
    let lin2: LinRGBColor = unit_rgb(500_000, 1, 999_999, Linear);
    let e = lin2.std_encode();
    assert_eq!((e.r.micros, e.g.micros, e.b.micros), (707_106, 1_000, 999_999));
}

#[test]
fn gamma_round_trips() {
    let mut m: i32 = 0;
    while m <= UNIT_SCALE {
        let enc: SRGBColor = unit_rgb(m, m, m, Srgb);
        let e = enc.std_decode().std_encode().r.micros;
        assert!(e <= m && m - e <= 1000, "{} -> {}", m, e);
        let lin: LinRGBColor = unit_rgb(m, m, m, Linear);
        let d = lin.std_encode().std_decode().r.micros;
        assert!(d <= m && m - d <= 2, "{} -> {}", m, d);
        m += 997;
    }
    for m in [0, UNIT_SCALE] {
        let enc: SRGBColor = unit_rgb(m, m, m, Srgb);
        assert_eq!(enc.std_decode().std_encode().r.micros, m);
    }
}

#[test]
fn generic_rgb_clamps_on_new() {
    let c: SRGBColor = unit_rgb(-3, 2_000_000, 5, Srgb);
    assert_eq!((c.r.micros, c.g.micros, c.b.micros), (0, UNIT_SCALE, 5));
    let raw: SRGBColor = RGBColor {
        r: Unit { micros: -3 },
        g: Unit { micros: 4 },
        b: Unit { micros: 5 },
        space: Srgb,
    };
    assert!(!raw.is_normal());
    assert_eq!(raw.normalize().r.micros, 0);
}

#[test]
fn alpha_flattens_in_order() {
    let c: RGBColor<u8, Srgb> = RGBColor::new(1, 2, 3, Srgb);
    let a = Alpha::new(c, 4u8);
    assert_eq!(a.tuple(), (1, 2, 3, 4));
    assert_eq!(a.array(), [1, 2, 3, 4]);
}

#[test]
fn alpha_opaque_is_max() {
    let c: RGBColor<u8, Srgb> = RGBColor::new(9, 8, 7, Srgb);
    let a: Alpha<RGBColor<u8, Srgb>, u8> = Alpha::opaque(c);
    assert_eq!(a.alpha, 255);
    assert_eq!(a.array(), [9, 8, 7, 255]);
    let u: Alpha<ColorRGB, Unit> = Alpha::opaque(ColorRGB::new(1, 1, 1));
    assert_eq!(u.alpha.micros, UNIT_SCALE);
}

#[test]
fn alpha_clamps_and_normalizes() {
    let a = Alpha::new(ColorRGB::new(1, 2, 3), Unit { micros: 5_000_000 });
    assert_eq!(a.alpha.micros, UNIT_SCALE);
    let raw = Alpha { color: ColorHSV { h: 40000, s: 1, v: 1 }, alpha: Unit { micros: -9 } };
    assert!(!raw.is_normal());
    let n = raw.normalize();
    assert!(n.is_normal());
    assert_eq!(n.color.h, 4000);
    assert_eq!(n.alpha.micros, 0);
}

#[test]
fn alpha_gamma_keeps_alpha() {
    let c: SRGBColor = unit_rgb(500_000, 500_000, 500_000, Srgb);
    let a = Alpha::new(c, 7u8);
    let lin = a.std_decode();
    assert_eq!(lin.alpha, 7);
    assert_eq!(lin.color.r.micros, 250_000);
    let back = lin.std_encode();
    assert_eq!(back.tuple().0.micros, 500_000);
    assert_eq!(back.alpha, 7);
}

#[test]
fn shades_of_black() {
    let s = BaseColor::Black.shades();
    let w: Vec<i64> = s.iter().map(|p| p.0).collect();
    assert_eq!(
        w,
        vec![1000000000, 498039159, 0, 422649657, 183503447, 422649657, 183503447, 422649657, 183503447]
    );
    let names: Vec<BaseColor> = s.iter().map(|p| p.1).collect();
    assert_eq!(names, BASES.to_vec());
}

#[test]
fn shades_of_each_base_color() {
    for (i, k) in BASES.iter().enumerate() {
        let s = k.rgb().shades();
        assert_eq!(s.len(), 9);
        assert_eq!(s[i].0, WEIGHT_SCALE);
        for p in s.iter() {
            assert!(0 <= p.0 && p.0 <= WEIGHT_SCALE);
        }
    }
}

#[test]
fn shades_of_mixed_colors() {
    let w: Vec<i64> = ColorRGB::new(255, 128, 0).shades().iter().map(|p| p.0).collect();
    assert_eq!(
        w,
        vec![
            -612733599, -202007768, -610984448, 2608472, 6519811, -610984448, -992176539,
            -993480188, -612733599
        ]
    );
    let w2: Vec<i64> = ColorHSV::new(21000, 32767, 51400).shades().iter().map(|p| p.0).collect();
    assert_eq!(
        w2,
        vec![
            -634884743, 248698246, -288202144, -751301753, -656838472, -530941368, -100912887,
            -257114396, -416670953
        ]
    );
}

#[test]
fn named_colors_are_normal() {
    assert!(BaseColor::Red.is_normal());
    assert_eq!(BaseColor::Red.normalize(), BaseColor::Red);
    assert!(ColorRGB::new(1, 2, 3).is_normal());
}

#[test]
fn hex_checked() {
    assert_eq!(ColorRGB::from_hex(b"00ff7F"), Some(ColorRGB::new(0, 255, 127)));
    assert_eq!(ColorRGB::from_hex(b"00ff7"), None);
    assert_eq!(ColorRGB::from_hex(b"00ff7f0"), None);
    assert_eq!(ColorRGB::from_hex(b"00fg7f"), None);
}

#[test]
fn nearer_shade_weighs_more() {
    // Yellow (distance 127) is nearer than Red (distance 128).
    let s = ColorRGB::new(255, 128, 0).shades();
    assert!(s[4].0 > s[3].0);
    // Equal distances give equal weights.
    assert_eq!(s[2].0, s[5].0);
}

#[test]
fn alpha_default_is_opaque() {
    let a: Alpha<ColorRGB, u8> = Alpha::default();
    assert_eq!(a.alpha, 255);
    let u: Alpha<ColorRGB, Unit> = Alpha::default();
    assert_eq!(u.alpha.micros, UNIT_SCALE);
}

#[test]
fn alpha_from_tuple_and_array() {
    let a: Alpha<RGBColor<Unit, Srgb>, u8> = Alpha::from_tuple(
        (Unit { micros: -4 }, Unit { micros: 5 }, Unit { micros: 7_000_000 }, 9u8),
        Srgb,
    );
    assert_eq!(a.color.r.micros, 0);
    assert_eq!(a.color.g.micros, 5);
    assert_eq!(a.color.b.micros, UNIT_SCALE);
    assert_eq!(a.alpha, 9);
    let b: Alpha<RGBColor<u8, Linear>, u8> = Alpha::from_array([1, 2, 3, 4], Linear);
    assert_eq!(b.array(), [1, 2, 3, 4]);
    assert_eq!(b.tuple(), (1, 2, 3, 4));
}

#[test]
fn base_color_accessors() {
    let k = BaseColor::Yellow;
    assert_eq!((k.r(), k.g(), k.b()), (255, 255, 0));
    assert_eq!((k.h(), k.s(), k.v()), (6000, 65535, 65535));
    assert_eq!(BaseColor::Grey.v(), 32768);
}

#[test]
fn rgb_default_is_black() {
    assert_eq!(ColorRGB::default(), ColorRGB::new(0, 0, 0));
    let a: Alpha<ColorRGB, u8> = Alpha::default();
    assert_eq!(a.color, ColorRGB::new(0, 0, 0));
}
