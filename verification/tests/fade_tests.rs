use matrix_rain::Rgb;
use palette::FromColor;
use palette::Hsl;
use palette::Srgb;

fn lightness2(c: Rgb) -> u32 {
    let ma = c.r.max(c.g).max(c.b) as u32;
    let mi = c.r.min(c.g).min(c.b) as u32;
    ma + mi
}

fn hsl_of(c: Rgb) -> Hsl {
    let rgb = Srgb::new(c.r as f32 / 255.0, c.g as f32 / 255.0, c.b as f32 / 255.0);
    Hsl::from_color(rgb)
}

/// The fade of the original floating-point pipeline: sRGB to HSL, saturation
/// times 0.9 and lightness times 0.93 clamped, back to sRGB, truncated.
fn fade_via_palette(c: Rgb) -> Rgb {
    let mut hsl = hsl_of(c);
    hsl.saturation = (hsl.saturation * 0.9).clamp(0.0, 1.0);
    hsl.lightness = (hsl.lightness * 0.93).clamp(0.0, 1.0);
    let out: Srgb = Srgb::from_color(hsl);
    Rgb::new(
        (out.red * 255.0) as u8,
        (out.green * 255.0) as u8,
        (out.blue * 255.0) as u8,
    )
}

#[test]
fn fade_exact_values() {
    assert_eq!(Rgb::new(0, 150, 255).fade(), Rgb::new(11, 137, 225));
    assert_eq!(Rgb::new(0, 255, 43).fade(), Rgb::new(11, 225, 47));
    assert_eq!(Rgb::new(10, 20, 30).fade(), Rgb::new(10, 18, 26));
    assert_eq!(Rgb::new(200, 30, 30).fade(), Rgb::new(178, 35, 35));
    assert_eq!(Rgb::new(40, 200, 120).fade(), Rgb::new(44, 178, 111));
}

#[test]
fn fade_black_is_fixed_point() {
    assert_eq!(Rgb::new(0, 0, 0).fade(), Rgb::new(0, 0, 0));
}

#[test]
fn fade_keeps_grays_gray() {
    assert_eq!(Rgb::new(100, 100, 100).fade(), Rgb::new(93, 93, 93));
    assert_eq!(Rgb::new(255, 255, 255).fade(), Rgb::new(237, 237, 237));
    for v in [1u8, 7, 63, 128, 200, 254] {
        let f = Rgb::new(v, v, v).fade();
        assert_eq!(f.r, f.g);
        assert_eq!(f.g, f.b);
    }
}

#[test]
fn fade_never_raises_lightness() {
    let mut v: u16 = 0;
    while v < 256 {
        let mut w: u16 = 0;
        while w < 256 {
            let c = Rgb::new(v as u8, w as u8, (255 - v) as u8);
            let f = c.fade();
            let before = lightness2(c);
            let after = lightness2(f);
            assert!(after <= before);
            assert!(100 * after <= 93 * before);
            if before >= 1 {
                assert!(after < before);
            }
            w += 17;
        }
        v += 17;
    }
}

#[test]
fn fade_converges_to_black() {
    for start in [
        Rgb::new(255, 255, 255),
        Rgb::new(0, 150, 255),
        Rgb::new(0, 255, 43),
        Rgb::new(1, 2, 3),
        Rgb::new(200, 30, 30),
    ] {
        let mut c = start;
        let mut steps = 0u32;
        while c != Rgb::new(0, 0, 0) {
            let f = c.fade();
            assert!(lightness2(f) < lightness2(c));
            c = f;
            steps += 1;
            assert!(steps <= 510);
        }
        assert_eq!(c.fade(), Rgb::new(0, 0, 0));
    }
}

#[test]
fn fade_matches_float_pipeline_closely() {
    let mut v: u16 = 0;
    while v < 256 {
        let mut w: u16 = 0;
        while w < 256 {
            for c in [
                Rgb::new(v as u8, w as u8, 77),
                Rgb::new(w as u8, 200, v as u8),
            ] {
                let ours = c.fade();
                let theirs = fade_via_palette(c);
                assert!((ours.r as i32 - theirs.r as i32).abs() <= 1, "r for {:?}", (c.r, c.g, c.b));
                assert!((ours.g as i32 - theirs.g as i32).abs() <= 1, "g for {:?}", (c.r, c.g, c.b));
                assert!((ours.b as i32 - theirs.b as i32).abs() <= 1, "b for {:?}", (c.r, c.g, c.b));
            }
            w += 13;
        }
        v += 13;
    }
}

#[test]
fn fade_never_raises_saturation_or_lightness_in_hsl() {
    for c in [
        Rgb::new(0, 150, 255),
        Rgb::new(0, 255, 43),
        Rgb::new(200, 30, 30),
        Rgb::new(10, 20, 30),
        Rgb::new(100, 100, 100),
        Rgb::new(255, 255, 255),
        Rgb::new(5, 5, 250),
        Rgb::new(40, 200, 120),
    ] {
        let before = hsl_of(c);
        let after = hsl_of(c.fade());
        assert!(after.saturation <= before.saturation + 1e-6);
        assert!(after.lightness <= before.lightness + 1e-6);
    }
}
