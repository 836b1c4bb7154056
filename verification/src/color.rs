//! RGB colors and the per-tick fade transform.
//!
//! A color is a plain 8-bit RGB triple. One fade step converts the color to
//! HSL, multiplies saturation by 0.9 and lightness by 0.93 (each result
//! clamped to [0, 1]), converts back to RGB and truncates each channel to 8
//! bits. Fading in HSL keeps the hue stable while darkening, so a glyph glows
//! and trails toward black instead of shifting hue.
//!
//! The whole round trip is exact rational arithmetic in the channel values,
//! so it is computed here in integers. With `max` and `min` the largest and
//! smallest channel, `sum = max + min` and `d = max - min`:
//! - HSL lightness is `sum / 510`, and the faded lightness is 93% of it;
//! - HSL saturation is `d / den` with `den = sum` for dark colors
//!   (`sum <= 255`) and `den = 510 - sum` for light ones, and the faded
//!   saturation is 90% of it;
//! - converting back gives faded chroma `camp / 25500 * (9 / 10) * (d / den)`
//!   where `camp = 25500 - |93 * sum - 25500|` is the chroma headroom
//!   `1 - |2 * lightness - 1|` of the faded lightness, scaled by 25500;
//! - each channel lands at `lightness - chroma / 2` plus a share of the
//!   chroma proportional to its own distance `v - min` from the smallest
//!   channel (the largest channel gets the full chroma, the smallest none,
//!   which is exactly the piecewise hue-sextant formula).
//! Putting the shares over the common denominator `2000 * den` gives the
//! closed form in `faded_channel`.

use vstd::arithmetic::div_mod::lemma_div_is_ordered;
use vstd::arithmetic::div_mod::lemma_fundamental_div_mod;
use vstd::prelude::*;

verus! {

/// One screen cell's color: an 8-bit RGB triple.
#[derive(Clone, Copy, Debug, PartialEq, Eq, Structural)]
pub struct Rgb {
    pub r: u8,
    pub g: u8,
    pub b: u8,
}

impl Rgb {
    pub fn new(r: u8, g: u8, b: u8) -> (c: Rgb)
        ensures
            c == (Rgb { r, g, b }),
    {
        Rgb { r, g, b }
    }

    /// Black, the color every cell fades toward.
    pub open spec fn black() -> Rgb {
        Rgb { r: 0, g: 0, b: 0 }
    }
}

/// The largest of the three channels.
pub open spec fn max_channel(c: Rgb) -> int {
    if c.r >= c.g && c.r >= c.b {
        c.r as int
    } else if c.g >= c.b {
        c.g as int
    } else {
        c.b as int
    }
}

/// The smallest of the three channels.
pub open spec fn min_channel(c: Rgb) -> int {
    if c.r <= c.g && c.r <= c.b {
        c.r as int
    } else if c.g <= c.b {
        c.g as int
    } else {
        c.b as int
    }
}

/// Twice the HSL lightness of a color, on a 0..=510 integer scale:
/// HSL defines lightness as (max + min) / 2 over channels scaled to [0, 1],
/// so `max + min` over 8-bit channels is 510 times that lightness.
pub open spec fn lightness2(c: Rgb) -> int {
    max_channel(c) + min_channel(c)
}

/// The chroma of a color: the spread between its channels. Zero exactly for
/// grays (and black and white), where the hue is undefined and saturation 0.
pub open spec fn chroma(c: Rgb) -> int {
    max_channel(c) - min_channel(c)
}

/// A color has lightness zero exactly when it is black.
pub proof fn lemma_lightness2_zero(c: Rgb)
    ensures
        lightness2(c) == 0 <==> c == Rgb::black(),
{
}

/// The denominator that turns chroma into HSL saturation:
/// saturation = chroma / fade_sat_den.
pub open spec fn fade_sat_den(c: Rgb) -> int {
    if lightness2(c) <= 255 {
        lightness2(c)
    } else {
        510 - lightness2(c)
    }
}

/// 25500 * (1 - |2 * faded lightness - 1|): the chroma headroom at the faded
/// lightness, since faded lightness (in [0, 1]) is 93 * lightness2 / 51000.
pub open spec fn fade_camp(c: Rgb) -> int {
    if 93 * lightness2(c) <= 25500 {
        93 * lightness2(c)
    } else {
        51000 - 93 * lightness2(c)
    }
}

/// The numerator of a faded channel over the denominator 2000 * fade_sat_den:
/// 930 * lightness2 * den stands for the faded lightness, and the chroma term
/// gives the channel its share 2 * (v - min) - chroma of the faded chroma,
/// which ranges over [-chroma, chroma] as v ranges over [min, max].
pub open spec fn fade_num(c: Rgb, v: int) -> int {
    930 * lightness2(c) * fade_sat_den(c) + 9 * fade_camp(c) * (2 * (v - min_channel(c))
        - chroma(c))
}

/// The faded value of the channel holding v, for a chromatic color.
pub open spec fn faded_channel(c: Rgb, v: int) -> int {
    fade_num(c, v) / (2000 * fade_sat_den(c))
}

/// The faded value of every channel of a gray color (saturation 0): the
/// faded lightness alone, 0.93 * (lightness2 / 510) * 255.
pub open spec fn faded_gray(c: Rgb) -> int {
    93 * lightness2(c) / 200
}

/// The color one fade step leaves behind.
pub open spec fn faded_rgb(c: Rgb) -> Rgb {
    if chroma(c) == 0 {
        Rgb { r: faded_gray(c) as u8, g: faded_gray(c) as u8, b: faded_gray(c) as u8 }
    } else {
        Rgb {
            r: faded_channel(c, c.r as int) as u8,
            g: faded_channel(c, c.g as int) as u8,
            b: faded_channel(c, c.b as int) as u8,
        }
    }
}

/// Basic ranges of the fade ingredients for a chromatic color: the chroma
/// never exceeds the saturation denominator (saturation is at most 1), and
/// the chroma headroom is bounded on both sides.
proof fn lemma_fade_ingredients(c: Rgb)
    requires
        chroma(c) >= 1,
    ensures
        1 <= fade_sat_den(c) <= 255,
        chroma(c) <= fade_sat_den(c),
        0 <= fade_camp(c),
        fade_camp(c) <= 93 * lightness2(c),
        fade_camp(c) <= 51000 - 93 * lightness2(c),
{
}

/// For min <= v <= max, the faded channel lies between the faded min and max
/// channels, and every faded channel fits in a u8.
proof fn lemma_faded_channel_bounds(c: Rgb, v: int)
    requires
        chroma(c) >= 1,
        min_channel(c) <= v <= max_channel(c),
    ensures
        0 <= faded_channel(c, v) <= 253,
        faded_channel(c, min_channel(c)) <= faded_channel(c, v) <= faded_channel(
            c,
            max_channel(c),
        ),
{
    lemma_fade_ingredients(c);
    let l2 = lightness2(c);
    let mi = min_channel(c);
    let ma = max_channel(c);
    let d = chroma(c);
    let den = fade_sat_den(c);
    let camp = fade_camp(c);
    let div = 2000 * den;
    let nmi = fade_num(c, mi);
    let nma = fade_num(c, ma);
    let nv = fade_num(c, v);
    assert(nmi == 930 * l2 * den - 9 * camp * d && nma == 930 * l2 * den + 9 * camp * d)
        by (nonlinear_arith)
        requires
            nmi == 930 * l2 * den + 9 * camp * (2 * (mi - mi) - d),
            nma == 930 * l2 * den + 9 * camp * (2 * (ma - mi) - d),
            d == ma - mi,
    ;
    assert(nmi >= 0) by (nonlinear_arith)
        requires
            nmi == 930 * l2 * den - 9 * camp * d,
            0 <= camp <= 93 * l2,
            1 <= d <= den,
            0 <= l2,
    ;
    assert(nma <= 506430 * den) by (nonlinear_arith)
        requires
            nma == 930 * l2 * den + 9 * camp * d,
            camp <= 51000 - 93 * l2,
            0 <= camp,
            1 <= d <= den,
            0 <= l2 <= 510,
    ;
    assert(nmi <= nv <= nma) by (nonlinear_arith)
        requires
            nv == 930 * l2 * den + 9 * camp * (2 * (v - mi) - d),
            nmi == 930 * l2 * den - 9 * camp * d,
            nma == 930 * l2 * den + 9 * camp * d,
            d == ma - mi,
            mi <= v <= ma,
            0 <= camp,
    ;
    lemma_div_is_ordered(nmi, nv, div);
    lemma_div_is_ordered(nv, nma, div);
    lemma_fundamental_div_mod(nmi, div);
    lemma_fundamental_div_mod(nma, div);
    assert(nmi / div >= 0) by (nonlinear_arith)
        requires
            nmi == div * (nmi / div) + nmi % div,
            0 <= nmi % div < div,
            nmi >= 0,
            div >= 2000,
    ;
    assert(nma / div <= 253) by (nonlinear_arith)
        requires
            nma == div * (nma / div) + nma % div,
            0 <= nma % div < div,
            nma <= 506430 * den,
            div == 2000 * den,
            den >= 1,
    ;
}

/// One fade step never raises the lightness; it shrinks it to at most 93%,
/// so it strictly decreases until the color reaches black.
pub proof fn lemma_fade_lightness(c: Rgb)
    ensures
        100 * lightness2(faded_rgb(c)) <= 93 * lightness2(c),
        lightness2(faded_rgb(c)) <= lightness2(c),
        lightness2(c) >= 1 ==> lightness2(faded_rgb(c)) < lightness2(c),
{
    let l2 = lightness2(c);
    let f = faded_rgb(c);
    if chroma(c) == 0 {
        let q = faded_gray(c);
        lemma_fundamental_div_mod(93 * l2, 200);
        assert(0 <= q <= 253) by (nonlinear_arith)
            requires
                93 * l2 == 200 * q + (93 * l2) % 200,
                0 <= (93 * l2) % 200 < 200,
                0 <= l2 <= 510,
        ;
        assert(lightness2(f) == q + q);
        assert(100 * (q + q) <= 93 * l2) by (nonlinear_arith)
            requires
                93 * l2 == 200 * q + (93 * l2) % 200,
                0 <= (93 * l2) % 200,
        ;
    } else {
        let ma = max_channel(c);
        let mi = min_channel(c);
        let den = fade_sat_den(c);
        let div = 2000 * den;
        let qr = faded_channel(c, c.r as int);
        let qg = faded_channel(c, c.g as int);
        let qb = faded_channel(c, c.b as int);
        let qma = faded_channel(c, ma);
        let qmi = faded_channel(c, mi);
        lemma_faded_channel_bounds(c, c.r as int);
        lemma_faded_channel_bounds(c, c.g as int);
        lemma_faded_channel_bounds(c, c.b as int);
        lemma_faded_channel_bounds(c, ma);
        lemma_faded_channel_bounds(c, mi);
        assert(f.r as int == qr && f.g as int == qg && f.b as int == qb);
        assert(max_channel(f) == qma);
        assert(min_channel(f) == qmi);
        lemma_fade_ingredients(c);
        lemma_fundamental_div_mod(fade_num(c, ma), div);
        lemma_fundamental_div_mod(fade_num(c, mi), div);
        assert(fade_num(c, ma) + fade_num(c, mi) == 1860 * l2 * den) by (nonlinear_arith)
            requires
                fade_num(c, ma) == 930 * l2 * den + 9 * fade_camp(c) * (2 * (ma - mi) - chroma(
                    c,
                )),
                fade_num(c, mi) == 930 * l2 * den + 9 * fade_camp(c) * (2 * (mi - mi) - chroma(
                    c,
                )),
                chroma(c) == ma - mi,
        ;
        assert(100 * (qma + qmi) <= 93 * l2) by (nonlinear_arith)
            requires
                fade_num(c, ma) == div * qma + fade_num(c, ma) % div,
                fade_num(c, mi) == div * qmi + fade_num(c, mi) % div,
                0 <= fade_num(c, ma) % div,
                0 <= fade_num(c, mi) % div,
                fade_num(c, ma) + fade_num(c, mi) == 1860 * l2 * den,
                div == 2000 * den,
                1 <= den,
        ;
    }
    assert(lightness2(f) >= 0);
}

/// Black fades to itself, and a gray color stays gray (saturation stays 0).
pub proof fn lemma_fade_achromatic(c: Rgb)
    ensures
        faded_rgb(Rgb::black()) == Rgb::black(),
        chroma(c) == 0 ==> chroma(faded_rgb(c)) == 0,
{
    assert(faded_gray(Rgb::black()) == 0);
}

/// The color after n fade steps.
pub open spec fn faded_n(c: Rgb, n: nat) -> Rgb
    decreases n,
{
    if n == 0 {
        c
    } else {
        faded_rgb(faded_n(c, (n - 1) as nat))
    }
}

/// Repeated fading converges monotonically to black: the lightness never
/// increases from one step to the next, it sinks below its start by at least
/// one per step until the floor, black itself never changes, and every color
/// reaches exactly black after at most 510 steps.
pub proof fn lemma_fade_converges(c: Rgb, n: nat)
    ensures
        lightness2(faded_n(c, (n + 1) as nat)) <= lightness2(faded_n(c, n)),
        lightness2(faded_n(c, n)) + n <= lightness2(c) || faded_n(c, n) == Rgb::black(),
        c == Rgb::black() ==> faded_n(c, n) == Rgb::black(),
        n >= 510 ==> faded_n(c, n) == Rgb::black(),
    decreases n,
{
    lemma_fade_lightness(faded_n(c, n));
    lemma_fade_achromatic(c);
    if n == 0 {
        lemma_lightness2_zero(c);
        if c == Rgb::black() {
            assert(faded_n(c, 0) == c);
        }
    } else {
        lemma_fade_converges(c, (n - 1) as nat);
        lemma_fade_lightness(faded_n(c, (n - 1) as nat));
        lemma_lightness2_zero(faded_n(c, (n - 1) as nat));
        lemma_lightness2_zero(faded_n(c, n));
        assert(faded_n(c, n) == faded_rgb(faded_n(c, (n - 1) as nat)));
        if faded_n(c, (n - 1) as nat) == Rgb::black() {
            assert(faded_n(c, n) == Rgb::black());
        }
        if n >= 510 {
            assert(faded_n(c, n) == Rgb::black());
        }
    }
}

impl Rgb {
    /// One fade step: desaturate and darken toward black, keeping the hue.
    pub fn fade(self) -> (c: Rgb)
        ensures
            c == faded_rgb(self),
            lightness2(c) <= lightness2(self),
            100 * lightness2(c) <= 93 * lightness2(self),
            lightness2(self) >= 1 ==> lightness2(c) < lightness2(self),
            self == Rgb::black() ==> c == Rgb::black(),
    {
        proof {
            lemma_fade_lightness(self);
            lemma_fade_achromatic(self);
        }
        let ma: u64 = if self.r >= self.g && self.r >= self.b {
            self.r as u64
        } else if self.g >= self.b {
            self.g as u64
        } else {
            self.b as u64
        };
        let mi: u64 = if self.r <= self.g && self.r <= self.b {
            self.r as u64
        } else if self.g <= self.b {
            self.g as u64
        } else {
            self.b as u64
        };
        proof {
            assert(ma as int == max_channel(self) && mi as int == min_channel(self));
        }
        let l2: u64 = ma + mi;
        let d: u64 = ma - mi;
        if d == 0 {
            let q = (93 * l2 / 200) as u8;
            Rgb { r: q, g: q, b: q }
        } else {
            let den: u64 = if l2 <= 255 {
                l2
            } else {
                510 - l2
            };
            let camp: u64 = if 93 * l2 <= 25500 {
                93 * l2
            } else {
                51000 - 93 * l2
            };
            proof {
                assert(l2 as int == lightness2(self));
                assert(d as int == chroma(self));
                assert(den as int == fade_sat_den(self));
                assert(camp as int == fade_camp(self));
                lemma_fade_ingredients(self);
                lemma_faded_channel_bounds(self, self.r as int);
                lemma_faded_channel_bounds(self, self.g as int);
                lemma_faded_channel_bounds(self, self.b as int);
                assert(930 * (l2 as int) * (den as int) >= 9 * (camp as int) * (d as int)
                    && 930 * (l2 as int) * (den as int) <= 930 * 510 * 255) by (nonlinear_arith)
                    requires
                        0 <= camp as int <= 93 * (l2 as int),
                        1 <= d as int <= den as int,
                        0 <= l2 as int <= 510,
                        den as int <= 255,
                ;
            }
            let base: u64 = 930 * l2 * den - 9 * camp * d;
            let div: u64 = 2000 * den;
            proof {
                let b = base as int;
                let campi = camp as int;
                let mii = mi as int;
                assert(b + 18 * campi * (self.r as int - mii) == fade_num(self, self.r as int)
                    && b + 18 * campi * (self.g as int - mii) == fade_num(self, self.g as int)
                    && b + 18 * campi * (self.b as int - mii) == fade_num(self, self.b as int))
                    by (nonlinear_arith)
                    requires
                        b == 930 * lightness2(self) * fade_sat_den(self) - 9 * campi * chroma(
                            self,
                        ),
                        campi == fade_camp(self),
                        mii == min_channel(self),
                        fade_num(self, self.r as int) == 930 * lightness2(self) * fade_sat_den(
                            self,
                        ) + 9 * campi * (2 * (self.r as int - mii) - chroma(self)),
                        fade_num(self, self.g as int) == 930 * lightness2(self) * fade_sat_den(
                            self,
                        ) + 9 * campi * (2 * (self.g as int - mii) - chroma(self)),
                        fade_num(self, self.b as int) == 930 * lightness2(self) * fade_sat_den(
                            self,
                        ) + 9 * campi * (2 * (self.b as int - mii) - chroma(self)),
                ;
                assert(18 * campi * (self.r as int - mii) <= 18 * 51000 * 255 && 18 * campi * (
                self.g as int - mii) <= 18 * 51000 * 255 && 18 * campi * (self.b as int - mii)
                    <= 18 * 51000 * 255) by (nonlinear_arith)
                    requires
                        0 <= campi <= 51000,
                        0 <= self.r as int - mii <= 255,
                        0 <= self.g as int - mii <= 255,
                        0 <= self.b as int - mii <= 255,
                ;
            }
            let fr = ((base + 18 * camp * ((self.r as u64) - mi)) / div) as u8;
            let fg = ((base + 18 * camp * ((self.g as u64) - mi)) / div) as u8;
            let fb = ((base + 18 * camp * ((self.b as u64) - mi)) / div) as u8;
            Rgb { r: fr, g: fg, b: fb }
        }
    }
}

} // verus!

