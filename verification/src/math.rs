//! Fixed-point scalars, points and linear RGBA colours.

use vstd::prelude::*;

verus! {

/// The fixed-point representation of `1.0`: scalars count units of `1 / 65536`.
pub const UNIT: i32 = 65536;

/// The largest magnitude a colour channel may have to take part in interpolation.
pub const CHANNEL_MAX: i64 = 0x4000_0000;

/// The largest magnitude of the numerator of a blending fraction: the distance
/// from a clamped progress to any offset.
pub const FRACTION_MAX: i64 = 0x8001_0000;

/// A position in the plane, each coordinate in fixed point.
#[derive(Clone, Copy, Debug, PartialEq, Eq, Structural)]
pub struct Point {
    pub x: i32,
    pub y: i32,
}

/// A colour in linear RGB with alpha, each channel in fixed point.
#[derive(Clone, Copy, Debug, PartialEq, Eq, Structural)]
pub struct Color {
    pub red: i64,
    pub green: i64,
    pub blue: i64,
    pub alpha: i64,
}

/// For a negative numerator the floored quotient is found from the quotient
/// of the magnitude.
pub proof fn lemma_floor_of_negative(n: int, d: int)
    requires
        d > 0,
        n < 0,
    ensures
        n / d == -((-n - 1) / d) - 1,
{
    let k = (-n - 1) / d;
    let r = (-n - 1) % d;
    assert(-n - 1 == d * k + r && 0 <= r < d) by (nonlinear_arith)
        requires
            d > 0,
            k == (-n - 1) / d,
            r == (-n - 1) % d,
    ;
    assert(n == (-k - 1) * d + (d - 1 - r)) by (nonlinear_arith)
        requires
            -n - 1 == d * k + r,
    ;
    vstd::arithmetic::div_mod::lemma_fundamental_div_mod_converse(n, d, -k - 1, d - 1 - r);
}

impl Color {
    /// Whether every channel is small enough to be interpolated without overflow.
    pub open spec fn bounded(self) -> bool {
        &&& -CHANNEL_MAX <= self.red <= CHANNEL_MAX
        &&& -CHANNEL_MAX <= self.green <= CHANNEL_MAX
        &&& -CHANNEL_MAX <= self.blue <= CHANNEL_MAX
        &&& -CHANNEL_MAX <= self.alpha <= CHANNEL_MAX
    }

    /// Whether every channel lies between `0.0` and `1.0`.
    pub open spec fn normalized(self) -> bool {
        &&& 0 <= self.red <= UNIT
        &&& 0 <= self.green <= UNIT
        &&& 0 <= self.blue <= UNIT
        &&& 0 <= self.alpha <= UNIT
    }

    /// Fully transparent black, the colour of a gradient without stops.
    pub open spec fn spec_none() -> Color {
        Color { red: 0, green: 0, blue: 0, alpha: 0 }
    }

    /// Opaque white.
    pub open spec fn spec_white() -> Color {
        Color { red: 65536, green: 65536, blue: 65536, alpha: 65536 }
    }

    /// Opaque fuchsia, which marks a shape that was given no brush.
    pub open spec fn spec_fuchsia() -> Color {
        Color { red: 65536, green: 0, blue: 65536, alpha: 65536 }
    }

    #[verifier::when_used_as_spec(spec_none)]
    pub fn none() -> (c: Color)
        ensures
            c == Color::spec_none(),
    {
        Color { red: 0, green: 0, blue: 0, alpha: 0 }
    }

    #[verifier::when_used_as_spec(spec_white)]
    pub fn white() -> (c: Color)
        ensures
            c == Color::spec_white(),
    {
        Color { red: 65536, green: 65536, blue: 65536, alpha: 65536 }
    }

    #[verifier::when_used_as_spec(spec_fuchsia)]
    pub fn fuchsia() -> (c: Color)
        ensures
            c == Color::spec_fuchsia(),
    {
        Color { red: 65536, green: 0, blue: 65536, alpha: 65536 }
    }

    /// Tells whether the colour can serve as a gradient stop.
    pub fn is_bounded(&self) -> (r: bool)
        ensures
            r == self.bounded(),
    {
        -CHANNEL_MAX <= self.red && self.red <= CHANNEL_MAX
            && -CHANNEL_MAX <= self.green && self.green <= CHANNEL_MAX
            && -CHANNEL_MAX <= self.blue && self.blue <= CHANNEL_MAX
            && -CHANNEL_MAX <= self.alpha && self.alpha <= CHANNEL_MAX
    }
}

/// One channel of the blend of `a` and `b` at the fraction `num / den`,
/// rounded down; a zero `den` stands for a fraction of zero.
pub open spec fn blend_channel(a: int, b: int, num: int, den: int) -> int {
    if den == 0 {
        a
    } else {
        a + (num * (b - a)) / den
    }
}

/// The blend of two colours, channel by channel, alpha included.
pub open spec fn blend(a: Color, b: Color, num: int, den: int) -> Color {
    Color {
        red: blend_channel(a.red as int, b.red as int, num, den) as i64,
        green: blend_channel(a.green as int, b.green as int, num, den) as i64,
        blue: blend_channel(a.blue as int, b.blue as int, num, den) as i64,
        alpha: blend_channel(a.alpha as int, b.alpha as int, num, den) as i64,
    }
}

/// Quotient of `n` by a positive `d`, rounded towards negative infinity.
pub fn div_floor(n: i128, d: i128) -> (q: i128)
    requires
        d > 0,
        n > i128::MIN,
    ensures
        q == n / d,
{
    if n >= 0 {
        n / d
    } else {
        let m: i128 = -n;
        let k: i128 = (m - 1) / d;
        proof {
            lemma_floor_of_negative(n as int, d as int);
        }
        -k - 1
    }
}

/// A product is bounded by the product of the bounds on its factors.
pub proof fn lemma_product_bound(x: int, y: int, bx: int, by: int)
    requires
        -bx <= x <= bx,
        -by <= y <= by,
    ensures
        -(bx * by) <= x * y <= bx * by,
{
    assert(-(bx * by) <= x * y <= bx * by) by (nonlinear_arith)
        requires
            -bx <= x <= bx,
            -by <= y <= by,
    ;
}

/// Within an interval a blended channel lies between the two it blends.
pub proof fn lemma_blend_channel_between(a: int, b: int, num: int, den: int)
    requires
        0 <= num <= den,
    ensures
        a <= b ==> a <= blend_channel(a, b, num, den) <= b,
        b <= a ==> b <= blend_channel(a, b, num, den) <= a,
{
    if den > 0 {
        let d = b - a;
        let w = num * d;
        assert(d >= 0 ==> 0 <= w / den <= d) by (nonlinear_arith)
            requires
                0 <= num <= den,
                den > 0,
                w == num * d,
        ;
        assert(d <= 0 ==> d <= w / den <= 0) by (nonlinear_arith)
            requires
                0 <= num <= den,
                den > 0,
                w == num * d,
        ;
    }
}

/// Within an interval the blend of two colours between `0.0` and `1.0` is
/// such a colour.
pub proof fn lemma_blend_normalized(a: Color, b: Color, num: int, den: int)
    requires
        a.normalized(),
        b.normalized(),
        0 <= num <= den,
    ensures
        blend(a, b, num, den).normalized(),
{
    lemma_blend_channel_between(a.red as int, b.red as int, num, den);
    lemma_blend_channel_between(a.green as int, b.green as int, num, den);
    lemma_blend_channel_between(a.blue as int, b.blue as int, num, den);
    lemma_blend_channel_between(a.alpha as int, b.alpha as int, num, den);
}

/// Bounds on a blended channel: it stays within the channel limit plus the
/// largest product the fraction can scale a difference to.
pub proof fn lemma_blend_channel_bounds(a: int, b: int, num: int, den: int)
    requires
        -CHANNEL_MAX <= a <= CHANNEL_MAX,
        -CHANNEL_MAX <= b <= CHANNEL_MAX,
        -FRACTION_MAX <= num <= FRACTION_MAX,
        0 <= den,
    ensures
        -0x4000_8000_0000_0000 <= num * (b - a) <= 0x4000_8000_0000_0000,
        -0x4000_8000_4000_0000 <= blend_channel(a, b, num, den) <= 0x4000_8000_4000_0000,
{
    let w = num * (b - a);
    lemma_product_bound(num, b - a, 0x8001_0000, 0x8000_0000);
    if den > 0 {
        assert(-0x4000_8000_0000_0000 <= w / den <= 0x4000_8000_0000_0000) by (nonlinear_arith)
            requires
                den > 0,
                -0x4000_8000_0000_0000 <= w <= 0x4000_8000_0000_0000,
        ;
    }
}

/// Blends one channel of two bounded colours.
pub fn blend_channel_exec(a: i64, b: i64, num: i64, den: i64) -> (r: i64)
    requires
        -CHANNEL_MAX <= a <= CHANNEL_MAX,
        -CHANNEL_MAX <= b <= CHANNEL_MAX,
        -FRACTION_MAX <= num <= FRACTION_MAX,
        0 <= den,
    ensures
        r == blend_channel(a as int, b as int, num as int, den as int),
{
    if den == 0 {
        a
    } else {
        proof {
            lemma_blend_channel_bounds(a as int, b as int, num as int, den as int);
        }
        let w: i128 = (num as i128) * ((b - a) as i128);
        let q: i128 = div_floor(w, den as i128);
        (a as i128 + q) as i64
    }
}

/// Blends two bounded colours at the fraction `num / den`.
pub fn blend_exec(a: Color, b: Color, num: i64, den: i64) -> (c: Color)
    requires
        a.bounded(),
        b.bounded(),
        -FRACTION_MAX <= num <= FRACTION_MAX,
        0 <= den,
    ensures
        c == blend(a, b, num as int, den as int),
{
    Color {
        red: blend_channel_exec(a.red, b.red, num, den),
        green: blend_channel_exec(a.green, b.green, num, den),
        blue: blend_channel_exec(a.blue, b.blue, num, den),
        alpha: blend_channel_exec(a.alpha, b.alpha, num, den),
    }
}

} // verus!
