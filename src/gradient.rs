//! Color gradients: maps from a normalized position to a display color.
use vstd::prelude::*;

use crate::temperature::FACTOR_SCALE;

verus! {

/// An opaque RGB color.
#[derive(Debug, Clone, Copy, PartialEq, Eq, Structural)]
pub struct Color {
    pub r: u8,
    pub g: u8,
    pub b: u8,
}

/// A color pinned at a position between 0 and `FACTOR_SCALE`.
#[derive(Debug, Clone, Copy, PartialEq, Eq, Structural)]
pub struct GradientStop {
    pub pos: i64,
    pub color: Color,
}

/// A piecewise-linear gradient through a list of stops.
#[derive(Debug, Clone)]
pub struct ThermalGradient {
    pub name: String,
    pub stops: Vec<GradientStop>,
}

/// The channel `a + (b - a) * num / den`, rounded down.
pub open spec fn lerp_channel(a: u8, b: u8, num: int, den: int) -> int {
    a as int + ((b as int - a as int) * num) / den
}

pub open spec fn lerp_color(a: Color, b: Color, num: int, den: int) -> Color {
    Color {
        r: lerp_channel(a.r, b.r, num, den) as u8,
        g: lerp_channel(a.g, b.g, num, den) as u8,
        b: lerp_channel(a.b, b.b, num, den) as u8,
    }
}

/// The first stop at or after `i` whose position is not below `f`, or the
/// last stop.
pub open spec fn segment_end(stops: Seq<GradientStop>, f: int, i: int) -> int
    decreases stops.len() - i,
{
    if i >= stops.len() - 1 || stops[i].pos >= f {
        i
    } else {
        segment_end(stops, f, i + 1)
    }
}

/// The color of a well-formed gradient at position `f` in `[0, FACTOR_SCALE]`.
pub open spec fn color_at(stops: Seq<GradientStop>, f: int) -> Color {
    let j = segment_end(stops, f, 1);
    lerp_color(stops[j - 1].color, stops[j].color, f - stops[j - 1].pos, stops[j].pos - stops[j - 1].pos)
}

proof fn lemma_segment_end_bounds(stops: Seq<GradientStop>, f: int, i: int)
    requires
        1 <= i <= stops.len() - 1,
    ensures
        i <= segment_end(stops, f, i) <= stops.len() - 1,
    decreases stops.len() - i,
{
    if !(i >= stops.len() - 1 || stops[i].pos >= f) {
        lemma_segment_end_bounds(stops, f, i + 1);
    }
}

proof fn lemma_lerp_channel_bounds(a: u8, b: u8, num: int, den: int)
    requires
        0 <= num <= den,
        den > 0,
    ensures
        0 <= lerp_channel(a, b, num, den) <= 255,
{
    let d = b as int - a as int;
    let x = d * num;
    if d >= 0 {
        assert(0 <= x <= d * den) by (nonlinear_arith)
            requires
                d >= 0,
                0 <= num <= den,
                x == d * num,
        ;
        assert(0 <= x / den <= d) by (nonlinear_arith)
            requires
                0 <= x <= d * den,
                den > 0,
        ;
    } else {
        assert(d * den <= x <= 0) by (nonlinear_arith)
            requires
                d < 0,
                0 <= num <= den,
                x == d * num,
        ;
        assert(d <= x / den <= 0) by (nonlinear_arith)
            requires
                d * den <= x <= 0,
                den > 0,
        ;
    }
}

impl ThermalGradient {
    /// At least two stops, from 0 to `FACTOR_SCALE`, in strictly increasing
    /// order.
    pub open spec fn wf(&self) -> bool {
        let s = self.stops@;
        &&& s.len() >= 2
        &&& s[0].pos == 0
        &&& s[s.len() - 1].pos == FACTOR_SCALE
        &&& forall|i: int| 0 <= i < s.len() - 1 ==> #[trigger] s[i].pos < s[i + 1].pos
        &&& forall|i: int| 0 <= i < s.len() ==> 0 <= #[trigger] s[i].pos <= FACTOR_SCALE
    }

    /// The stops of the gradient used where none is chosen: black through
    /// purple, red and yellow to white.
    pub open spec fn default_stops() -> Seq<GradientStop> {
        seq![
            GradientStop { pos: 0, color: Color { r: 0, g: 0, b: 0 } },
            GradientStop { pos: 2500, color: Color { r: 110, g: 20, b: 150 } },
            GradientStop { pos: 5000, color: Color { r: 220, g: 40, b: 30 } },
            GradientStop { pos: 7500, color: Color { r: 250, g: 200, b: 20 } },
            GradientStop { pos: 10000, color: Color { r: 255, g: 255, b: 255 } },
        ]
    }

    /// The gradient used where none is chosen.
    pub fn default_gradient() -> (r: ThermalGradient)
        ensures
            r.wf(),
            r.stops@ == Self::default_stops(),
    {
        let mut stops: Vec<GradientStop> = Vec::new();
        stops.push(GradientStop { pos: 0, color: Color { r: 0, g: 0, b: 0 } });
        stops.push(GradientStop { pos: 2500, color: Color { r: 110, g: 20, b: 150 } });
        stops.push(GradientStop { pos: 5000, color: Color { r: 220, g: 40, b: 30 } });
        stops.push(GradientStop { pos: 7500, color: Color { r: 250, g: 200, b: 20 } });
        stops.push(GradientStop { pos: 10000, color: Color { r: 255, g: 255, b: 255 } });
        assert(stops@ =~= Self::default_stops());
        ThermalGradient { name: String::from_str("Iron"), stops }
    }

    /// The color at position `f`, a fraction of `FACTOR_SCALE`.
    pub fn get_color(&self, f: i64) -> (r: Color)
        requires
            self.wf(),
            0 <= f <= FACTOR_SCALE,
        ensures
            r == color_at(self.stops@, f as int),
    {
        let s = Ghost(self.stops@);
        let n = self.stops.len();
        let mut i: usize = 1;
        while i < n - 1 && self.stops[i].pos < f
            invariant
                1 <= i <= n - 1,
                n == s@.len(),
                s@ == self.stops@,
                self.wf(),
                segment_end(s@, f as int, i as int) == segment_end(s@, f as int, 1),
            decreases n - i,
        {
            i = i + 1;
        }
        proof {
            lemma_segment_end_bounds(s@, f as int, 1);
            let j = i as int;
            assert(segment_end(s@, f as int, j) == j);
            // the segment holds f
            if j > 1 {
                assert(s@[j - 1].pos < f) by {
                    lemma_before_segment_end(s@, f as int, 1, j);
                }
            }
            assert(s@[j - 1].pos <= f);
            assert(s@[j - 1].pos < s@[j].pos);
            assert(f <= s@[j].pos);
        }
        let a = self.stops[i - 1];
        let b = self.stops[i];
        let num = f - a.pos;
        let den = b.pos - a.pos;
        proof {
            lemma_lerp_channel_bounds(a.color.r, b.color.r, num as int, den as int);
            lemma_lerp_channel_bounds(a.color.g, b.color.g, num as int, den as int);
            lemma_lerp_channel_bounds(a.color.b, b.color.b, num as int, den as int);
        }
        Color {
            r: lerp_u8(a.color.r, b.color.r, num, den),
            g: lerp_u8(a.color.g, b.color.g, num, den),
            b: lerp_u8(a.color.b, b.color.b, num, den),
        }
    }
}

proof fn lemma_before_segment_end(stops: Seq<GradientStop>, f: int, i: int, j: int)
    requires
        1 <= i < j,
        j <= stops.len() - 1,
        segment_end(stops, f, i) == j,
    ensures
        stops[j - 1].pos < f,
    decreases j - i,
{
    if i + 1 < j {
        lemma_before_segment_end(stops, f, i + 1, j);
    } else {
        assert(!(i >= stops.len() - 1 || stops[i].pos >= f));
    }
}

fn lerp_u8(a: u8, b: u8, num: i64, den: i64) -> (r: u8)
    requires
        0 <= num <= den,
        0 < den <= FACTOR_SCALE,
        0 <= lerp_channel(a, b, num as int, den as int) <= 255,
    ensures
        r == lerp_channel(a, b, num as int, den as int),
{
    let d: i64 = b as i64 - a as i64;
    assert(-255 * FACTOR_SCALE <= d * num <= 255 * FACTOR_SCALE) by (nonlinear_arith)
        requires
            -255 <= d <= 255,
            0 <= num <= FACTOR_SCALE,
    ;
    let x: i64 = d * num;
    let q: i64 = if x >= 0 {
        x / den
    } else {
        let m: i64 = (-x + den - 1) / den;
        proof {
            let mi = m as int;
            let xi = x as int;
            let di = den as int;
            assert(mi * di <= -xi + di - 1 < mi * di + di) by (nonlinear_arith)
                requires
                    mi == (-xi + di - 1) / di,
                    di > 0,
            ;
            assert(xi / di == -mi) by (nonlinear_arith)
                requires
                    mi * di <= -xi + di - 1 < mi * di + di,
                    di > 0,
            {
                vstd::arithmetic::div_mod::lemma_fundamental_div_mod(xi, di);
            }
        }
        -m
    };
    (a as i64 + q) as u8
}

} // verus!
