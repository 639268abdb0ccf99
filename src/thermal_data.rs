//! A frame of per-pixel temperatures, and what is derived from one: extremes,
//! a false-color image and a histogram.
use vstd::prelude::*;

use crate::gradient::{color_at, Color, ThermalGradient};
use crate::temperature::{Temp, TempRange};

verus! {

/// The most buckets a histogram can have.
pub const MAX_BUCKETS: usize = 1_000_000;

/// The position of a pixel, column `x` and row `y`.
#[derive(Debug, Clone, Copy, PartialEq, Eq, Structural)]
pub struct PixelPos {
    pub x: usize,
    pub y: usize,
}

/// One decoded frame: `temperatures` holds the pixels row by row.
#[derive(Debug, Clone)]
pub struct ThermalData {
    pub width: usize,
    pub height: usize,
    pub temperatures: Vec<Temp>,
}

/// An image, its pixels row by row.
#[derive(Debug, Clone)]
pub struct ColorImage {
    pub width: usize,
    pub height: usize,
    pub pixels: Vec<Color>,
}

/// Pixel counts over equal slices of a temperature range.
#[derive(Debug, Clone)]
pub struct ThermalDataHistogram {
    pub range: TempRange,
    pub buckets: Vec<u64>,
}

/// The bucket of `t` among `n` equal slices of `range`; `None` outside the
/// range. The high end falls in the last bucket, and a range of zero width
/// puts all it holds in the first.
pub open spec fn bucket_of(range: TempRange, n: int, t: int) -> Option<int> {
    let lo = range.low.microkelvin as int;
    let hi = range.high.microkelvin as int;
    if t < lo || t > hi {
        None
    } else if hi == lo {
        Some(0)
    } else {
        let b = ((t - lo) * n) / (hi - lo);
        Some(if b >= n { n - 1 } else { b })
    }
}

/// The bucket counts of `temps` among `n` slices of `range`.
pub open spec fn histogram_spec(temps: Seq<Temp>, range: TempRange, n: int) -> Seq<int>
    decreases temps.len(),
{
    if temps.len() == 0 {
        Seq::new(n as nat, |i: int| 0int)
    } else {
        let h = histogram_spec(temps.drop_last(), range, n);
        match bucket_of(range, n, temps.last().microkelvin as int) {
            Some(b) => h.update(b, h[b] + 1),
            None => h,
        }
    }
}

pub open spec fn seq_sum(s: Seq<int>) -> int
    decreases s.len(),
{
    if s.len() == 0 {
        0
    } else {
        seq_sum(s.drop_last()) + s.last()
    }
}

/// How many of `temps` lie within `range`.
pub open spec fn count_in_range(temps: Seq<Temp>, range: TempRange) -> int
    decreases temps.len(),
{
    if temps.len() == 0 {
        0
    } else {
        count_in_range(temps.drop_last(), range) + if range.contains_spec(
            temps.last().microkelvin as int,
        ) {
            1int
        } else {
            0int
        }
    }
}

proof fn lemma_bucket_in_bounds(range: TempRange, n: int, t: int)
    requires
        range.wf(),
        n > 0,
    ensures
        bucket_of(range, n, t) matches Some(b) ==> 0 <= b < n,
        bucket_of(range, n, t) is Some <==> range.contains_spec(t),
{
    let lo = range.low.microkelvin as int;
    let hi = range.high.microkelvin as int;
    if lo <= t <= hi && hi != lo {
        assert(((t - lo) * n) / (hi - lo) >= 0) by (nonlinear_arith)
            requires
                t - lo >= 0,
                n > 0,
                hi - lo > 0,
        ;
    }
}

proof fn lemma_sum_zeros(n: nat)
    ensures
        seq_sum(Seq::new(n, |i: int| 0int)) == 0,
    decreases n,
{
    if n > 0 {
        assert(Seq::new(n, |i: int| 0int).drop_last() =~= Seq::new((n - 1) as nat, |i: int| 0int));
        lemma_sum_zeros((n - 1) as nat);
    }
}

proof fn lemma_sum_increment(s: Seq<int>, b: int)
    requires
        0 <= b < s.len(),
    ensures
        seq_sum(s.update(b, s[b] + 1)) == seq_sum(s) + 1,
    decreases s.len(),
{
    let u = s.update(b, s[b] + 1);
    if b == s.len() - 1 {
        assert(u.drop_last() =~= s.drop_last());
    } else {
        assert(u.drop_last() =~= s.drop_last().update(b, s[b] + 1));
        lemma_sum_increment(s.drop_last(), b);
    }
}

proof fn lemma_histogram_len(temps: Seq<Temp>, range: TempRange, n: int)
    requires
        range.wf(),
        n > 0,
    ensures
        histogram_spec(temps, range, n).len() == n,
    decreases temps.len(),
{
    if temps.len() > 0 {
        lemma_histogram_len(temps.drop_last(), range, n);
        lemma_bucket_in_bounds(range, n, temps.last().microkelvin as int);
    }
}

/// The buckets of a histogram add up to the number of pixels within its
/// range; so, where the range holds every pixel, to the number of pixels.
pub proof fn lemma_histogram_total(temps: Seq<Temp>, range: TempRange, n: int)
    requires
        range.wf(),
        n > 0,
    ensures
        seq_sum(histogram_spec(temps, range, n)) == count_in_range(temps, range),
        (forall|i: int| 0 <= i < temps.len() ==> range.contains_spec(#[trigger] temps[i].microkelvin as int))
            ==> seq_sum(histogram_spec(temps, range, n)) == temps.len(),
    decreases temps.len(),
{
    if temps.len() == 0 {
        lemma_sum_zeros(n as nat);
    } else {
        let init = temps.drop_last();
        lemma_histogram_total(init, range, n);
        lemma_histogram_len(init, range, n);
        let t = temps.last().microkelvin as int;
        lemma_bucket_in_bounds(range, n, t);
        if let Some(b) = bucket_of(range, n, t) {
            lemma_sum_increment(histogram_spec(init, range, n), b);
        }
        if forall|i: int| 0 <= i < temps.len() ==> range.contains_spec(#[trigger] temps[i].microkelvin as int) {
            assert forall|i: int| 0 <= i < init.len() implies range.contains_spec(#[trigger] init[i].microkelvin as int) by {
                assert(init[i] == temps[i]);
            }
            assert(range.contains_spec(temps[temps.len() - 1].microkelvin as int));
        }
    }
}

impl ThermalData {
    /// The pixels fill the grid, there is at least one, and each lies in
    /// bounds.
    pub open spec fn wf(&self) -> bool {
        &&& self.temperatures@.len() == self.width * self.height
        &&& self.temperatures@.len() > 0
        &&& forall|i: int| 0 <= i < self.temperatures@.len() ==> #[trigger] self.temperatures@[i].in_bounds()
    }

    pub open spec fn index_of(&self, p: PixelPos) -> int {
        p.y * self.width + p.x
    }

    /// The temperature at column `x`, row `y`.
    pub fn temperature_at(&self, x: usize, y: usize) -> (r: Temp)
        requires
            self.wf(),
            x < self.width,
            y < self.height,
        ensures
            r == self.temperatures@[y * self.width + x],
    {
        assert(y * self.width + x < self.temperatures@.len()) by (nonlinear_arith)
            requires
                x < self.width,
                y < self.height,
                self.temperatures@.len() == self.width * self.height,
        ;
        assert(y * self.width <= y * self.width + x);
        let len = self.temperatures.len();
        assert(y * self.width + x < len);
        let row: usize = y * self.width;
        self.temperatures[row + x]
    }

    /// The positions of a coldest and of a hottest pixel.
    pub fn get_min_max_pos(&self) -> (r: (PixelPos, PixelPos))
        requires
            self.wf(),
        ensures
            r.0.x < self.width && r.0.y < self.height,
            r.1.x < self.width && r.1.y < self.height,
            forall|i: int| 0 <= i < self.temperatures@.len() ==>
                self.temperatures@[self.index_of(r.0)].microkelvin <= #[trigger] self.temperatures@[i].microkelvin
                && self.temperatures@[i].microkelvin <= self.temperatures@[self.index_of(r.1)].microkelvin,
    {
        let n = self.temperatures.len();
        let mut lo: usize = 0;
        let mut hi: usize = 0;
        let mut i: usize = 1;
        while i < n
            invariant
                n == self.temperatures@.len(),
                0 <= lo < n,
                0 <= hi < n,
                1 <= i <= n,
                forall|j: int| 0 <= j < i ==>
                    self.temperatures@[lo as int].microkelvin <= #[trigger] self.temperatures@[j].microkelvin
                    && self.temperatures@[j].microkelvin <= self.temperatures@[hi as int].microkelvin,
            decreases n - i,
        {
            if self.temperatures[i].microkelvin < self.temperatures[lo].microkelvin {
                lo = i;
            }
            if self.temperatures[i].microkelvin > self.temperatures[hi].microkelvin {
                hi = i;
            }
            i = i + 1;
        }
        let w = self.width;
        proof {
            assert(w > 0) by (nonlinear_arith)
                requires
                    n == w * self.height,
                    n > 0,
            ;
            vstd::arithmetic::div_mod::lemma_fundamental_div_mod(lo as int, w as int);
            vstd::arithmetic::div_mod::lemma_fundamental_div_mod(hi as int, w as int);
            vstd::arithmetic::div_mod::lemma_div_pos_is_pos(lo as int, w as int);
            vstd::arithmetic::div_mod::lemma_div_pos_is_pos(hi as int, w as int);
            assert((lo as int) / (w as int) < self.height) by (nonlinear_arith)
                requires
                    (lo as int) < w * self.height,
                    w > 0,
                    lo as int == w * ((lo as int) / (w as int)) + (lo as int) % (w as int),
                    (lo as int) % (w as int) >= 0,
            ;
            assert((hi as int) / (w as int) < self.height) by (nonlinear_arith)
                requires
                    (hi as int) < w * self.height,
                    w > 0,
                    hi as int == w * ((hi as int) / (w as int)) + (hi as int) % (w as int),
                    (hi as int) % (w as int) >= 0,
            ;
        }
        let pmin = PixelPos { x: lo % w, y: lo / w };
        let pmax = PixelPos { x: hi % w, y: hi / w };
        proof {
            assert(self.index_of(pmin) == lo as int) by (nonlinear_arith)
                requires
                    lo as int == w * ((lo as int) / (w as int)) + (lo as int) % (w as int),
                    pmin.y == (lo as int) / (w as int),
                    pmin.x == (lo as int) % (w as int),
                    self.width == w,
            ;
            assert(self.index_of(pmax) == hi as int) by (nonlinear_arith)
                requires
                    hi as int == w * ((hi as int) / (w as int)) + (hi as int) % (w as int),
                    pmax.y == (hi as int) / (w as int),
                    pmax.x == (hi as int) % (w as int),
                    self.width == w,
            ;
        }
        (pmin, pmax)
    }

    /// The image whose every pixel is `gradient`'s color at the pixel's
    /// position within `range`.
    pub fn map_to_image(&self, gradient: &ThermalGradient, range: TempRange) -> (r: ColorImage)
        requires
            self.wf(),
            gradient.wf(),
            range.wf(),
        ensures
            r.width == self.width,
            r.height == self.height,
            r.pixels@.len() == self.temperatures@.len(),
            forall|i: int| 0 <= i < r.pixels@.len() ==>
                #[trigger] r.pixels@[i] == color_at(gradient.stops@, range.factor_spec(self.temperatures@[i].microkelvin as int)),
    {
        let n = self.temperatures.len();
        let mut pixels: Vec<Color> = Vec::with_capacity(n);
        let mut i: usize = 0;
        while i < n
            invariant
                n == self.temperatures@.len(),
                self.wf(),
                gradient.wf(),
                range.wf(),
                i <= n,
                pixels@.len() == i,
                forall|j: int| 0 <= j < i ==>
                    #[trigger] pixels@[j] == color_at(gradient.stops@, range.factor_spec(self.temperatures@[j].microkelvin as int)),
            decreases n - i,
        {
            let f = range.factor(self.temperatures[i]);
            pixels.push(gradient.get_color(f));
            i = i + 1;
        }
        ColorImage { width: self.width, height: self.height, pixels }
    }
}

impl ThermalDataHistogram {
    /// Counts the pixels of `data` in `bucket_count` equal slices of `range`;
    /// pixels outside `range` are left out.
    pub fn from_thermal_data(data: &ThermalData, range: TempRange, bucket_count: usize) -> (r: ThermalDataHistogram)
        requires
            data.wf(),
            range.wf(),
            0 < bucket_count <= MAX_BUCKETS,
        ensures
            r.range == range,
            r.buckets@.len() == bucket_count,
            forall|b: int| 0 <= b < bucket_count ==>
                #[trigger] r.buckets@[b] as int == histogram_spec(data.temperatures@, range, bucket_count as int)[b],
    {
        let n = data.temperatures.len();
        let nb = bucket_count as i64;
        let mut buckets: Vec<u64> = Vec::with_capacity(bucket_count);
        let mut k: usize = 0;
        while k < bucket_count
            invariant
                k <= bucket_count,
                buckets@.len() == k,
                forall|b: int| 0 <= b < k ==> #[trigger] buckets@[b] == 0,
            decreases bucket_count - k,
        {
            buckets.push(0);
            k = k + 1;
        }
        let ghost temps = data.temperatures@;
        let ghost bc = bucket_count as int;
        proof {
            assert(temps.take(0) =~= Seq::<Temp>::empty());
        }
        let lo = range.low.microkelvin;
        let hi = range.high.microkelvin;
        let mut i: usize = 0;
        while i < n
            invariant
                n == temps.len(),
                temps == data.temperatures@,
                data.wf(),
                range.wf(),
                lo == range.low.microkelvin,
                hi == range.high.microkelvin,
                bc == bucket_count,
                bc > 0,
                nb == bc,
                bc <= MAX_BUCKETS,
                i <= n,
                buckets@.len() == bucket_count,
                histogram_spec(temps.take(i as int), range, bc).len() == bc,
                forall|b: int| 0 <= b < bc ==>
                    #[trigger] buckets@[b] as int == histogram_spec(temps.take(i as int), range, bc)[b],
                forall|b: int| 0 <= b < bc ==> #[trigger] buckets@[b] <= i,
            decreases n - i,
        {
            let t = data.temperatures[i].microkelvin;
            proof {
                assert(temps.take(i as int + 1).drop_last() =~= temps.take(i as int));
                assert(temps.take(i as int + 1).last() == temps[i as int]);
                assert(temps[i as int].in_bounds());
                lemma_bucket_in_bounds(range, bc, t as int);
            }
            if lo <= t && t <= hi {
                let b: i64 = if hi == lo {
                    0
                } else {
                    proof {
                        assert(0 <= (t - lo) * nb <= (hi - lo) * nb) by (nonlinear_arith)
                            requires
                                0 <= t - lo <= hi - lo,
                                nb > 0,
                        ;
                        assert((hi - lo) * nb <= 2 * crate::temperature::TEMP_LIMIT * MAX_BUCKETS) by (nonlinear_arith)
                            requires
                                0 <= hi - lo <= 2 * crate::temperature::TEMP_LIMIT,
                                0 < nb <= MAX_BUCKETS,
                        ;
                    }
                    let q: i64 = ((t - lo) * nb) / (hi - lo);
                    if q >= nb {
                        nb - 1
                    } else {
                        q
                    }
                };
                let bu = b as usize;
                let old_count = buckets[bu];
                buckets.set(bu, old_count + 1);
            }
            i = i + 1;
        }
        proof {
            assert(temps.take(n as int) =~= temps);
        }
        ThermalDataHistogram { range, buckets }
    }
}

} // verus!
