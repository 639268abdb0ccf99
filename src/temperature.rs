//! Temperatures in fixed point: every value is held in millionths of a degree
//! of its unit, and a `Temp` in millionths of a kelvin.
use vstd::prelude::*;

verus! {

/// Millionths of a kelvin at zero degrees Celsius.
pub const ZERO_CELSIUS: i64 = 273_150_000;

/// Millionths of a degree Fahrenheit at zero degrees Celsius.
pub const FAHRENHEIT_OFFSET: i64 = 32_000_000;

/// The largest magnitude of a value handed to a unit conversion.
pub const VALUE_LIMIT: i64 = 1_000_000_000_000_000;

/// The largest magnitude of a temperature held in a `Temp`.
pub const TEMP_LIMIT: i64 = 1_000_000_000_000;

/// The scale of a normalized position: `FACTOR_SCALE` stands for 1.0.
pub const FACTOR_SCALE: i64 = 10000;

/// Floor of `a / b` for a positive `b`.
pub open spec fn floor_div(a: int, b: int) -> int {
    a / b
}

fn exec_floor_div(a: i64, b: i64) -> (r: i64)
    requires
        0 < b <= VALUE_LIMIT,
        -VALUE_LIMIT * 100 <= a <= VALUE_LIMIT * 100,
    ensures
        r == floor_div(a as int, b as int),
{
    if a >= 0 {
        let r = a / b;
        r
    } else {
        let n: i64 = -a;
        let q: i64 = (n + b - 1) / b;
        proof {
            let ni = n as int;
            let bi = b as int;
            let ai = a as int;
            let qi = q as int;
            assert(qi == (ni + bi - 1) / bi);
            assert((ni + bi - 1) / bi * bi <= ni + bi - 1 < (ni + bi - 1) / bi * bi + bi)
                by (nonlinear_arith)
                requires
                    bi > 0,
                    ni >= 0,
            ;
            assert(-qi * bi <= ai < -qi * bi + bi) by (nonlinear_arith)
                requires
                    qi * bi <= ni + bi - 1 < qi * bi + bi,
                    ai == -ni,
            ;
            assert(ai / bi == -qi) by (nonlinear_arith)
                requires
                    -qi * bi <= ai < -qi * bi + bi,
                    bi > 0,
            {
                vstd::arithmetic::div_mod::lemma_fundamental_div_mod(ai, bi);
                assert(ai == bi * (ai / bi) + ai % bi);
                assert(0 <= ai % bi < bi);
            }
        }
        -q
    }
}

/// A unit in which a temperature can be written.
#[derive(Debug, Clone, Copy, PartialEq, Eq, Structural)]
pub enum TemperatureUnit {
    Kelvin,
    Celsius,
    Fahrenheit,
}

impl Default for TemperatureUnit {
    /// Kelvin, the unit used where none is chosen.
    fn default() -> (r: TemperatureUnit)
        ensures
            r == TemperatureUnit::Kelvin,
    {
        TemperatureUnit::Kelvin
    }
}

impl TemperatureUnit {
    pub open spec fn suffix_spec(&self) -> Seq<char> {
        match self {
            TemperatureUnit::Kelvin => seq!['K'],
            TemperatureUnit::Celsius => seq!['°', 'C'],
            TemperatureUnit::Fahrenheit => seq!['°', 'F'],
        }
    }

    /// The text written after a value in this unit.
    pub fn suffix(&self) -> (r: String)
        ensures
            r@ == self.suffix_spec(),
    {
        match self {
            TemperatureUnit::Kelvin => {
                proof {
                    reveal_strlit("K");
                }
                "K".to_string()
            },
            TemperatureUnit::Celsius => {
                proof {
                    reveal_strlit("°C");
                }
                "°C".to_string()
            },
            TemperatureUnit::Fahrenheit => {
                proof {
                    reveal_strlit("°F");
                }
                "°F".to_string()
            },
        }
    }

    /// Millionths of a kelvin written in millionths of this unit. Fahrenheit
    /// rounds down.
    pub open spec fn from_kelvin_spec(&self, kelvin: int) -> int {
        match self {
            TemperatureUnit::Kelvin => kelvin,
            TemperatureUnit::Celsius => kelvin - ZERO_CELSIUS,
            TemperatureUnit::Fahrenheit => floor_div((kelvin - ZERO_CELSIUS) * 9, 5)
                + FAHRENHEIT_OFFSET,
        }
    }

    /// Millionths of this unit written in millionths of a kelvin. Fahrenheit
    /// rounds to the nearest, halves up: `(value - offset) * 5 / 9`.
    pub open spec fn to_kelvin_spec(&self, value: int) -> int {
        match self {
            TemperatureUnit::Kelvin => value,
            TemperatureUnit::Celsius => value + ZERO_CELSIUS,
            TemperatureUnit::Fahrenheit => floor_div((value - FAHRENHEIT_OFFSET) * 10 + 9, 18)
                + ZERO_CELSIUS,
        }
    }

    /// Converts millionths of a kelvin to millionths of this unit.
    pub fn from_kelvin(&self, kelvin: i64) -> (r: i64)
        requires
            -VALUE_LIMIT <= kelvin <= VALUE_LIMIT,
        ensures
            r == self.from_kelvin_spec(kelvin as int),
    {
        match self {
            TemperatureUnit::Kelvin => kelvin,
            TemperatureUnit::Celsius => kelvin - ZERO_CELSIUS,
            TemperatureUnit::Fahrenheit => exec_floor_div((kelvin - ZERO_CELSIUS) * 9, 5)
                + FAHRENHEIT_OFFSET,
        }
    }

    /// Converts millionths of this unit to millionths of a kelvin.
    pub fn to_kelvin(&self, value: i64) -> (r: i64)
        requires
            -VALUE_LIMIT <= value <= VALUE_LIMIT,
        ensures
            r == self.to_kelvin_spec(value as int),
    {
        match self {
            TemperatureUnit::Kelvin => value,
            TemperatureUnit::Celsius => value + ZERO_CELSIUS,
            TemperatureUnit::Fahrenheit => exec_floor_div((value - FAHRENHEIT_OFFSET) * 10 + 9, 18)
                + ZERO_CELSIUS,
        }
    }
}

/// Converting a temperature out of kelvin and back gives it unchanged, in
/// every unit.
pub proof fn lemma_unit_round_trip(unit: TemperatureUnit, kelvin: int)
    ensures
        unit.to_kelvin_spec(unit.from_kelvin_spec(kelvin)) == kelvin,
{
    if unit == TemperatureUnit::Fahrenheit {
        let d = kelvin - ZERO_CELSIUS;
        let q = (d * 9) / 5;
        assert(q * 5 <= d * 9 < q * 5 + 5) by (nonlinear_arith)
            requires
                q == (d * 9) / 5,
        ;
        let m = (q * 10 + 9) / 18;
        assert(m * 18 <= q * 10 + 9 < m * 18 + 18) by (nonlinear_arith)
            requires
                m == (q * 10 + 9) / 18,
        ;
        assert(m == d) by (nonlinear_arith)
            requires
                q * 5 <= d * 9 < q * 5 + 5,
                m * 18 <= q * 10 + 9 < m * 18 + 18,
        ;
    }
}

/// Converting a value of a unit to kelvin and back moves it by at most one
/// millionth of a degree, and not at all in kelvin or Celsius.
pub proof fn lemma_unit_round_trip_from_unit(unit: TemperatureUnit, value: int)
    ensures
        value - 1 <= unit.from_kelvin_spec(unit.to_kelvin_spec(value)) <= value,
        unit != TemperatureUnit::Fahrenheit ==> unit.from_kelvin_spec(unit.to_kelvin_spec(value)) == value,
{
    if unit == TemperatureUnit::Fahrenheit {
        let e = value - FAHRENHEIT_OFFSET;
        let m = (e * 10 + 9) / 18;
        assert(m * 18 <= e * 10 + 9 < m * 18 + 18) by (nonlinear_arith)
            requires
                m == (e * 10 + 9) / 18,
        ;
        let q = (m * 9) / 5;
        assert(q * 5 <= m * 9 < q * 5 + 5) by (nonlinear_arith)
            requires
                q == (m * 9) / 5,
        ;
        assert(e - 1 <= q <= e) by (nonlinear_arith)
            requires
                m * 18 <= e * 10 + 9 < m * 18 + 18,
                q * 5 <= m * 9 < q * 5 + 5,
        ;
    }
}

/// A temperature, held in millionths of a kelvin.
#[derive(Debug, Clone, Copy, PartialEq, Eq, Structural)]
pub struct Temp {
    pub microkelvin: i64,
}

impl Temp {
    /// Within the bounds that range arithmetic is defined for.
    pub open spec fn in_bounds(&self) -> bool {
        -TEMP_LIMIT <= self.microkelvin <= TEMP_LIMIT
    }

    /// The temperature written as `value` millionths of `unit`.
    pub fn from_unit(unit: TemperatureUnit, value: i64) -> (r: Temp)
        requires
            -VALUE_LIMIT <= value <= VALUE_LIMIT,
        ensures
            r.microkelvin == unit.to_kelvin_spec(value as int),
    {
        Temp { microkelvin: unit.to_kelvin(value) }
    }

    /// This temperature in millionths of `unit`.
    pub fn to_unit(&self, unit: TemperatureUnit) -> (r: i64)
        requires
            -VALUE_LIMIT <= self.microkelvin <= VALUE_LIMIT,
        ensures
            r == unit.from_kelvin_spec(self.microkelvin as int),
    {
        unit.from_kelvin(self.microkelvin)
    }
}

/// A closed interval of temperatures.
#[derive(Debug, Clone, Copy, PartialEq, Eq, Structural)]
pub struct TempRange {
    pub low: Temp,
    pub high: Temp,
}

pub open spec fn min_int(a: int, b: int) -> int {
    if a <= b { a } else { b }
}

pub open spec fn max_int(a: int, b: int) -> int {
    if a >= b { a } else { b }
}

pub open spec fn clamp_int(x: int, lo: int, hi: int) -> int {
    if x < lo { lo } else if x > hi { hi } else { x }
}

impl TempRange {
    /// Its ends are ordered and in bounds.
    pub open spec fn wf(&self) -> bool {
        &&& self.low.in_bounds()
        &&& self.high.in_bounds()
        &&& self.low.microkelvin <= self.high.microkelvin
    }

    /// The smallest range that holds both `a` and `b`.
    pub fn new(a: Temp, b: Temp) -> (r: TempRange)
        requires
            a.in_bounds(),
            b.in_bounds(),
        ensures
            r.wf(),
            r.low.microkelvin == min_int(a.microkelvin as int, b.microkelvin as int),
            r.high.microkelvin == max_int(a.microkelvin as int, b.microkelvin as int),
    {
        if a.microkelvin <= b.microkelvin {
            TempRange { low: a, high: b }
        } else {
            TempRange { low: b, high: a }
        }
    }

    /// Where `t` lies in the range, scaled so that `low` is 0 and `high` is
    /// `FACTOR_SCALE`, rounded down and clamped to that interval. A range of
    /// zero width gives 0 for every temperature.
    pub open spec fn factor_spec(&self, t: int) -> int {
        let lo = self.low.microkelvin as int;
        let hi = self.high.microkelvin as int;
        if hi == lo {
            0
        } else {
            clamp_int(floor_div((t - lo) * FACTOR_SCALE, hi - lo), 0, FACTOR_SCALE as int)
        }
    }

    /// The position of `t` within the range, in units of `1 / FACTOR_SCALE`.
    pub fn factor(&self, t: Temp) -> (r: i64)
        requires
            self.wf(),
            t.in_bounds(),
        ensures
            r == self.factor_spec(t.microkelvin as int),
            0 <= r <= FACTOR_SCALE,
    {
        let lo = self.low.microkelvin;
        let hi = self.high.microkelvin;
        if hi == lo {
            0
        } else {
            assert(-2 * TEMP_LIMIT * FACTOR_SCALE <= (t.microkelvin - lo) * FACTOR_SCALE
                <= 2 * TEMP_LIMIT * FACTOR_SCALE) by (nonlinear_arith)
                requires
                    -2 * TEMP_LIMIT <= t.microkelvin - lo <= 2 * TEMP_LIMIT,
            ;
            let q = exec_floor_div((t.microkelvin - lo) * FACTOR_SCALE, hi - lo);
            if q < 0 {
                0
            } else if q > FACTOR_SCALE {
                FACTOR_SCALE
            } else {
                q
            }
        }
    }

    pub open spec fn join_spec(&self, other: TempRange) -> TempRange {
        TempRange {
            low: if self.low.microkelvin <= other.low.microkelvin { self.low } else { other.low },
            high: if self.high.microkelvin >= other.high.microkelvin { self.high } else { other.high },
        }
    }

    /// The smallest range that holds both ranges.
    pub fn join(&self, other: TempRange) -> (r: TempRange)
        ensures
            r == self.join_spec(other),
            self.wf() && other.wf() ==> r.wf(),
    {
        TempRange {
            low: if self.low.microkelvin <= other.low.microkelvin { self.low } else { other.low },
            high: if self.high.microkelvin >= other.high.microkelvin { self.high } else { other.high },
        }
    }

    /// Whether `t` lies within the range, ends included.
    pub open spec fn contains_spec(&self, t: int) -> bool {
        self.low.microkelvin <= t <= self.high.microkelvin
    }
}

/// Joining ranges is commutative, associative and idempotent, and the join
/// holds every temperature that either range holds.
pub proof fn lemma_join_laws(a: TempRange, b: TempRange, c: TempRange, t: int)
    requires
        a.wf(),
        b.wf(),
        c.wf(),
    ensures
        a.join_spec(b) == b.join_spec(a),
        a.join_spec(b).join_spec(c) == a.join_spec(b.join_spec(c)),
        a.join_spec(a) == a,
        a.join_spec(b).wf(),
        a.contains_spec(t) || b.contains_spec(t) ==> a.join_spec(b).contains_spec(t),
{
}

} // verus!
