use thermal_capture::temperature::{Temp, TempRange, TemperatureUnit, FACTOR_SCALE};

fn range(low: i64, high: i64) -> TempRange {
    TempRange { low: Temp { microkelvin: low }, high: Temp { microkelvin: high } }
}

#[test]
fn suffix_of_each_unit() {
    assert_eq!(TemperatureUnit::Kelvin.suffix(), "K");
    assert_eq!(TemperatureUnit::Celsius.suffix(), "°C");
    assert_eq!(TemperatureUnit::Fahrenheit.suffix(), "°F");
}

#[test]
fn default_unit_is_kelvin() {
    assert_eq!(TemperatureUnit::default(), TemperatureUnit::Kelvin);
}

#[test]
fn fixed_points_of_conversion() {
    assert_eq!(TemperatureUnit::Celsius.from_kelvin(273_150_000), 0);
    assert_eq!(TemperatureUnit::Fahrenheit.from_kelvin(273_150_000), 32_000_000);
    assert_eq!(TemperatureUnit::Fahrenheit.from_kelvin(373_150_000), 212_000_000);
    assert_eq!(TemperatureUnit::Kelvin.from_kelvin(373_150_000), 373_150_000);
}

#[test]
fn conversion_to_kelvin() {
    assert_eq!(TemperatureUnit::Celsius.to_kelvin(0), 273_150_000);
    assert_eq!(TemperatureUnit::Celsius.to_kelvin(100_000_000), 373_150_000);
    assert_eq!(TemperatureUnit::Fahrenheit.to_kelvin(32_000_000), 273_150_000);
    assert_eq!(TemperatureUnit::Fahrenheit.to_kelvin(212_000_000), 373_150_000);
    assert_eq!(TemperatureUnit::Fahrenheit.to_kelvin(-40_000_000), 233_150_000);
}

#[test]
fn fahrenheit_rounding() {
    // one millionth of a kelvin is 1.8 millionths of a degree Fahrenheit
    assert_eq!(TemperatureUnit::Fahrenheit.from_kelvin(273_150_001), 32_000_001);
    assert_eq!(TemperatureUnit::Fahrenheit.from_kelvin(273_149_999), 31_999_998);
    assert_eq!(TemperatureUnit::Fahrenheit.to_kelvin(32_000_001), 273_150_001);
    assert_eq!(TemperatureUnit::Fahrenheit.to_kelvin(31_999_998), 273_149_999);
    // 32.02 degrees Fahrenheit is 273.161111... kelvin
    assert_eq!(TemperatureUnit::Fahrenheit.to_kelvin(32_020_000), 273_161_111);
}

#[test]
fn round_trip_through_each_unit() {
    let units = [TemperatureUnit::Kelvin, TemperatureUnit::Celsius, TemperatureUnit::Fahrenheit];
    let values: [i64; 9] = [-1_000_000, -273_150_000, -1, 0, 1, 7, 273_150_000, 299_990_000, 123_456_789];
    for u in units {
        for k in values {
            assert_eq!(u.to_kelvin(u.from_kelvin(k)), k);
        }
    }
}

#[test]
fn round_trip_from_each_unit() {
    let units = [TemperatureUnit::Kelvin, TemperatureUnit::Celsius, TemperatureUnit::Fahrenheit];
    let values: [i64; 8] = [-40_000_000, -1, 0, 1, 32_020_000, 98_600_000, 212_000_000, 500_123_457];
    for u in units {
        for v in values {
            let back = u.from_kelvin(u.to_kelvin(v));
            // at most one millionth of a degree, well within 1e-4
            assert!(v - 1 <= back && back <= v);
            if u != TemperatureUnit::Fahrenheit {
                assert_eq!(back, v);
            }
        }
    }
    assert_eq!(TemperatureUnit::Fahrenheit.from_kelvin(TemperatureUnit::Fahrenheit.to_kelvin(32_020_000)), 32_019_999);
}

#[test]
fn temp_from_and_to_unit() {
    let t = Temp::from_unit(TemperatureUnit::Celsius, 100_000_000);
    assert_eq!(t.microkelvin, 373_150_000);
    assert_eq!(t.to_unit(TemperatureUnit::Fahrenheit), 212_000_000);
    assert_eq!(t.to_unit(TemperatureUnit::Kelvin), 373_150_000);
}

#[test]
fn factor_over_water_range() {
    let r = range(273_150_000, 373_150_000);
    assert_eq!(r.factor(Temp { microkelvin: 273_150_000 }), 0);
    assert_eq!(r.factor(Temp { microkelvin: 373_150_000 }), FACTOR_SCALE);
    assert_eq!(r.factor(Temp { microkelvin: 323_150_000 }), 5000);
    assert_eq!(r.factor(Temp { microkelvin: 298_150_000 }), 2500);
}

#[test]
fn factor_clamps_outside_range() {
    let r = range(273_150_000, 373_150_000);
    assert_eq!(r.factor(Temp { microkelvin: 200_000_000 }), 0);
    assert_eq!(r.factor(Temp { microkelvin: 500_000_000 }), FACTOR_SCALE);
}

#[test]
fn factor_of_zero_width_range_is_zero() {
    let r = range(30000, 30000);
    assert_eq!(r.factor(Temp { microkelvin: 30000 }), 0);
    assert_eq!(r.factor(Temp { microkelvin: 40000 }), 0);
}

#[test]
fn new_range_orders_its_ends() {
    let r = TempRange::new(Temp { microkelvin: 500 }, Temp { microkelvin: 100 });
    assert_eq!(r, range(100, 500));
}

#[test]
fn join_of_overlapping_ranges() {
    assert_eq!(range(0, 10).join(range(5, 20)), range(0, 20));
}

#[test]
fn join_is_commutative_associative_idempotent() {
    let a = range(0, 10);
    let b = range(5, 20);
    let c = range(-7, 3);
    assert_eq!(a.join(b), b.join(a));
    assert_eq!(a.join(b).join(c), a.join(b.join(c)));
    assert_eq!(a.join(a), a);
    assert_eq!(range(-7, 20), a.join(b).join(c));
}
