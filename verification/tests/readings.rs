use battery_ha_bridge::reading::{r3, rounded_decimal, Reading};
use serde_json::Value;

/// The same rounding in floating point.
fn expected(v: f32) -> Value {
    Value::from(((v as f64) * 1000.0).round() / 1000.0)
}

fn check(bits: u32) {
    let v = f32::from_bits(bits);
    let got = r3(Reading { bits });
    let want = expected(v);
    assert_eq!(got, want, "bits {bits:#x}, value {v}");
    assert_eq!(got.to_string(), want.to_string(), "bits {bits:#x}, value {v}");
}

#[test]
fn rounding_agrees_with_floating_point() {
    let edges: [f32; 24] = [
        0.0, -0.0, 1.0, -1.0, 87.129, 50.0, 3.3335, 0.0005, 0.00049999997, -0.0004, 0.0015, 1e-30,
        1e-45, 2.5, 8388607.5, 8388608.0, 16777216.0, 1.8446744e16, 1.8446744e19, 1e20, -3.4028235e38,
        3.4028235e38, 1.7014118e38, 12345.678,
    ];
    for v in edges {
        check(v.to_bits());
    }
    let mut bits: u32 = 0;
    while bits < 0xffff_0000 {
        check(bits);
        bits += 39_119;
    }
}

#[test]
fn values_that_are_not_finite_become_null() {
    for v in [f32::INFINITY, f32::NEG_INFINITY, f32::NAN] {
        assert_eq!(r3(Reading { bits: v.to_bits() }), Value::Null);
    }
}

#[test]
fn three_decimals_are_kept() {
    assert_eq!(r3(Reading { bits: 87.1294f32.to_bits() }).to_string(), "87.129");
    assert_eq!(r3(Reading { bits: 87.1296f32.to_bits() }).to_string(), "87.13");
    assert_eq!(r3(Reading { bits: (-0.0625f32).to_bits() }).to_string(), "-0.063");
    assert_eq!(r3(Reading { bits: 50f32.to_bits() }).to_string(), "50.0");
}

#[test]
fn rounded_readings_are_written_with_three_decimals() {
    let written = |v: f32| rounded_decimal(Reading { bits: v.to_bits() });
    assert_eq!(written(87.129), Some("87.129".to_string()));
    assert_eq!(written(50.0), Some("50.000".to_string()));
    assert_eq!(written(-0.0625), Some("-0.063".to_string()));
    assert_eq!(written(-0.0001), Some("-0.000".to_string()));
    assert_eq!(written(0.0005), Some("0.001".to_string()));
    assert_eq!(written(f32::MAX), Some("340282346638528859811704183484516925440.000".to_string()));
    assert_eq!(written(f32::INFINITY), None);
    assert_eq!(written(f32::NAN), None);
}

#[test]
fn the_nearest_double_is_taken() {
    let bits = |v: f32| r3(Reading { bits: v.to_bits() }).as_f64().unwrap().to_bits();
    assert_eq!(bits(87.1294), 0x4055_c841_8937_4bc7);
    assert_eq!(bits(-0.0625), 0xbfb0_20c4_9ba5_e354);
    assert_eq!(bits(0.0005), 0x3f50_624d_d2f1_a9fc);
    assert_eq!(bits(-0.0001), 0x8000_0000_0000_0000);
    assert_eq!(bits(3.4028235e38), 0x47ef_ffff_e000_0000);
}

#[test]
fn whole_readings_are_told_exactly() {
    for exponent in 150u32..255 {
        for fraction in [0u32, 1, 2, 0x2a_aaab, 0x40_0000, 0x55_5555, 0x7f_fffe, 0x7f_ffff] {
            let v = f32::from_bits(exponent << 23 | fraction);
            assert_eq!(r3(Reading { bits: v.to_bits() }).as_f64(), Some(v as f64));
            assert_eq!(r3(Reading { bits: (-v).to_bits() }).as_f64(), Some(-v as f64));
        }
    }
}
