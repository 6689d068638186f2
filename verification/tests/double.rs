use tourist_db::double::{mean, Double, LATITUDE_LIMIT, LONGITUDE_LIMIT};

#[test]
fn limits_are_the_patterns_of_the_bounds() {
    assert_eq!(LONGITUDE_LIMIT, 180.0f64.to_bits());
    assert_eq!(LATITUDE_LIMIT, 90.0f64.to_bits());
}

#[test]
fn bits_go_in_and_out() {
    let d = Double::from_bits(2.3376f64.to_bits());
    assert_eq!(d.to_bits(), 2.3376f64.to_bits());
    assert_eq!(d, Double { bits: 0x4002_B367_A0F9_096C });
    assert_eq!(Double::zero().to_bits(), 0);
    assert_eq!(f64::from_bits(Double::zero().to_bits()), 0.0);
}

#[test]
fn longitude_test_agrees_with_comparison() {
    let values = [
        0.0,
        -0.0,
        1.0,
        179.0,
        180.0,
        -180.0,
        180.00000000000003,
        -180.00000000000003,
        179.99999999999997,
        256.0,
        128.0,
        1e-310,
        f64::MIN_POSITIVE,
        f64::MAX,
        f64::MIN,
        f64::INFINITY,
        f64::NEG_INFINITY,
        f64::NAN,
        -f64::NAN,
    ];
    for v in values {
        let d = Double::from_bits(v.to_bits());
        assert_eq!(d.is_longitude(), v >= -180.0 && v <= 180.0, "{v}");
        assert_eq!(d.is_latitude(), v >= -90.0 && v <= 90.0, "{v}");
    }
}

#[test]
fn range_tests_agree_with_comparison_near_the_limits() {
    for limit in [90.0f64, 180.0] {
        let at = limit.to_bits();
        for step in 0..2000u64 {
            for bits in [at - 1000 + step, (at - 1000 + step) | (1 << 63)] {
                let v = f64::from_bits(bits);
                let d = Double::from_bits(bits);
                assert_eq!(d.is_longitude(), v.abs() <= 180.0, "{v}");
                assert_eq!(d.is_latitude(), v.abs() <= 90.0, "{v}");
            }
        }
    }
}

#[test]
fn mean_is_the_quotient_as_the_machine_rounds_it() {
    for count in 1..=300u64 {
        for total in count..=5 * count {
            let expected = total as f64 / count as f64;
            assert_eq!(
                mean(total, count).to_bits(),
                expected.to_bits(),
                "{total} / {count}"
            );
        }
    }
}

#[test]
fn mean_of_many_ratings_is_the_quotient() {
    let cases: [(u64, u64); 8] = [
        (2_147_483_647, 2_147_483_647),
        (10_737_418_235, 2_147_483_647),
        (4_294_967_293, 2_147_483_647),
        (4_294_967_294, 2_147_483_647),
        (8_589_934_587, 2_147_483_647),
        (8_589_934_588, 2_147_483_647),
        (7_000_000_001, 3_000_000_000),
        (1_000_000_007, 999_999_937),
    ];
    for (total, count) in cases {
        let expected = total as f64 / count as f64;
        assert_eq!(mean(total, count).to_bits(), expected.to_bits(), "{total} / {count}");
    }
}

#[test]
fn mean_takes_quotients_up_to_eight() {
    assert_eq!(f64::from_bits(mean(7, 1).to_bits()), 7.0);
    assert_eq!(f64::from_bits(mean(15, 2).to_bits()), 7.5);
    assert_eq!(f64::from_bits(mean(23, 3).to_bits()), 23.0 / 3.0);
    assert_eq!(f64::from_bits(mean(1, 1).to_bits()), 1.0);
}

#[test]
fn mean_rounds_up_into_the_next_binade() {
    // 2 - 2^-54 and 4 - 2^-53 lie nearer to 2 and 4 than to the doubles below
    let count: u64 = 1 << 54;
    assert_eq!(mean(2 * count - 1, count).to_bits(), 2.0f64.to_bits());
    assert_eq!(mean(4 * count - 1, count).to_bits(), 4.0f64.to_bits());
    assert_eq!(mean(8 * count - 1, count).to_bits(), 8.0f64.to_bits());
}

#[test]
fn mean_breaks_ties_to_even() {
    // 1 + 2^-53 lies halfway between 1 and the next double
    let count: u64 = 1 << 53;
    assert_eq!(mean(count + 1, count).to_bits(), 1.0f64.to_bits());
    // 1 + 3 * 2^-53 lies halfway between the next two
    assert_eq!(mean(count + 3, count).to_bits(), 1.0f64.to_bits() + 2);
}
