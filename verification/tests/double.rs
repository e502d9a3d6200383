use antani_sw::double::F64;

/// The readings of the clock that are next to something special.
fn readings() -> Vec<u64> {
    let mut readings = vec![0, 500_000, 600_000, 1_000_000, 1_100_000, u64::MAX];
    for k in 0..64 {
        let power = 1u64 << k;
        readings.extend([power, power - 1, power + 1]);
    }
    let mut x: u64 = 0x2545_f491_4f6c_dd1d;
    for _ in 0..200 {
        x ^= x << 13;
        x ^= x >> 7;
        x ^= x << 17;
        readings.extend([x, x >> 20, x >> 30, x >> 44]);
    }
    readings
}

fn seconds(reading: u64) -> f64 {
    reading as f64 / 1_000_000.0
}

#[test]
fn times_agree_with_floating_point() {
    for from in readings() {
        for to in readings() {
            let t = F64::between(from, to);
            let expected = seconds(to) - seconds(from);
            assert_eq!(t.bits, expected.to_bits(), "{} {}", from, to);
            let later = (expected + 1.0).to_bits();
            assert_eq!(t.one_second_later().bits, later, "{} {}", from, to);
        }
    }
}

#[test]
fn exact_times() {
    assert_eq!(F64::between(0, 0).bits, 0);
    assert_eq!(F64::between(7, 7).bits, 0);
    assert_eq!(F64::between(0, 1).bits, 0x3eb0_c6f7_a0b5_ed8d);
    assert_eq!(F64::between(0, 1_000_000).bits, 0x3ff0_0000_0000_0000);
    assert_eq!(F64::between(600_000, 1_100_000).bits, 0x3fe0_0000_0000_0001);
    assert_eq!(F64::between(1_500_000, 500_000).bits, 0xbff0_0000_0000_0000);
    assert_eq!(F64::between(1_500_000, 500_000).one_second_later().bits, 0);
    assert_eq!(F64::half_a_second().bits, 0.5f64.to_bits());
}

#[test]
fn comparisons_agree_with_floating_point() {
    let mut numbers = vec![
        0.0,
        -0.0,
        1.0,
        -1.0,
        0.5,
        0.5000000000000001,
        f64::NAN,
        -f64::NAN,
        f64::INFINITY,
        f64::NEG_INFINITY,
        f64::MAX,
        f64::MIN,
        f64::MIN_POSITIVE,
        -f64::MIN_POSITIVE,
        f64::from_bits(1),
        f64::from_bits(0x000f_ffff_ffff_ffff),
        f64::from_bits(0x8000_0000_0000_0001),
        f64::from_bits(0x7ff0_0000_0000_0001),
    ];
    numbers.extend(readings().into_iter().map(f64::from_bits));
    for a in &numbers {
        for b in &numbers {
            let greater = F64 { bits: a.to_bits() }.is_greater(F64 { bits: b.to_bits() });
            assert_eq!(greater, a > b, "{} {}", a, b);
        }
    }
}

#[test]
fn the_clock_never_runs_back() {
    let mut sorted = readings();
    sorted.sort();
    for from in [0, 1, 600_000, 1 << 40, u64::MAX] {
        for i in 1..sorted.len() {
            let earlier = F64::between(from, sorted[i - 1]);
            assert!(!earlier.is_greater(F64::between(from, sorted[i])));
            assert!(!earlier.is_greater(earlier.one_second_later()));
        }
    }
}
