use antani_sw::float::F32;

fn check_every_channel(bits: u32) {
    let gain = F32 { bits };
    for channel in 0..=255u8 {
        let expected = (channel as f32 * f32::from_bits(bits)) as u8;
        assert_eq!(gain.scale(channel), expected, "{} {:#x}", channel, bits);
    }
}

#[test]
fn scale_agrees_on_the_gains_in_use() {
    for gain in [1.0f32, 0.7, 0.5, 0.25, 0.0] {
        check_every_channel(gain.to_bits());
    }
}

#[test]
fn scale_agrees_on_special_numbers() {
    for gain in [
        f32::NAN,
        -f32::NAN,
        f32::INFINITY,
        f32::NEG_INFINITY,
        -0.0,
        -1.0,
        -0.3,
        f32::MAX,
        f32::MIN,
        f32::MIN_POSITIVE,
        f32::EPSILON,
        255.0,
        256.0,
        1.0e10,
        3.0e-39,
    ] {
        check_every_channel(gain.to_bits());
    }
    check_every_channel(1);
    check_every_channel(0x007f_ffff);
    check_every_channel(0x7f7f_ffff);
    check_every_channel(0x7f80_0001);
}

#[test]
fn scale_agrees_next_to_whole_results() {
    // products that single precision rounds up to a whole number or just misses it
    for whole in 1..=255u32 {
        for channel in 1..=255u32 {
            let bits = (whole as f32 / channel as f32).to_bits();
            for near in [bits - 1, bits, bits + 1] {
                let gain = F32 { bits: near };
                let expected = (channel as f32 * f32::from_bits(near)) as u8;
                assert_eq!(gain.scale(channel as u8), expected);
            }
        }
    }
}

#[test]
fn scale_agrees_on_scattered_bit_patterns() {
    let mut bits: u32 = 0x2545_f491;
    for _ in 0..20_000 {
        bits ^= bits << 13;
        bits ^= bits >> 17;
        bits ^= bits << 5;
        let channel = (bits >> 7) as u8;
        let expected = (channel as f32 * f32::from_bits(bits)) as u8;
        assert_eq!(F32 { bits }.scale(channel), expected);
        // the same fraction, with an exponent at which the result is in range
        let small = (bits & 0x007f_ffff) | ((117 + (bits >> 28)) << 23);
        let expected = (channel as f32 * f32::from_bits(small)) as u8;
        assert_eq!(F32 { bits: small }.scale(channel), expected);
    }
}

#[test]
fn exact_results_of_scale() {
    assert_eq!(F32 { bits: 0.7f32.to_bits() }.scale(255), 178);
    assert_eq!(F32 { bits: 0.7f32.to_bits() }.scale(10), 7);
    assert_eq!(F32 { bits: 0.5f32.to_bits() }.scale(255), 127);
    assert_eq!(F32 { bits: 0.25f32.to_bits() }.scale(3), 0);
    assert_eq!(F32 { bits: 2.0f32.to_bits() }.scale(200), 255);
}

#[test]
fn unit_gain_keeps_and_zero_gain_turns_off() {
    for channel in 0..=255u8 {
        assert_eq!(F32::from_ratio(1, 1).scale(channel), channel);
        assert_eq!(F32::from_ratio(0, 1).scale(channel), 0);
    }
}

#[test]
fn greater_gains_are_never_darker() {
    let gains = [
        F32::from_ratio(0, 1),
        F32::from_ratio(1, 1000),
        F32::from_ratio(1, 4),
        F32::from_ratio(1, 2),
        F32::from_ratio(7, 10),
        F32::from_ratio(999, 1000),
        F32::from_ratio(1, 1),
    ];
    for channel in 0..255u8 {
        for i in 0..gains.len() {
            assert!(gains[i].scale(channel) <= channel);
            assert!(gains[i].scale(channel) <= gains[i].scale(channel + 1));
            for j in i..gains.len() {
                assert!(gains[i].scale(channel) <= gains[j].scale(channel));
            }
        }
    }
}

#[test]
fn from_ratio_is_the_nearest_number() {
    assert_eq!(F32::from_ratio(1, 1).bits, 1.0f32.to_bits());
    assert_eq!(F32::from_ratio(7, 10).bits, 0.7f32.to_bits());
    assert_eq!(F32::from_ratio(20, 1).bits, 20.0f32.to_bits());
    assert_eq!(F32::from_ratio(50, 1).bits, 50.0f32.to_bits());
    assert_eq!(F32::from_ratio(0, 7).bits, 0);
    for num in 1..400u32 {
        for den in 1..400u32 {
            assert_eq!(F32::from_ratio(num, den).bits, (num as f32 / den as f32).to_bits());
        }
    }
    for i in 0..2_000u32 {
        let num = 16_777_215 - 37 * i;
        let den = 1 + 8_191 * i;
        assert_eq!(F32::from_ratio(num, den).bits, (num as f32 / den as f32).to_bits());
        assert_eq!(F32::from_ratio(i + 1, num).bits, ((i + 1) as f32 / num as f32).to_bits());
    }
}

#[test]
fn greater_gains_are_never_darker_among_special_numbers() {
    let gains = [f32::NEG_INFINITY, -1.0, -0.0, 0.0, 1.0e-40, 0.5, 1.0, 300.0, f32::INFINITY];
    for i in 0..gains.len() {
        for j in i..gains.len() {
            for channel in 0..=255u8 {
                let a = F32 { bits: gains[i].to_bits() }.scale(channel);
                let b = F32 { bits: gains[j].to_bits() }.scale(channel);
                assert!(a <= b);
            }
        }
    }
    assert_eq!(F32 { bits: 0x8000_0000 }.scale(255), F32 { bits: 0 }.scale(255));
}
