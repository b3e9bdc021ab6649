use dataset_loader::number::truncate;

fn bits(value: f32) -> u32 {
    value.to_bits()
}

#[test]
fn truncates_whole_numbers_to_themselves() {
    assert_eq!(truncate(bits(0.0)), 0);
    assert_eq!(truncate(bits(1.0)), 1);
    assert_eq!(truncate(bits(63.0)), 63);
    assert_eq!(truncate(bits(-7.0)), -7);
    assert_eq!(truncate(bits(16777216.0)), 16777216);
}

#[test]
fn truncates_toward_zero_not_to_nearest() {
    assert_eq!(truncate(bits(1.9)), 1);
    assert_eq!(truncate(bits(2.3)), 2);
    assert_eq!(truncate(bits(0.99)), 0);
    assert_eq!(truncate(bits(-1.9)), -1);
    assert_eq!(truncate(bits(-0.5)), 0);
    assert_eq!(truncate(bits(2.5)), 2);
    assert_eq!(truncate(bits(3.5)), 3);
}

#[test]
fn truncates_known_bit_patterns() {
    assert_eq!(truncate(0x0000_0000), 0);
    assert_eq!(truncate(0x8000_0000), 0);
    assert_eq!(truncate(0x3f80_0000), 1);
    assert_eq!(truncate(0xbf80_0000), -1);
    assert_eq!(truncate(0x3fff_ffff), 1);
    assert_eq!(truncate(0x4000_0000), 2);
    assert_eq!(truncate(0x4b00_0001), 8388609);
    assert_eq!(truncate(0x4b80_0000), 16777216);
}

#[test]
fn holds_values_outside_the_range_to_its_bounds() {
    assert_eq!(truncate(bits(1e10)), i32::MAX);
    assert_eq!(truncate(bits(-1e10)), i32::MIN);
    assert_eq!(truncate(bits(2147483648.0)), i32::MAX);
    assert_eq!(truncate(bits(-2147483648.0)), i32::MIN);
    assert_eq!(truncate(bits(f32::MAX)), i32::MAX);
    assert_eq!(truncate(bits(f32::MIN)), i32::MIN);
    assert_eq!(truncate(bits(f32::INFINITY)), i32::MAX);
    assert_eq!(truncate(bits(f32::NEG_INFINITY)), i32::MIN);
}

#[test]
fn keeps_the_largest_values_inside_the_range() {
    assert_eq!(truncate(bits(2147483520.0)), 2147483520);
    assert_eq!(truncate(bits(-2147483520.0)), -2147483520);
    assert_eq!(truncate(0x4eff_ffff), 2147483520);
    assert_eq!(truncate(0xceff_ffff), -2147483520);
    assert_eq!(truncate(0xcf00_0000), i32::MIN);
    assert_eq!(truncate(0x4f00_0000), i32::MAX);
}

#[test]
fn truncates_what_is_not_a_number_to_zero() {
    assert_eq!(truncate(bits(f32::NAN)), 0);
    assert_eq!(truncate(0x7fc0_0000), 0);
    assert_eq!(truncate(0xffc0_0000), 0);
    assert_eq!(truncate(0x7f80_0001), 0);
    assert_eq!(truncate(0xffff_ffff), 0);
}

#[test]
fn truncates_tiny_values_to_zero() {
    assert_eq!(truncate(bits(f32::MIN_POSITIVE)), 0);
    assert_eq!(truncate(0x0000_0001), 0);
    assert_eq!(truncate(0x8000_0001), 0);
    assert_eq!(truncate(0x007f_ffff), 0);
    assert_eq!(truncate(bits(f32::EPSILON)), 0);
    assert_eq!(truncate(0x3f7f_ffff), 0);
}

#[test]
fn agrees_with_the_cast_on_a_sweep_of_patterns() {
    let mut pattern: u32 = 0;
    loop {
        let expected = f32::from_bits(pattern) as i32;
        assert_eq!(truncate(pattern), expected, "pattern {:#010x}", pattern);
        match pattern.checked_add(65_521) {
            Some(next) => pattern = next,
            None => break,
        }
    }
}

#[test]
fn agrees_with_the_cast_at_every_exponent() {
    for exponent in 0u32..256 {
        for fraction in [0u32, 1, 0x40_0000, 0x7f_ffff] {
            for sign in [0u32, 0x8000_0000] {
                let pattern = sign | (exponent << 23) | fraction;
                let expected = f32::from_bits(pattern) as i32;
                assert_eq!(truncate(pattern), expected, "pattern {:#010x}", pattern);
            }
        }
    }
}
