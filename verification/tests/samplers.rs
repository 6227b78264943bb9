use ieee754::Ieee754;
use opendp::error::ErrorVariant;
use opendp::samplers::{
    sample_geometric_buffer, Binary32, Binary64, EntropyPool, SampleUniform, SampleUniformExponent,
    SampleUniformInt, SampleUniformMantissa,
};

/// Bytes from a small generator with a fixed seed, so that the tests repeat.
fn stream(seed: u64, count: usize) -> Vec<u8> {
    let mut state = seed;
    let mut bytes = Vec::with_capacity(count);
    while bytes.len() < count {
        state ^= state << 13;
        state ^= state >> 7;
        state ^= state << 17;
        let word = state.wrapping_mul(0x2545_f491_4f6c_dd1d);
        bytes.extend_from_slice(&word.to_be_bytes()[..4]);
    }
    bytes.truncate(count);
    bytes
}

#[test]
fn pool_hands_out_its_bytes_in_order() {
    let mut pool = EntropyPool::new(vec![1, 2, 3, 4, 5]);
    assert_eq!(pool.remaining(), 5);
    assert_eq!(pool.next_byte(), Ok(1));
    assert_eq!(pool.fill_bytes(3), Ok(vec![2, 3, 4]));
    assert_eq!(pool.remaining(), 1);
    // a request that cannot be met takes nothing
    assert_eq!(pool.fill_bytes(2).unwrap_err().variant, ErrorVariant::Entropy);
    assert_eq!(pool.remaining(), 1);
    assert_eq!(pool.fill_bytes(0), Ok(vec![]));
    assert_eq!(pool.next_byte(), Ok(5));
    assert_eq!(pool.next_byte().unwrap_err().variant, ErrorVariant::Entropy);
}

#[test]
fn geometric_draw_finds_the_first_set_bit() {
    // two zero bytes, then 0001_0000: 16 + 3
    let bytes = vec![0, 0, 0x10, 0xff, 0xff, 0xff, 0xff, 0xff, 9];
    let mut pool = EntropyPool::new(bytes.clone());
    assert_eq!(sample_geometric_buffer::<8>(&mut pool, true), Ok(Some(19)));
    // in constant time all eight bytes are taken
    assert_eq!(pool.remaining(), 1);

    let mut pool = EntropyPool::new(bytes);
    assert_eq!(sample_geometric_buffer::<8>(&mut pool, false), Ok(Some(19)));
    // otherwise the draw ends at the first byte that is not zero
    assert_eq!(pool.remaining(), 6);
}

#[test]
fn geometric_draw_of_zero_bytes_gives_nothing() {
    for constant_time in [true, false] {
        let mut pool = EntropyPool::new(vec![0; 5]);
        assert_eq!(sample_geometric_buffer::<4>(&mut pool, constant_time), Ok(None));
        assert_eq!(pool.remaining(), 1);
    }
    let mut pool = EntropyPool::new(vec![0x80]);
    assert_eq!(sample_geometric_buffer::<1>(&mut pool, true), Ok(Some(0)));
    let mut pool = EntropyPool::new(vec![0x01]);
    assert_eq!(sample_geometric_buffer::<1>(&mut pool, false), Ok(Some(7)));
}

#[test]
fn geometric_draw_fails_when_the_pool_runs_dry() {
    let mut pool = EntropyPool::new(vec![0, 0, 1]);
    let res = sample_geometric_buffer::<4>(&mut pool, true);
    assert_eq!(res.unwrap_err().variant, ErrorVariant::Entropy);
    assert_eq!(pool.remaining(), 3);

    // bit by bit the set bit is found before the pool ends
    let mut pool = EntropyPool::new(vec![0, 0, 1]);
    assert_eq!(sample_geometric_buffer::<4>(&mut pool, false), Ok(Some(23)));

    let mut pool = EntropyPool::new(vec![0, 0, 0]);
    let res = sample_geometric_buffer::<4>(&mut pool, false);
    assert_eq!(res.unwrap_err().variant, ErrorVariant::Entropy);
    assert_eq!(pool.remaining(), 0);
}

#[test]
fn geometric_draws_agree_in_both_modes() {
    let bytes = stream(11, 4000);
    let mut quick = EntropyPool::new(bytes.clone());
    for start in (0..3900).step_by(100) {
        let mut steady = EntropyPool::new(bytes[start..start + 16].to_vec());
        let mut fast = EntropyPool::new(bytes[start..start + 16].to_vec());
        assert_eq!(
            sample_geometric_buffer::<16>(&mut steady, true),
            sample_geometric_buffer::<16>(&mut fast, false)
        );
    }
    assert!(sample_geometric_buffer::<16>(&mut quick, false).is_ok());
}

#[test]
fn uniform_integers_spell_the_bytes() {
    let mut pool = EntropyPool::new(vec![0x12, 0x01, 0x02, 0x01, 0x02, 0x03, 0x04, 1, 2, 3, 4, 5, 6, 7, 8]);
    assert_eq!(u8::sample_uniform_int(&mut pool), Ok(0x12));
    assert_eq!(u16::sample_uniform_int(&mut pool), Ok(0x0102));
    assert_eq!(u32::sample_uniform_int(&mut pool), Ok(0x0102_0304));
    assert_eq!(u64::sample_uniform_int(&mut pool), Ok(0x0102_0304_0506_0708));
    assert_eq!(u8::sample_uniform_int(&mut pool).unwrap_err().variant, ErrorVariant::Entropy);
    let mut pool = EntropyPool::new((1..=16).collect());
    assert_eq!(
        u128::sample_uniform_int(&mut pool),
        Ok(0x0102_0304_0506_0708_090a_0b0c_0d0e_0f10)
    );
    let mut pool = EntropyPool::new(vec![0xff; 32]);
    // the greatest number is thrown away, whatever the bound
    let res = u128::sample_uniform_int_0_u(&mut pool, 1);
    assert_eq!(res.unwrap_err().variant, ErrorVariant::Entropy);
    let mut pool = EntropyPool::new(vec![0; 16]);
    assert_eq!(u128::sample_uniform_int_0_u(&mut pool, 1), Ok(0));
}

#[test]
fn uniform_draw_below_throws_away_what_would_favour_low_numbers() {
    // below 100 from one byte: 200 and more is thrown away
    let mut pool = EntropyPool::new(vec![250, 200, 199, 7]);
    assert_eq!(u8::sample_uniform_int_0_u(&mut pool, 100), Ok(99));
    assert_eq!(pool.remaining(), 1);
    assert_eq!(u8::sample_uniform_int_0_u(&mut pool, 100), Ok(7));
    let mut pool = EntropyPool::new(vec![200, 255]);
    let res = u8::sample_uniform_int_0_u(&mut pool, 100);
    assert_eq!(res.unwrap_err().variant, ErrorVariant::Entropy);
    assert_eq!(pool.remaining(), 0);
    // two bytes below 7: 65535 % 7 = 1, so 65534 and 65535 are thrown away
    let mut pool = EntropyPool::new(vec![0xff, 0xfe, 0xff, 0xfd]);
    assert_eq!(u16::sample_uniform_int_0_u(&mut pool, 7), Ok(65533 % 7));
}

#[test]
fn test_sample_uniform_int() {
    let mut pool = EntropyPool::new(stream(2024, 50_000));
    let mut counts = [0usize; 7];
    for _ in 0..10000 {
        let sample = u32::sample_uniform_int_0_u(&mut pool, 7).unwrap();
        assert!(sample < 7);
        counts[sample as usize] += 1;
    }
    println!("{:?}", counts);
    // each number comes about one time in seven
    for count in counts {
        assert!(1278 < count && count < 1578);
    }
}

#[test]
fn mantissa_keeps_the_bits_of_the_format() {
    let mut pool = EntropyPool::new(vec![0xff; 7]);
    assert_eq!(Binary64::sample_uniform_mantissa(&mut pool), Ok(0x000f_ffff_ffff_ffff));
    let mut pool = EntropyPool::new(vec![0xf1, 2, 3, 4, 5, 6, 7]);
    assert_eq!(Binary64::sample_uniform_mantissa(&mut pool), Ok(0x0001_0203_0405_0607));
    let mut pool = EntropyPool::new(vec![0xff; 3]);
    assert_eq!(Binary32::sample_uniform_mantissa(&mut pool), Ok(0x007f_ffff));
    let mut pool = EntropyPool::new(vec![0xff; 6]);
    let res = Binary64::sample_uniform_mantissa(&mut pool);
    assert_eq!(res.unwrap_err().variant, ErrorVariant::Entropy);
}

#[test]
fn exponent_throws_the_last_bit_away() {
    let mut last = vec![0u8; 16];
    last[15] = 1;
    let mut pool = EntropyPool::new(last.clone());
    assert_eq!(Binary32::sample_uniform_exponent(&mut pool, true), Ok(None));
    last[15] = 2;
    let mut pool = EntropyPool::new(last);
    assert_eq!(Binary32::sample_uniform_exponent(&mut pool, true), Ok(Some(126)));
    let mut pool = EntropyPool::new(vec![0x40; 128]);
    assert_eq!(Binary64::sample_uniform_exponent(&mut pool, true), Ok(Some(1)));
    let mut last = vec![0u8; 128];
    last[127] = 1;
    let mut pool = EntropyPool::new(last);
    assert_eq!(Binary64::sample_uniform_exponent(&mut pool, false), Ok(None));
}

#[test]
fn standard_uniform_is_made_of_band_and_mantissa() {
    // band 0 is the upper half of the unit interval
    let mut pool = EntropyPool::new(vec![0x80, 0, 0, 0, 0, 0, 0, 0]);
    let drawn = Binary64::sample_standard_uniform(&mut pool, false).unwrap();
    assert!(!drawn.negative);
    assert_eq!(drawn.exponent, -1);
    assert_eq!(drawn.mantissa, 0);
    assert_eq!(f64::recompose(drawn.negative, drawn.exponent, drawn.mantissa), 0.5);

    // one zero byte and 0010_0000: band 10, with the mantissa of one half
    let mut pool = EntropyPool::new(vec![0, 0x20, 0x08, 0, 0, 0, 0, 0, 0]);
    let drawn = Binary64::sample_standard_uniform(&mut pool, false).unwrap();
    assert_eq!(drawn.exponent, -11);
    assert_eq!(drawn.mantissa, 1 << 51);
    assert_eq!(
        f64::recompose(drawn.negative, drawn.exponent, drawn.mantissa),
        1.5 / 2048.0
    );

    let mut pool = EntropyPool::new(vec![0x01, 0x40, 0, 0]);
    let drawn = Binary32::sample_standard_uniform(&mut pool, false).unwrap();
    assert_eq!(drawn.exponent, -8);
    assert_eq!(drawn.mantissa, 1 << 22);
    assert_eq!(f32::recompose(drawn.negative, drawn.exponent, drawn.mantissa), 1.5 / 256.0);
}

#[test]
fn standard_uniform_repeats_a_draw_that_was_thrown_away() {
    // sixteen bytes that end in the last bit, then a draw that is kept
    let mut bytes = vec![0u8; 16];
    bytes[15] = 1;
    bytes.extend_from_slice(&[0x20, 0, 0, 1]);
    let mut pool = EntropyPool::new(bytes);
    let drawn = Binary32::sample_standard_uniform(&mut pool, false).unwrap();
    assert_eq!(drawn.exponent, -3);
    assert_eq!(drawn.mantissa, 1);
    assert_eq!(pool.remaining(), 0);
}

#[test]
fn standard_uniform_lies_in_the_unit_interval_band_by_band() {
    let mut pool = EntropyPool::new(stream(7, 200_000));
    let mut bands = [0usize; 4];
    let draws = 20000;
    for _ in 0..draws {
        let drawn = Binary64::sample_standard_uniform(&mut pool, false).unwrap();
        let value = f64::recompose(drawn.negative, drawn.exponent, drawn.mantissa);
        assert!(0.0 <= value && value < 1.0);
        assert!(-1023 <= drawn.exponent && drawn.exponent <= -1);
        assert!(drawn.mantissa < (1 << 52));
        let band = (-drawn.exponent - 1) as usize;
        if band < 4 {
            bands[band] += 1;
        }
    }
    // band k holds about the share 2^(-k-1) of the draws
    for (band, count) in bands.iter().enumerate() {
        let expected = draws as f64 / f64::powi(2.0, band as i32 + 1);
        assert!((*count as f64 - expected).abs() < 0.1 * expected + 50.0);
    }
}

#[test]
fn standard_uniform_in_constant_time_takes_whole_buffers() {
    let mut pool = EntropyPool::new(stream(5, 135 * 3));
    for left in [270, 135, 0] {
        let drawn = Binary64::sample_standard_uniform(&mut pool, true).unwrap();
        assert!(drawn.exponent <= -1);
        assert_eq!(pool.remaining(), left);
    }
    let res = Binary64::sample_standard_uniform(&mut pool, true);
    assert_eq!(res.err().map(|e| e.variant), Some(ErrorVariant::Entropy));
}
