use ieee754::Ieee754;
use opendp::chain::ChainMT;
use opendp::dist::AbsoluteDistance;
use opendp::error::{Error, ErrorVariant, Fallible};
use opendp::exponential::{
    check_scaled, make_base_discrete_exponential, make_base_exponential_candidates,
    make_base_exponential_candidates_gumbel, report_noisy_max, select_max, BYTES_PER_DRAW,
};
use opendp::quantile::{make_quantile_scorer_de, make_sized_quantile_scorer_de, Proportion};
use opendp::samplers::{EntropyPool, UniformParts};
use opendp::stability::StabilityRelation;
use std::cell::Cell;

/// A source of bytes from a small generator with a fixed seed.
fn source(seed: u64) -> impl Fn(usize) -> Fallible<Vec<u8>> {
    let state = Cell::new(seed);
    move |count: usize| {
        let mut bytes = Vec::with_capacity(count);
        let mut word = state.get();
        while bytes.len() < count {
            word ^= word << 13;
            word ^= word >> 7;
            word ^= word << 17;
            bytes.extend_from_slice(&word.wrapping_mul(0x2545_f491_4f6c_dd1d).to_be_bytes()[..4]);
        }
        bytes.truncate(count);
        state.set(word);
        Ok(bytes)
    }
}

/// The key of a floating-point number: greater numbers have greater keys.
fn key(value: f64) -> u64 {
    let bits = value.to_bits();
    if bits >> 63 == 1 {
        !bits
    } else {
        bits | (1 << 63)
    }
}

/// The score with Gumbel noise, as a key.
fn gumbel(scale: f64) -> impl Fn(&i64, &UniformParts<u64>) -> u64 {
    move |score: &i64, parts: &UniformParts<u64>| {
        let uniform = f64::recompose(parts.negative, parts.exponent, parts.mantissa);
        key(scale * *score as f64 - (-uniform.ln()).ln())
    }
}

#[test]
fn select_max_keeps_the_first_of_equal_keys() {
    assert_eq!(select_max(&vec![1, 3, 3, 2]), 1);
    assert_eq!(select_max(&vec![5]), 0);
    assert_eq!(select_max(&vec![-4, -9, -4]), 0);
    assert_eq!(select_max(&vec![1, 2, 3, 4]), 3);
    let none: Vec<i32> = Vec::new();
    assert_eq!(select_max(&none), 0);
}

#[test]
fn report_noisy_max_draws_once_for_each_score() {
    // each draw: band 0 and seven bytes of mantissa
    let mut bytes = Vec::new();
    for high in [0x01u8, 0x0f, 0x0f, 0x02] {
        bytes.push(0x80);
        bytes.extend_from_slice(&[high, 0, 0, 0, 0, 0, 0]);
    }
    let mut pool = EntropyPool::new(bytes.clone());
    // the key is the mantissa: the second and third are equal, the second wins
    let by_mantissa = |_score: &i64, parts: &UniformParts<u64>| parts.mantissa;
    let res = report_noisy_max(&vec![0, 0, 0, 0], &mut pool, false, &by_mantissa);
    assert_eq!(res, Ok(1));
    assert_eq!(pool.remaining(), 0);

    // the key is the score alone
    let mut pool = EntropyPool::new(bytes.clone());
    let by_score = |score: &i64, _parts: &UniformParts<u64>| *score;
    assert_eq!(report_noisy_max(&vec![3, 9, 4], &mut pool, false, &by_score), Ok(1));
    assert_eq!(pool.remaining(), 8);

    // without scores nothing is drawn
    let mut pool = EntropyPool::new(bytes.clone());
    assert_eq!(report_noisy_max(&Vec::new(), &mut pool, false, &by_score), Ok(0));
    assert_eq!(pool.remaining(), 32);

    // five scores need five draws
    let mut pool = EntropyPool::new(bytes);
    let res = report_noisy_max(&vec![1, 2, 3, 4, 5], &mut pool, false, &by_score);
    assert_eq!(res.unwrap_err().variant, ErrorVariant::Entropy);
}

#[test]
fn mod_test_exponential() {
    let de = make_base_discrete_exponential::<AbsoluteDistance<i64>, _, _, _>(
        1,
        false,
        source(1),
        gumbel(1.),
    )
    .unwrap();
    let release = de.invoke(&vec![1, 2, 3, 2, 1]).unwrap();
    println!("{:?}", release);
    assert!(release < 5);
}

#[test]
fn discrete_exponential_prefers_the_greatest_score() {
    let de = make_base_discrete_exponential::<AbsoluteDistance<i64>, _, _, _>(
        1,
        false,
        source(99),
        gumbel(1.),
    )
    .unwrap();
    let mut counts = [0usize; 5];
    for _ in 0..4000 {
        let release = de.invoke(&vec![1, 2, 3, 2, 1]).unwrap();
        assert!(release < 5);
        counts[release] += 1;
    }
    println!("{:?}", counts);
    for index in [0, 1, 3, 4] {
        assert!(counts[2] > counts[index]);
    }
}

#[test]
fn exponential_candidates_report_a_candidate() {
    for constant_time in [false, true] {
        let plain = make_base_exponential_candidates(2i64, constant_time, source(3), gumbel(0.5))
            .unwrap();
        let release = plain.invoke(&vec![1, 2, 3, 2, 1]).unwrap();
        println!("{:?}", release);
        assert!(release < 5);
        let trick =
            make_base_exponential_candidates_gumbel(2i64, constant_time, source(4), gumbel(0.5))
                .unwrap();
        let release = trick.invoke(&vec![1, 2, 3, 2, 1]).unwrap();
        println!("{:?}", release);
        assert!(release < 5);
    }
}

#[test]
fn a_scale_that_is_not_positive_is_refused() {
    for scale in [0i64, -1] {
        let de = make_base_discrete_exponential::<AbsoluteDistance<i64>, _, _, _>(
            scale,
            false,
            source(1),
            gumbel(1.),
        );
        assert_eq!(de.err().map(|e| e.variant), Some(ErrorVariant::MakeMeasurement));
        let plain = make_base_exponential_candidates(scale, false, source(1), gumbel(1.));
        assert_eq!(plain.err().map(|e| e.variant), Some(ErrorVariant::MakeMeasurement));
        let trick = make_base_exponential_candidates_gumbel(scale, false, source(1), gumbel(1.));
        assert_eq!(trick.err().map(|e| e.variant), Some(ErrorVariant::MakeMeasurement));
    }
}

#[test]
fn a_source_that_fails_fails_the_mechanism() {
    let dry = |_count: usize| -> Fallible<Vec<u8>> { Err(Error::new(ErrorVariant::Entropy)) };
    let de = make_base_discrete_exponential::<AbsoluteDistance<i64>, _, _, _>(1, true, dry, gumbel(1.))
        .unwrap();
    assert_eq!(de.invoke(&vec![1, 2, 3]).unwrap_err().variant, ErrorVariant::Entropy);
    // a source that hands out too little runs dry
    let short = |count: usize| -> Fallible<Vec<u8>> { Ok(vec![0x80; count / BYTES_PER_DRAW]) };
    let de =
        make_base_discrete_exponential::<AbsoluteDistance<i64>, _, _, _>(1, false, short, gumbel(1.))
            .unwrap();
    assert_eq!(de.invoke(&vec![1, 2, 3]).unwrap_err().variant, ErrorVariant::Entropy);
}

#[test]
fn the_privacy_relation_compares_the_scaled_output_distance() {
    // d_out * scale >= d_in
    assert_eq!(check_scaled(&3i64, &6, &2), Ok(true));
    assert_eq!(check_scaled(&3i64, &7, &2), Ok(false));
    assert_eq!(check_scaled(&3i64, &0, &0), Ok(true));
    assert_eq!(check_scaled(&3i64, &-1, &2).unwrap_err().variant, ErrorVariant::InvalidDistance);
    assert_eq!(check_scaled(&3i64, &1, &-2).unwrap_err().variant, ErrorVariant::InvalidDistance);
    // a product beyond the type is still compared exactly
    assert_eq!(check_scaled(&i64::MAX, &i64::MAX, &i64::MAX), Ok(true));
    assert_eq!(check_scaled(&u64::MAX, &u64::MAX, &u64::MAX), Ok(true));

    let de = make_base_discrete_exponential::<AbsoluteDistance<i64>, _, _, _>(
        3,
        false,
        source(1),
        gumbel(3.),
    )
    .unwrap();
    assert_eq!(de.check(&6, &2), Ok(true));
    assert_eq!(de.check(&7, &2), Ok(false));
    assert_eq!(de.check(&-1, &2).unwrap_err().variant, ErrorVariant::InvalidDistance);
    assert_eq!(de.check(&1, &-2).unwrap_err().variant, ErrorVariant::InvalidDistance);
    assert!(!de.privacy_relation.eval(&-1, &2));
    assert!(de.privacy_relation.eval(&6, &2));
    // where it holds, it holds of every greater output distance
    for more in 2..50 {
        assert_eq!(de.check(&6, &more), Ok(true));
    }
}

#[test]
fn scorers_check_their_candidates_and_their_quantile() {
    let three_quarters = Proportion { numer: 3, denom: 4 };
    let unsorted = make_quantile_scorer_de(vec![7, 12, 12, 72], three_quarters);
    assert_eq!(unsorted.err().map(|e| e.variant), Some(ErrorVariant::MakeTransformation));
    let unsorted = make_sized_quantile_scorer_de(100, vec![7, 5], three_quarters);
    assert_eq!(unsorted.err().map(|e| e.variant), Some(ErrorVariant::MakeTransformation));
    let beyond = make_quantile_scorer_de(vec![7, 12], Proportion { numer: 5, denom: 4 });
    assert_eq!(beyond.err().map(|e| e.variant), Some(ErrorVariant::InvalidDistance));
    let undefined = make_sized_quantile_scorer_de(9, vec![7, 12], Proportion { numer: 0, denom: 0 });
    assert_eq!(undefined.err().map(|e| e.variant), Some(ErrorVariant::InvalidDistance));
}

#[test]
fn scorers_have_their_derived_constants() {
    let three_quarters = Proportion { numer: 3, denom: 4 };
    let trans = make_quantile_scorer_de(vec![7, 12, 14, 72, 76], three_quarters).unwrap();
    // twice the larger of 3/4 and 1/4, in quarters
    match &trans.stability_relation {
        StabilityRelation::Constant { value, .. } => assert_eq!(*value, 6),
        _ => panic!("a scorer has a constant"),
    }
    let one_quarter = Proportion { numer: 1, denom: 4 };
    let trans = make_quantile_scorer_de(vec![7, 12, 14, 72, 76], one_quarter).unwrap();
    match &trans.stability_relation {
        StabilityRelation::Constant { value, .. } => assert_eq!(*value, 6),
        _ => panic!("a scorer has a constant"),
    }
    assert_eq!(trans.check(&2, &12), Ok(true));
    assert_eq!(trans.check(&2, &11), Ok(false));
    let sized = make_sized_quantile_scorer_de(100, vec![7, 12, 14, 72, 76], three_quarters).unwrap();
    // one, in quarters
    match &sized.stability_relation {
        StabilityRelation::Constant { value, .. } => assert_eq!(*value, 4),
        _ => panic!("a scorer has a constant"),
    }
    let data: Vec<i32> = (0..100).collect();
    // counts 8, 13, 15, 73, 77 against the ideal 75, in quarters
    assert_eq!(sized.invoke(&data), Ok(vec![-268, -248, -240, -8, -8]));
}

#[test]
fn test_int() {
    let candidates = vec![7, 12, 14, 72, 76];
    let three_quarters = Proportion { numer: 3, denom: 4 };
    let trans = make_quantile_scorer_de(candidates.clone(), three_quarters).unwrap();
    let trans_sized = make_sized_quantile_scorer_de(100, candidates, three_quarters).unwrap();
    // the scores come in quarters
    let exp_mech = make_base_discrete_exponential::<AbsoluteDistance<i64>, _, _, _>(
        1,
        false,
        source(5),
        gumbel(0.25),
    )
    .unwrap();

    let quantile_meas = ChainMT::make(&exp_mech, &trans).unwrap();
    let idx = quantile_meas.invoke(&(0..100).collect()).unwrap();
    println!("idx {:?}", idx);
    assert!(idx < 5);
    println!("{:?}", quantile_meas.check(&2, &2));

    let sized_mech = make_base_discrete_exponential::<AbsoluteDistance<i64>, _, _, _>(
        1,
        false,
        source(6),
        gumbel(0.25),
    )
    .unwrap();
    let quantile_sized_meas = ChainMT::make(&sized_mech, &trans_sized).unwrap();
    let idx = quantile_sized_meas.invoke(&(0..100).collect()).unwrap();
    println!("idx sized {:?}", idx);
    assert!(idx < 5);
    println!("{:?}", quantile_sized_meas.check(&2, &2));
}

#[test]
fn the_quantile_mechanism_prefers_the_candidates_near_the_quantile() {
    let candidates = vec![7, 12, 14, 72, 76];
    let three_quarters = Proportion { numer: 3, denom: 4 };
    let trans = make_quantile_scorer_de(candidates, three_quarters).unwrap();
    let exp_mech = make_base_discrete_exponential::<AbsoluteDistance<i64>, _, _, _>(
        1,
        false,
        source(17),
        gumbel(0.25),
    )
    .unwrap();
    let quantile_meas = ChainMT::make(&exp_mech, &trans).unwrap();
    let data: Vec<i32> = (0..100).collect();
    let mut counts = [0usize; 5];
    for _ in 0..2000 {
        counts[quantile_meas.invoke(&data).unwrap()] += 1;
    }
    println!("{:?}", counts);
    // 72 and 76 lie as near to the quantile, 75, as each other
    for far in [0, 1, 2] {
        assert!(counts[3] > counts[far]);
        assert!(counts[4] > counts[far]);
    }
}
