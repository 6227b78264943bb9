use opendp::error::ErrorVariant;
use opendp::quantile::Proportion;
use opendp::stability::StabilityRelation;
use opendp::utility::{
    count_lt, make_quantile_discrete_exponential, make_sized_quantile_discrete_exponential, score,
    score_candidate,
};

#[test]
fn count_lt_on_sorted_data() {
    let x: Vec<i64> = vec![1, 3, 3, 8];
    assert_eq!(count_lt(&x, &0), 0);
    assert_eq!(count_lt(&x, &1), 0);
    assert_eq!(count_lt(&x, &3), 1);
    assert_eq!(count_lt(&x, &4), 3);
    assert_eq!(count_lt(&x, &8), 3);
    assert_eq!(count_lt(&x, &9), 4);
    let empty: Vec<i64> = Vec::new();
    assert_eq!(count_lt(&empty, &9), 0);
}

#[test]
fn score_candidate_weighs_what_lies_below_and_above() {
    let quarter = Proportion { numer: 1, denom: 4 };
    // |3 * 10 - 1 * 30| and |3 * 2 - 1 * 30|
    assert_eq!(score_candidate(10, 30, quarter), 0);
    assert_eq!(score_candidate(2, 30, quarter), 24);
    assert_eq!(score_candidate(30, 2, quarter), 88);
    assert_eq!(score_candidate(0, 0, quarter), 0);
}

#[test]
fn utility_is_greatest_where_the_data_is_balanced() {
    let half = Proportion { numer: 1, denom: 2 };
    let x = vec![0, 2, 2, 3, 5, 7, 7, 7];
    let candidates = vec![-1, 2, 4, 7, 12, 22];
    // in halves: 8 less |below - above|
    assert_eq!(score(x, &candidates, half), Ok(vec![0, 4, 8, 3, 0, 0]));
}

#[test]
fn utilities_come_in_the_order_of_the_candidates() {
    let half = Proportion { numer: 1, denom: 2 };
    let x = vec![7, 0, 7, 2, 3, 2, 5, 7];
    let candidates = vec![7, -1, 4, 22, 2];
    assert_eq!(score(x, &candidates, half), Ok(vec![3, 0, 8, 0, 4]));
    let none: Vec<i32> = Vec::new();
    assert_eq!(score(Vec::new(), &vec![1, 2], half), Ok(vec![0, 0]));
    assert_eq!(score(vec![1, 2], &none, half), Ok(Vec::new()));
}

#[test]
fn utility_scorers_have_their_constants() {
    let three_quarters = Proportion { numer: 3, denom: 4 };
    let trans = make_quantile_discrete_exponential(vec![7, 12, 14, 72, 76], three_quarters).unwrap();
    match &trans.stability_relation {
        StabilityRelation::Constant { value, .. } => assert_eq!(*value, 3),
        _ => panic!("a scorer has a constant"),
    }
    let data: Vec<i32> = (0..100).collect();
    // in quarters: 300 less |below - 3 * above|
    let scores = trans.invoke(&data).unwrap();
    assert_eq!(scores, vec![300 - 269, 300 - 249, 300 - 241, 300 - 9, 300 - 7]);
    assert_eq!(trans.check(&2, &6), Ok(true));
    assert_eq!(trans.check(&2, &5), Ok(false));

    let sized =
        make_sized_quantile_discrete_exponential(100, vec![7, 12, 14, 72, 76], three_quarters)
            .unwrap();
    match &sized.stability_relation {
        StabilityRelation::Constant { value, .. } => assert_eq!(*value, 4),
        _ => panic!("a scorer has a constant"),
    }
    assert_eq!(sized.invoke(&data).unwrap(), scores);
    assert_eq!(sized.input_domain.length, 100);
}

#[test]
fn a_quantile_that_is_no_proportion_is_refused() {
    let beyond = Proportion { numer: 5, denom: 4 };
    let trans = make_quantile_discrete_exponential(vec![7, 12], beyond);
    assert_eq!(trans.err().map(|e| e.variant), Some(ErrorVariant::InvalidDistance));
    let undefined = Proportion { numer: 0, denom: 0 };
    let sized = make_sized_quantile_discrete_exponential(9, vec![7, 12], undefined);
    assert_eq!(sized.err().map(|e| e.variant), Some(ErrorVariant::InvalidDistance));
}
