use opendp::chain::{make_erase_relation, ChainMT, ChainTT, Composition};
use opendp::dist::{L1Sensitivity, MaxDivergence, SensitivityMetric, SymmetricDistance};
use opendp::dom::{AllDomain, Domain, SizedDomain, VectorDomain};
use opendp::error::ErrorVariant;
use opendp::function::Function;
use opendp::measurement::{Measurement, Transformation};
use opendp::relation::{Cast, DistanceMap, DistancePairMap, Fixed, HintMt, HintTt, PrivacyRelation};
use opendp::stability::StabilityRelation;

type L1 = L1Sensitivity<i32>;

fn constant(value: i32) -> StabilityRelation<L1, L1, Fixed, Cast, Cast> {
    StabilityRelation::new_from_constant(value)
}

#[test]
fn constant_relation_maps_forward_and_backward() {
    let relation = constant(3);
    assert_eq!(relation.forward_map(&5), Some(15));
    assert_eq!(relation.backward_map(&15), Some(5));
    // the quotient is rounded toward zero
    assert_eq!(relation.backward_map(&17), Some(5));
    assert_eq!(relation.backward_map(&-17), Some(-5));
    assert!(relation.eval(&5, &15));
    assert!(relation.eval(&5, &16));
    assert!(!relation.eval(&5, &14));
}

#[test]
fn forward_then_backward_gives_the_distance_back() {
    let relation = constant(7);
    for d_in in [-4, 0, 1, 9, 1000] {
        let d_out = relation.forward_map(&d_in).unwrap();
        assert_eq!(relation.backward_map(&d_out), Some(d_in));
    }
    let mapped = StabilityRelation::<L1, L1, _, _, _>::new_from_map(
        |d_in: &i32| d_in + 10,
        Some(|d_out: &i32| d_out - 10),
    );
    for d_in in [0, 1, 9, 1000] {
        let d_out = mapped.forward_map(&d_in).unwrap();
        assert_eq!(d_out, d_in + 10);
        assert_eq!(mapped.backward_map(&d_out), Some(d_in));
    }
}

#[test]
fn a_relation_that_holds_keeps_holding_for_greater_distances() {
    let relation = constant(2);
    assert!(relation.eval(&4, &8));
    for more in 8..40 {
        assert!(relation.eval(&4, &more));
    }
}

#[test]
fn predicate_relation_has_no_maps() {
    let relation = StabilityRelation::<L1, L1, _, _, _>::new(|d_in: &i32, d_out: &i32| {
        *d_out >= 2 * *d_in
    });
    assert_eq!(relation.forward_map(&5), None);
    assert_eq!(relation.backward_map(&5), None);
    assert!(relation.eval(&5, &10));
    assert!(!relation.eval(&5, &9));
    assert_eq!(relation.try_eval(&5, &10), Ok(true));
}

#[test]
fn map_without_backward_has_no_backward_map() {
    let relation = StabilityRelation::<L1, L1, _, _, Cast>::new_from_map(|d_in: &i32| d_in * 4, None);
    assert_eq!(relation.forward_map(&2), Some(8));
    assert_eq!(relation.backward_map(&8), None);
    assert!(relation.eval(&2, &8));
    assert!(!relation.eval(&2, &7));
}

#[test]
fn a_product_that_leaves_the_type_is_a_failed_cast() {
    let relation = constant(i32::MAX);
    assert_eq!(relation.try_eval(&1, &i32::MAX), Ok(true));
    assert_eq!(relation.try_eval(&2, &i32::MAX).unwrap_err().variant, ErrorVariant::NumericCast);
}

#[test]
fn maps_of_a_constant_report_what_does_not_fit() {
    let relation = constant(i32::MAX);
    assert_eq!(relation.try_forward_map(&1), Ok(Some(i32::MAX)));
    assert_eq!(relation.try_forward_map(&2).unwrap_err().variant, ErrorVariant::NumericCast);
    assert_eq!(relation.try_backward_map(&i32::MAX), Ok(Some(1)));
    let nothing = constant(0);
    assert_eq!(nothing.try_forward_map(&9), Ok(Some(0)));
    assert_eq!(nothing.try_backward_map(&9).unwrap_err().variant, ErrorVariant::NumericCast);
    let flip = constant(-1);
    assert_eq!(flip.try_backward_map(&i32::MIN).unwrap_err().variant, ErrorVariant::NumericCast);
    assert_eq!(flip.try_backward_map(&5), Ok(Some(-5)));
}

#[test]
fn two_constants_chain_to_their_product() {
    let relation0 = constant(2);
    let relation1 = constant(3);
    let chain = StabilityRelation::make_chain(&relation1, &relation0, None::<&HintTt<L1, L1, L1, Cast>>)
        .unwrap();
    match &chain {
        StabilityRelation::Constant { value, .. } => assert_eq!(*value, 6),
        _ => panic!("two constants chain to a constant"),
    }
    // end to end, the chain asks what the stages ask one after the other
    for d_in in 0..20 {
        let d_mid = relation0.forward_map(&d_in).unwrap();
        assert_eq!(chain.forward_map(&d_in), relation1.forward_map(&d_mid));
        for d_out in 0..130 {
            assert_eq!(chain.eval(&d_in, &d_out), relation1.eval(&d_mid, &d_out));
        }
    }
    assert_eq!(chain.backward_map(&12), Some(2));
}

#[test]
fn constants_whose_product_leaves_the_type_do_not_chain() {
    let relation0 = constant(1 << 20);
    let relation1 = constant(1 << 20);
    let chain = StabilityRelation::make_chain(&relation1, &relation0, None::<&HintTt<L1, L1, L1, Cast>>);
    assert_eq!(chain.err().map(|e| e.variant), Some(ErrorVariant::NumericCast));
}

#[test]
fn a_constant_and_a_map_chain_to_a_map() {
    let relation0 = constant(2);
    let relation1 = StabilityRelation::<L1, L1, _, _, _>::new_from_map(
        |d_in: &i32| d_in + 1,
        Some(|d_out: &i32| d_out - 1),
    );
    let chain = StabilityRelation::make_chain(&relation1, &relation0, None::<&HintTt<L1, L1, L1, Cast>>)
        .unwrap();
    assert!(matches!(chain, StabilityRelation::Mapped { .. }));
    assert_eq!(chain.forward_map(&5), Some(11));
    assert_eq!(chain.backward_map(&11), Some(5));
    assert!(chain.eval(&5, &11));
    assert!(!chain.eval(&5, &10));
}

#[test]
fn a_chain_of_maps_has_a_backward_map_only_if_both_have() {
    let relation0 = constant(2);
    let relation1 = StabilityRelation::<L1, L1, _, _, Cast>::new_from_map(|d_in: &i32| d_in + 1, None);
    let chain = StabilityRelation::make_chain(&relation1, &relation0, None::<&HintTt<L1, L1, L1, Cast>>)
        .unwrap();
    assert_eq!(chain.forward_map(&5), Some(11));
    assert_eq!(chain.backward_map(&11), None);
}

#[test]
fn a_map_folds_into_the_predicate_after_it() {
    let relation0 = constant(2);
    let relation1 = StabilityRelation::<L1, L1, _, _, _>::new(|d_mid: &i32, d_out: &i32| d_out > d_mid);
    let chain = StabilityRelation::make_chain(&relation1, &relation0, None::<&HintTt<L1, L1, L1, Cast>>)
        .unwrap();
    assert!(matches!(chain, StabilityRelation::Function(_)));
    assert!(chain.eval(&5, &11));
    assert!(!chain.eval(&5, &10));
    assert_eq!(chain.forward_map(&5), None);
}

#[test]
fn a_backward_map_folds_into_the_predicate_before_it() {
    let relation0 = StabilityRelation::<L1, L1, _, _, _>::new(|d_in: &i32, d_mid: &i32| d_mid >= d_in);
    let relation1 = constant(3);
    let chain = StabilityRelation::make_chain(&relation1, &relation0, None::<&HintTt<L1, L1, L1, Cast>>)
        .unwrap();
    assert!(matches!(chain, StabilityRelation::Function(_)));
    // 15 / 3 = 5 >= 5, but 14 / 3 = 4 < 5
    assert!(chain.eval(&5, &15));
    assert!(!chain.eval(&5, &14));
}

#[test]
fn two_predicates_do_not_chain_without_a_hint() {
    let relation0 = StabilityRelation::<L1, L1, _, _, _>::new(|d_in: &i32, d_mid: &i32| d_mid >= d_in);
    let relation1 = StabilityRelation::<L1, L1, _, _, _>::new(|d_mid: &i32, d_out: &i32| d_out >= d_mid);
    let chain = StabilityRelation::make_chain(&relation1, &relation0, None::<&HintTt<L1, L1, L1, Cast>>);
    assert_eq!(chain.err().map(|e| e.variant), Some(ErrorVariant::NotImplemented));

    let mapped = StabilityRelation::<L1, L1, _, _, Cast>::new_from_map(|d_in: &i32| d_in + 1, None);
    let chain = StabilityRelation::make_chain(&mapped, &relation0, None::<&HintTt<L1, L1, L1, Cast>>);
    assert_eq!(chain.err().map(|e| e.variant), Some(ErrorVariant::NotImplemented));
}

#[test]
fn a_hint_proposes_the_distance_between_two_relations() {
    let relation0 = StabilityRelation::<L1, L1, _, _, _>::new(|d_in: &i32, d_mid: &i32| {
        *d_mid >= 2 * *d_in
    });
    let relation1 = StabilityRelation::<L1, L1, _, _, _>::new(|d_mid: &i32, d_out: &i32| {
        *d_out >= 3 * *d_mid
    });
    let hint = HintTt::<L1, L1, L1, _>::new(|_d_in: &i32, d_out: &i32| d_out / 3);
    assert_eq!(hint.eval(&1, &13), 4);
    let chain = StabilityRelation::make_chain(&relation1, &relation0, Some(&hint)).unwrap();
    assert!(matches!(chain, StabilityRelation::Function(_)));
    assert!(chain.eval(&2, &12));
    assert!(!chain.eval(&2, &11));
    assert!(!chain.eval(&3, &12));

    // with a hint, constants are asked as predicates too
    let constant0 = constant(2);
    let constant1 = constant(3);
    let chain = StabilityRelation::make_chain(&constant1, &constant0, Some(&hint)).unwrap();
    assert!(matches!(chain, StabilityRelation::Function(_)));
    assert!(chain.eval(&2, &12));
    assert!(!chain.eval(&2, &11));
}

#[test]
fn the_cast_takes_a_distance_to_another_type() {
    let wide: i64 = DistanceMap::<u32, i64>::apply(&Cast, &7);
    assert_eq!(wide, 7);
    let narrow: u32 = DistanceMap::<i64, u32>::apply(&Cast, &7);
    assert_eq!(narrow, 7);
    // as a hint it proposes the input distance
    let proposed: i64 = DistancePairMap::<u32, u32, i64>::decide(&Cast, &7, &100);
    assert_eq!(proposed, 7);
    let hint = HintTt::<L1, L1, L1, _>::new(Cast);
    let chain = StabilityRelation::make_chain(&constant(3), &constant(1), Some(&hint)).unwrap();
    assert!(chain.eval(&2, &6));
    assert!(!chain.eval(&2, &5));
}

#[test]
fn hint_for_a_measurement_gives_the_distance_in_between() {
    let hint = HintMt::<L1, L1, MaxDivergence<f64>, _>::new(|d_in: &i32, _d_out: &f64| d_in + 1);
    assert_eq!(hint.eval(&4, &0.5), 5);
}

#[test]
fn privacy_relation_with_and_without_backward_map() {
    let plain = PrivacyRelation::<L1, MaxDivergence<f64>, _, _>::new(|d_in: &i32, d_out: &f64| {
        *d_out >= *d_in as f64
    });
    assert!(plain.eval(&1, &1.5));
    assert!(!plain.eval(&2, &1.5));
    assert!(plain.backward_map.is_none());

    let full = PrivacyRelation::<L1, MaxDivergence<f64>, _, _>::new_all(
        |d_in: &i32, d_out: &f64| *d_out >= *d_in as f64,
        Some(|d_out: &f64| *d_out as i32),
    );
    assert!(full.eval(&1, &1.5));
    assert_eq!(full.try_eval(&2, &1.5), Ok(false));
    assert!(full.backward_map.is_some());

    let strict = PrivacyRelation::<L1, MaxDivergence<f64>, _, fn(&f64) -> i32>::new_fallible(
        |d_in: &i32, d_out: &f64| {
            if *d_in < 0 {
                Err(opendp::error::Error::new(ErrorVariant::InvalidDistance))
            } else {
                Ok(*d_out >= *d_in as f64)
            }
        },
        None,
    );
    assert_eq!(strict.try_eval(&1, &1.5), Ok(true));
    assert_eq!(strict.try_eval(&-1, &1.5).unwrap_err().variant, ErrorVariant::InvalidDistance);
    assert!(!strict.eval(&-1, &1.5));
}

#[test]
fn function_chain_and_composition() {
    let plus_one = Function::<AllDomain<i32>, AllDomain<i32>, _>::new(|a: &i32| a + 1);
    let double = Function::<AllDomain<i32>, AllDomain<i32>, _>::new(|a: &i32| a * 2);
    let chain = Function::make_chain(&double, &plus_one);
    assert_eq!(chain.eval(&4), Ok(10));
    assert_eq!(chain.eval_ffi(&4), Ok(Box::new(10)));
    let both = Function::make_composition(&plus_one, &double);
    assert_eq!(both.eval(&4), Ok((Box::new(5), Box::new(8))));
}

#[test]
fn a_failing_stage_fails_the_chain() {
    let fails = Function::<AllDomain<i32>, AllDomain<i32>, _>::new_fallible(|a: &i32| {
        if *a < 0 {
            Err(opendp::error::Error::new(ErrorVariant::InvalidDistance))
        } else {
            Ok(*a)
        }
    });
    let double = Function::<AllDomain<i32>, AllDomain<i32>, _>::new(|a: &i32| a * 2);
    let chain = Function::make_chain(&double, &fails);
    assert_eq!(chain.eval(&3), Ok(6));
    assert_eq!(chain.eval(&-3).unwrap_err().variant, ErrorVariant::InvalidDistance);
    let both = Function::make_composition(&double, &fails);
    assert_eq!(both.eval(&-3).unwrap_err().variant, ErrorVariant::InvalidDistance);
}

fn sized_identity(
    length_in: usize,
    length_out: usize,
) -> Transformation<
    SizedDomain<VectorDomain<AllDomain<i32>>>,
    SizedDomain<VectorDomain<AllDomain<i32>>>,
    L1,
    L1,
    opendp::function::Pure<fn(&Vec<i32>) -> Vec<i32>>,
    Fixed,
    Cast,
    Cast,
> {
    fn same(v: &Vec<i32>) -> Vec<i32> {
        v.clone()
    }
    Transformation::new_constant_stability(
        SizedDomain::new(VectorDomain::new_all(), length_in),
        SizedDomain::new(VectorDomain::new_all(), length_out),
        same as fn(&Vec<i32>) -> Vec<i32>,
        L1::new(),
        L1::new(),
        1,
    )
}

#[test]
fn stages_that_do_not_meet_in_one_domain_are_refused() {
    let first = sized_identity(3, 3);
    let second = sized_identity(4, 4);
    let chain = ChainTT::make(&second, &first);
    assert_eq!(chain.err().map(|e| e.variant), Some(ErrorVariant::DomainMismatch));

    let second = sized_identity(3, 5);
    let chain = ChainTT::make(&second, &first).unwrap();
    assert_eq!(chain.invoke(&vec![1, 2, 3]), Ok(vec![1, 2, 3]));
    assert_eq!(chain.input_domain.length, 3);
    assert_eq!(chain.output_domain.length, 5);

    let measurement = Measurement::new(
        SizedDomain::new(VectorDomain::<AllDomain<i32>>::new_all(), 9),
        AllDomain::<usize>::new(),
        |v: &Vec<i32>| v.len(),
        L1::new(),
        MaxDivergence::<f64>::new(),
        |_d_in: &i32, _d_out: &f64| true,
    );
    let chain = ChainMT::make(&measurement, &first);
    assert_eq!(chain.err().map(|e| e.variant), Some(ErrorVariant::DomainMismatch));

    let other = Measurement::new(
        SizedDomain::new(VectorDomain::<AllDomain<i32>>::new_all(), 8),
        AllDomain::<usize>::new(),
        |v: &Vec<i32>| v.len(),
        L1::new(),
        MaxDivergence::<f64>::new(),
        |_d_in: &i32, _d_out: &f64| true,
    );
    let both = Composition::make(&measurement, &other);
    assert_eq!(both.err().map(|e| e.variant), Some(ErrorVariant::DomainMismatch));
}

#[test]
fn a_chained_measurement_has_no_proven_relation() {
    let first = sized_identity(3, 3);
    let measurement = Measurement::new(
        SizedDomain::new(VectorDomain::<AllDomain<i32>>::new_all(), 3),
        AllDomain::<usize>::new(),
        |v: &Vec<i32>| v.len(),
        L1::new(),
        MaxDivergence::<f64>::new(),
        |_d_in: &i32, _d_out: &f64| true,
    );
    assert_eq!(measurement.check(&1, &1.0), Ok(true));
    let chain = ChainMT::make(&measurement, &first).unwrap();
    assert_eq!(chain.invoke(&vec![5, 6, 7]), Ok(3));
    assert_eq!(chain.check(&1, &1.0), Ok(false));
}

#[test]
fn erasing_the_relation_keeps_the_function() {
    let first = sized_identity(3, 3);
    let erased = make_erase_relation(first).unwrap();
    assert_eq!(erased.invoke(&vec![5, 6, 7]), Ok(vec![5, 6, 7]));
    assert_eq!(erased.check(&(), &()), Ok(true));
}

#[test]
fn domains_test_membership() {
    let sized = SizedDomain::new(VectorDomain::<AllDomain<i32>>::new_all(), 2);
    assert!(sized.member(&vec![1, 2]));
    assert!(!sized.member(&vec![1, 2, 3]));
    assert!(sized.same(&sized.replicate()));
    assert!(!sized.same(&SizedDomain::new(VectorDomain::new_all(), 3)));
    let _ = SymmetricDistance;
}
