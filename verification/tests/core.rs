use opendp::chain::{ChainMT, ChainTT, Composition};
use opendp::dist::{L1Sensitivity, MaxDivergence, SensitivityMetric};
use opendp::dom::AllDomain;
use opendp::error::ErrorVariant;
use opendp::measurement::{Measurement, Transformation};
use opendp::stability::StabilityRelation;

#[test]
fn test_identity() {
    let input_domain = AllDomain::<i32>::new();
    let output_domain = AllDomain::<i32>::new();
    let function = |arg: &i32| arg.clone();
    let input_metric = L1Sensitivity::<i32>::new();
    let output_metric = L1Sensitivity::<i32>::new();
    let stability_constant = 1;
    let identity = Transformation::new_constant_stability(
        input_domain,
        output_domain,
        function,
        input_metric,
        output_metric,
        stability_constant,
    );
    let arg = 99;
    let ret = identity.function.eval(&arg).unwrap();
    assert_eq!(ret, 99);
}

#[test]
fn test_make_chain_mt() {
    let input_domain0 = AllDomain::<u8>::new();
    let output_domain0 = AllDomain::<i32>::new();
    let function0 = |a: &u8| (a + 1) as i32;
    let input_metric0 = L1Sensitivity::<i32>::new();
    let output_metric0 = L1Sensitivity::<i32>::new();
    let stability_constant0 = 1;
    let transformation0 = Transformation::new_constant_stability(
        input_domain0,
        output_domain0,
        function0,
        input_metric0,
        output_metric0,
        stability_constant0,
    );
    let input_domain1 = AllDomain::<i32>::new();
    let output_domain1 = AllDomain::<f64>::new();
    let function1 = |a: &i32| (a + 1) as f64;
    let input_metric1 = L1Sensitivity::<i32>::new();
    let output_measure1 = MaxDivergence::new();
    let privacy_relation1 = |_d_in: &i32, _d_out: &f64| true;
    let measurement1 = Measurement::new(
        input_domain1,
        output_domain1,
        function1,
        input_metric1,
        output_measure1,
        privacy_relation1,
    );
    let chain = ChainMT::make(&measurement1, &transformation0).unwrap();
    let arg = 99_u8;
    let ret = chain.function.eval(&arg).unwrap();
    assert_eq!(ret, 101.0);
}

#[test]
fn test_make_chain_tt() {
    let input_domain0 = AllDomain::<u8>::new();
    let output_domain0 = AllDomain::<i32>::new();
    let function0 = |a: &u8| (a + 1) as i32;
    let input_metric0 = L1Sensitivity::<i32>::new();
    let output_metric0 = L1Sensitivity::<i32>::new();
    let stability_constant0 = 1;
    let transformation0 = Transformation::new_constant_stability(
        input_domain0,
        output_domain0,
        function0,
        input_metric0,
        output_metric0,
        stability_constant0,
    );
    let input_domain1 = AllDomain::<i32>::new();
    let output_domain1 = AllDomain::<f64>::new();
    let function1 = |a: &i32| (a + 1) as f64;
    let input_metric1 = L1Sensitivity::<i32>::new();
    let output_metric1 = L1Sensitivity::<i32>::new();
    let stability_constant1 = 1;
    let transformation1 = Transformation::new_constant_stability(
        input_domain1,
        output_domain1,
        function1,
        input_metric1,
        output_metric1,
        stability_constant1,
    );
    let chain = ChainTT::make(&transformation1, &transformation0).unwrap();
    let arg = 99_u8;
    let ret = chain.function.eval(&arg).unwrap();
    assert_eq!(ret, 101.0);
    // the factors multiply
    match &chain.stability_relation {
        StabilityRelation::Constant { value, .. } => assert_eq!(*value, 1),
        _ => panic!("two constants chain to a constant"),
    }
    assert_eq!(chain.check(&3, &3), Ok(true));
    assert_eq!(chain.check(&3, &2), Ok(false));
}

#[test]
fn test_make_composition() {
    let input_domain0 = AllDomain::<i32>::new();
    let output_domain0 = AllDomain::<f32>::new();
    let function0 = |arg: &i32| (arg + 1) as f32;
    let input_metric0 = L1Sensitivity::<i32>::new();
    let output_measure0 = MaxDivergence::new();
    let privacy_relation0 = |_d_in: &i32, _d_out: &f64| true;
    let measurement0 = Measurement::new(
        input_domain0,
        output_domain0,
        function0,
        input_metric0,
        output_measure0,
        privacy_relation0,
    );
    let input_domain1 = AllDomain::<i32>::new();
    let output_domain1 = AllDomain::<f64>::new();
    let function1 = |arg: &i32| (arg - 1) as f64;
    let input_metric1 = L1Sensitivity::<i32>::new();
    let output_measure1 = MaxDivergence::new();
    let privacy_relation1 = |_d_in: &i32, _d_out: &f64| true;
    let measurement1 = Measurement::new(
        input_domain1,
        output_domain1,
        function1,
        input_metric1,
        output_measure1,
        privacy_relation1,
    );
    let composition = Composition::make(&measurement0, &measurement1).unwrap();
    let arg = 99;
    let ret = composition.function.eval(&arg).unwrap();
    assert_eq!(ret, (Box::new(100_f32), Box::new(98_f64)));
    let _ = ErrorVariant::DomainMismatch;
}
