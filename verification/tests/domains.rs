use opendp::dom::{
    AllDomain, BoxDomain, Domain, IntervalDomain, OptionNullDomain, PairDomain, SizedDomain,
    VectorDomain,
};

#[test]
fn all_domain_holds_everything() {
    let domain = AllDomain::<i32>::new();
    assert!(domain.member(&i32::MIN));
    assert!(domain.member(&0));
    assert!(domain.same(&AllDomain::new()));
}

#[test]
fn interval_domain_holds_its_bounds_and_what_lies_between() {
    let domain = IntervalDomain::new(-2, 5);
    assert!(domain.member(&-2));
    assert!(domain.member(&0));
    assert!(domain.member(&5));
    assert!(!domain.member(&-3));
    assert!(!domain.member(&6));
    assert!(domain.same(&IntervalDomain::new(-2, 5)));
    assert!(!domain.same(&IntervalDomain::new(-2, 6)));
    assert!(!domain.same(&IntervalDomain::new(-1, 5)));
    assert!(domain.same(&domain.replicate()));
}

#[test]
fn vector_domain_asks_every_element() {
    let domain = VectorDomain::new(IntervalDomain::new(0u8, 9));
    assert!(domain.member(&vec![]));
    assert!(domain.member(&vec![0, 9, 4]));
    assert!(!domain.member(&vec![0, 10, 4]));
    assert!(domain.same(&VectorDomain::new(IntervalDomain::new(0u8, 9))));
    assert!(!domain.same(&VectorDomain::new(IntervalDomain::new(1u8, 9))));
    let sized = SizedDomain::new(VectorDomain::new(IntervalDomain::new(0u8, 9)), 2);
    assert!(sized.member(&vec![1, 2]));
    assert!(!sized.member(&vec![1, 20]));
    assert!(!sized.member(&vec![1]));
}

#[test]
fn option_domain_holds_the_missing_value() {
    let domain = OptionNullDomain::new(IntervalDomain::new(0i64, 9));
    assert!(domain.member(&None));
    assert!(domain.member(&Some(3)));
    assert!(!domain.member(&Some(30)));
    assert!(domain.same(&domain.replicate()));
}

#[test]
fn pair_and_box_domains_ask_their_parts() {
    let pair = PairDomain::new(
        BoxDomain::new(Box::new(IntervalDomain::new(0i32, 9))),
        BoxDomain::new(Box::new(AllDomain::<bool>::new())),
    );
    assert!(pair.member(&(Box::new(3), Box::new(true))));
    assert!(!pair.member(&(Box::new(13), Box::new(true))));
    assert!(pair.same(&pair.replicate()));
    let other = PairDomain::new(
        BoxDomain::new(Box::new(IntervalDomain::new(0i32, 8))),
        BoxDomain::new(Box::new(AllDomain::<bool>::new())),
    );
    assert!(!pair.same(&other));
}
