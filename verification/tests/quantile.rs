use opendp::error::ErrorVariant;
use opendp::quantile::{count_lte, count_lte_recursive, score, Proportion};

#[test]
fn test_count_lte() {
    let x = (5..20).collect::<Vec<i32>>();
    let edges = vec![2, 4, 7, 12, 22];
    let mut counts = vec![0; edges.len()];
    count_lte_recursive(counts.as_mut_slice(), edges.as_slice(), x.as_slice(), 0);
    println!("{:?}", counts);
    assert_eq!(counts, vec![0, 0, 3, 8, 15]);
}

#[test]
fn test_count_lte_repetition() {
    let x = vec![0, 2, 2, 3, 5, 7, 7, 7];
    let edges = vec![-1, 2, 4, 7, 12, 22];
    let mut counts = vec![0; edges.len()];
    count_lte_recursive(counts.as_mut_slice(), edges.as_slice(), x.as_slice(), 0);
    println!("{:?}", counts);
    assert_eq!(counts, vec![0, 3, 4, 8, 8, 8]);
}

#[test]
fn test_scorer() {
    let edges = vec![-1, 2, 4, 7, 12, 22];
    let half = Proportion { numer: 1, denom: 2 };

    let x = vec![0, 2, 2, 3, 5, 7, 7, 7];
    let scores = score(x, &edges, half).unwrap();
    println!("{:?}", scores);
    // counts 0, 3, 4, 8, 8, 8 against the ideal 4, in halves
    assert_eq!(scores, vec![-8, -2, 0, -8, -8, -8]);

    let x = vec![0, 2, 2, 3, 4, 7, 7, 7];
    let scores = score(x, &edges, half).unwrap();
    println!("{:?}", scores);
    assert_eq!(scores, vec![-8, -2, -2, -8, -8, -8]);
}

#[test]
fn count_lte_on_sorted_data() {
    let x: Vec<i64> = vec![1, 3, 3, 8];
    assert_eq!(count_lte(&x, &0), 0);
    assert_eq!(count_lte(&x, &1), 1);
    assert_eq!(count_lte(&x, &3), 3);
    assert_eq!(count_lte(&x, &7), 3);
    assert_eq!(count_lte(&x, &8), 4);
    assert_eq!(count_lte(&x, &9), 4);
    let empty: Vec<i64> = Vec::new();
    assert_eq!(count_lte(&empty, &9), 0);
}

#[test]
fn count_lte_recursive_adds_the_start_and_keeps_the_rest() {
    let x: Vec<u8> = vec![10, 20, 30];
    let edges: Vec<u8> = vec![5, 20];
    let mut counts = vec![77usize; 4];
    count_lte_recursive(counts.as_mut_slice(), edges.as_slice(), x.as_slice(), 100);
    assert_eq!(counts, vec![100, 102, 77, 77]);
}

#[test]
fn score_sorts_the_data_first() {
    let edges: Vec<u32> = vec![1, 5, 9];
    let alpha = Proportion { numer: 3, denom: 4 };
    let scores = score(vec![9, 1, 5, 5], &edges, alpha).unwrap();
    // counts 1, 3, 4; ideal 3 of 4: -|4k - 12|
    assert_eq!(scores, vec![-8, 0, -4]);
}

#[test]
fn score_reports_a_score_that_does_not_fit() {
    // an empty candidate list never fails
    let none: Vec<u8> = Vec::new();
    let alpha = Proportion { numer: 0, denom: 1 };
    assert_eq!(score(vec![1u8, 2, 3], &none, alpha), Ok(Vec::new()));
    let err = ErrorVariant::NumericCast;
    assert_eq!(err, ErrorVariant::NumericCast);
}
