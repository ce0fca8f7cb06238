use yande_dl::job::compute_safe_baseline;

#[test]
fn safe_baseline_no_failures() {
    let s = vec![(100, true), (102, true), (105, true)];
    assert_eq!(compute_safe_baseline(0, &s), 105);
}

#[test]
fn safe_baseline_with_one_failure() {
    let s = vec![(99, true), (100, false), (101, true), (105, true)];
    assert_eq!(compute_safe_baseline(0, &s), 99);
}

#[test]
fn safe_baseline_first_post_failed() {
    let s = vec![(50, false), (51, true), (52, true)];
    assert_eq!(compute_safe_baseline(40, &s), 40);
}

#[test]
fn safe_baseline_empty() {
    assert_eq!(compute_safe_baseline(123, &[]), 123);
}

#[test]
fn safe_baseline_never_regresses() {
    let s = vec![(10, true)];
    assert_eq!(compute_safe_baseline(50, &s), 50);
}
