use svu::engine::{perform_bisect, BisectOutcome};
use svu::session::{mark_skipped_revisions, BisectData};

fn ready_session(min: u64, max: u64) -> BisectData {
    BisectData {
        original_rev: 1,
        head_rev: Some(max),
        first_rev: Some(min),
        max_rev: Some(max),
        min_rev: Some(min),
        skipped: Vec::new(),
        term_good: None,
        term_bad: None,
    }
}

#[test]
fn narrows_to_the_middle_candidate() {
    // Dense history from 100 down to 0; nine candidates in between.
    let d = ready_session(0, 100);
    let extant: Vec<u64> = vec![100, 90, 80, 70, 60, 50, 40, 30, 20, 10, 0];
    match perform_bisect(&d, &extant) {
        BisectOutcome::Continue {
            next,
            remaining,
            steps,
        } => {
            assert_eq!(next, 50);
            assert_eq!(remaining, 9);
            assert_eq!(steps, 4);
        }
        other => panic!("expected Continue, got {:?}", other),
    }
}

#[test]
fn narrowing_skips_the_skipped() {
    // Same list with 50 skipped: eight testable candidates, index 4 is 40.
    let mut d = ready_session(0, 100);
    mark_skipped_revisions(&mut d, &vec![50]);
    let extant: Vec<u64> = vec![100, 90, 80, 70, 60, 50, 40, 30, 20, 10, 0];
    match perform_bisect(&d, &extant) {
        BisectOutcome::Continue {
            next,
            remaining,
            steps,
        } => {
            assert_eq!(next, 40);
            assert_eq!(remaining, 8);
            assert_eq!(steps, 3);
        }
        other => panic!("expected Continue, got {:?}", other),
    }
}

#[test]
fn adjacent_bounds_find_the_answer() {
    // Nothing lies strictly between 9 and 10: 10 is the first bad one.
    let d = ready_session(9, 10);
    let extant: Vec<u64> = vec![10, 9];
    match perform_bisect(&d, &extant) {
        BisectOutcome::Found { revision } => assert_eq!(revision, 10),
        other => panic!("expected Found, got {:?}", other),
    }
}

#[test]
fn all_candidates_skipped_is_inconclusive() {
    let mut d = ready_session(10, 30);
    mark_skipped_revisions(&mut d, &vec![20]);
    let extant: Vec<u64> = vec![30, 20, 10];
    match perform_bisect(&d, &extant) {
        BisectOutcome::Inconclusive {
            revision,
            candidates,
        } => {
            assert_eq!(revision, 30);
            assert_eq!(candidates, vec![20]);
        }
        other => panic!("expected Inconclusive, got {:?}", other),
    }
}

#[test]
fn a_single_candidate_needs_no_further_round() {
    let d = ready_session(10, 30);
    let extant: Vec<u64> = vec![30, 20, 10];
    match perform_bisect(&d, &extant) {
        BisectOutcome::Continue {
            next,
            remaining,
            steps,
        } => {
            assert_eq!(next, 20);
            assert_eq!(remaining, 1);
            assert_eq!(steps, 0);
        }
        other => panic!("expected Continue, got {:?}", other),
    }
}
