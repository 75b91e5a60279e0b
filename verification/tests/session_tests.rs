use svu::errors::SvError;
use svu::session::{
    bad_term, good_term, mark_bad_revision, mark_good_revision, mark_skipped_revisions,
    mark_unskipped_revisions, parse_term, reset_revision, start_session, get_waiting_status,
    BisectData,
};

fn fresh_session() -> BisectData {
    BisectData {
        original_rev: 42,
        head_rev: Some(100),
        first_rev: Some(1),
        max_rev: None,
        min_rev: None,
        skipped: Vec::new(),
        term_good: None,
        term_bad: None,
    }
}

#[test]
fn terms_follow_the_grammar() {
    assert_eq!(parse_term("fixed").unwrap().as_str(), "fixed");
    assert_eq!(parse_term("New-Term_2x").err(), Some(SvError::InvalidTerm));
    assert_eq!(parse_term("ok-name_x").unwrap().as_str(), "ok-name_x");
    assert_eq!(parse_term("").err(), Some(SvError::InvalidTerm));
    assert_eq!(parse_term("9lives").err(), Some(SvError::InvalidTerm));
    assert_eq!(parse_term("has space").err(), Some(SvError::InvalidTerm));
}

#[test]
fn terms_may_not_mask_subcommands() {
    assert_eq!(parse_term("skip").err(), Some(SvError::TermMasksCommand));
    assert_eq!(parse_term("start").err(), Some(SvError::TermMasksCommand));
    assert_eq!(parse_term("reset").err(), Some(SvError::TermMasksCommand));
    assert_eq!(parse_term("skips").unwrap().as_str(), "skips");
}

#[test]
fn start_captures_the_session() {
    let d = start_session(false, 42, 100, 1, Some(5), Some(90), None, None).unwrap();
    assert_eq!(d.original_rev, 42);
    assert_eq!(d.head_rev, Some(100));
    assert_eq!(d.first_rev, Some(1));
    assert_eq!(d.min_rev, Some(5));
    assert_eq!(d.max_rev, Some(90));
    assert!(d.skipped.is_empty());
}

#[test]
fn start_rejects_a_second_session() {
    assert_eq!(
        start_session(true, 42, 100, 1, None, None, None, None).err(),
        Some(SvError::SessionAlreadyActive)
    );
}

#[test]
fn start_rejects_unordered_bounds() {
    assert_eq!(
        start_session(false, 42, 100, 1, Some(5), Some(5), None, None).err(),
        Some(SvError::InvalidBoundOrder)
    );
    assert_eq!(
        start_session(false, 42, 100, 1, Some(7), Some(3), None, None).err(),
        Some(SvError::InvalidBoundOrder)
    );
}

#[test]
fn start_rejects_equal_terms() {
    assert_eq!(
        start_session(
            false,
            42,
            100,
            1,
            None,
            None,
            Some("new".to_string()),
            Some("new".to_string())
        )
        .err(),
        Some(SvError::DuplicateBoundName)
    );
}

#[test]
fn names_fall_back_to_defaults() {
    let d = fresh_session();
    assert_eq!(d.good_name().as_str(), "good");
    assert_eq!(d.bad_name().as_str(), "bad");
    let named = BisectData {
        term_good: Some("fixed".to_string()),
        term_bad: Some("broken".to_string()),
        ..fresh_session()
    };
    assert_eq!(named.good_name().as_str(), "fixed");
    assert_eq!(named.bad_name().as_str(), "broken");
}

#[test]
fn configured_terms_or_empty() {
    assert_eq!(good_term(&None).as_str(), "");
    assert_eq!(bad_term(&None).as_str(), "");
    let named = BisectData {
        term_good: Some("fixed".to_string()),
        ..fresh_session()
    };
    assert_eq!(good_term(&Some(named.clone())).as_str(), "fixed");
    assert_eq!(bad_term(&Some(named)).as_str(), "");
}

#[test]
fn marking_keeps_the_bounds_ordered() {
    let mut d = fresh_session();
    assert!(mark_bad_revision(&mut d, 10).is_ok());
    assert_eq!(d.max_rev, Some(10));

    // A good revision at or past the bad one is rejected, state unchanged.
    assert_eq!(
        mark_good_revision(&mut d, 10).err(),
        Some(SvError::InvalidBoundOrder)
    );
    assert_eq!(
        mark_good_revision(&mut d, 11).err(),
        Some(SvError::InvalidBoundOrder)
    );
    assert_eq!(d.min_rev, None);
    assert_eq!(d.max_rev, Some(10));

    assert!(mark_good_revision(&mut d, 5).is_ok());
    assert_eq!(d.min_rev, Some(5));
    assert!(d.is_ready());

    // A bad revision at or before the good one is rejected too.
    assert_eq!(
        mark_bad_revision(&mut d, 5).err(),
        Some(SvError::InvalidBoundOrder)
    );
    assert_eq!(
        mark_bad_revision(&mut d, 4).err(),
        Some(SvError::InvalidBoundOrder)
    );
    assert_eq!(d.max_rev, Some(10));

    // Re-widening stays allowed: the bad bound may move later.
    assert!(mark_bad_revision(&mut d, 20).is_ok());
    assert_eq!(d.max_rev, Some(20));
    // And the good bound may move earlier.
    assert!(mark_good_revision(&mut d, 2).is_ok());
    assert_eq!(d.min_rev, Some(2));
}

#[test]
fn marking_a_bound_unskips_the_revision() {
    let mut d = fresh_session();
    let newly = mark_skipped_revisions(&mut d, &vec![5, 7]);
    assert_eq!(newly, vec![7, 5]);
    assert_eq!(d.skipped, vec![7, 5]);
    assert!(mark_good_revision(&mut d, 5).is_ok());
    assert_eq!(d.skipped, vec![7]);
    assert!(mark_bad_revision(&mut d, 7).is_ok());
    assert!(d.skipped.is_empty());
}

#[test]
fn skipping_again_changes_nothing() {
    let mut d = fresh_session();
    let newly = mark_skipped_revisions(&mut d, &vec![50]);
    assert_eq!(newly, vec![50]);
    assert_eq!(d.skipped, vec![50]);

    // Skipping the same revision again: no new entries, no change.
    let again = mark_skipped_revisions(&mut d, &vec![50]);
    assert!(again.is_empty());
    assert_eq!(d.skipped, vec![50]);
    assert_eq!(d.max_rev, None);
    assert_eq!(d.min_rev, None);
    assert_eq!(d.original_rev, 42);
}

#[test]
fn skip_reports_newcomers_most_recent_first() {
    let mut d = fresh_session();
    let newly = mark_skipped_revisions(&mut d, &vec![10, 30, 20]);
    assert_eq!(newly, vec![30, 20, 10]);
    assert_eq!(d.skipped, vec![30, 20, 10]);

    let newly = mark_skipped_revisions(&mut d, &vec![20, 40]);
    assert_eq!(newly, vec![40]);
    assert_eq!(d.skipped, vec![40, 30, 20, 10]);
}

#[test]
fn unskip_reinstates_only_what_was_skipped() {
    let mut d = fresh_session();
    mark_skipped_revisions(&mut d, &vec![10, 20, 30]);
    let reinstated = mark_unskipped_revisions(&mut d, &vec![20, 99]);
    assert_eq!(reinstated, vec![20]);
    assert_eq!(d.skipped, vec![30, 10]);

    // Unskipping something never skipped is a no-op.
    let nothing = mark_unskipped_revisions(&mut d, &vec![99]);
    assert!(nothing.is_empty());
    assert_eq!(d.skipped, vec![30, 10]);
}

#[test]
fn waiting_status_names_the_missing_bounds() {
    let mut d = fresh_session();
    assert_eq!(
        get_waiting_status(&d).unwrap().as_str(),
        "status: waiting for both 'good' and 'bad' revisions"
    );
    mark_bad_revision(&mut d, 10).unwrap();
    assert_eq!(
        get_waiting_status(&d).unwrap().as_str(),
        "status: waiting for a 'good' revision"
    );
    mark_good_revision(&mut d, 5).unwrap();
    assert_eq!(get_waiting_status(&d), None);

    let mut only_good = fresh_session();
    mark_good_revision(&mut only_good, 5).unwrap();
    assert_eq!(
        get_waiting_status(&only_good).unwrap().as_str(),
        "status: waiting for a 'bad' revision"
    );
}

#[test]
fn reset_restores_the_original_revision() {
    let mut d = start_session(false, 42, 100, 1, None, None, None, None).unwrap();
    mark_bad_revision(&mut d, 90).unwrap();
    mark_good_revision(&mut d, 5).unwrap();
    mark_skipped_revisions(&mut d, &vec![50, 60]);
    mark_unskipped_revisions(&mut d, &vec![60]);
    assert_eq!(reset_revision(&d, None), 42);
    assert_eq!(reset_revision(&d, Some(7)), 7);
}
