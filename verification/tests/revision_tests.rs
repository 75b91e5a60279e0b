use svu::errors::SvError;
use svu::revision::{
    get_revision_number, looks_like_revision, looks_like_revision_range, parse_revision,
    resolve_revision, resolve_revision_range, rev_num_to_string, revision_query, to_rev_num,
    RevBase, RevExpr, RevKeyword,
};

#[test]
fn accepts_plain_numbers_and_keywords() {
    assert!(looks_like_revision("123"));
    assert!(looks_like_revision("0"));
    assert!(looks_like_revision("HEAD"));
    assert!(looks_like_revision("BASE"));
    assert!(looks_like_revision("PREV"));
    assert!(looks_like_revision("COMMITTED"));
}

#[test]
fn accepts_offsets() {
    assert!(looks_like_revision("HEAD-2"));
    assert!(looks_like_revision("BASE+10"));
    assert!(looks_like_revision("100-1"));
    assert!(looks_like_revision("COMMITTED-1"));
}

#[test]
fn rejects_malformed_expressions() {
    assert!(!looks_like_revision(""));
    assert!(!looks_like_revision("HEAD-"));
    assert!(!looks_like_revision("-5"));
    assert!(!looks_like_revision("12a"));
    assert!(!looks_like_revision("head"));
    assert!(!looks_like_revision("HEAD+2+3"));
    assert!(!looks_like_revision("HEAD 2"));
}

#[test]
fn recognizes_ranges() {
    assert!(looks_like_revision_range("HEAD:0"));
    assert!(looks_like_revision_range("1:HEAD-1"));
    assert!(looks_like_revision_range("5"));
    assert!(looks_like_revision_range("BASE+1:PREV"));
    assert!(!looks_like_revision_range("a:b"));
    assert!(!looks_like_revision_range("1:2:3"));
    assert!(!looks_like_revision_range(":1"));
}

#[test]
fn parses_digit_strings() {
    assert_eq!(to_rev_num("42"), Some(42));
    assert_eq!(to_rev_num("0"), Some(0));
    assert_eq!(to_rev_num("18446744073709551615"), Some(u64::MAX));
    assert_eq!(to_rev_num(""), None);
    assert_eq!(to_rev_num("4x"), None);
    assert_eq!(to_rev_num("18446744073709551616"), None);
}

#[test]
fn parses_expressions() {
    let e = parse_revision("HEAD-2").unwrap();
    assert!(matches!(e.base, RevBase::Keyword(RevKeyword::Head)));
    assert!(e.backward);
    assert_eq!(e.delta, 2);

    let e = parse_revision("7").unwrap();
    assert!(matches!(e.base, RevBase::Number(7)));
    assert!(!e.backward);
    assert_eq!(e.delta, 0);

    let e = parse_revision("BASE+10").unwrap();
    assert!(matches!(e.base, RevBase::Keyword(RevKeyword::Base)));
    assert!(!e.backward);
    assert_eq!(e.delta, 10);

    assert_eq!(
        parse_revision("nonsense"),
        Err(SvError::MalformedRevisionExpression)
    );
}

#[test]
fn resolves_offsets_against_a_window() {
    // Five known revisions, newest first; two steps back from the tip.
    let window: Vec<u64> = vec![50, 40, 30, 20, 10];
    assert_eq!(resolve_revision("HEAD-2", &window), Ok(30));
    assert_eq!(resolve_revision("HEAD", &window), Ok(50));
    assert_eq!(resolve_revision("HEAD-4", &window), Ok(10));
}

#[test]
fn resolution_fails_on_short_windows() {
    let window: Vec<u64> = vec![50];
    assert_eq!(
        resolve_revision("HEAD-2", &window),
        Err(SvError::UnresolvableRevision)
    );
    let empty: Vec<u64> = vec![];
    assert_eq!(
        resolve_revision("5", &empty),
        Err(SvError::UnresolvableRevision)
    );
    assert_eq!(
        resolve_revision("not-a-rev!", &window),
        Err(SvError::MalformedRevisionExpression)
    );
}

#[test]
fn renders_revision_numbers() {
    assert_eq!(rev_num_to_string(0).as_str(), "0");
    assert_eq!(rev_num_to_string(7).as_str(), "7");
    assert_eq!(rev_num_to_string(42).as_str(), "42");
    assert_eq!(rev_num_to_string(1234567890).as_str(), "1234567890");
}

#[test]
fn builds_history_queries() {
    let back = RevExpr {
        base: RevBase::Keyword(RevKeyword::Head),
        backward: true,
        delta: 2,
    };
    let (range, limit) = revision_query(&back);
    assert_eq!(range.as_str(), "HEAD:0");
    assert_eq!(limit, 3);

    let fwd = RevExpr {
        base: RevBase::Keyword(RevKeyword::Base),
        backward: false,
        delta: 1,
    };
    let (range, limit) = revision_query(&fwd);
    assert_eq!(range.as_str(), "BASE:HEAD");
    assert_eq!(limit, 2);

    let point = RevExpr {
        base: RevBase::Number(5),
        backward: false,
        delta: 0,
    };
    let (range, limit) = revision_query(&point);
    assert_eq!(range.as_str(), "5");
    assert_eq!(limit, 1);
}

#[test]
fn picks_by_offset_into_the_window() {
    let window: Vec<u64> = vec![50, 40, 30];
    assert_eq!(get_revision_number(0, &window), Ok(50));
    assert_eq!(get_revision_number(2, &window), Ok(30));
    assert_eq!(
        get_revision_number(3, &window),
        Err(SvError::UnresolvableRevision)
    );
}

#[test]
fn resolves_both_ends_of_a_range() {
    let first: Vec<u64> = vec![50, 40, 30, 20, 10];
    let second: Vec<u64> = vec![10, 20, 30];
    assert_eq!(
        resolve_revision_range("HEAD-1:10", &first, &second),
        Ok((40, 10))
    );
    assert_eq!(
        resolve_revision_range("HEAD", &first, &second),
        Err(SvError::MalformedRevisionExpression)
    );
    assert_eq!(
        resolve_revision_range("HEAD-9:10", &first, &second),
        Err(SvError::UnresolvableRevision)
    );
    assert_eq!(
        resolve_revision_range("junk:10", &first, &second),
        Err(SvError::MalformedRevisionExpression)
    );
}
