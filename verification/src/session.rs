//! The bisect session: the persisted search state and the operations that
//! mutate it.  Persistence itself stays with the caller; every operation
//! here either fully applies a mutation or leaves the state untouched.

use vstd::prelude::*;

use crate::errors::SvError;
use crate::revset::{contains_rev, insert_desc, remove_rev, sorted_desc};

verus! {

/// An ASCII letter.
pub open spec fn is_letter(c: char) -> bool {
    ('A' <= c && c <= 'Z') || ('a' <= c && c <= 'z')
}

/// A character allowed after the leading letter of a term.
pub open spec fn is_term_char(c: char) -> bool {
    is_letter(c) || c == '-' || c == '_'
}

/// The identifier grammar for a term: a leading letter, then letters,
/// `-` or `_`.
pub open spec fn matches_term_grammar(s: Seq<char>) -> bool {
    &&& s.len() > 0
    &&& is_letter(s[0])
    &&& forall|i: int| 0 <= i < s.len() ==> is_term_char(#[trigger] s[i])
}

/// The reserved subcommand names that a term may not mask.
pub open spec fn is_reserved_name(s: Seq<char>) -> bool {
    ||| s == "start"@
    ||| s == "bad"@
    ||| s == "good"@
    ||| s == "terms"@
    ||| s == "skip"@
    ||| s == "unskip"@
    ||| s == "log"@
    ||| s == "run"@
    ||| s == "replay"@
    ||| s == "reset"@
}

/// A usable term: matches the grammar and masks no subcommand.
pub open spec fn valid_term(s: Seq<char>) -> bool {
    matches_term_grammar(s) && !is_reserved_name(s)
}

/// Validate a user-supplied term name.
pub fn parse_term(arg: &str) -> (r: Result<String, SvError>)
    ensures
        r is Ok <==> valid_term(arg@),
        r matches Ok(t) ==> t@ == arg@,
        !matches_term_grammar(arg@) ==> r == Err::<String, SvError>(SvError::InvalidTerm),
        matches_term_grammar(arg@) && is_reserved_name(arg@) ==> r == Err::<String, SvError>(
            SvError::TermMasksCommand,
        ),
{
    let len = arg.unicode_len();
    if len == 0 {
        return Err(SvError::InvalidTerm);
    }
    let mut i: usize = 0;
    while i < len
        invariant
            0 <= i <= len,
            len == arg@.len(),
            forall|k: int| 0 <= k < i ==> is_term_char(#[trigger] arg@[k]),
            i > 0 ==> is_letter(arg@[0]),
        decreases len - i,
    {
        let c = arg.get_char(i);
        let letter = ('A' <= c && c <= 'Z') || ('a' <= c && c <= 'z');
        if i == 0 {
            if !letter {
                assert(!is_letter(arg@[0]));
                return Err(SvError::InvalidTerm);
            }
        } else {
            if !(letter || c == '-' || c == '_') {
                assert(!is_term_char(arg@[i as int]));
                return Err(SvError::InvalidTerm);
            }
        }
        i = i + 1;
    }
    assert(matches_term_grammar(arg@));
    let reserved = crate::revision::str_eq(arg, "start") || crate::revision::str_eq(arg, "bad")
        || crate::revision::str_eq(arg, "good") || crate::revision::str_eq(arg, "terms")
        || crate::revision::str_eq(arg, "skip") || crate::revision::str_eq(arg, "unskip")
        || crate::revision::str_eq(arg, "log") || crate::revision::str_eq(arg, "run")
        || crate::revision::str_eq(arg, "replay") || crate::revision::str_eq(arg, "reset");
    if reserved {
        Err(SvError::TermMasksCommand)
    } else {
        Ok(arg.to_owned())
    }
}

/// The persisted state of one bisect session.
#[derive(Clone, Debug)]
pub struct BisectData {
    /// The working-copy revision when the session started; `reset`
    /// restores it.
    pub original_rev: u64,
    /// Latest known revision when the session started.
    pub head_rev: Option<u64>,
    /// Earliest known revision when the session started.
    pub first_rev: Option<u64>,
    /// Upper bound: the oldest revision known to exhibit the defect.
    pub max_rev: Option<u64>,
    /// Lower bound: the newest revision known to be clean.
    pub min_rev: Option<u64>,
    /// Revisions excluded from candidate selection, most recent first.
    pub skipped: Vec<u64>,
    /// Configured replacement for the `good` term, if any.
    pub term_good: Option<String>,
    /// Configured replacement for the `bad` term, if any.
    pub term_bad: Option<String>,
}

impl BisectData {
    /// Well-formedness: the skip set is strictly descending, the bounds
    /// are strictly ordered when both are set, and the terms are valid
    /// and distinct.
    pub open spec fn wf(self) -> bool {
        &&& sorted_desc(self.skipped@)
        &&& (self.max_rev matches Some(mx) ==> (self.min_rev matches Some(mn) ==> mn < mx))
        &&& (self.term_good matches Some(t) ==> valid_term(t@))
        &&& (self.term_bad matches Some(t) ==> valid_term(t@))
        &&& (self.term_good matches Some(tg) ==> (self.term_bad matches Some(tb) ==> tg@ != tb@))
    }

    /// The display name of the lower ("good") bound.
    pub open spec fn spec_good_name(self) -> Seq<char> {
        match self.term_good {
            Some(t) => t@,
            None => "good"@,
        }
    }

    /// The display name of the upper ("bad") bound.
    pub open spec fn spec_bad_name(self) -> Seq<char> {
        match self.term_bad {
            Some(t) => t@,
            None => "bad"@,
        }
    }

    /// Both bounds are set, so the engine can narrow.
    pub open spec fn spec_is_ready(self) -> bool {
        self.max_rev is Some && self.min_rev is Some
    }

    /// The configured term for the lower bound, or its default.
    pub fn good_name(&self) -> (r: String)
        ensures
            r@ == self.spec_good_name(),
    {
        match &self.term_good {
            Some(t) => t.clone(),
            None => "good".to_owned(),
        }
    }

    /// The configured term for the upper bound, or its default.
    pub fn bad_name(&self) -> (r: String)
        ensures
            r@ == self.spec_bad_name(),
    {
        match &self.term_bad {
            Some(t) => t.clone(),
            None => "bad".to_owned(),
        }
    }

    /// Whether both bounds are set.
    pub fn is_ready(&self) -> (r: bool)
        ensures
            r == self.spec_is_ready(),
    {
        self.max_rev.is_some() && self.min_rev.is_some()
    }
}

/// The term of a loaded session, or the empty string.
pub open spec fn spec_term_or_empty(term: Option<String>) -> Seq<char> {
    match term {
        Some(t) => t@,
        None => Seq::<char>::empty(),
    }
}

/// The configured `good` term of a loaded session, or the empty string.
pub fn good_term(data: &Option<BisectData>) -> (r: String)
    ensures
        *data matches Some(d) ==> r@ == spec_term_or_empty(d.term_good),
        *data is None ==> r@ == Seq::<char>::empty(),
{
    match data {
        Some(d) => match &d.term_good {
            Some(t) => t.clone(),
            None => String::new(),
        },
        None => String::new(),
    }
}

/// Marking `revision` good is rejected when it would not precede the
/// upper bound.
pub open spec fn good_rejected(d: BisectData, revision: u64) -> bool {
    match d.max_rev {
        Some(mx) => revision >= mx,
        None => false,
    }
}

/// Marking `revision` bad is rejected when it would not follow the lower
/// bound.
pub open spec fn bad_rejected(d: BisectData, revision: u64) -> bool {
    match d.min_rev {
        Some(mn) => revision <= mn,
        None => false,
    }
}

/// Mark a revision as good: it leaves the skip set and becomes the lower
/// bound.  Rejected without any mutation when the revision would not
/// strictly precede the current upper bound; moving the lower bound
/// earlier than its current value stays allowed.
pub fn mark_good_revision(data: &mut BisectData, revision: u64) -> (r: Result<(), SvError>)
    requires
        old(data).wf(),
    ensures
        final(data).wf(),
        r is Ok <==> !good_rejected(*old(data), revision),
        r is Err ==> *final(data) == *old(data) && r == Err::<(), SvError>(
            SvError::InvalidBoundOrder,
        ),
        step_rel(*old(data), SessionEvent::MarkGood(revision), *final(data)),
        r is Ok ==> {
            &&& final(data).min_rev == Some(revision)
            &&& final(data).max_rev == old(data).max_rev
            &&& final(data).original_rev == old(data).original_rev
            &&& final(data).head_rev == old(data).head_rev
            &&& final(data).first_rev == old(data).first_rev
            &&& final(data).term_good == old(data).term_good
            &&& final(data).term_bad == old(data).term_bad
            &&& forall|y: u64|
                #[trigger] final(data).skipped@.contains(y) <==> (old(data).skipped@.contains(y)
                    && y != revision)
        },
{
    match data.max_rev {
        Some(mx) => {
            if revision >= mx {
                return Err(SvError::InvalidBoundOrder);
            }
        },
        None => {},
    }
    remove_rev(&mut data.skipped, revision);
    data.min_rev = Some(revision);
    Ok(())
}

/// Mark a revision as bad: it leaves the skip set and becomes the upper
/// bound.  Rejected without any mutation when the revision would not
/// strictly follow the current lower bound; moving the upper bound later
/// than its current value stays allowed.
pub fn mark_bad_revision(data: &mut BisectData, revision: u64) -> (r: Result<(), SvError>)
    requires
        old(data).wf(),
    ensures
        final(data).wf(),
        r is Ok <==> !bad_rejected(*old(data), revision),
        r is Err ==> *final(data) == *old(data) && r == Err::<(), SvError>(
            SvError::InvalidBoundOrder,
        ),
        step_rel(*old(data), SessionEvent::MarkBad(revision), *final(data)),
        r is Ok ==> {
            &&& final(data).max_rev == Some(revision)
            &&& final(data).min_rev == old(data).min_rev
            &&& final(data).original_rev == old(data).original_rev
            &&& final(data).head_rev == old(data).head_rev
            &&& final(data).first_rev == old(data).first_rev
            &&& final(data).term_good == old(data).term_good
            &&& final(data).term_bad == old(data).term_bad
            &&& forall|y: u64|
                #[trigger] final(data).skipped@.contains(y) <==> (old(data).skipped@.contains(y)
                    && y != revision)
        },
{
    match data.min_rev {
        Some(mn) => {
            if revision <= mn {
                return Err(SvError::InvalidBoundOrder);
            }
        },
        None => {},
    }
    remove_rev(&mut data.skipped, revision);
    data.max_rev = Some(revision);
    Ok(())
}

/// Add a set of revisions to the skip set.
///
/// Returns the newly skipped revisions, most recent first; revisions
/// already skipped cause no change at all, so re-skipping is a no-op
/// that warrants neither a log entry nor another narrowing step.
pub fn mark_skipped_revisions(data: &mut BisectData, incoming: &Vec<u64>) -> (newly: Vec<u64>)
    requires
        old(data).wf(),
    ensures
        final(data).wf(),
        sorted_desc(newly@),
        forall|y: u64| #[trigger]
            newly@.contains(y) <==> (incoming@.contains(y) && !old(data).skipped@.contains(y)),
        forall|y: u64| #[trigger]
            final(data).skipped@.contains(y) <==> (old(data).skipped@.contains(y)
                || incoming@.contains(y)),
        newly@.len() == 0 ==> *final(data) == *old(data),
        final(data).original_rev == old(data).original_rev,
        final(data).max_rev == old(data).max_rev,
        final(data).min_rev == old(data).min_rev,
        final(data).head_rev == old(data).head_rev,
        final(data).first_rev == old(data).first_rev,
        final(data).term_good == old(data).term_good,
        final(data).term_bad == old(data).term_bad,
        step_rel(*old(data), SessionEvent::Skip(incoming@), *final(data)),
{
    let mut newly: Vec<u64> = Vec::new();
    let mut i: usize = 0;
    while i < incoming.len()
        invariant
            0 <= i <= incoming@.len(),
            *data == *old(data),
            old(data).wf(),
            sorted_desc(newly@),
            forall|y: u64| #[trigger]
                newly@.contains(y) <==> (incoming@.take(i as int).contains(y) && !old(
                    data,
                ).skipped@.contains(y)),
        decreases incoming@.len() - i,
    {
        let x = incoming[i];
        if !contains_rev(&data.skipped, x) && !contains_rev(&newly, x) {
            insert_desc(&mut newly, x);
        }
        proof {
            crate::revset::lemma_contains_take_step(incoming@, i as int);
        }
        i = i + 1;
    }
    assert(incoming@.take(incoming@.len() as int) =~= incoming@);
    if newly.len() > 0 {
        let ghost mid = *data;
        let mut j: usize = 0;
        while j < newly.len()
            invariant
                0 <= j <= newly@.len(),
                mid == *old(data),
                old(data).wf(),
                sorted_desc(newly@),
                forall|y: u64| #[trigger]
                    newly@.contains(y) <==> (incoming@.contains(y) && !mid.skipped@.contains(y)),
                data.original_rev == mid.original_rev,
                data.max_rev == mid.max_rev,
                data.min_rev == mid.min_rev,
                data.head_rev == mid.head_rev,
                data.first_rev == mid.first_rev,
                data.term_good == mid.term_good,
                data.term_bad == mid.term_bad,
                sorted_desc(data.skipped@),
                forall|y: u64| #[trigger]
                    data.skipped@.contains(y) <==> (mid.skipped@.contains(y) || newly@.take(
                        j as int,
                    ).contains(y)),
            decreases newly@.len() - j,
        {
            let x = newly[j];
            proof {
                assert(newly@.contains(newly@[j as int]));
                crate::revset::lemma_sorted_distinct(newly@, j as int);
            }
            insert_desc(&mut data.skipped, x);
            proof {
                crate::revset::lemma_contains_take_step(newly@, j as int);
            }
            j = j + 1;
        }
        assert(newly@.take(newly@.len() as int) =~= newly@);
    }
    proof {
        assert forall|y: u64| #[trigger] data.skipped@.contains(y) <==> (old(
            data,
        ).skipped@.contains(y) || incoming@.contains(y)) by {
            assert(newly@.contains(y) <==> (incoming@.contains(y) && !old(
                data,
            ).skipped@.contains(y)));
        }
    }
    newly
}

/// Remove a set of revisions from the skip set.
///
/// Returns the revisions actually reinstated, most recent first;
/// revisions that were not skipped cause no change at all.
pub fn mark_unskipped_revisions(data: &mut BisectData, incoming: &Vec<u64>) -> (newly: Vec<u64>)
    requires
        old(data).wf(),
    ensures
        final(data).wf(),
        sorted_desc(newly@),
        forall|y: u64| #[trigger]
            newly@.contains(y) <==> (incoming@.contains(y) && old(data).skipped@.contains(y)),
        forall|y: u64| #[trigger]
            final(data).skipped@.contains(y) <==> (old(data).skipped@.contains(y)
                && !incoming@.contains(y)),
        newly@.len() == 0 ==> *final(data) == *old(data),
        final(data).original_rev == old(data).original_rev,
        final(data).max_rev == old(data).max_rev,
        final(data).min_rev == old(data).min_rev,
        final(data).head_rev == old(data).head_rev,
        final(data).first_rev == old(data).first_rev,
        final(data).term_good == old(data).term_good,
        final(data).term_bad == old(data).term_bad,
        step_rel(*old(data), SessionEvent::Unskip(incoming@), *final(data)),
{
    let mut newly: Vec<u64> = Vec::new();
    let mut i: usize = 0;
    while i < incoming.len()
        invariant
            0 <= i <= incoming@.len(),
            *data == *old(data),
            old(data).wf(),
            sorted_desc(newly@),
            forall|y: u64| #[trigger]
                newly@.contains(y) <==> (incoming@.take(i as int).contains(y) && old(
                    data,
                ).skipped@.contains(y)),
        decreases incoming@.len() - i,
    {
        let x = incoming[i];
        if contains_rev(&data.skipped, x) && !contains_rev(&newly, x) {
            insert_desc(&mut newly, x);
        }
        proof {
            crate::revset::lemma_contains_take_step(incoming@, i as int);
        }
        i = i + 1;
    }
    assert(incoming@.take(incoming@.len() as int) =~= incoming@);
    if newly.len() > 0 {
        let ghost mid = *data;
        let mut j: usize = 0;
        while j < newly.len()
            invariant
                0 <= j <= newly@.len(),
                mid == *old(data),
                old(data).wf(),
                sorted_desc(newly@),
                forall|y: u64| #[trigger]
                    newly@.contains(y) <==> (incoming@.contains(y) && mid.skipped@.contains(y)),
                data.original_rev == mid.original_rev,
                data.max_rev == mid.max_rev,
                data.min_rev == mid.min_rev,
                data.head_rev == mid.head_rev,
                data.first_rev == mid.first_rev,
                data.term_good == mid.term_good,
                data.term_bad == mid.term_bad,
                sorted_desc(data.skipped@),
                forall|y: u64| #[trigger]
                    data.skipped@.contains(y) <==> (mid.skipped@.contains(y) && !newly@.take(
                        j as int,
                    ).contains(y)),
            decreases newly@.len() - j,
        {
            let x = newly[j];
            proof {
                assert(newly@.contains(newly@[j as int]));
            }
            remove_rev(&mut data.skipped, x);
            proof {
                crate::revset::lemma_contains_take_step(newly@, j as int);
            }
            j = j + 1;
        }
        assert(newly@.take(newly@.len() as int) =~= newly@);
    }
    proof {
        assert forall|y: u64| #[trigger] data.skipped@.contains(y) <==> (old(
            data,
        ).skipped@.contains(y) && !incoming@.contains(y)) by {
            assert(newly@.contains(y) <==> (incoming@.contains(y) && old(
                data,
            ).skipped@.contains(y)));
        }
    }
    newly
}

/// Begin a new session.
///
/// `already_active` reports whether the store holds a session; exactly
/// one session may exist per working copy, which the store enforces.
/// `original_rev` is the current working position, `head_rev` and
/// `first_rev` the ends of the known history span.  Any bounds arrive
/// already resolved.
pub fn start_session(
    already_active: bool,
    original_rev: u64,
    head_rev: u64,
    first_rev: u64,
    good: Option<u64>,
    bad: Option<u64>,
    term_good: Option<String>,
    term_bad: Option<String>,
) -> (r: Result<BisectData, SvError>)
    requires
        term_good matches Some(t) ==> valid_term(t@),
        term_bad matches Some(t) ==> valid_term(t@),
    ensures
        r is Ok <==> !already_active && !bounds_clash(good, bad) && !terms_clash(
            term_good,
            term_bad,
        ),
        already_active ==> r == Err::<BisectData, SvError>(SvError::SessionAlreadyActive),
        !already_active && bounds_clash(good, bad) ==> r == Err::<BisectData, SvError>(
            SvError::InvalidBoundOrder,
        ),
        !already_active && !bounds_clash(good, bad) && terms_clash(term_good, term_bad) ==> r
            == Err::<BisectData, SvError>(SvError::DuplicateBoundName),
        r matches Ok(d) ==> {
            &&& d.wf()
            &&& d.original_rev == original_rev
            &&& d.head_rev == Some(head_rev)
            &&& d.first_rev == Some(first_rev)
            &&& d.max_rev == bad
            &&& d.min_rev == good
            &&& d.skipped@ == Seq::<u64>::empty()
            &&& d.term_good == term_good
            &&& d.term_bad == term_bad
        },
{
    if already_active {
        return Err(SvError::SessionAlreadyActive);
    }
    match good {
        Some(g) => match bad {
            Some(b) => {
                if g >= b {
                    return Err(SvError::InvalidBoundOrder);
                }
            },
            None => {},
        },
        None => {},
    }
    assert(!bounds_clash(good, bad));
    match &term_good {
        Some(tg) => match &term_bad {
            Some(tb) => {
                if *tg == *tb {
                    assert(terms_clash(term_good, term_bad));
                    return Err(SvError::DuplicateBoundName);
                }
            },
            None => {},
        },
        None => {},
    }
    assert(!terms_clash(term_good, term_bad));
    let d = BisectData {
        original_rev,
        head_rev: Some(head_rev),
        first_rev: Some(first_rev),
        max_rev: bad,
        min_rev: good,
        skipped: Vec::new(),
        term_good,
        term_bad,
    };
    Ok(d)
}

/// Both bounds are given and not strictly ordered good < bad.
pub open spec fn bounds_clash(good: Option<u64>, bad: Option<u64>) -> bool {
    match (good, bad) {
        (Some(g), Some(b)) => g >= b,
        _ => false,
    }
}

/// Both terms are given and equal.
pub open spec fn terms_clash(term_good: Option<String>, term_bad: Option<String>) -> bool {
    match (term_good, term_bad) {
        (Some(tg), Some(tb)) => tg@ == tb@,
        _ => false,
    }
}

/// One session mutation, seen abstractly: the input of one `mark_*`
/// call.
pub enum SessionEvent {
    MarkGood(u64),
    MarkBad(u64),
    Skip(Seq<u64>),
    Unskip(Seq<u64>),
}

/// What one mutation promises, as a relation between the state before and
/// after: exactly the contract of the corresponding `mark_*` function,
/// rejected attempts included (they leave the state unchanged).
pub open spec fn step_rel(pre: BisectData, e: SessionEvent, post: BisectData) -> bool {
    match e {
        SessionEvent::MarkGood(rev) => if good_rejected(pre, rev) {
            post == pre
        } else {
            &&& post.min_rev == Some(rev)
            &&& post.max_rev == pre.max_rev
            &&& post.original_rev == pre.original_rev
            &&& post.head_rev == pre.head_rev
            &&& post.first_rev == pre.first_rev
            &&& post.term_good == pre.term_good
            &&& post.term_bad == pre.term_bad
            &&& sorted_desc(post.skipped@)
            &&& forall|y: u64| #[trigger]
                post.skipped@.contains(y) <==> (pre.skipped@.contains(y) && y != rev)
        },
        SessionEvent::MarkBad(rev) => if bad_rejected(pre, rev) {
            post == pre
        } else {
            &&& post.max_rev == Some(rev)
            &&& post.min_rev == pre.min_rev
            &&& post.original_rev == pre.original_rev
            &&& post.head_rev == pre.head_rev
            &&& post.first_rev == pre.first_rev
            &&& post.term_good == pre.term_good
            &&& post.term_bad == pre.term_bad
            &&& sorted_desc(post.skipped@)
            &&& forall|y: u64| #[trigger]
                post.skipped@.contains(y) <==> (pre.skipped@.contains(y) && y != rev)
        },
        SessionEvent::Skip(incoming) => {
            &&& post.max_rev == pre.max_rev
            &&& post.min_rev == pre.min_rev
            &&& post.original_rev == pre.original_rev
            &&& post.head_rev == pre.head_rev
            &&& post.first_rev == pre.first_rev
            &&& post.term_good == pre.term_good
            &&& post.term_bad == pre.term_bad
            &&& sorted_desc(post.skipped@)
            &&& forall|y: u64| #[trigger]
                post.skipped@.contains(y) <==> (pre.skipped@.contains(y) || incoming.contains(y))
        },
        SessionEvent::Unskip(incoming) => {
            &&& post.max_rev == pre.max_rev
            &&& post.min_rev == pre.min_rev
            &&& post.original_rev == pre.original_rev
            &&& post.head_rev == pre.head_rev
            &&& post.first_rev == pre.first_rev
            &&& post.term_good == pre.term_good
            &&& post.term_bad == pre.term_bad
            &&& sorted_desc(post.skipped@)
            &&& forall|y: u64| #[trigger]
                post.skipped@.contains(y) <==> (pre.skipped@.contains(y) && !incoming.contains(y))
        },
    }
}

/// The status line shown while at least one bound is missing.
pub open spec fn spec_waiting_message(d: BisectData) -> Seq<char> {
    if d.max_rev is None && d.min_rev is None {
        "status: waiting for both '"@ + d.spec_good_name() + "' and '"@ + d.spec_bad_name()
            + "' revisions"@
    } else if d.max_rev is Some && d.min_rev is None {
        "status: waiting for a '"@ + d.spec_good_name() + "' revision"@
    } else if d.max_rev is None && d.min_rev is Some {
        "status: waiting for a '"@ + d.spec_bad_name() + "' revision"@
    } else {
        Seq::<char>::empty()
    }
}

/// What the session still waits for, or nothing once both bounds are set.
pub fn get_waiting_status(data: &BisectData) -> (r: Option<String>)
    ensures
        r is Some <==> !data.spec_is_ready(),
        r matches Some(m) ==> m@ == spec_waiting_message(*data),
{
    if data.max_rev.is_none() && data.min_rev.is_none() {
        let m = String::from_str("status: waiting for both '").concat(
            data.good_name().as_str(),
        ).concat("' and '").concat(data.bad_name().as_str()).concat("' revisions");
        assert(m@ =~= spec_waiting_message(*data));
        Some(m)
    } else if data.max_rev.is_some() && data.min_rev.is_none() {
        let m = String::from_str("status: waiting for a '").concat(
            data.good_name().as_str(),
        ).concat("' revision");
        assert(m@ =~= spec_waiting_message(*data));
        Some(m)
    } else if data.max_rev.is_none() && data.min_rev.is_some() {
        let m = String::from_str("status: waiting for a '").concat(
            data.bad_name().as_str(),
        ).concat("' revision");
        assert(m@ =~= spec_waiting_message(*data));
        Some(m)
    } else {
        None
    }
}

/// The revision `reset` restores: the explicit target when one is given,
/// else the position captured when the session started.
pub fn reset_revision(data: &BisectData, explicit: Option<u64>) -> (r: u64)
    ensures
        r == spec_reset_revision(*data, explicit),
{
    match explicit {
        Some(rev) => rev,
        None => data.original_rev,
    }
}

/// What `reset` restores.
pub open spec fn spec_reset_revision(d: BisectData, explicit: Option<u64>) -> u64 {
    match explicit {
        Some(rev) => rev,
        None => d.original_rev,
    }
}

/// The configured `bad` term of a loaded session, or the empty string.
pub fn bad_term(data: &Option<BisectData>) -> (r: String)
    ensures
        *data matches Some(d) ==> r@ == spec_term_or_empty(d.term_bad),
        *data is None ==> r@ == Seq::<char>::empty(),
{
    match data {
        Some(d) => match &d.term_bad {
            Some(t) => t.clone(),
            None => String::new(),
        },
        None => String::new(),
    }
}

} // verus!
