//! Revision expressions: the grammar for user-supplied revision arguments
//! (a number, a symbolic keyword, or either with a signed offset), and
//! their resolution against a window of history.

use vstd::prelude::*;

use crate::errors::SvError;

verus! {

/// The symbolic revision keywords accepted in a revision expression.
#[derive(Clone, Copy, Debug, PartialEq, Eq, Structural)]
pub enum RevKeyword {
    Head,
    Base,
    Prev,
    Committed,
}

/// The anchor of a revision expression: a concrete number or a keyword.
#[derive(Clone, Copy, Debug, PartialEq, Eq, Structural)]
pub enum RevBase {
    Number(u64),
    Keyword(RevKeyword),
}

/// A parsed revision expression: an anchor plus an optional signed offset.
/// An absent offset parses as `delta == 0` with `backward == false`.
#[derive(Clone, Copy, Debug, PartialEq, Eq, Structural)]
pub struct RevExpr {
    pub base: RevBase,
    /// True when the offset points toward the repository root (`-N`).
    pub backward: bool,
    /// Magnitude of the offset in revisions.
    pub delta: u64,
}

/// A decimal digit.
pub open spec fn is_digit(c: char) -> bool {
    '0' <= c && c <= '9'
}

/// Numeric value of one digit.
pub open spec fn digit_val(c: char) -> int {
    c as int - '0' as int
}

/// Every character of `s` is a decimal digit.
pub open spec fn all_digits(s: Seq<char>) -> bool {
    forall|i: int| 0 <= i < s.len() ==> is_digit(#[trigger] s[i])
}

/// Numeric value of a digit string, most significant digit first.
pub open spec fn digits_value(s: Seq<char>) -> int
    decreases s.len(),
{
    if s.len() == 0 {
        0
    } else {
        digits_value(s.drop_last()) * 10 + digit_val(s.last())
    }
}

proof fn lemma_digits_value_nonneg(s: Seq<char>)
    requires
        all_digits(s),
    ensures
        digits_value(s) >= 0,
    decreases s.len(),
{
    if s.len() > 0 {
        assert(all_digits(s.drop_last()));
        lemma_digits_value_nonneg(s.drop_last());
    }
}

proof fn lemma_digits_value_prefix_le(s: Seq<char>, n: int)
    requires
        all_digits(s),
        0 <= n <= s.len(),
    ensures
        digits_value(s.take(n)) <= digits_value(s),
    decreases s.len() - n,
{
    if n < s.len() {
        lemma_digits_value_prefix_le(s, n + 1);
        assert(s.take(n + 1).drop_last() =~= s.take(n));
        assert(digits_value(s.take(n + 1)) == digits_value(s.take(n)) * 10 + digit_val(
            s.take(n + 1).last(),
        ));
        lemma_digits_value_nonneg(s.take(n));
        assert(is_digit(s[n]));
    } else {
        assert(s.take(n) =~= s);
    }
}

/// Parse a fully resolved revision string into its number.
///
/// Returns `None` when the text is not a plain digit string or its value
/// does not fit in 64 bits.
pub fn to_rev_num(rev: &str) -> (r: Option<u64>)
    ensures
        r is Some <==> rev@.len() > 0 && all_digits(rev@) && digits_value(rev@) <= u64::MAX,
        r matches Some(n) ==> n == digits_value(rev@),
{
    let len = rev.unicode_len();
    if len == 0 {
        return None;
    }
    let mut n: u64 = 0;
    let mut i: usize = 0;
    while i < len
        invariant
            0 <= i <= len,
            len == rev@.len(),
            all_digits(rev@.take(i as int)),
            n == digits_value(rev@.take(i as int)),
        decreases len - i,
    {
        let c = rev.get_char(i);
        if c < '0' || c > '9' {
            assert(!is_digit(rev@[i as int]));
            return None;
        }
        let d: u64 = (c as u32 - '0' as u32) as u64;
        if n > (u64::MAX - d) / 10 {
            proof {
                assert(rev@.take(i as int + 1).drop_last() =~= rev@.take(i as int));
                assert(digits_value(rev@.take(i as int + 1)) > u64::MAX);
                if all_digits(rev@) {
                    lemma_digits_value_prefix_le(rev@, i as int + 1);
                }
            }
            return None;
        }
        assert(rev@.take(i as int + 1).drop_last() =~= rev@.take(i as int));
        n = n * 10 + d;
        i = i + 1;
    }
    assert(rev@.take(len as int) =~= rev@);
    Some(n)
}

/// A sign character starting an offset.
pub open spec fn is_sign(c: char) -> bool {
    c == '+' || c == '-'
}

/// One of the symbolic revision keywords.
pub open spec fn is_keyword(s: Seq<char>) -> bool {
    s == "HEAD"@ || s == "BASE"@ || s == "PREV"@ || s == "COMMITTED"@
}

/// A valid anchor: a non-empty digit string or a keyword.
pub open spec fn is_base(s: Seq<char>) -> bool {
    (s.len() > 0 && all_digits(s)) || is_keyword(s)
}

/// A valid offset: a sign followed by at least one digit.
pub open spec fn is_delta(s: Seq<char>) -> bool {
    s.len() >= 2 && is_sign(s[0]) && all_digits(s.skip(1))
}

/// Index of the first sign character, or `s.len()` when there is none.
pub open spec fn first_sign(s: Seq<char>) -> int
    decreases s.len(),
{
    if s.len() == 0 {
        0
    } else if is_sign(s[0]) {
        0
    } else {
        1 + first_sign(s.skip(1))
    }
}

proof fn lemma_first_sign(s: Seq<char>)
    ensures
        0 <= first_sign(s) <= s.len(),
        first_sign(s) < s.len() ==> is_sign(s[first_sign(s)]),
        forall|j: int| 0 <= j < first_sign(s) ==> !is_sign(#[trigger] s[j]),
    decreases s.len(),
{
    if s.len() > 0 && !is_sign(s[0]) {
        lemma_first_sign(s.skip(1));
        assert forall|j: int| 0 <= j < first_sign(s) implies !is_sign(#[trigger] s[j]) by {
            if j > 0 {
                assert(s[j] == s.skip(1)[j - 1]);
            }
        }
    }
}

/// The revision-expression grammar: an anchor (`123`, `HEAD`, `BASE`,
/// `PREV`, `COMMITTED`) optionally followed by a signed decimal offset,
/// split at the first sign character (anchors contain no sign).
pub open spec fn spec_is_rev_expr(s: Seq<char>) -> bool {
    let i = first_sign(s);
    if i == s.len() {
        is_base(s)
    } else {
        is_base(s.take(i)) && is_delta(s.skip(i))
    }
}

/// Index of the first `:`, or `s.len()` when there is none.
pub open spec fn first_colon(s: Seq<char>) -> int
    decreases s.len(),
{
    if s.len() == 0 {
        0
    } else if s[0] == ':' {
        0
    } else {
        1 + first_colon(s.skip(1))
    }
}

proof fn lemma_first_colon(s: Seq<char>)
    ensures
        0 <= first_colon(s) <= s.len(),
        first_colon(s) < s.len() ==> s[first_colon(s)] == ':',
        forall|j: int| 0 <= j < first_colon(s) ==> #[trigger] s[j] != ':',
    decreases s.len(),
{
    if s.len() > 0 && s[0] != ':' {
        lemma_first_colon(s.skip(1));
        assert forall|j: int| 0 <= j < first_colon(s) implies #[trigger] s[j] != ':' by {
            if j > 0 {
                assert(s[j] == s.skip(1)[j - 1]);
            }
        }
    }
}

/// The revision-range grammar: one expression, or two separated by `:`.
pub open spec fn spec_is_rev_range(s: Seq<char>) -> bool {
    let i = first_colon(s);
    if i == s.len() {
        spec_is_rev_expr(s)
    } else {
        spec_is_rev_expr(s.take(i)) && spec_is_rev_expr(s.skip(i + 1))
    }
}

/// Character-for-character string equality.
pub(crate) fn str_eq(a: &str, b: &str) -> (r: bool)
    ensures
        r == (a@ == b@),
{
    let sa: String = a.to_owned();
    let sb: String = b.to_owned();
    sa == sb
}

/// Non-empty and made of decimal digits only.
fn is_digits_str(s: &str) -> (r: bool)
    ensures
        r == (s@.len() > 0 && all_digits(s@)),
{
    let len = s.unicode_len();
    if len == 0 {
        return false;
    }
    let mut i: usize = 0;
    while i < len
        invariant
            0 <= i <= len,
            len == s@.len(),
            all_digits(s@.take(i as int)),
        decreases len - i,
    {
        let c = s.get_char(i);
        if c < '0' || c > '9' {
            assert(!is_digit(s@[i as int]));
            return false;
        }
        assert(s@.take(i as int + 1).drop_last() =~= s@.take(i as int));
        i = i + 1;
    }
    assert(s@.take(len as int) =~= s@);
    true
}

/// Equality with one of the symbolic keywords.
fn is_keyword_str(s: &str) -> (r: bool)
    ensures
        r == is_keyword(s@),
{
    str_eq(s, "HEAD") || str_eq(s, "BASE") || str_eq(s, "PREV") || str_eq(s, "COMMITTED")
}

/// A valid anchor: digits or a keyword.
fn is_base_str(s: &str) -> (r: bool)
    ensures
        r == is_base(s@),
{
    is_digits_str(s) || is_keyword_str(s)
}

/// Index of the first sign character, or the length when there is none.
fn first_sign_index(s: &str) -> (i: usize)
    ensures
        i == first_sign(s@),
{
    let len = s.unicode_len();
    let mut i: usize = 0;
    while i < len
        invariant
            0 <= i <= len,
            len == s@.len(),
            forall|j: int| 0 <= j < i ==> !is_sign(#[trigger] s@[j]),
        decreases len - i,
    {
        let c = s.get_char(i);
        if c == '+' || c == '-' {
            proof {
                lemma_first_sign(s@);
                assert(is_sign(s@[i as int]));
            }
            return i;
        }
        assert(!is_sign(s@[i as int]));
        i = i + 1;
    }
    proof {
        lemma_first_sign(s@);
    }
    len
}

/// Index of the first `:`, or the length when there is none.
fn first_colon_index(s: &str) -> (i: usize)
    ensures
        i == first_colon(s@),
{
    let len = s.unicode_len();
    let mut i: usize = 0;
    while i < len
        invariant
            0 <= i <= len,
            len == s@.len(),
            forall|j: int| 0 <= j < i ==> #[trigger] s@[j] != ':',
        decreases len - i,
    {
        let c = s.get_char(i);
        if c == ':' {
            proof {
                lemma_first_colon(s@);
            }
            return i;
        }
        i = i + 1;
    }
    proof {
        lemma_first_colon(s@);
    }
    len
}

/// Whether `text` is a well-formed revision expression.
pub fn looks_like_revision(text: &str) -> (b: bool)
    ensures
        b == spec_is_rev_expr(text@),
{
    let len = text.unicode_len();
    let i = first_sign_index(text);
    proof {
        lemma_first_sign(text@);
    }
    if i == len {
        assert(text@.take(len as int) =~= text@);
        is_base_str(text)
    } else {
        let base = text.substring_char(0, i);
        if !is_base_str(base) {
            return false;
        }
        if len - i < 2 {
            return false;
        }
        let digits = text.substring_char(i + 1, len);
        let r = is_digits_str(digits);
        proof {
            assert(text@.skip(i as int).len() >= 2);
            assert(text@.skip(i as int)[0] == text@[i as int]);
            lemma_first_sign(text@);
            assert(text@.skip(i as int).skip(1) =~= text@.subrange(i as int + 1, len as int));
        }
        r
    }
}

/// Whether `text` is a well-formed revision range (`REV` or `REV:REV`).
pub fn looks_like_revision_range(text: &str) -> (b: bool)
    ensures
        b == spec_is_rev_range(text@),
{
    let len = text.unicode_len();
    let i = first_colon_index(text);
    proof {
        lemma_first_colon(text@);
    }
    if i == len {
        assert(text@.take(len as int) =~= text@);
        looks_like_revision(text)
    } else {
        let left = text.substring_char(0, i);
        let right = text.substring_char(i + 1, len);
        proof {
            assert(right@ =~= text@.skip(i as int + 1));
        }
        let okl = looks_like_revision(left);
        let okr = looks_like_revision(right);
        okl && okr
    }
}

/// Which keyword a keyword string denotes.
pub open spec fn spec_keyword_of(s: Seq<char>) -> RevKeyword
    recommends
        is_keyword(s),
{
    if s == "HEAD"@ {
        RevKeyword::Head
    } else if s == "BASE"@ {
        RevKeyword::Base
    } else if s == "PREV"@ {
        RevKeyword::Prev
    } else {
        RevKeyword::Committed
    }
}

/// The anchor an anchor string denotes.
pub open spec fn spec_base_of(s: Seq<char>) -> RevBase
    recommends
        is_base(s),
{
    if s.len() > 0 && all_digits(s) {
        RevBase::Number(digits_value(s) as u64)
    } else {
        RevBase::Keyword(spec_keyword_of(s))
    }
}

/// The expression a well-formed revision string denotes.
pub open spec fn spec_expr_of(s: Seq<char>) -> RevExpr
    recommends
        spec_is_rev_expr(s),
{
    let i = first_sign(s);
    if i == s.len() {
        RevExpr { base: spec_base_of(s), backward: false, delta: 0 }
    } else {
        RevExpr {
            base: spec_base_of(s.take(i)),
            backward: s[i] == '-',
            delta: digits_value(s.skip(i + 1)) as u64,
        }
    }
}

/// Both numbers of the expression fit in 64 bits.
pub open spec fn spec_rev_fits(s: Seq<char>) -> bool {
    let i = first_sign(s);
    let base = if i == s.len() {
        s
    } else {
        s.take(i)
    };
    &&& (base.len() > 0 && all_digits(base) ==> digits_value(base) <= u64::MAX)
    &&& (i < s.len() ==> digits_value(s.skip(i + 1)) <= u64::MAX)
}

/// Parse an anchor string.
fn parse_base(s: &str) -> (r: Option<RevBase>)
    ensures
        r is Some <==> is_base(s@) && (s@.len() > 0 && all_digits(s@) ==> digits_value(s@)
            <= u64::MAX),
        r matches Some(b) ==> b == spec_base_of(s@),
{
    if is_digits_str(s) {
        match to_rev_num(s) {
            Some(n) => Some(RevBase::Number(n)),
            None => None,
        }
    } else if str_eq(s, "HEAD") {
        Some(RevBase::Keyword(RevKeyword::Head))
    } else if str_eq(s, "BASE") {
        Some(RevBase::Keyword(RevKeyword::Base))
    } else if str_eq(s, "PREV") {
        Some(RevBase::Keyword(RevKeyword::Prev))
    } else if str_eq(s, "COMMITTED") {
        Some(RevBase::Keyword(RevKeyword::Committed))
    } else {
        None
    }
}

/// Parse a revision expression.
///
/// Fails exactly on text outside the grammar, counting a number that does
/// not fit in 64 bits as out of the grammar.
pub fn parse_revision(text: &str) -> (r: Result<RevExpr, SvError>)
    ensures
        r is Ok <==> spec_is_rev_expr(text@) && spec_rev_fits(text@),
        r matches Ok(e) ==> e == spec_expr_of(text@),
        r is Err ==> r == Err::<RevExpr, SvError>(SvError::MalformedRevisionExpression),
{
    let len = text.unicode_len();
    let i = first_sign_index(text);
    proof {
        lemma_first_sign(text@);
    }
    if i == len {
        assert(text@.take(len as int) =~= text@);
        match parse_base(text) {
            Some(base) => Ok(RevExpr { base, backward: false, delta: 0 }),
            None => Err(SvError::MalformedRevisionExpression),
        }
    } else {
        let base_str = text.substring_char(0, i);
        let base = match parse_base(base_str) {
            Some(b) => b,
            None => {
                return Err(SvError::MalformedRevisionExpression);
            },
        };
        if len - i < 2 {
            assert(text@.skip(i as int).len() < 2);
            return Err(SvError::MalformedRevisionExpression);
        }
        let digits = text.substring_char(i + 1, len);
        proof {
            assert(digits@ =~= text@.skip(i as int + 1));
            assert(text@.skip(i as int).skip(1) =~= text@.skip(i as int + 1));
            assert(text@.skip(i as int)[0] == text@[i as int]);
        }
        let delta = match to_rev_num(digits) {
            Some(d) => d,
            None => {
                return Err(SvError::MalformedRevisionExpression);
            },
        };
        let backward = text.get_char(i) == '-';
        Ok(RevExpr { base, backward, delta })
    }
}

/// Resolve a revision expression against the history window that the
/// external history query returned for its anchor and direction.
///
/// `window` lists concrete revision numbers starting at the anchor itself
/// (index 0) and stepping one revision at a time in the direction of the
/// offset; the result is the entry `delta` steps away.  A window shorter
/// than `delta + 1` entries cannot satisfy the offset.
pub fn resolve_revision(expr: &str, window: &Vec<u64>) -> (r: Result<u64, SvError>)
    ensures
        !(spec_is_rev_expr(expr@) && spec_rev_fits(expr@)) ==> r == Err::<u64, SvError>(
            SvError::MalformedRevisionExpression,
        ),
        spec_is_rev_expr(expr@) && spec_rev_fits(expr@) ==> {
            let d = spec_expr_of(expr@).delta;
            if d < window@.len() {
                r == Ok::<u64, SvError>(window@[d as int])
            } else {
                r == Err::<u64, SvError>(SvError::UnresolvableRevision)
            }
        },
{
    let e = match parse_revision(expr) {
        Ok(e) => e,
        Err(err) => {
            return Err(err);
        },
    };
    get_revision_number(e.delta, window)
}

/// Pick the revision `delta` steps into a history window: the entry at
/// index `delta`, counting the anchor itself as index 0.
pub fn get_revision_number(delta: u64, window: &Vec<u64>) -> (r: Result<u64, SvError>)
    ensures
        delta < window@.len() ==> r == Ok::<u64, SvError>(window@[delta as int]),
        delta >= window@.len() ==> r == Err::<u64, SvError>(SvError::UnresolvableRevision),
{
    if delta < window.len() as u64 {
        let idx = delta as usize;
        Ok(window[idx])
    } else {
        Err(SvError::UnresolvableRevision)
    }
}

/// Resolve a range expression `REV:REV` into its two concrete endpoints.
///
/// `window_first` and `window_second` are the history windows the
/// external query returned for the two endpoints, as for
/// [`resolve_revision`].
pub fn resolve_revision_range(expr: &str, window_first: &Vec<u64>, window_second: &Vec<u64>) -> (r:
    Result<(u64, u64), SvError>)
    ensures
        first_colon(expr@) == expr@.len() ==> r == Err::<(u64, u64), SvError>(
            SvError::MalformedRevisionExpression,
        ),
        first_colon(expr@) < expr@.len() ==> {
            let a = expr@.take(first_colon(expr@));
            let b = expr@.skip(first_colon(expr@) + 1);
            if !(spec_is_rev_expr(a) && spec_rev_fits(a) && spec_is_rev_expr(b) && spec_rev_fits(
                b,
            )) {
                r == Err::<(u64, u64), SvError>(SvError::MalformedRevisionExpression)
            } else {
                let da = spec_expr_of(a).delta;
                let db = spec_expr_of(b).delta;
                if da < window_first@.len() && db < window_second@.len() {
                    r == Ok::<(u64, u64), SvError>(
                        (window_first@[da as int], window_second@[db as int]),
                    )
                } else {
                    r == Err::<(u64, u64), SvError>(SvError::UnresolvableRevision)
                }
            }
        },
{
    let len = expr.unicode_len();
    let i = first_colon_index(expr);
    proof {
        lemma_first_colon(expr@);
    }
    if i == len {
        return Err(SvError::MalformedRevisionExpression);
    }
    let left = expr.substring_char(0, i);
    let right = expr.substring_char(i + 1, len);
    proof {
        assert(right@ =~= expr@.skip(i as int + 1));
    }
    let ea = match parse_revision(left) {
        Ok(e) => e,
        Err(err) => {
            return Err(err);
        },
    };
    let eb = match parse_revision(right) {
        Ok(e) => e,
        Err(err) => {
            return Err(err);
        },
    };
    if ea.delta < window_first.len() as u64 && eb.delta < window_second.len() as u64 {
        let a = window_first[ea.delta as usize];
        let b = window_second[eb.delta as usize];
        Ok((a, b))
    } else {
        Err(SvError::UnresolvableRevision)
    }
}

/// The character a digit value renders as.
pub open spec fn digit_char(d: int) -> char {
    if d == 0 {
        '0'
    } else if d == 1 {
        '1'
    } else if d == 2 {
        '2'
    } else if d == 3 {
        '3'
    } else if d == 4 {
        '4'
    } else if d == 5 {
        '5'
    } else if d == 6 {
        '6'
    } else if d == 7 {
        '7'
    } else if d == 8 {
        '8'
    } else {
        '9'
    }
}

/// Decimal rendering of a revision number, most significant digit first.
pub open spec fn spec_u64_digits(n: u64) -> Seq<char>
    decreases n,
{
    if n < 10 {
        seq![digit_char(n as int)]
    } else {
        spec_u64_digits(n / 10).push(digit_char((n % 10) as int))
    }
}

proof fn lemma_u64_digits(n: u64)
    ensures
        spec_u64_digits(n).len() > 0,
        all_digits(spec_u64_digits(n)),
        digits_value(spec_u64_digits(n)) == n,
    decreases n,
{
    if n < 10 {
        let s = spec_u64_digits(n);
        assert(digit_val(digit_char(n as int)) == n);
        assert(s.drop_last() =~= Seq::<char>::empty());
        assert(s.last() == digit_char(n as int));
        assert(digits_value(s) == digits_value(s.drop_last()) * 10 + digit_val(s.last()));
        assert(digits_value(Seq::<char>::empty()) == 0);
        assert(digits_value(s) == n);
    } else {
        lemma_u64_digits(n / 10);
        let s = spec_u64_digits(n);
        assert(s.drop_last() =~= spec_u64_digits(n / 10));
        assert(s.last() == digit_char((n % 10) as int));
        assert(digit_val(digit_char((n % 10) as int)) == n % 10);
        assert(digits_value(s) == digits_value(spec_u64_digits(n / 10)) * 10 + n % 10);
        assert(n / 10 * 10 + n % 10 == n) by (nonlinear_arith);
        assert(digits_value(s) == n);
        assert(forall|i: int|
            0 <= i < s.len() - 1 ==> s[i] == #[trigger] spec_u64_digits(n / 10)[i]);
    }
}

/// One digit as a string.
fn digit_str(d: u64) -> (r: &'static str)
    requires
        d < 10,
    ensures
        r@ == seq![digit_char(d as int)],
{
    if d == 0 {
        proof {
            reveal_strlit("0");
        }
        assert("0"@ =~= seq![digit_char(0)]);
        "0"
    } else if d == 1 {
        proof {
            reveal_strlit("1");
        }
        assert("1"@ =~= seq![digit_char(1)]);
        "1"
    } else if d == 2 {
        proof {
            reveal_strlit("2");
        }
        assert("2"@ =~= seq![digit_char(2)]);
        "2"
    } else if d == 3 {
        proof {
            reveal_strlit("3");
        }
        assert("3"@ =~= seq![digit_char(3)]);
        "3"
    } else if d == 4 {
        proof {
            reveal_strlit("4");
        }
        assert("4"@ =~= seq![digit_char(4)]);
        "4"
    } else if d == 5 {
        proof {
            reveal_strlit("5");
        }
        assert("5"@ =~= seq![digit_char(5)]);
        "5"
    } else if d == 6 {
        proof {
            reveal_strlit("6");
        }
        assert("6"@ =~= seq![digit_char(6)]);
        "6"
    } else if d == 7 {
        proof {
            reveal_strlit("7");
        }
        assert("7"@ =~= seq![digit_char(7)]);
        "7"
    } else if d == 8 {
        proof {
            reveal_strlit("8");
        }
        assert("8"@ =~= seq![digit_char(8)]);
        "8"
    } else {
        proof {
            reveal_strlit("9");
        }
        assert("9"@ =~= seq![digit_char(9)]);
        "9"
    }
}

/// Render a revision number in decimal.
pub fn rev_num_to_string(n: u64) -> (s: String)
    ensures
        s@ == spec_u64_digits(n),
        all_digits(s@),
        digits_value(s@) == n,
    decreases n,
{
    proof {
        lemma_u64_digits(n);
    }
    if n < 10 {
        digit_str(n).to_owned()
    } else {
        let prefix = rev_num_to_string(n / 10);
        let s = prefix.concat(digit_str(n % 10));
        assert(s@ =~= spec_u64_digits(n / 10).push(digit_char((n % 10) as int)));
        s
    }
}

/// The range argument of the history query that resolves `e`: the anchor
/// alone for a point query, `anchor:0` toward the root, `anchor:HEAD`
/// toward the tip.
pub open spec fn spec_query_range(e: RevExpr) -> Seq<char> {
    let b = spec_base_seq(e.base);
    if e.delta == 0 {
        b
    } else if e.backward {
        b + ":0"@
    } else {
        b + ":HEAD"@
    }
}

/// The text an anchor renders as.
pub open spec fn spec_base_seq(base: RevBase) -> Seq<char> {
    match base {
        RevBase::Number(n) => spec_u64_digits(n),
        RevBase::Keyword(RevKeyword::Head) => "HEAD"@,
        RevBase::Keyword(RevKeyword::Base) => "BASE"@,
        RevBase::Keyword(RevKeyword::Prev) => "PREV"@,
        RevBase::Keyword(RevKeyword::Committed) => "COMMITTED"@,
    }
}

/// The history query that resolves `e`: the revision-range argument for
/// the log request, and how many entries to ask for.
pub fn revision_query(e: &RevExpr) -> (r: (String, u64))
    requires
        e.delta < u64::MAX,
    ensures
        r.0@ == spec_query_range(*e),
        r.1 == e.delta + 1,
{
    let base: String = match e.base {
        RevBase::Number(n) => rev_num_to_string(n),
        RevBase::Keyword(RevKeyword::Head) => "HEAD".to_owned(),
        RevBase::Keyword(RevKeyword::Base) => "BASE".to_owned(),
        RevBase::Keyword(RevKeyword::Prev) => "PREV".to_owned(),
        RevBase::Keyword(RevKeyword::Committed) => "COMMITTED".to_owned(),
    };
    let range: String = if e.delta == 0 {
        base
    } else if e.backward {
        base.concat(":0")
    } else {
        base.concat(":HEAD")
    };
    (range, e.delta + 1)
}

} // verus!
