//! The skip set: concrete revisions kept as a strictly descending vector,
//! most recent first, with ordinary set algebra over it.

use vstd::prelude::*;

verus! {

/// Strictly descending: later entries are strictly older revisions.
pub open spec fn sorted_desc(s: Seq<u64>) -> bool {
    forall|i: int, j: int| 0 <= i < j < s.len() ==> s[i] > s[j]
}

/// Extending a prefix by one element extends what it contains by that
/// element.
pub(crate) proof fn lemma_contains_take_step(s: Seq<u64>, i: int)
    requires
        0 <= i < s.len(),
    ensures
        forall|y: u64| #[trigger] s.take(i + 1).contains(y) <==> (s.take(i).contains(y) || y
            == s[i]),
{
    let t1 = s.take(i + 1);
    assert forall|y: u64| #[trigger] s.take(i + 1).contains(y) implies (s.take(i).contains(y) || y
        == s[i]) by {
        let k = choose|k: int| 0 <= k < t1.len() && t1[k] == y;
        if k < i {
            assert(s.take(i)[k] == y);
        }
    }
    assert forall|y: u64| (s.take(i).contains(y) || y == s[i]) implies #[trigger] s.take(
        i + 1,
    ).contains(y) by {
        if s.take(i).contains(y) {
            let k = choose|k: int| 0 <= k < s.take(i).len() && s.take(i)[k] == y;
            assert(s.take(i + 1)[k] == y);
        } else {
            assert(s.take(i + 1)[i] == y);
        }
    }
}

/// A strictly descending sequence never repeats an element.
pub(crate) proof fn lemma_sorted_distinct(s: Seq<u64>, j: int)
    requires
        sorted_desc(s),
        0 <= j < s.len(),
    ensures
        !s.take(j).contains(s[j]),
{
    if s.take(j).contains(s[j]) {
        let k = choose|k: int| 0 <= k < s.take(j).len() && s.take(j)[k] == s[j];
        assert(s[k] == s[j]);
        assert(s[k] > s[j]);
    }
}

/// Membership test by linear scan.
pub fn contains_rev(v: &Vec<u64>, x: u64) -> (r: bool)
    ensures
        r == v@.contains(x),
{
    let mut i: usize = 0;
    while i < v.len()
        invariant
            0 <= i <= v@.len(),
            forall|k: int| 0 <= k < i ==> v@[k] != x,
        decreases v@.len() - i,
    {
        if v[i] == x {
            return true;
        }
        i = i + 1;
    }
    false
}

/// Insert a revision that is not yet present, keeping the order.
pub fn insert_desc(v: &mut Vec<u64>, x: u64)
    requires
        sorted_desc(old(v)@),
        !old(v)@.contains(x),
    ensures
        sorted_desc(final(v)@),
        final(v)@.len() == old(v)@.len() + 1,
        forall|y: u64| #[trigger] final(v)@.contains(y) <==> (old(v)@.contains(y) || y == x),
{
    let ghost orig = v@;
    let mut i: usize = 0;
    while i < v.len()
        invariant_except_break
            0 <= i <= v@.len(),
            v@ == orig,
            sorted_desc(orig),
            !orig.contains(x),
            forall|k: int| 0 <= k < i ==> orig[k] > x,
        ensures
            0 <= i <= orig.len(),
            v@ == orig,
            forall|k: int| 0 <= k < i ==> orig[k] > x,
            i < orig.len() ==> orig[i as int] < x,
        decreases v@.len() - i,
    {
        if v[i] < x {
            break;
        }
        assert(orig[i as int] != x);
        i = i + 1;
    }
    v.insert(i, x);
    proof {
        assert forall|y: u64| #[trigger] v@.contains(y) implies (orig.contains(y) || y == x) by {
            let k = choose|k: int| 0 <= k < v@.len() && v@[k] == y;
            if k < i {
                assert(orig[k] == y);
            } else if k > i {
                assert(orig[k - 1] == y);
            }
        }
        assert forall|y: u64| (orig.contains(y) || y == x) implies #[trigger] v@.contains(y) by {
            if y == x {
                assert(v@[i as int] == x);
            } else {
                let k = choose|k: int| 0 <= k < orig.len() && orig[k] == y;
                if k < i {
                    assert(v@[k] == y);
                } else {
                    assert(v@[k + 1] == y);
                }
            }
        }
        assert forall|a: int, b: int| 0 <= a < b < v@.len() implies v@[a] > v@[b] by {
            let vi = i as int;
            if a < vi && b == vi {
                assert(orig[a] > x);
            } else if a == vi && b > vi {
                assert(v@[b] == orig[b - 1]);
                assert(orig[b - 1] != x);
                if b - 1 < vi {
                } else {
                    assert(!(orig[b - 1] > x) ==> orig[b - 1] < x);
                }
            } else if a < vi && b > vi {
                assert(v@[a] == orig[a] && v@[b] == orig[b - 1]);
            } else if a > vi && b > vi {
                assert(v@[a] == orig[a - 1] && v@[b] == orig[b - 1]);
            }
        }
    }
}

/// Remove a revision if present; the order is kept.
pub fn remove_rev(v: &mut Vec<u64>, x: u64)
    requires
        sorted_desc(old(v)@),
    ensures
        sorted_desc(final(v)@),
        forall|y: u64| #[trigger] final(v)@.contains(y) <==> (old(v)@.contains(y) && y != x),
        final(v)@.len() == if old(v)@.contains(x) {
            old(v)@.len() - 1
        } else {
            old(v)@.len() as int
        },
{
    let ghost orig = v@;
    let mut i: usize = 0;
    while i < v.len()
        invariant
            0 <= i <= v@.len(),
            v@ == orig,
            orig == old(v)@,
            sorted_desc(orig),
            forall|k: int| 0 <= k < i ==> orig[k] != x,
        decreases v@.len() - i,
    {
        if v[i] == x {
            assert(orig[i as int] == x);
            assert(orig.contains(x));
            v.remove(i);
            proof {
                let vi = i as int;
                assert forall|y: u64| #[trigger] v@.contains(y) implies (orig.contains(y) && y
                    != x) by {
                    let k = choose|k: int| 0 <= k < v@.len() && v@[k] == y;
                    if k < vi {
                        assert(orig[k] == y);
                        assert(y != x);
                    } else {
                        assert(orig[k + 1] == y);
                        assert(orig[vi] == x && vi < k + 1);
                        assert(orig[vi] > orig[k + 1]);
                    }
                }
                assert forall|y: u64| (orig.contains(y) && y != x) implies #[trigger] v@.contains(
                    y,
                ) by {
                    let k = choose|k: int| 0 <= k < orig.len() && orig[k] == y;
                    if k < vi {
                        assert(v@[k] == y);
                    } else {
                        assert(k != vi);
                        assert(v@[k - 1] == y);
                    }
                }
                assert forall|a: int, b: int| 0 <= a < b < v@.len() implies v@[a] > v@[b] by {
                    if b < vi {
                    } else if a < vi {
                        assert(v@[a] == orig[a] && v@[b] == orig[b + 1]);
                    } else {
                        assert(v@[a] == orig[a + 1] && v@[b] == orig[b + 1]);
                    }
                }
            }
            return ;
        }
        i = i + 1;
    }
    assert(!orig.contains(x));
    assert(v@ == orig);
}

} // verus!
