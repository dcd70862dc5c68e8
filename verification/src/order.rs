//! Numbers and names in order.
use vstd::prelude::*;
use vstd::seq_lib::group_to_multiset_ensures;

use crate::text::views;

verus! {

// ---------------------------------------------------------------------------------------------
// Numbers
// ---------------------------------------------------------------------------------------------

/// No number is followed by a smaller one.
pub open spec fn ascending(s: Seq<u32>) -> bool {
    forall|i: int, j: int| 0 <= i <= j < s.len() ==> s[i] <= s[j]
}

/// The same numbers, each as often, in ascending order.
pub open spec fn is_arrangement(s: Seq<u32>, r: Seq<u32>) -> bool {
    ascending(r) && r.to_multiset() == s.to_multiset()
}

/// The numbers in ascending order.
pub open spec fn arranged(s: Seq<u32>) -> Seq<u32> {
    choose|r: Seq<u32>| is_arrangement(s, r)
}

/// `slice::sort_unstable` on numbers: afterwards the same numbers stand in ascending order.
#[verifier::external_body]
fn sort_unstable(v: &mut Vec<u32>)
    ensures
        is_arrangement(old(v)@, final(v)@),
{
    v.sort_unstable()
}

proof fn lemma_same_arrangement(a: Seq<u32>, b: Seq<u32>)
    requires
        ascending(a),
        ascending(b),
        a.to_multiset() == b.to_multiset(),
    ensures
        a == b,
    decreases a.len(),
{
    broadcast use group_to_multiset_ensures;

    assert(a.len() == b.len()) by {
        assert(a.to_multiset().len() == a.len());
        assert(b.to_multiset().len() == b.len());
    }
    if a.len() == 0 {
        assert(a =~= b);
    } else {
        let x = a.last();
        let y = b.last();
        assert(a.contains(x));
        assert(b.contains(y));
        assert(b.contains(x)) by {
            assert(a.to_multiset().count(x) > 0);
        }
        assert(a.contains(y)) by {
            assert(b.to_multiset().count(y) > 0);
        }
        assert(x == y);
        let a1 = a.drop_last();
        let b1 = b.drop_last();
        assert(a1.push(x) =~= a);
        assert(b1.push(x) =~= b);
        assert(a1.to_multiset().insert(x) =~= a.to_multiset());
        assert(b1.to_multiset().insert(x) =~= b.to_multiset());
        assert(a1.to_multiset() =~= a1.to_multiset().insert(x).remove(x));
        assert(b1.to_multiset() =~= b1.to_multiset().insert(x).remove(x));
        lemma_same_arrangement(a1, b1);
    }
}

/// An arrangement is the only one.
pub proof fn lemma_arranged(s: Seq<u32>, r: Seq<u32>)
    requires
        is_arrangement(s, r),
    ensures
        r == arranged(s),
{
    lemma_same_arrangement(r, arranged(s));
}

/// Every list of numbers has an arrangement, as long as the list and with the same numbers in it.
pub proof fn lemma_arrangement(s: Seq<u32>)
    ensures
        is_arrangement(s, arranged(s)),
        arranged(s).len() == s.len(),
        forall|x: u32| arranged(s).contains(x) <==> s.contains(x),
{
    broadcast use group_to_multiset_ensures;

    let leq = |a: u32, b: u32| a <= b;
    s.lemma_sort_by_ensures(leq);
    let r = s.sort_by(leq);
    assert forall|i: int, j: int| 0 <= i <= j < r.len() implies r[i] <= r[j] by {
        if i < j {
            assert(leq(r[i], r[j]));
        }
    }
    assert(is_arrangement(s, r));
    let t = arranged(s);
    assert(t.to_multiset().len() == t.len());
    assert(s.to_multiset().len() == s.len());
    assert forall|x: u32| t.contains(x) <==> s.contains(x) by {
        assert(t.contains(x) <==> t.to_multiset().count(x) > 0);
        assert(s.contains(x) <==> s.to_multiset().count(x) > 0);
    }
}

/// Puts numbers into ascending order.
pub fn arrange(v: Vec<u32>) -> (r: Vec<u32>)
    ensures
        r@ == arranged(v@),
{
    let mut r = v;
    sort_unstable(&mut r);
    proof {
        lemma_arranged(v@, r@);
    }
    r
}

// ---------------------------------------------------------------------------------------------
// Names
// ---------------------------------------------------------------------------------------------

/// The order of texts by the numbers of their characters, a text before those that it begins.
pub open spec fn not_after(a: Seq<char>, b: Seq<char>) -> bool
    decreases a.len(),
{
    a.len() == 0 || (b.len() > 0 && (a[0] < b[0] || (a[0] == b[0] && not_after(
        a.drop_first(),
        b.drop_first(),
    ))))
}

/// No name is followed by one that belongs before it.
pub open spec fn alphabetical(s: Seq<Seq<char>>) -> bool {
    forall|i: int, j: int| 0 <= i <= j < s.len() ==> not_after(#[trigger] s[i], #[trigger] s[j])
}

/// `slice::sort` on strings: afterwards the same strings stand in the order that `str` documents,
/// by the positions of their characters in the code charts.
#[verifier::external_body]
pub(crate) fn sort_names(v: &mut Vec<String>)
    ensures
        alphabetical(views(final(v)@)),
        views(final(v)@).to_multiset() == views(old(v)@).to_multiset(),
{
    v.sort()
}

} // verus!
