//! The order of strings (by code point, first difference decides), and collections kept in it.

use vstd::prelude::*;

use crate::text::{chars_of, same};

verus! {

/// Whether `a` comes before `b`: the first place where they differ decides, and a proper prefix
/// comes first.
pub open spec fn precedes(a: Seq<char>, b: Seq<char>) -> bool
    decreases a.len(),
{
    if b.len() == 0 {
        false
    } else if a.len() == 0 {
        true
    } else if a[0] != b[0] {
        a[0] < b[0]
    } else {
        precedes(a.drop_first(), b.drop_first())
    }
}

/// No string comes before itself.
pub proof fn lemma_irreflexive(a: Seq<char>)
    ensures
        !precedes(a, a),
    decreases a.len(),
{
    if a.len() > 0 {
        lemma_irreflexive(a.drop_first());
    }
}

/// The order is transitive.
pub proof fn lemma_transitive(a: Seq<char>, b: Seq<char>, c: Seq<char>)
    requires
        precedes(a, b),
        precedes(b, c),
    ensures
        precedes(a, c),
    decreases a.len(),
{
    if a.len() > 0 && a[0] == b[0] && b[0] == c[0] {
        lemma_transitive(a.drop_first(), b.drop_first(), c.drop_first());
    }
}

/// Of two different strings, one comes before the other.
pub proof fn lemma_total(a: Seq<char>, b: Seq<char>)
    ensures
        a == b || precedes(a, b) || precedes(b, a),
    decreases a.len(),
{
    if a.len() > 0 && b.len() > 0 && a[0] == b[0] {
        lemma_total(a.drop_first(), b.drop_first());
        if a.drop_first() == b.drop_first() {
            assert(a =~= seq![a[0]] + a.drop_first());
            assert(b =~= seq![b[0]] + b.drop_first());
        }
    } else if a.len() == 0 && b.len() == 0 {
        assert(a =~= b);
    }
}

/// Whether `a` comes before `b`.
pub fn comes_before(a: &str, b: &str) -> (r: bool)
    ensures
        r == precedes(a@, b@),
{
    let x = chars_of(a);
    let y = chars_of(b);
    let mut i: usize = 0;
    assert(x@.skip(0) =~= x@);
    assert(y@.skip(0) =~= y@);
    while i < x.len() && i < y.len() && x[i] == y[i]
        invariant
            i <= x.len(),
            i <= y.len(),
            precedes(x@, y@) == precedes(x@.skip(i as int), y@.skip(i as int)),
        decreases x.len() - i,
    {
        assert(x@.skip(i as int).drop_first() =~= x@.skip(i + 1));
        assert(y@.skip(i as int).drop_first() =~= y@.skip(i + 1));
        i = i + 1;
    }
    if i >= y.len() {
        false
    } else if i >= x.len() {
        true
    } else {
        x[i] < y[i]
    }
}

/// Whether each string comes before every later one; no string can then occur twice.
pub open spec fn ascending(s: Seq<Seq<char>>) -> bool {
    forall|i: int, j: int| 0 <= i < j < s.len() ==> precedes(#[trigger] s[i], #[trigger] s[j])
}

/// Two ascending sequences with the same members are the same sequence.
pub proof fn lemma_ascending_unique(a: Seq<Seq<char>>, b: Seq<Seq<char>>)
    requires
        ascending(a),
        ascending(b),
        forall|x: Seq<char>| #[trigger] a.contains(x) <==> b.contains(x),
    ensures
        a == b,
    decreases a.len(),
{
    if a.len() == 0 {
        if b.len() > 0 {
            assert(b.contains(b[0]));
            assert(a.contains(b[0]));
        }
        assert(a =~= b);
    } else {
        let m = a.last();
        assert(a.contains(m));
        assert(b.contains(m));
        let n = b.last();
        assert(b.contains(n));
        assert(a.contains(n));
        let i = choose|i: int| 0 <= i < a.len() && a[i] == n;
        let j = choose|j: int| 0 <= j < b.len() && b[j] == m;
        if m != n {
            assert(precedes(a[i], a[a.len() - 1]));
            assert(precedes(b[j], b[b.len() - 1]));
            lemma_transitive(m, n, m);
            lemma_irreflexive(m);
        }
        let a1 = a.drop_last();
        let b1 = b.drop_last();
        assert forall|x: Seq<char>| #[trigger] a1.contains(x) <==> b1.contains(x) by {
            lemma_drop_last_members(a, x);
            lemma_drop_last_members(b, x);
        }
        lemma_ascending_unique(a1, b1);
        assert(a =~= a1.push(m));
        assert(b =~= b1.push(n));
    }
}

/// Leaving out the last string leaves out exactly that member.
proof fn lemma_drop_last_members(a: Seq<Seq<char>>, x: Seq<char>)
    requires
        ascending(a),
        a.len() > 0,
    ensures
        a.drop_last().contains(x) <==> (a.contains(x) && x != a.last()),
{
    let a1 = a.drop_last();
    if a1.contains(x) {
        let k = choose|k: int| 0 <= k < a1.len() && a1[k] == x;
        assert(a[k] == x);
        assert(precedes(a[k], a[a.len() - 1]));
        lemma_irreflexive(x);
    }
    if a.contains(x) && x != a.last() {
        let k = choose|k: int| 0 <= k < a.len() && a[k] == x;
        assert(a1[k] == x);
    }
}

/// Where `x` stands, or would stand, in an ascending sequence: how many members come before it.
pub open spec fn is_place(s: Seq<Seq<char>>, x: Seq<char>, at: int) -> bool {
    &&& 0 <= at <= s.len()
    &&& forall|i: int| 0 <= i < at ==> precedes(#[trigger] s[i], x)
    &&& forall|i: int| at <= i < s.len() ==> !precedes(#[trigger] s[i], x)
}

/// Putting a string that does not occur yet in its place keeps the sequence ascending.
pub proof fn lemma_insert_ascending(s: Seq<Seq<char>>, x: Seq<char>, at: int)
    requires
        ascending(s),
        is_place(s, x, at),
        at < s.len() ==> s[at] != x,
    ensures
        ascending(s.insert(at, x)),
{
    let t = s.insert(at, x);
    assert forall|i: int, j: int| 0 <= i < j < t.len() implies precedes(
        #[trigger] t[i],
        #[trigger] t[j],
    ) by {
        if j < at {
            assert(t[i] == s[i] && t[j] == s[j]);
        } else if j == at {
            assert(t[i] == s[i] && t[j] == x);
        } else if i < at {
            assert(t[i] == s[i] && t[j] == s[j - 1]);
        } else if i == at {
            assert(t[i] == x && t[j] == s[j - 1]);
            lemma_total(x, s[j - 1]);
            if s[j - 1] == x {
                assert(precedes(s[at], s[j - 1]));
            }
        } else {
            assert(t[i] == s[i - 1] && t[j] == s[j - 1]);
        }
    }
}

/// Adds `x` to the ascending strings `v`, unless it is there already.
pub fn insert_ascending(v: &mut Vec<String>, x: &str)
    requires
        ascending(old(v).deep_view()),
    ensures
        ascending(final(v).deep_view()),
        forall|y: Seq<char>|
            #![trigger final(v).deep_view().contains(y)]
            final(v).deep_view().contains(y) <==> (old(v).deep_view().contains(y) || y == x@),
{
    let ghost s = v.deep_view();
    let mut at: usize = 0;
    while at < v.len() && comes_before(v[at].as_str(), x)
        invariant
            at <= v.len(),
            s == v.deep_view(),
            forall|i: int| 0 <= i < at ==> precedes(#[trigger] s[i], x@),
        decreases v.len() - at,
    {
        assert(s[at as int] == v@[at as int]@);
        at = at + 1;
    }
    assert forall|i: int| at <= i < s.len() implies !precedes(#[trigger] s[i], x@) by {
        assert(s[at as int] == v@[at as int]@);
        if i > at && precedes(s[i], x@) {
            lemma_transitive(s[at as int], s[i], x@);
        }
    }
    if at < v.len() && same(v[at].as_str(), x) {
        assert(s[at as int] == x@);
        return;
    }
    proof {
        if at < s.len() {
            assert(s[at as int] == v@[at as int]@);
        }
        lemma_insert_ascending(s, x@, at as int);
    }
    v.insert(at, x.to_string());
    let ghost t = s.insert(at as int, x@);
    assert(v.deep_view() =~= t);
    assert forall|y: Seq<char>|
        #![trigger v.deep_view().contains(y)]
        v.deep_view().contains(y) <==> (s.contains(y) || y == x@) by {
        if s.contains(y) {
            let k = choose|k: int| 0 <= k < s.len() && s[k] == y;
            if k < at {
                assert(t[k] == y);
            } else {
                assert(t[k + 1] == y);
            }
        }
        assert(t[at as int] == x@);
        if t.contains(y) && y != x@ {
            let k = choose|k: int| 0 <= k < t.len() && t[k] == y;
            if k < at {
                assert(s[k] == y);
            } else {
                assert(s[k - 1] == y);
            }
        }
    }
}

// ---------------------------------------------------------------------------------------------
// Laws
// ---------------------------------------------------------------------------------------------

/// Texts that agree up to a place are in the order of the characters there; a text that another one
/// begins with, and that is shorter, comes first.
pub proof fn law_first_difference_decides(a: Seq<char>, b: Seq<char>, k: int)
    requires
        0 <= k <= a.len(),
        k <= b.len(),
        forall|i: int| 0 <= i < k ==> a[i] == b[i],
        k < a.len() && k < b.len() ==> a[k] != b[k],
    ensures
        k < a.len() && k < b.len() ==> (precedes(a, b) <==> a[k] < b[k]),
        k == a.len() ==> (precedes(a, b) <==> a.len() < b.len()),
        k == b.len() ==> !precedes(a, b),
    decreases k,
{
    if k > 0 {
        let x = a.drop_first();
        let y = b.drop_first();
        assert(a[0] == b[0]);
        assert forall|i: int| 0 <= i < k - 1 implies x[i] == y[i] by {
            assert(a[i + 1] == b[i + 1]);
        }
        law_first_difference_decides(x, y, k - 1);
    }
}

} // verus!
