//! The order of texts, and lists of texts that ascend in it.
use crate::text;
use crate::text::{chars_of, same};
use vstd::prelude::*;

verus! {

/// Whether one text comes before another: by the first character in which they
/// differ, a text before its own continuations.
pub open spec fn before(a: Seq<char>, b: Seq<char>) -> bool
    decreases a.len(),
{
    if b.len() == 0 {
        false
    } else if a.len() == 0 {
        true
    } else if a[0] != b[0] {
        a[0] < b[0]
    } else {
        before(a.skip(1), b.skip(1))
    }
}

/// No text comes before itself.
pub proof fn lemma_before_irreflexive(a: Seq<char>)
    ensures
        !before(a, a),
    decreases a.len(),
{
    if a.len() > 0 {
        lemma_before_irreflexive(a.skip(1));
    }
}

/// One text comes before another when it is a shorter beginning of it, or has the lower
/// character where they first differ.
pub proof fn law_texts_are_ordered_where_they_differ(a: Seq<char>, b: Seq<char>, k: int)
    requires
        0 <= k <= a.len(),
        k <= b.len(),
        a.take(k) == b.take(k),
    ensures
        k == a.len() ==> (before(a, b) <==> a.len() < b.len()),
        k == b.len() ==> !before(a, b),
        k < a.len() && k < b.len() && a[k] != b[k] ==> (before(a, b) <==> a[k] < b[k]),
    decreases k,
{
    if k > 0 {
        assert(a[0] == a.take(k)[0] && b[0] == b.take(k)[0]);
        assert(a.skip(1).take(k - 1) =~= a.take(k).skip(1));
        assert(b.skip(1).take(k - 1) =~= b.take(k).skip(1));
        law_texts_are_ordered_where_they_differ(a.skip(1), b.skip(1), k - 1);
        if k < a.len() && k < b.len() {
            assert(a.skip(1)[k - 1] == a[k] && b.skip(1)[k - 1] == b[k]);
        }
    }
}

/// What comes before a text comes before all that follow it.
pub proof fn lemma_before_transitive(a: Seq<char>, b: Seq<char>, c: Seq<char>)
    requires
        before(a, b),
        before(b, c),
    ensures
        before(a, c),
    decreases a.len(),
{
    if a.len() > 0 && a[0] == b[0] && b[0] == c[0] {
        lemma_before_transitive(a.skip(1), b.skip(1), c.skip(1));
    }
}

/// Of two different texts one comes before the other.
pub proof fn lemma_before_total(a: Seq<char>, b: Seq<char>)
    ensures
        a == b || before(a, b) || before(b, a),
    decreases a.len(),
{
    if a.len() > 0 && b.len() > 0 && a[0] == b[0] {
        lemma_before_total(a.skip(1), b.skip(1));
        if a.skip(1) == b.skip(1) {
            assert(a =~= seq![a[0]] + a.skip(1));
            assert(b =~= seq![b[0]] + b.skip(1));
        }
    } else if a.len() == 0 && b.len() == 0 {
        assert(a =~= b);
    }
}

/// Whether `a` comes before `b`.
pub fn precedes(a: &str, b: &str) -> (r: bool)
    ensures
        r == before(a@, b@),
{
    let x = chars_of(a);
    let y = chars_of(b);
    let mut i: usize = 0;
    assert(a@.skip(0) =~= a@);
    assert(b@.skip(0) =~= b@);
    while i < x.len() && i < y.len() && x[i] == y[i]
        invariant
            x@ == a@,
            y@ == b@,
            i <= x.len(),
            i <= y.len(),
            before(a@, b@) == before(a@.skip(i as int), b@.skip(i as int)),
        decreases x.len() - i,
    {
        assert(a@.skip(i as int).skip(1) =~= a@.skip(i + 1));
        assert(b@.skip(i as int).skip(1) =~= b@.skip(i + 1));
        i += 1;
    }
    if i >= y.len() {
        false
    } else if i >= x.len() {
        true
    } else {
        x[i] < y[i]
    }
}

/// Whether every text of a list comes before those behind it.
pub open spec fn ascending(v: Seq<Seq<char>>) -> bool {
    forall|i: int, j: int| 0 <= i < j < v.len() ==> before(#[trigger] v[i], #[trigger] v[j])
}

/// Two ascending lists of the same texts are the same list.
pub proof fn lemma_ascending_unique(v: Seq<Seq<char>>, w: Seq<Seq<char>>)
    requires
        ascending(v),
        ascending(w),
        forall|t: Seq<char>| v.contains(t) <==> w.contains(t),
    ensures
        v == w,
    decreases v.len(),
{
    if v.len() == 0 {
        if w.len() > 0 {
            assert(w.contains(w[0]));
            assert(v.contains(w[0]));
        }
        assert(v =~= w);
    } else {
        assert(v.contains(v[0]));
        assert(w.contains(v[0]));
        assert(w.contains(w[0]));
        assert(v.contains(w[0]));
        let i = choose|i: int| 0 <= i < w.len() && w[i] == v[0];
        let j = choose|j: int| 0 <= j < v.len() && v[j] == w[0];
        if i > 0 && j > 0 {
            lemma_before_transitive(v[0], w[0], v[0]);
            lemma_before_irreflexive(v[0]);
        }
        assert(v[0] == w[0]);
        let v1 = v.skip(1);
        let w1 = w.skip(1);
        assert forall|t: Seq<char>| v1.contains(t) <==> w1.contains(t) by {
            if v1.contains(t) {
                let k = choose|k: int| 0 <= k < v1.len() && v1[k] == t;
                assert(v[k + 1] == t);
                assert(v.contains(t));
                let m = choose|m: int| 0 <= m < w.len() && w[m] == t;
                lemma_before_irreflexive(t);
                assert(m > 0);
                assert(w1[m - 1] == t);
            }
            if w1.contains(t) {
                let k = choose|k: int| 0 <= k < w1.len() && w1[k] == t;
                assert(w[k + 1] == t);
                assert(w.contains(t));
                let m = choose|m: int| 0 <= m < v.len() && v[m] == t;
                lemma_before_irreflexive(t);
                assert(m > 0);
                assert(v1[m - 1] == t);
            }
        }
        assert forall|a: int, b: int| 0 <= a < b < v1.len() implies before(
            #[trigger] v1[a],
            #[trigger] v1[b],
        ) by {
            assert(before(v[a + 1], v[b + 1]));
        }
        assert forall|a: int, b: int| 0 <= a < b < w1.len() implies before(
            #[trigger] w1[a],
            #[trigger] w1[b],
        ) by {
            assert(before(w[a + 1], w[b + 1]));
        }
        lemma_ascending_unique(v1, w1);
        assert(v =~= seq![v[0]] + v1);
        assert(w =~= seq![w[0]] + w1);
    }
}

/// Puts a text in its place in an ascending list, unless the list holds it already.
pub fn insert_ascending(v: &mut Vec<String>, s: &str)
    requires
        ascending(text::texts(old(v)@)),
    ensures
        ascending(text::texts(final(v)@)),
        forall|t: Seq<char>|
            text::texts(final(v)@).contains(t) <==> text::texts(old(v)@).contains(t) || t == s@,
{
    let mut i: usize = 0;
    let ghost all = text::texts(v@);
    while i < v.len() && precedes(&v[i], s)
        invariant
            i <= v.len(),
            all == text::texts(v@),
            forall|k: int| 0 <= k < i ==> before(#[trigger] all[k], s@),
        decreases v.len() - i,
    {
        assert(all[i as int] == v@[i as int]@);
        i += 1;
    }
    if i < v.len() && same(&v[i], s) {
        assert(all[i as int] == s@);
        return;
    }
    let added = s.to_owned();
    v.insert(i, added);
    proof {
        let new = text::texts(v@);
        assert(new =~= all.insert(i as int, s@));
        assert forall|k: int| i <= k < all.len() implies before(s@, #[trigger] all[k]) by {
            lemma_before_total(all[i as int], s@);
            if k > i {
                lemma_before_transitive(s@, all[i as int], all[k]);
            }
        }
        assert forall|a: int, b: int| 0 <= a < b < new.len() implies before(
            #[trigger] new[a],
            #[trigger] new[b],
        ) by {
            if b < i {
                assert(new[a] == all[a] && new[b] == all[b]);
            } else if a < i {
                if b > i {
                    assert(new[b] == all[b - 1]);
                    assert(before(all[a], all[b - 1]));
                }
            } else if a == i {
                assert(new[b] == all[b - 1]);
            } else {
                assert(new[a] == all[a - 1] && new[b] == all[b - 1]);
            }
        }
        assert forall|t: Seq<char>| new.contains(t) <==> all.contains(t) || t == s@ by {
            if new.contains(t) {
                let k = choose|k: int| 0 <= k < new.len() && new[k] == t;
                if k < i {
                    assert(all[k] == t);
                } else if k > i {
                    assert(all[k - 1] == t);
                }
            }
            if all.contains(t) {
                let k = choose|k: int| 0 <= k < all.len() && all[k] == t;
                if k < i {
                    assert(new[k] == t);
                } else {
                    assert(new[k + 1] == t);
                }
            }
            assert(new[i as int] == s@);
        }
    }
}

/// Whether a list of strings holds a text.
pub fn listed(v: &Vec<String>, s: &str) -> (r: bool)
    ensures
        r == text::texts(v@).contains(s@),
{
    let mut i: usize = 0;
    let ghost all = text::texts(v@);
    while i < v.len()
        invariant
            i <= v.len(),
            all == text::texts(v@),
            forall|k: int| 0 <= k < i ==> #[trigger] all[k] != s@,
        decreases v.len() - i,
    {
        assert(all[i as int] == v@[i as int]@);
        if same(&v[i], s) {
            return true;
        }
        i += 1;
    }
    false
}

} // verus!
