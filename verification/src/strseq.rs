//! Small spec helpers over sequences of strings, shared by the stores and
//! the quiz composer.

use vstd::prelude::*;

verus! {

/// The character-sequence views of a sequence of strings.
pub open spec fn views_of(s: Seq<String>) -> Seq<Seq<char>> {
    s.map_values(|x: String| x@)
}

/// Inserting one string inserts its view.
pub broadcast proof fn lemma_views_of_insert(s: Seq<String>, i: int, x: String)
    requires
        0 <= i <= s.len(),
    ensures
        #[trigger] views_of(s.insert(i, x)) =~= views_of(s).insert(i, x@),
{
    assert forall|j: int| 0 <= j < s.len() + 1 implies views_of(s.insert(i, x))[j]
        == views_of(s).insert(i, x@)[j] by {
        s.insert_ensures(i, x);
        views_of(s).insert_ensures(i, x@);
    }
}

/// Truncating a sequence of strings truncates the views.
pub broadcast proof fn lemma_views_of_subrange(s: Seq<String>, a: int, b: int)
    requires
        0 <= a <= b <= s.len(),
    ensures
        #[trigger] views_of(s.subrange(a, b)) =~= views_of(s).subrange(a, b),
{
}

/// Membership in a sequence extended by one element.
pub proof fn lemma_push_membership<A>(s: Seq<A>, x: A, q: A)
    ensures
        s.push(x).contains(q) <==> (s.contains(q) || q == x),
{
    if s.contains(q) {
        let j = choose|j: int| 0 <= j < s.len() && s[j] == q;
        assert(s.push(x)[j] == q);
    }
    if q == x {
        assert(s.push(x)[s.len() as int] == q);
    }
    if s.push(x).contains(q) {
        let j = choose|j: int| 0 <= j < s.push(x).len() && s.push(x)[j] == q;
        if j < s.len() {
            assert(s[j] == q);
        }
    }
}

/// Pushing a fresh element keeps a duplicate-free sequence duplicate-free.
pub proof fn lemma_push_keeps_no_duplicates<A>(s: Seq<A>, x: A)
    requires
        s.no_duplicates(),
        !s.contains(x),
    ensures
        s.push(x).no_duplicates(),
{
    let t = s.push(x);
    assert forall|a: int, b: int| 0 <= a < b < t.len() implies t[a] != t[b] by {
        if b < s.len() {
            assert(t[a] == s[a] && t[b] == s[b]);
        } else {
            assert(t[b] == x);
            assert(t[a] == s[a]);
            assert(s.contains(s[a]));
        }
    }
}

/// After removing position `i`, a sequence without duplicates contains
/// exactly the other elements.
pub proof fn lemma_remove_membership<A>(s: Seq<A>, i: int, q: A)
    requires
        s.no_duplicates(),
        0 <= i < s.len(),
    ensures
        s.remove(i).contains(q) <==> (s.contains(q) && q != s[i]),
{
    let t = s.remove(i);
    if t.contains(q) {
        let j = choose|j: int| 0 <= j < t.len() && t[j] == q;
        if j < i {
            assert(s[j] == q);
        } else {
            assert(s[j + 1] == q);
        }
    }
    if s.contains(q) && q != s[i] {
        let j = choose|j: int| 0 <= j < s.len() && s[j] == q;
        if j < i {
            assert(t[j] == q);
        } else {
            assert(t[j - 1] == q);
        }
    }
}

/// Removing one position keeps a duplicate-free sequence duplicate-free.
pub proof fn lemma_remove_keeps_no_duplicates<A>(s: Seq<A>, i: int)
    requires
        s.no_duplicates(),
        0 <= i < s.len(),
    ensures
        s.remove(i).no_duplicates(),
{
    let t = s.remove(i);
    assert forall|a: int, b: int| 0 <= a < b < t.len() implies t[a] != t[b] by {
        let sa = if a < i { a } else { a + 1 };
        let sb = if b < i { b } else { b + 1 };
        assert(t[a] == s[sa]);
        assert(t[b] == s[sb]);
    }
}

/// Membership in a sequence with one element inserted.
pub proof fn lemma_insert_membership<A>(s: Seq<A>, i: int, x: A, q: A)
    requires
        0 <= i <= s.len(),
    ensures
        s.insert(i, x).contains(q) <==> (s.contains(q) || q == x),
{
    s.insert_ensures(i, x);
    let t = s.insert(i, x);
    if s.contains(q) {
        let j = choose|j: int| 0 <= j < s.len() && s[j] == q;
        if j < i {
            assert(t[j] == q);
        } else {
            assert(t[j + 1] == q);
        }
    }
    if q == x {
        assert(t[i] == q);
    }
    if t.contains(q) {
        let j = choose|j: int| 0 <= j < t.len() && t[j] == q;
        if j < i {
            assert(s[j] == q);
        } else if j > i {
            assert(s[j - 1] == q);
        }
    }
}

/// Inserting a fresh element keeps a duplicate-free sequence duplicate-free.
pub proof fn lemma_insert_keeps_no_duplicates<A>(s: Seq<A>, i: int, x: A)
    requires
        s.no_duplicates(),
        !s.contains(x),
        0 <= i <= s.len(),
    ensures
        s.insert(i, x).no_duplicates(),
{
    s.insert_ensures(i, x);
    let t = s.insert(i, x);
    assert forall|a: int, b: int| 0 <= a < b < t.len() implies t[a] != t[b] by {
        let sa = if a < i { a } else { a - 1 };
        let sb = if b < i { b } else { b - 1 };
        if a == i {
            assert(t[a] == x);
            assert(t[b] == s[sb]);
            assert(s.contains(s[sb]));
        } else if b == i {
            assert(t[b] == x);
            assert(t[a] == s[sa]);
            assert(s.contains(s[sa]));
        } else {
            assert(t[a] == s[sa]);
            assert(t[b] == s[sb]);
        }
    }
}

/// Two duplicate-free sequences with the same members hold the same
/// multiset of elements.
pub proof fn lemma_same_membership_multiset<A>(a: Seq<A>, b: Seq<A>)
    requires
        a.no_duplicates(),
        b.no_duplicates(),
        forall|x: A| a.contains(x) <==> b.contains(x),
    ensures
        a.to_multiset() == b.to_multiset(),
{
    broadcast use vstd::seq_lib::group_to_multiset_ensures;

    a.lemma_multiset_has_no_duplicates();
    b.lemma_multiset_has_no_duplicates();
    assert forall|x: A| a.to_multiset().count(x) == b.to_multiset().count(x) by {
        if a.contains(x) {
            assert(a.to_multiset().count(x) > 0);
            assert(a.to_multiset().contains(x));
            assert(b.to_multiset().contains(x));
        } else {
            assert(a.to_multiset().count(x) == 0);
            assert(b.to_multiset().count(x) == 0);
        }
    }
    assert(a.to_multiset() =~= b.to_multiset());
}

/// Filtering a sequence extended by one element keeps the old result and
/// appends the new element exactly when it satisfies the predicate.
pub proof fn lemma_filter_push<A>(s: Seq<A>, x: A, pred: spec_fn(A) -> bool)
    ensures
        pred(x) ==> s.push(x).filter(pred) == s.filter(pred).push(x),
        !pred(x) ==> s.push(x).filter(pred) == s.filter(pred),
{
    reveal_with_fuel(Seq::filter, 2);
    assert(s.push(x).drop_last() =~= s);
    assert(s.push(x).last() == x);
}

} // verus!
