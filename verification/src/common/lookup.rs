//! First-match lookup over a sequence, the mathematical reading of every
//! name-keyed registry in the broker: the first entry satisfying the
//! predicate is the one an operation acts on.

use vstd::prelude::*;

verus! {

/// The index of the first element of `s` satisfying `f`, if any.
pub open spec fn first_where<T>(s: Seq<T>, f: spec_fn(T) -> bool) -> Option<int>
    decreases s.len(),
{
    if s.len() == 0 {
        None
    } else if f(s[0]) {
        Some(0)
    } else {
        match first_where(s.drop_first(), f) {
            None => None,
            Some(i) => Some(i + 1),
        }
    }
}

/// An element satisfying `f` with none before it is the first match.
pub proof fn lemma_first_where_found<T>(s: Seq<T>, f: spec_fn(T) -> bool, i: int)
    requires
        0 <= i < s.len(),
        f(s[i]),
        forall|j: int| 0 <= j < i ==> !f(#[trigger] s[j]),
    ensures
        first_where(s, f) == Some(i),
    decreases s.len(),
{
    if i > 0 {
        lemma_first_where_found(s.drop_first(), f, i - 1);
    }
}

/// With no element satisfying `f` there is no first match.
pub proof fn lemma_first_where_absent<T>(s: Seq<T>, f: spec_fn(T) -> bool)
    requires
        forall|j: int| 0 <= j < s.len() ==> !f(#[trigger] s[j]),
    ensures
        first_where(s, f) is None,
    decreases s.len(),
{
    if s.len() > 0 {
        lemma_first_where_absent(s.drop_first(), f);
    }
}

/// Replacing one element by another that answers `f` the same way moves
/// the first match nowhere.
pub proof fn lemma_first_where_update<T>(s: Seq<T>, f: spec_fn(T) -> bool, i: int, x: T)
    requires
        0 <= i < s.len(),
        f(x) == f(s[i]),
    ensures
        first_where(s.update(i, x), f) == first_where(s, f),
    decreases s.len(),
{
    let s2 = s.update(i, x);
    if i == 0 {
        assert(s2.drop_first() =~= s.drop_first());
    } else if !f(s[0]) {
        lemma_first_where_update(s.drop_first(), f, i - 1, x);
        assert(s2.drop_first() =~= s.drop_first().update(i - 1, x));
    }
}

/// Two sequences whose elements answer `f` alike have the same first match.
pub proof fn lemma_first_where_alike<T>(a: Seq<T>, b: Seq<T>, f: spec_fn(T) -> bool)
    requires
        a.len() == b.len(),
        forall|j: int| 0 <= j < a.len() ==> f(#[trigger] a[j]) == f(b[j]),
    ensures
        first_where(a, f) == first_where(b, f),
    decreases a.len(),
{
    if a.len() > 0 {
        assert(forall|j: int|
            0 <= j < a.len() - 1 ==> f(#[trigger] a.drop_first()[j]) == f(b.drop_first()[j]));
        lemma_first_where_alike(a.drop_first(), b.drop_first(), f);
    }
}

/// What a first match means: it satisfies `f` and nothing before it does.
pub proof fn lemma_first_where_properties<T>(s: Seq<T>, f: spec_fn(T) -> bool)
    ensures
        match first_where(s, f) {
            Some(i) => 0 <= i < s.len() && f(s[i]) && forall|j: int|
                0 <= j < i ==> !f(#[trigger] s[j]),
            None => forall|j: int| 0 <= j < s.len() ==> !f(#[trigger] s[j]),
        },
    decreases s.len(),
{
    if s.len() > 0 && !f(s[0]) {
        lemma_first_where_properties(s.drop_first(), f);
        match first_where(s.drop_first(), f) {
            Some(i) => {
                assert(s.drop_first()[i] == s[i + 1]);
                assert forall|j: int| 0 <= j < i + 1 implies !f(#[trigger] s[j]) by {
                    if j > 0 {
                        assert(!f(s.drop_first()[j - 1]));
                    }
                }
            },
            None => {
                assert forall|j: int| 0 <= j < s.len() implies !f(#[trigger] s[j]) by {
                    if j > 0 {
                        assert(!f(s.drop_first()[j - 1]));
                    }
                }
            },
        }
    }
}

} // verus!
