//! Sequence transformers used by the cleanup engine's contracts.
//!
//! The engine's effect on every collection is a selection (documents that
//! survive a deletion predicate) or a pointwise rewrite (membership repair).
//! These spec functions state those effects, and the lemmas carry the
//! idempotence and membership arguments that the engine's laws rest on.

use vstd::prelude::*;

verus! {

/// The elements of `s` that satisfy `p`, in order.
pub open spec fn filtered<T>(s: Seq<T>, p: spec_fn(T) -> bool) -> Seq<T>
    decreases s.len(),
{
    if s.len() == 0 {
        Seq::empty()
    } else if p(s.last()) {
        filtered(s.drop_last(), p).push(s.last())
    } else {
        filtered(s.drop_last(), p)
    }
}

/// `s` rewritten pointwise by `f`.
pub open spec fn mapped<T, U>(s: Seq<T>, f: spec_fn(T) -> U) -> Seq<U>
    decreases s.len(),
{
    if s.len() == 0 {
        Seq::empty()
    } else {
        mapped(s.drop_last(), f).push(f(s.last()))
    }
}

/// Membership in a sequence extended by one element.
proof fn lemma_push_contains<T>(u: Seq<T>, a: T, x: T)
    ensures
        u.push(a).contains(x) <==> u.contains(x) || a == x,
{
    if u.push(a).contains(x) {
        let i = choose|i: int| 0 <= i < u.push(a).len() && u.push(a)[i] == x;
        if i < u.len() {
            assert(u[i] == x);
        }
    }
    if u.contains(x) {
        let i = choose|i: int| 0 <= i < u.len() && u[i] == x;
        assert(u.push(a)[i] == x);
    }
    if a == x {
        assert(u.push(a)[u.len() as int] == x);
    }
}

/// An element survives the selection exactly when it was there and satisfies
/// the predicate.
pub proof fn lemma_filtered_contains<T>(s: Seq<T>, p: spec_fn(T) -> bool, x: T)
    ensures
        filtered(s, p).contains(x) <==> s.contains(x) && p(x),
    decreases s.len(),
{
    if s.len() > 0 {
        lemma_filtered_contains(s.drop_last(), p, x);
        assert(s.contains(x) <==> s.drop_last().contains(x) || s.last() == x) by {
            if s.contains(x) {
                let i = choose|i: int| 0 <= i < s.len() && s[i] == x;
                if i < s.len() - 1 {
                    assert(s.drop_last()[i] == x);
                }
            }
            if s.drop_last().contains(x) {
                let i = choose|i: int| 0 <= i < s.drop_last().len() && s.drop_last()[i] == x;
                assert(s[i] == x);
            }
        }
        if p(s.last()) {
            lemma_push_contains(filtered(s.drop_last(), p), s.last(), x);
        }
    }
}

/// Every survivor satisfies the predicate.
pub proof fn lemma_filtered_sound<T>(s: Seq<T>, p: spec_fn(T) -> bool)
    ensures
        forall|i: int| 0 <= i < filtered(s, p).len() ==> p(#[trigger] filtered(s, p)[i]),
        forall|i: int| 0 <= i < filtered(s, p).len() ==> s.contains(#[trigger] filtered(s, p)[i]),
    decreases s.len(),
{
    let r = filtered(s, p);
    assert forall|i: int| 0 <= i < r.len() implies p(#[trigger] r[i]) && s.contains(r[i]) by {
        assert(r.contains(r[i]));
        lemma_filtered_contains(s, p, r[i]);
    }
}

/// Selecting twice selects once.
pub proof fn lemma_filtered_idempotent<T>(s: Seq<T>, p: spec_fn(T) -> bool)
    ensures
        filtered(filtered(s, p), p) == filtered(s, p),
    decreases s.len(),
{
    if s.len() > 0 {
        lemma_filtered_idempotent(s.drop_last(), p);
        if p(s.last()) {
            let inner = filtered(s.drop_last(), p);
            assert(filtered(s, p) == inner.push(s.last()));
            assert(inner.push(s.last()).drop_last() =~= inner);
            assert(filtered(filtered(s, p), p) == filtered(inner, p).push(s.last()));
        }
    }
}

/// A selection that keeps everything changes nothing.
pub proof fn lemma_filtered_all_true<T>(s: Seq<T>, p: spec_fn(T) -> bool)
    requires
        forall|i: int| 0 <= i < s.len() ==> p(#[trigger] s[i]),
    ensures
        filtered(s, p) == s,
    decreases s.len(),
{
    if s.len() > 0 {
        assert(forall|i: int|
            0 <= i < s.drop_last().len() ==> p(#[trigger] s.drop_last()[i]));
        lemma_filtered_all_true(s.drop_last(), p);
        assert(p(s.last()));
        assert(filtered(s, p) == s.drop_last().push(s.last()));
        assert(s.drop_last().push(s.last()) =~= s);
    }
}

/// Membership in a concatenation.
pub proof fn lemma_concat_contains<T>(a: Seq<T>, b: Seq<T>, x: T)
    ensures
        (a + b).contains(x) <==> a.contains(x) || b.contains(x),
{
    if (a + b).contains(x) {
        let i = choose|i: int| 0 <= i < (a + b).len() && (a + b)[i] == x;
        if i < a.len() {
            assert(a[i] == x);
        } else {
            assert(b[i - a.len()] == x);
        }
    }
    if a.contains(x) {
        let i = choose|i: int| 0 <= i < a.len() && a[i] == x;
        assert((a + b)[i] == x);
    }
    if b.contains(x) {
        let i = choose|i: int| 0 <= i < b.len() && b[i] == x;
        assert((a + b)[a.len() + i] == x);
    }
}

/// Index form of `mapped`.
pub proof fn lemma_mapped_index<T, U>(s: Seq<T>, f: spec_fn(T) -> U)
    ensures
        mapped(s, f).len() == s.len(),
        forall|i: int| 0 <= i < s.len() ==> #[trigger] mapped(s, f)[i] == f(s[i]),
    decreases s.len(),
{
    if s.len() > 0 {
        lemma_mapped_index(s.drop_last(), f);
        assert forall|i: int| 0 <= i < s.len() implies #[trigger] mapped(s, f)[i] == f(s[i]) by {
            if i < s.len() - 1 {
                assert(mapped(s, f)[i] == mapped(s.drop_last(), f)[i]);
                assert(s.drop_last()[i] == s[i]);
            }
        }
    }
}

} // verus!
