//! Sequence combinators for "first refusal wins" reading, with their lemmas.

use vstd::prelude::*;

verus! {

/// Applies `f` to each element in order; the first `Err` stops the walk and
/// is the result, otherwise the results are collected.
pub open spec fn map_until_err<A, B, E>(s: Seq<A>, f: spec_fn(A) -> Result<B, E>) -> Result<Seq<B>, E>
    decreases s.len(),
{
    if s.len() == 0 {
        Ok(Seq::empty())
    } else {
        match map_until_err(s.drop_last(), f) {
            Err(e) => Err(e),
            Ok(bs) => match f(s.last()) {
                Err(e) => Err(e),
                Ok(b) => Ok(bs.push(b)),
            },
        }
    }
}

/// Threads a state through the elements in order; the first `Err` stops the
/// walk and is the result.
pub open spec fn fold_until_err<S, A, E>(s: Seq<A>, init: S, step: spec_fn(S, A) -> Result<S, E>) -> Result<S, E>
    decreases s.len(),
{
    if s.len() == 0 {
        Ok(init)
    } else {
        match fold_until_err(s.drop_last(), init, step) {
            Err(e) => Err(e),
            Ok(st) => step(st, s.last()),
        }
    }
}

/// A `Result` holding a vector, seen with the vector's contents.
pub open spec fn vec_result<T, E>(r: Result<Vec<T>, E>) -> Result<Seq<T>, E> {
    match r {
        Ok(v) => Ok(v@),
        Err(e) => Err(e),
    }
}

/// One more element of the walk of `map_until_err`.
pub proof fn lemma_map_step<A, B, E>(s: Seq<A>, f: spec_fn(A) -> Result<B, E>, i: int)
    requires
        0 <= i < s.len(),
    ensures
        map_until_err(s.take(i + 1), f) == match map_until_err(s.take(i), f) {
            Err(e) => Err(e),
            Ok(bs) => match f(s[i]) {
                Err(e) => Err(e),
                Ok(b) => Ok(bs.push(b)),
            },
        },
{
    assert(s.take(i + 1).drop_last() =~= s.take(i));
}

/// One more element of the walk of `fold_until_err`.
pub proof fn lemma_fold_step<S, A, E>(s: Seq<A>, init: S, step: spec_fn(S, A) -> Result<S, E>, i: int)
    requires
        0 <= i < s.len(),
    ensures
        fold_until_err(s.take(i + 1), init, step) == match fold_until_err(s.take(i), init, step) {
            Err(e) => Err(e),
            Ok(st) => step(st, s[i]),
        },
{
    assert(s.take(i + 1).drop_last() =~= s.take(i));
}

/// Once the walk of `map_until_err` over a prefix has met a refusal, the
/// walk over the whole sequence ends in the same refusal.
pub proof fn lemma_map_err_stays<A, B, E>(s: Seq<A>, f: spec_fn(A) -> Result<B, E>, k: int)
    requires
        0 <= k <= s.len(),
    ensures
        map_until_err(s.take(k), f) is Err ==> map_until_err(s, f) == map_until_err(s.take(k), f),
    decreases s.len(),
{
    if k == s.len() {
        assert(s.take(k) =~= s);
    } else {
        let d = s.drop_last();
        assert(d.take(k) =~= s.take(k));
        lemma_map_err_stays(d, f, k);
    }
}

/// Once the walk of `fold_until_err` over a prefix has met a refusal, the
/// walk over the whole sequence ends in the same refusal.
pub proof fn lemma_fold_err_stays<S, A, E>(s: Seq<A>, init: S, step: spec_fn(S, A) -> Result<S, E>, k: int)
    requires
        0 <= k <= s.len(),
    ensures
        fold_until_err(s.take(k), init, step) is Err ==> fold_until_err(s, init, step) == fold_until_err(
            s.take(k),
            init,
            step,
        ),
    decreases s.len(),
{
    if k == s.len() {
        assert(s.take(k) =~= s);
    } else {
        let d = s.drop_last();
        assert(d.take(k) =~= s.take(k));
        lemma_fold_err_stays(d, init, step, k);
    }
}

/// `map_until_err` succeeds exactly when `f` succeeds on every element, and
/// then holds `f`'s results in order.
pub proof fn lemma_map_ok<A, B, E>(s: Seq<A>, f: spec_fn(A) -> Result<B, E>)
    ensures
        (map_until_err(s, f) is Ok) <==> (forall|i: int| 0 <= i < s.len() ==> (#[trigger] f(s[i])) is Ok),
        map_until_err(s, f) is Ok ==> {
            &&& map_until_err(s, f)->Ok_0.len() == s.len()
            &&& forall|i: int| 0 <= i < s.len() ==> f(s[i]) == Ok::<B, E>(#[trigger] map_until_err(s, f)->Ok_0[i])
        },
    decreases s.len(),
{
    if s.len() > 0 {
        lemma_map_ok(s.drop_last(), f);
        let d = s.drop_last();
        assert forall|i: int| 0 <= i < d.len() implies d[i] == s[i] by {}
        if !(f(s.last()) is Ok) {
            assert(!(f(s[s.len() - 1]) is Ok));
        }
        if map_until_err(d, f) is Err {
            let i = choose|i: int| 0 <= i < d.len() && !(f(d[i]) is Ok);
            assert(!(f(s[i]) is Ok));
        }
    }
}

} // verus!
