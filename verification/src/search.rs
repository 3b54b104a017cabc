//! Going through the indices below a bound, first to last: the least index at
//! which a predicate holds, and the results of a function that may fail.

use vstd::prelude::*;

verus! {

/// The least index below `n` at which `p` holds, `None` where it holds at
/// none of them.
pub open spec fn first_index(n: nat, p: spec_fn(int) -> bool) -> Option<int>
    decreases n,
{
    if n == 0 {
        None
    } else {
        match first_index((n - 1) as nat, p) {
            Some(i) => Some(i),
            None => if p(n - 1) {
                Some(n - 1)
            } else {
                None
            },
        }
    }
}

/// `first_index` finds nothing exactly where the predicate holds nowhere
/// below `n`.
pub proof fn lemma_first_index_none(n: nat, p: spec_fn(int) -> bool)
    ensures
        first_index(n, p) is None <==> forall|k: int| 0 <= k < n ==> !#[trigger] p(k),
    decreases n,
{
    if n > 0 {
        lemma_first_index_none((n - 1) as nat, p);
        lemma_first_index_some((n - 1) as nat, p);
    }
}

/// What `first_index` finds is below `n`, the predicate holds there and at
/// no index before it.
pub proof fn lemma_first_index_some(n: nat, p: spec_fn(int) -> bool)
    ensures
        first_index(n, p) matches Some(i) ==> 0 <= i < n && p(i) && forall|k: int|
            0 <= k < i ==> !#[trigger] p(k),
    decreases n,
{
    if n > 0 {
        lemma_first_index_some((n - 1) as nat, p);
        lemma_first_index_none((n - 1) as nat, p);
    }
}

/// The index at which the predicate holds first is what `first_index` finds.
pub proof fn lemma_first_index_is(n: nat, p: spec_fn(int) -> bool, i: int)
    requires
        0 <= i < n,
        p(i),
        forall|k: int| 0 <= k < i ==> !#[trigger] p(k),
    ensures
        first_index(n, p) == Some(i),
{
    lemma_first_index_none(n, p);
    lemma_first_index_some(n, p);
    let found = first_index(n, p)->0;
    if found < i {
        assert(!p(found));
    }
}

/// The results of `f` at the indices below `n`, in order; the error of the
/// least index at which `f` fails, where it fails at one.
pub open spec fn collected<T, E>(n: nat, f: spec_fn(int) -> Result<T, E>) -> Result<Seq<T>, E>
    decreases n,
{
    if n == 0 {
        Ok(Seq::empty())
    } else {
        match collected((n - 1) as nat, f) {
            Err(e) => Err(e),
            Ok(front) => match f(n - 1) {
                Err(e) => Err(e),
                Ok(item) => Ok(front.push(item)),
            },
        }
    }
}

/// An error met below `n` is the error of every longer run.
pub proof fn lemma_collected_error_stays<T, E>(n: nat, m: nat, f: spec_fn(int) -> Result<T, E>)
    requires
        n <= m,
        collected(n, f) is Err,
    ensures
        collected(m, f) == collected(n, f),
    decreases m,
{
    if n < m {
        lemma_collected_error_stays(n, (m - 1) as nat, f);
    }
}

/// A run that succeeds holds one result for each index, that of `f` there.
pub proof fn lemma_collected_ok<T, E>(n: nat, f: spec_fn(int) -> Result<T, E>)
    ensures
        collected(n, f) matches Ok(items) ==> items.len() == n && forall|i: int|
            0 <= i < n ==> #[trigger] f(i) == Ok::<T, E>(items[i]),
    decreases n,
{
    if n > 0 {
        lemma_collected_ok((n - 1) as nat, f);
    }
}

} // verus!
