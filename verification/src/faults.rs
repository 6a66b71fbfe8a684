//! Which of several possible failures comes first.
use vstd::prelude::*;

verus! {

/// The first of two possible failures.
pub open spec fn either<E>(first: Option<E>, second: Option<E>) -> Option<E> {
    if first is Some {
        first
    } else {
        second
    }
}

/// The failure at the lowest of the places `0..n`, where any place fails.
pub open spec fn first_failure<E>(n: nat, at: spec_fn(int) -> Option<E>) -> Option<E>
    decreases n,
{
    if n == 0 {
        None
    } else {
        either(first_failure((n - 1) as nat, at), at(n - 1))
    }
}

/// A failure among the first places is the failure of the whole.
pub proof fn first_failure_stays<E>(m: nat, n: nat, at: spec_fn(int) -> Option<E>)
    requires
        m <= n,
        first_failure(m, at) is Some,
    ensures
        first_failure(n, at) == first_failure(m, at),
    decreases n,
{
    if m < n {
        first_failure_stays(m, (n - 1) as nat, at);
    }
}

/// Nothing fails exactly when no place fails.
pub proof fn no_failure_means_none<E>(n: nat, at: spec_fn(int) -> Option<E>)
    ensures
        first_failure(n, at) is None <==> forall|i: int| 0 <= i < n ==> #[trigger] at(i) is None,
    decreases n,
{
    if n > 0 {
        no_failure_means_none((n - 1) as nat, at);
        if first_failure(n, at) is None {
            assert(at(n - 1) is None);
        }
    }
}

/// The first failure is that of the first place that fails.
pub proof fn first_failure_is<E>(n: nat, at: spec_fn(int) -> Option<E>, i: int)
    requires
        0 <= i < n,
        at(i) is Some,
        forall|k: int| 0 <= k < i ==> #[trigger] at(k) is None,
    ensures
        first_failure(n, at) == at(i),
    decreases n,
{
    if i < n - 1 {
        first_failure_is((n - 1) as nat, at, i);
    } else {
        no_failure_means_none((n - 1) as nat, at);
    }
}

/// Lists that fail alike at every place have the same first failure.
pub proof fn same_failures_same_first<E>(
    n: nat,
    a: spec_fn(int) -> Option<E>,
    b: spec_fn(int) -> Option<E>,
)
    requires
        forall|i: int| 0 <= i < n ==> #[trigger] a(i) == b(i),
    ensures
        first_failure(n, a) == first_failure(n, b),
    decreases n,
{
    if n > 0 {
        same_failures_same_first((n - 1) as nat, a, b);
        assert(a(n - 1) == b(n - 1));
    }
}

} // verus!
