//! Folding per-element projections that can fail into one result: the
//! projection of a whole column succeeds exactly when every element does,
//! and the first failure is the failure of the whole column.

use vstd::prelude::*;
use crate::error::DecodeError;

verus! {

/// The first `n` results of `f`, gathered in order; the first error wins.
pub open spec fn collect<A>(n: int, f: spec_fn(int) -> Result<A, DecodeError>) -> Result<
    Seq<A>,
    DecodeError,
>
    decreases n,
{
    if n <= 0 {
        Ok(Seq::empty())
    } else {
        match collect(n - 1, f) {
            Err(e) => Err(e),
            Ok(s) => match f(n - 1) {
                Err(e) => Err(e),
                Ok(a) => Ok(s.push(a)),
            },
        }
    }
}

/// The first `n` row groups of `f`, concatenated in order; the first error
/// wins.
pub open spec fn collect_concat<A>(n: int, f: spec_fn(int) -> Result<Seq<A>, DecodeError>) -> Result<
    Seq<A>,
    DecodeError,
>
    decreases n,
{
    if n <= 0 {
        Ok(Seq::empty())
    } else {
        match collect_concat(n - 1, f) {
            Err(e) => Err(e),
            Ok(s) => match f(n - 1) {
                Err(e) => Err(e),
                Ok(a) => Ok(s + a),
            },
        }
    }
}

/// Gathering `n` results succeeds exactly when each one does, and then holds
/// each in order.
pub proof fn lemma_collect_ok<A>(n: int, f: spec_fn(int) -> Result<A, DecodeError>)
    ensures
        collect(n, f) is Ok <==> (forall|i: int| 0 <= i < n ==> #[trigger] f(i) is Ok),
        collect(n, f) is Ok ==> collect(n, f)->Ok_0.len() == (if n <= 0 {
            0
        } else {
            n
        }),
        collect(n, f) is Ok ==> forall|i: int|
            0 <= i < n ==> collect(n, f)->Ok_0[i] == #[trigger] f(i)->Ok_0,
    decreases n,
{
    if n > 0 {
        lemma_collect_ok(n - 1, f);
    }
}

/// Once gathering fails on a prefix, gathering any longer prefix fails the
/// same way.
pub proof fn lemma_collect_err_extends<A>(k: int, n: int, f: spec_fn(int) -> Result<A, DecodeError>)
    requires
        0 <= k <= n,
        collect(k, f) is Err,
    ensures
        collect(n, f) == collect(k, f),
    decreases n - k,
{
    if k < n {
        lemma_collect_err_extends(k, n - 1, f);
    }
}

/// Once a concatenating gathering fails on a prefix, gathering any longer
/// prefix fails the same way.
pub proof fn lemma_collect_concat_err_extends<A>(
    k: int,
    n: int,
    f: spec_fn(int) -> Result<Seq<A>, DecodeError>,
)
    requires
        0 <= k <= n,
        collect_concat(k, f) is Err,
    ensures
        collect_concat(n, f) == collect_concat(k, f),
    decreases n - k,
{
    if k < n {
        lemma_collect_concat_err_extends(k, n - 1, f);
    }
}

} // verus!
