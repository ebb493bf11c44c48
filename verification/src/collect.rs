//! Gathering the results of a run of fallible steps.

use crate::error::Error;
use vstd::prelude::*;

verus! {

/// The values of `results` where every step succeeded, and otherwise the
/// error of the first step that failed.
pub open spec fn spec_collect<B>(results: Seq<Result<B, Error>>) -> Result<Seq<B>, Error>
    decreases results.len(),
{
    if results.len() == 0 {
        Ok(Seq::empty())
    } else {
        match spec_collect(results.drop_last()) {
            Err(e) => Err(e),
            Ok(items) => match results.last() {
                Err(e) => Err(e),
                Ok(item) => Ok(items.push(item)),
            },
        }
    }
}

/// Where every step gave a value, the values are the result.
pub proof fn lemma_collect_ok<B>(results: Seq<Result<B, Error>>, items: Seq<B>)
    requires
        items.len() == results.len(),
        forall|i: int| 0 <= i < results.len() ==> results[i] == Ok::<B, Error>(items[i]),
    ensures
        spec_collect(results) == Ok::<Seq<B>, Error>(items),
    decreases results.len(),
{
    if results.len() > 0 {
        lemma_collect_ok(results.drop_last(), items.drop_last());
        assert(items.drop_last().push(items.last()) =~= items);
    } else {
        assert(items =~= Seq::empty());
    }
}

/// Where the step `k` failed and none before it did, its error is the result.
pub proof fn lemma_collect_err<B>(results: Seq<Result<B, Error>>, k: int, e: Error)
    requires
        0 <= k < results.len(),
        results[k] == Err::<B, Error>(e),
        forall|j: int| 0 <= j < k ==> (#[trigger] results[j]) is Ok,
    ensures
        spec_collect(results) == Err::<Seq<B>, Error>(e),
    decreases results.len(),
{
    if k < results.len() - 1 {
        lemma_collect_err(results.drop_last(), k, e);
    } else {
        lemma_collect_all_ok(results.drop_last());
    }
}

/// Where no step failed, the result is a value for each step.
pub proof fn lemma_collect_all_ok<B>(results: Seq<Result<B, Error>>)
    requires
        forall|j: int| 0 <= j < results.len() ==> (#[trigger] results[j]) is Ok,
    ensures
        spec_collect(results) is Ok,
        spec_collect(results).unwrap().len() == results.len(),
        forall|j: int|
            0 <= j < results.len() ==> results[j] == Ok::<B, Error>(
                #[trigger] spec_collect(results).unwrap()[j],
            ),
    decreases results.len(),
{
    if results.len() > 0 {
        lemma_collect_all_ok(results.drop_last());
    }
}

} // verus!
