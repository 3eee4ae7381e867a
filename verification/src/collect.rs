use vstd::prelude::*;

verus! {

/// All the values of `results` in order, or the first error among them.
pub open spec fn all_or_first_error<A, E>(results: Seq<Result<A, E>>) -> Result<Seq<A>, E>
    decreases results.len(),
{
    if results.len() == 0 {
        Ok(Seq::empty())
    } else {
        match all_or_first_error(results.drop_last()) {
            Ok(values) => match results.last() {
                Ok(value) => Ok(values.push(value)),
                Err(error) => Err(error),
            },
            Err(error) => Err(error),
        }
    }
}

/// One more successful result adds its value at the end.
pub proof fn lemma_next_ok<A, E>(results: Seq<Result<A, E>>, n: int, values: Seq<A>, value: A)
    requires
        0 <= n < results.len(),
        all_or_first_error(results.take(n)) == Ok::<Seq<A>, E>(values),
        results[n] == Ok::<A, E>(value),
    ensures
        all_or_first_error(results.take(n + 1)) == Ok::<Seq<A>, E>(values.push(value)),
{
    assert(results.take(n + 1).drop_last() =~= results.take(n));
}

/// An error after `n` successful results decides the outcome, whatever comes later.
pub proof fn lemma_first_error<A, E>(results: Seq<Result<A, E>>, n: int, error: E)
    requires
        0 <= n < results.len(),
        all_or_first_error(results.take(n)) is Ok,
        results[n] == Err::<A, E>(error),
    ensures
        all_or_first_error(results) == Err::<Seq<A>, E>(error),
    decreases results.len(),
{
    if n == results.len() - 1 {
        assert(results.drop_last() =~= results.take(n));
    } else {
        assert(results.drop_last().take(n) =~= results.take(n));
        lemma_first_error(results.drop_last(), n, error);
    }
}

/// The outcome is a success exactly when every result is one; it then holds each value in its
/// place.
pub proof fn lemma_all_ok<A, E>(results: Seq<Result<A, E>>)
    ensures
        all_or_first_error(results) is Ok <==> forall|i: int|
            0 <= i < results.len() ==> (#[trigger] results[i]) is Ok,
        all_or_first_error(results) is Ok ==> {
            let values = all_or_first_error(results)->Ok_0;
            &&& values.len() == results.len()
            &&& forall|i: int|
                0 <= i < results.len() ==> results[i] == Ok::<A, E>(#[trigger] values[i])
        },
    decreases results.len(),
{
    if results.len() > 0 {
        let shorter = results.drop_last();
        lemma_all_ok(shorter);
        if all_or_first_error(results) is Ok {
            assert forall|i: int| 0 <= i < results.len() implies (#[trigger] results[i]) is Ok by {
                if i < shorter.len() {
                    assert(shorter[i] is Ok);
                }
            }
        }
        if forall|i: int| 0 <= i < results.len() ==> (#[trigger] results[i]) is Ok {
            assert forall|i: int| 0 <= i < shorter.len() implies (#[trigger] shorter[i]) is Ok by {
                assert(results[i] is Ok);
            }
            assert(results[results.len() - 1] is Ok);
        }
    }
}

} // verus!
