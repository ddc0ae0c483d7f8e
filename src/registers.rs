//! Register names resolved to the engine's indices.
use crate::error::DbgError;
use vstd::prelude::*;

verus! {

/// Indices found so far put before what the remaining lookups give.
pub open spec fn prepend(found: Seq<u32>, rest: Result<Seq<u32>, DbgError>) -> Result<Seq<u32>, DbgError> {
    match rest {
        Ok(r) => Ok(found + r),
        Err(e) => Err(e),
    }
}

/// The indices of register names looked up one by one, in the order of the
/// names: the first failed lookup fails the whole.
pub open spec fn indices_result(lookups: Seq<Result<u32, DbgError>>) -> Result<Seq<u32>, DbgError>
    decreases lookups.len(),
{
    if lookups.len() == 0 {
        Ok(seq![])
    } else {
        match lookups[0] {
            Err(e) => Err(e),
            Ok(i) => prepend(seq![i], indices_result(lookups.drop_first())),
        }
    }
}

/// The view of an index result.
pub open spec fn indices_view(r: Result<Vec<u32>, DbgError>) -> Result<Seq<u32>, DbgError> {
    match r {
        Ok(v) => Ok(v@),
        Err(e) => Err(e),
    }
}

/// Collects the outcomes of looking up register names, one per name in
/// order, into the list of indices, or the first failure.
pub fn collect_indices(lookups: Vec<Result<u32, DbgError>>) -> (r: Result<Vec<u32>, DbgError>)
    ensures
        indices_view(r) == indices_result(lookups@),
{
    let ghost all = lookups@;
    let mut found: Vec<u32> = Vec::new();
    let mut rest = lookups;
    proof {
        if let Ok(v) = indices_result(all) {
            assert(Seq::<u32>::empty() + v =~= v);
        }
    }
    while rest.len() > 0
        invariant
            all == lookups@,
            indices_result(all) == prepend(found@, indices_result(rest@)),
        decreases rest@.len(),
    {
        let ghost before = rest@;
        let x = rest.remove(0);
        assert(before.drop_first() =~= rest@);
        match x {
            Ok(i) => {
                let ghost prev = found@;
                found.push(i);
                assert forall|t: Seq<u32>| prev + (seq![i] + t) =~= found@ + t by {}
            },
            Err(e) => {
                assert(indices_result(before) == Err::<Seq<u32>, DbgError>(e));
                return Err(e);
            },
        }
    }
    assert(found@ + Seq::<u32>::empty() =~= found@);
    Ok(found)
}

/// Resolving register names keeps their order: when every lookup succeeds,
/// the `i`-th index is the one found for the `i`-th name, and there is one
/// index per name.
pub proof fn lemma_indices_keep_order(lookups: Seq<Result<u32, DbgError>>)
    ensures
        indices_result(lookups) matches Ok(v) ==> v.len() == lookups.len() && forall|i: int|
            0 <= i < lookups.len() ==> lookups[i] == Ok::<u32, DbgError>(#[trigger] v[i]),
    decreases lookups.len(),
{
    if lookups.len() > 0 {
        lemma_indices_keep_order(lookups.drop_first());
        if let Ok(v) = indices_result(lookups) {
            if let Ok(x) = lookups[0] {
                if let Ok(rest) = indices_result(lookups.drop_first()) {
                    assert(v == seq![x] + rest);
                    assert forall|i: int| 0 <= i < lookups.len() implies lookups[i] == Ok::<
                        u32,
                        DbgError,
                    >(#[trigger] v[i]) by {
                        if i > 0 {
                            assert(lookups[i] == lookups.drop_first()[i - 1]);
                        }
                    }
                }
            }
        }
    }
}

} // verus!
