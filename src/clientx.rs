//! Merging the results of one call per shielded address into one list.
use vstd::prelude::*;

verus! {

/// The first failure among the per-address results, in address order.
pub open spec fn first_error<T, E>(parts: Seq<Result<Vec<T>, E>>) -> Option<E>
    decreases parts.len(),
{
    if parts.len() == 0 {
        None
    } else {
        match parts[0] {
            Ok(_) => first_error(parts.drop_first()),
            Err(e) => Some(e),
        }
    }
}

/// The items of the successful results, address after address, each in its
/// own order.
pub open spec fn concat_oks<T, E>(parts: Seq<Result<Vec<T>, E>>) -> Seq<T>
    decreases parts.len(),
{
    if parts.len() == 0 {
        Seq::empty()
    } else {
        match parts[0] {
            Ok(v) => v@ + concat_oks(parts.drop_first()),
            Err(_) => concat_oks(parts.drop_first()),
        }
    }
}

/// All or nothing: the first failure if any call failed, else every item in
/// address order.
pub open spec fn merged<T, E>(parts: Seq<Result<Vec<T>, E>>) -> Result<Seq<T>, E> {
    match first_error(parts) {
        Some(e) => Err(e),
        None => Ok(concat_oks(parts)),
    }
}

/// Two addresses that both answer give the first address's items, then the
/// second's, each list in its own order.
pub proof fn lemma_merge_keeps_order<T, E>(a: Vec<T>, b: Vec<T>)
    ensures
        merged(seq![Ok::<Vec<T>, E>(a), Ok::<Vec<T>, E>(b)]) == Ok::<Seq<T>, E>(a@ + b@),
{
    let parts = seq![Ok::<Vec<T>, E>(a), Ok::<Vec<T>, E>(b)];
    assert(parts.drop_first() =~= seq![Ok::<Vec<T>, E>(b)]);
    assert(parts.drop_first().drop_first() =~= Seq::<Result<Vec<T>, E>>::empty());
    assert(first_error(parts.drop_first().drop_first()) is None);
    assert(first_error(parts.drop_first()) is None);
    assert(first_error(parts) is None);
    assert(concat_oks(parts.drop_first().drop_first()) == Seq::<T>::empty());
    assert(concat_oks(parts.drop_first()) =~= b@);
    assert(concat_oks(parts) =~= a@ + b@);
}

/// Where any address's call failed, the merge fails as a whole, with the
/// first failure in address order: no item of another address comes out.
pub proof fn lemma_merge_fails_whole<T, E>(parts: Seq<Result<Vec<T>, E>>, k: int)
    requires
        0 <= k < parts.len(),
        parts[k] is Err,
    ensures
        merged(parts) is Err,
        (forall|j: int| 0 <= j < k ==> (#[trigger] parts[j]) is Ok) ==> merged(parts) == Err::<
            Seq<T>,
            E,
        >(parts[k]->Err_0),
    decreases parts.len(),
{
    if k > 0 && parts[0] is Ok {
        let rest = parts.drop_first();
        lemma_merge_fails_whole(rest, k - 1);
        if forall|j: int| 0 <= j < k ==> (#[trigger] parts[j]) is Ok {
            assert forall|j: int| 0 <= j < k - 1 implies (#[trigger] rest[j]) is Ok by {
                assert(parts[j + 1] is Ok);
            }
        }
    }
}

/// Joins the per-address results, given in address order: fails with the
/// first failure if any, and otherwise concatenates the lists, keeping the
/// address order and each address's own order.
pub fn merge_results<T, E>(parts: Vec<Result<Vec<T>, E>>) -> (r: Result<Vec<T>, E>)
    ensures
        match r {
            Ok(v) => merged(parts@) == Ok::<Seq<T>, E>(v@),
            Err(e) => merged(parts@) == Err::<Seq<T>, E>(e),
        },
{
    let ghost all = parts@;
    let mut rest = parts;
    let mut acc: Vec<T> = Vec::new();
    while rest.len() > 0
        invariant
            all == parts@,
            first_error(all) == first_error(rest@),
            concat_oks(all) == acc@ + concat_oks(rest@),
        decreases rest.len(),
    {
        let ghost before = rest@;
        let part = rest.remove(0);
        assert(rest@ =~= before.drop_first());
        match part {
            Ok(v) => {
                let mut v = v;
                let ghost acc0 = acc@;
                acc.append(&mut v);
                assert(acc0 + concat_oks(before) =~= acc@ + concat_oks(rest@));
            },
            Err(e) => {
                assert(first_error(before) == Some(e));
                return Err(e);
            },
        }
    }
    assert(acc@ + concat_oks(rest@) =~= acc@);
    Ok(acc)
}

} // verus!
