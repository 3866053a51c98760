use vstd::prelude::*;

verus! {

/// The funding top-up a record needs for a larger footprint: exactly the
/// shortfall between the required minimum and what the record already holds.
/// A record already funded at or above the requirement needs nothing.
pub fn funding_shortfall(required_minimum: u64, current_funding: u64) -> (r: u64)
    ensures
        current_funding <= required_minimum ==> r == required_minimum - current_funding,
        current_funding > required_minimum ==> r == 0,
{
    if current_funding >= required_minimum {
        0
    } else {
        required_minimum - current_funding
    }
}

/// The record footprint after a grow step.
pub fn grown_size(current_size: usize, space_to_add: usize) -> (r: usize)
    requires
        current_size + space_to_add <= usize::MAX,
    ensures
        r == current_size + space_to_add,
{
    current_size + space_to_add
}

/// Grows a record's data in place: every pre-existing byte is unchanged and
/// the added region is zero-filled.
pub fn grow_record(data: &mut Vec<u8>, space_to_add: usize)
    requires
        old(data)@.len() + space_to_add <= usize::MAX,
    ensures
        final(data)@.len() == old(data)@.len() + space_to_add,
        forall|i: int| #![trigger final(data)@[i]] 0 <= i < old(data)@.len() ==> final(data)@[i] == old(data)@[i],
        forall|i: int| #![trigger final(data)@[i]] old(data)@.len() <= i < final(data)@.len() ==> final(data)@[i] == 0,
{
    let mut added: usize = 0;
    while added < space_to_add
        invariant
            added <= space_to_add,
            old(data)@.len() + space_to_add <= usize::MAX,
            data@.len() == old(data)@.len() + added,
            forall|i: int| #![trigger data@[i]] 0 <= i < old(data)@.len() ==> data@[i] == old(data)@[i],
            forall|i: int| #![trigger data@[i]] old(data)@.len() <= i < data@.len() ==> data@[i] == 0,
        decreases space_to_add - added,
    {
        data.push(0);
        added += 1;
    }
}

} // verus!
