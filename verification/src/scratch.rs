use vstd::prelude::*;

verus! {

fn t(pairs: &mut Vec<(u64, Vec<u8>)>, v: Vec<u8>)
    requires
        old(pairs)@.len() > 3,
    ensures
        true,
{
    let ghost vv = v@;
    pairs[2] = (7u64, v);
    assert(pairs@[2].0 == 7u64);
    assert(pairs@[2].1@ == vv);
    assert(pairs@.len() == old(pairs)@.len());
    assert(pairs@[1] == old(pairs)@[1]);
}

} // verus!
