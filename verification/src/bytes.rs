use vstd::prelude::*;

verus! {

/// Appends `bytes` to `copy`.
fn append_bytes(copy: &mut Vec<u8>, bytes: &[u8])
    ensures
        final(copy)@ == old(copy)@ + bytes@,
{
    let ghost start = copy@;
    let mut i: usize = 0;
    while i < bytes.len()
        invariant
            i <= bytes@.len(),
            copy@ == start + bytes@.subrange(0, i as int),
        decreases bytes@.len() - i,
    {
        copy.push(bytes[i]);
        i = i + 1;
        proof {
            assert(copy@ =~= start + bytes@.subrange(0, i as int));
        }
    }
    proof {
        assert(bytes@.subrange(0, bytes@.len() as int) =~= bytes@);
    }
}

/// Copies `bytes` into a new vector.
pub fn copy_bytes(bytes: &[u8]) -> (copy: Vec<u8>)
    ensures
        copy@ == bytes@,
{
    let mut copy: Vec<u8> = Vec::new();
    append_bytes(&mut copy, bytes);
    proof {
        assert(copy@ =~= bytes@);
    }
    copy
}

/// Copies `bytes` into a new vector after reserving its storage, or returns
/// `None` when the allocator refuses the reservation. Empty bytes need no
/// storage, so their copy always succeeds.
pub fn try_copy_bytes(bytes: &[u8]) -> (copy: Option<Vec<u8>>)
    ensures
        bytes@.len() == 0 ==> copy is Some,
        copy matches Some(v) ==> v@ == bytes@,
{
    let mut copy: Vec<u8> = Vec::new();
    if bytes.len() > 0 && copy.try_reserve(bytes.len()).is_err() {
        return None;
    }
    append_bytes(&mut copy, bytes);
    proof {
        assert(copy@ =~= bytes@);
    }
    Some(copy)
}

} // verus!
