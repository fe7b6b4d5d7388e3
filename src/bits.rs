use vstd::prelude::*;

verus! {

/// Folds bytes into one, most significant first: each step shifts the result left by one
/// bit, dropping the top bit, and xors in the next byte.
pub open spec fn bits_value(s: Seq<u8>) -> u8
    decreases s.len(),
{
    if s.len() == 0 {
        0
    } else {
        ((bits_value(s.drop_last()) << 1u8) ^ s.last()) as u8
    }
}

/// The byte that a sequence of bits (or bytes) folds to; see [`bits_value`].
pub fn bits_to_u8(collection: &Vec<u8>) -> (r: u8)
    ensures
        r == bits_value(collection@),
{
    let mut result: u8 = 0;
    let mut i: usize = 0;
    while i < collection.len()
        invariant
            i <= collection@.len(),
            result == bits_value(collection@.subrange(0, i as int)),
        decreases collection@.len() - i,
    {
        proof {
            let next = collection@.subrange(0, i + 1);
            assert(next.drop_last() =~= collection@.subrange(0, i as int));
        }
        result = (result << 1u8) ^ collection[i];
        i += 1;
    }
    assert(collection@.subrange(0, i as int) =~= collection@);
    result
}

} // verus!
