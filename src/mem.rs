use vstd::prelude::*;

verus! {

/// Sets the first `bytes` bytes of `buf` to zero and leaves the rest.
pub fn zero(buf: &mut [u8], bytes: usize)
    requires
        bytes <= old(buf)@.len(),
    ensures
        final(buf)@.len() == old(buf)@.len(),
        forall|i: int| 0 <= i < bytes ==> final(buf)@[i] == 0,
        forall|i: int| bytes <= i < old(buf)@.len() ==> final(buf)@[i] == old(buf)@[i],
{
    let mut i: usize = 0;
    while i < bytes
        invariant
            i <= bytes <= buf@.len(),
            buf@.len() == old(buf)@.len(),
            forall|k: int| 0 <= k < i ==> buf@[k] == 0,
            forall|k: int| bytes <= k < buf@.len() ==> buf@[k] == old(buf)@[k],
        decreases bytes - i,
    {
        buf[i] = 0;
        i = i + 1;
    }
}

} // verus!
