use vstd::prelude::*;

verus! {

/// A copy of the first `len` bytes of `buffer`.
pub fn copy_prefix(buffer: &[u8], len: usize) -> (res: Vec<u8>)
    requires
        len <= buffer@.len(),
    ensures
        res@ == buffer@.take(len as int),
{
    let mut out: Vec<u8> = Vec::new();
    let mut i: usize = 0;
    while i < len
        invariant
            i <= len,
            len <= buffer@.len(),
            out@ == buffer@.take(i as int),
        decreases len - i,
    {
        out.push(buffer[i]);
        i = i + 1;
        proof {
            assert(out@ =~= buffer@.take(i as int));
        }
    }
    out
}

} // verus!
