//! Byte-vector helpers shared by the client and the server.

use vstd::prelude::*;

verus! {

/// A fresh vector holding `data`.
pub fn copy_bytes(data: &[u8]) -> (v: Vec<u8>)
    ensures
        v@ == data@,
{
    let mut v: Vec<u8> = Vec::new();
    let mut i: usize = 0;
    while i < data.len()
        invariant
            i <= data@.len(),
            v@ == data@.subrange(0, i as int),
        decreases data@.len() - i,
    {
        v.push(data[i]);
        i = i + 1;
        assert(v@ =~= data@.subrange(0, i as int));
    }
    assert(v@ =~= data@);
    v
}

/// Append `data[start..start + len]` to `v`.
pub fn push_bytes(v: &mut Vec<u8>, data: &[u8; 8], start: usize, len: usize)
    requires
        start + len <= 8,
    ensures
        final(v)@ == old(v)@ + data@.subrange(start as int, start + len),
{
    let mut i: usize = 0;
    while i < len
        invariant
            start + len <= 8,
            i <= len,
            v@ == old(v)@ + data@.subrange(start as int, start + i),
        decreases len - i,
    {
        v.push(data[start + i]);
        i = i + 1;
        assert(v@ =~= old(v)@ + data@.subrange(start as int, start + i));
    }
}

} // verus!
