//! Reassembly helpers: an unpacked part is streamed to the consumer in
//! fixed-size slices; this module cuts the slices and the contract pins
//! them to the part's bytes.

use vstd::prelude::*;

use crate::sender::{byte_views, concat_all};

verus! {

/// Cut a buffer into consecutive slices of `buf_size` bytes, the last one
/// possibly shorter: concatenating the slices restores the buffer.
pub fn slice_chunks(data: &Vec<u8>, buf_size: usize) -> (r: Vec<Vec<u8>>)
    requires
        buf_size >= 1,
    ensures
        concat_all(byte_views(r@)) == data@,
        forall|i: int| 0 <= i < r@.len() - 1 ==> (#[trigger] r@[i])@.len() == buf_size,
        r@.len() > 0 ==> 0 < r@.last()@.len() <= buf_size,
        data@.len() == 0 ==> r@.len() == 0,
{
    let n = data.len();
    let mut r: Vec<Vec<u8>> = Vec::new();
    let mut offset: usize = 0;
    proof {
        assert(byte_views(r@) =~= Seq::<Seq<u8>>::empty());
    }
    while offset < n
        invariant
            offset <= n,
            n == data@.len(),
            buf_size >= 1,
            concat_all(byte_views(r@)) == data@.take(offset as int),
            (offset == 0) == (r@.len() == 0),
            forall|i: int|
                0 <= i < r@.len() ==> (#[trigger] r@[i])@.len() == buf_size || (i == r@.len() - 1
                    && offset == n),
            forall|i: int| 0 <= i < r@.len() ==> 0 < (#[trigger] r@[i])@.len() <= buf_size,
        decreases n - offset,
    {
        let end = if n - offset < buf_size {
            n
        } else {
            offset + buf_size
        };
        let mut piece: Vec<u8> = Vec::new();
        let mut j = offset;
        while j < end
            invariant
                offset <= j <= end <= n,
                n == data@.len(),
                piece@ == data@.subrange(offset as int, j as int),
            decreases end - j,
        {
            piece.push(data[j]);
            proof {
                assert(data@.subrange(offset as int, j + 1) =~= data@.subrange(
                    offset as int,
                    j as int,
                ).push(data@[j as int]));
            }
            j = j + 1;
        }
        let ghost r_before = r@;
        r.push(piece);
        proof {
            assert(byte_views(r@) =~= byte_views(r_before).push(data@.subrange(
                offset as int,
                end as int,
            )));
            crate::sender::lemma_concat_all_push(
                byte_views(r_before),
                data@.subrange(offset as int, end as int),
            );
            assert(data@.take(offset as int) + data@.subrange(offset as int, end as int)
                =~= data@.take(end as int));
        }
        offset = end;
    }
    proof {
        assert(data@.take(n as int) =~= data@);
    }
    r
}

} // verus!
