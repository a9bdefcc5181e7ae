use vstd::prelude::*;

verus! {

/// The number of entries submitted per transaction when a dataset is split.
pub const CHUNK_SIZE: usize = 25;

/// The chunks laid end to end.
pub open spec fn concat<T>(chunks: Seq<Vec<T>>) -> Seq<T>
    decreases chunks.len(),
{
    if chunks.len() == 0 {
        Seq::empty()
    } else {
        concat(chunks.drop_last()) + chunks.last()@
    }
}

/// Each chunk holds between one and `size` items, and all but the last hold exactly `size`.
pub open spec fn well_split<T>(chunks: Seq<Vec<T>>, size: nat) -> bool {
    &&& forall|i: int| 0 <= i < chunks.len() ==> 0 < #[trigger] chunks[i]@.len() <= size
    &&& forall|i: int| 0 <= i < chunks.len() - 1 ==> #[trigger] chunks[i]@.len() == size
}

/// Splits `items`, in order, into chunks of `chunk_size` items; the last chunk takes the rest.
pub fn split_chunks<T>(items: Vec<T>, chunk_size: usize) -> (r: Vec<Vec<T>>)
    requires
        chunk_size > 0,
    ensures
        concat(r@) == items@,
        well_split(r@, chunk_size as nat),
{
    let mut chunks: Vec<Vec<T>> = Vec::new();
    let mut rest = items;
    assert(concat(chunks@) + rest@ =~= items@);
    while rest.len() > 0
        invariant
            chunk_size > 0,
            concat(chunks@) + rest@ == items@,
            forall|i: int| 0 <= i < chunks@.len() ==> 0 < #[trigger] chunks@[i]@.len() <= chunk_size,
            forall|i: int|
                0 <= i < chunks@.len() ==> (#[trigger] chunks@[i]@.len() == chunk_size || (i
                    == chunks@.len() - 1 && rest@.len() == 0)),
        decreases rest@.len(),
    {
        let take: usize = if rest.len() < chunk_size {
            rest.len()
        } else {
            chunk_size
        };
        let ghost whole = rest@;
        let ghost prev = chunks@;
        let tail = rest.split_off(take);
        chunks.push(rest);
        rest = tail;
        assert(chunks@.drop_last() =~= prev);
        assert(concat(chunks@) + rest@ =~= concat(prev) + whole);
    }
    assert(rest@ =~= Seq::<T>::empty());
    assert(concat(chunks@) + rest@ =~= concat(chunks@));
    chunks
}

} // verus!
