//! Accumulation of one part's payload from the chunks that carry it.

use vstd::prelude::*;

use crate::error::DecodeError;
use crate::sequence::joined;

verus! {

/// Whether `cuts` are chunk boundaries of a payload of `len` bytes: they start
/// at 0, end at `len` and never go back. Two equal neighbours make an empty
/// chunk.
pub open spec fn is_cutting(len: nat, cuts: Seq<int>) -> bool {
    &&& cuts.len() >= 1
    &&& cuts[0] == 0
    &&& cuts.last() == len
    &&& forall|i: int| 0 <= i < cuts.len() - 1 ==> cuts[i] <= #[trigger] cuts[i + 1]
}

/// The chunks into which `cuts` split `payload`.
pub open spec fn pieces(payload: Seq<u8>, cuts: Seq<int>) -> Seq<Seq<u8>> {
    Seq::new((cuts.len() - 1) as nat, |i: int| payload.subrange(cuts[i], cuts[i + 1]))
}

/// Boundaries that never go back stay within the payload.
proof fn lemma_cuts_in_range(len: nat, cuts: Seq<int>, k: int)
    requires
        is_cutting(len, cuts),
        0 <= k < cuts.len(),
    ensures
        0 <= cuts[k] <= len,
{
    lemma_cuts_ordered(cuts, 0, k);
    lemma_cuts_ordered(cuts, k, cuts.len() - 1);
}

/// Boundaries that never go back from one to the next are ordered throughout.
proof fn lemma_cuts_ordered(cuts: Seq<int>, i: int, j: int)
    requires
        forall|k: int| 0 <= k < cuts.len() - 1 ==> cuts[k] <= #[trigger] cuts[k + 1],
        0 <= i <= j < cuts.len(),
    ensures
        cuts[i] <= cuts[j],
    decreases j - i,
{
    if i < j {
        lemma_cuts_ordered(cuts, i, j - 1);
        assert(cuts[j - 1] <= cuts[(j - 1) + 1]);
    }
}

/// However the transport cuts a payload into chunks, joining the chunks in
/// arrival order gives the payload back, byte for byte.
pub proof fn law_chunking_preserves_payload(payload: Seq<u8>, cuts: Seq<int>)
    requires
        is_cutting(payload.len(), cuts),
    ensures
        joined(pieces(payload, cuts)) == payload,
{
    lemma_joined_prefix(payload, cuts, cuts.len() - 1);
    assert(pieces(payload, cuts).take(cuts.len() - 1) =~= pieces(payload, cuts));
    assert(payload.subrange(0, payload.len() as int) =~= payload);
}

/// The first `k` chunks of a cut payload join to the payload up to the
/// `k`-th boundary.
proof fn lemma_joined_prefix(payload: Seq<u8>, cuts: Seq<int>, k: int)
    requires
        is_cutting(payload.len(), cuts),
        0 <= k <= cuts.len() - 1,
    ensures
        joined(pieces(payload, cuts).take(k)) == payload.subrange(0, cuts[k]),
    decreases k,
{
    let all = pieces(payload, cuts);
    if k == 0 {
        assert(all.take(0) =~= Seq::<Seq<u8>>::empty());
        assert(payload.subrange(0, 0) =~= Seq::<u8>::empty());
    } else {
        lemma_joined_prefix(payload, cuts, k - 1);
        lemma_cuts_in_range(payload.len(), cuts, k - 1);
        lemma_cuts_in_range(payload.len(), cuts, k);
        assert(cuts[k - 1] <= cuts[(k - 1) + 1]);
        assert(all.take(k).drop_last() =~= all.take(k - 1));
        assert(all.take(k).last() == payload.subrange(cuts[k - 1], cuts[k]));
        assert(payload.subrange(0, cuts[k - 1]) + payload.subrange(cuts[k - 1], cuts[k])
            =~= payload.subrange(0, cuts[k]));
    }
}

/// One attempt to read the next chunk of a part.
#[derive(Debug, Clone, PartialEq, Eq)]
pub enum ChunkRead {
    /// The transport delivered these bytes.
    Data(Vec<u8>),
    /// The transport failed before the part was complete.
    Failed,
}

/// Whether every read delivered data.
pub open spec fn all_delivered(reads: Seq<ChunkRead>) -> bool {
    forall|i: int| 0 <= i < reads.len() ==> reads[i] is Data
}

/// The chunks that the reads delivered, in order; meaningful when all delivered.
pub open spec fn delivered(reads: Seq<ChunkRead>) -> Seq<Seq<u8>> {
    Seq::new(reads.len(), |i: int| reads[i]->Data_0@)
}

/// Appends one chunk to the payload gathered so far.
pub fn append_chunk(buffer: &mut Vec<u8>, chunk: &[u8])
    ensures
        final(buffer)@ == old(buffer)@ + chunk@,
{
    buffer.extend_from_slice(chunk);
}

/// Builds a part's payload from the reads of its chunk stream.
///
/// The payload is every chunk in arrival order. A failed read anywhere in the
/// stream makes the whole accumulation fail: no shortened payload is returned.
pub fn accumulate(reads: &Vec<ChunkRead>) -> (result: Result<Vec<u8>, DecodeError>)
    ensures
        all_delivered(reads@) ==> result is Ok && result->Ok_0@ == joined(delivered(reads@)),
        !all_delivered(reads@) ==> result == Err::<Vec<u8>, DecodeError>(
            DecodeError::PayloadInterrupted,
        ),
{
    let mut buffer: Vec<u8> = Vec::new();
    let mut i: usize = 0;
    while i < reads.len()
        invariant
            i <= reads.len(),
            all_delivered(reads@.take(i as int)),
            buffer@ == joined(delivered(reads@.take(i as int))),
        decreases reads.len() - i,
    {
        match &reads[i] {
            ChunkRead::Data(chunk) => {
                proof {
                    let before = reads@.take(i as int);
                    let after = reads@.take(i + 1);
                    assert(after.drop_last() == before);
                    assert(delivered(after).drop_last() == delivered(before));
                    assert(delivered(after).last() == chunk@);
                }
                append_chunk(&mut buffer, chunk.as_slice());
            },
            ChunkRead::Failed => {
                return Err(DecodeError::PayloadInterrupted);
            },
        }
        i += 1;
    }
    proof {
        assert(reads@.take(i as int) == reads@);
    }
    Ok(buffer)
}

} // verus!
