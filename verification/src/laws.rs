//! What holds of reassembly and checksums whatever the inputs.
//!
//! The statements here are about the models that the contracts of the assembler
//! and of the checksum functions are written over, so each of them holds of the
//! executable code as well.

use crate::assembler::{
    after_ingest, assemblable, ingested, ingested_all, swept, ChunkView, Transfers,
};
use crate::crypto::{checksum_accepts, checksum_text};
use crate::transfer::{concat_below, ChunkMismatch, Transfer};
use vstd::prelude::*;

verus! {

/// Whether `arrivals` bring each of `parts` exactly once, in some order, as the
/// chunks of the binary called `name`: every chunk announces as many chunks as
/// there are parts, carries the part at its index, and announces either no
/// checksum or `checksum`.
pub open spec fn delivers_each_part_once(
    arrivals: Seq<ChunkView>,
    name: Seq<char>,
    checksum: Seq<char>,
    parts: Seq<Seq<u8>>,
) -> bool {
    &&& 0 < parts.len() <= usize::MAX
    &&& arrivals.len() == parts.len()
    &&& forall|j: int|
        0 <= j < arrivals.len() ==> {
            let chunk = #[trigger] arrivals[j];
            &&& chunk.app_name == name
            &&& chunk.total_chunks == parts.len()
            &&& chunk.chunk_idx < parts.len()
            &&& chunk.data == parts[chunk.chunk_idx as int]
            &&& (chunk.checksum.len() == 0 || chunk.checksum == checksum)
        }
    &&& forall|i: int, j: int|
        0 <= i < j < arrivals.len() ==> arrivals[i].chunk_idx != arrivals[j].chunk_idx
}

/// Joining the payloads below `n` gives the first `n` parts in order, where the
/// payload at each of those indices is the part of that index.
proof fn lemma_concat_below_is_flatten(chunks: Map<usize, Seq<u8>>, parts: Seq<Seq<u8>>, n: nat)
    requires
        n <= parts.len() <= usize::MAX,
        forall|i: usize|
            (i as nat) < n ==> (#[trigger] chunks.contains_key(i)) && chunks[i] == parts[i as int],
    ensures
        concat_below(chunks, n) == parts.take(n as int).flatten(),
    decreases n,
{
    let taken = parts.take(n as int);
    taken.lemma_flatten_and_flatten_alt_are_equivalent();
    if n > 0 {
        let m = (n - 1) as nat;
        assert forall|i: usize| (i as nat) < m implies (#[trigger] chunks.contains_key(i))
            && chunks[i] == parts[i as int] by {
            assert((i as nat) < n);
            assert(chunks.contains_key(i));
            assert(chunks[i] == parts[i as int]);
        }
        lemma_concat_below_is_flatten(chunks, parts, m);
        parts.take(m as int).lemma_flatten_and_flatten_alt_are_equivalent();
        assert(taken.drop_last() =~= parts.take(m as int));
        assert(taken.last() == parts[m as int]);
        assert(chunks.contains_key(m as usize) && chunks[m as usize] == parts[m as int]);
    }
}

/// The transfers after the first `k` of the arrivals: one transfer more, which
/// holds exactly the parts that have arrived.
proof fn lemma_after_arrivals(
    transfers: Transfers,
    name: Seq<char>,
    checksum: Seq<char>,
    parts: Seq<Seq<u8>>,
    arrivals: Seq<ChunkView>,
    times: Seq<u64>,
    k: int,
)
    requires
        !transfers.contains_key(name),
        delivers_each_part_once(arrivals, name, checksum, parts),
        times.len() == arrivals.len(),
        1 <= k <= arrivals.len(),
    ensures
        ingested_all(transfers, arrivals.take(k), times.take(k)) matches Ok(after) && {
            &&& after.contains_key(name)
            &&& after.remove(name) == transfers
            &&& after[name].total_chunks == parts.len()
            &&& after[name].created_at == times[0]
            &&& (after[name].checksum.len() == 0 || after[name].checksum == checksum)
            &&& forall|index: usize|
                after[name].chunks.contains_key(index) <==> exists|j: int|
                    0 <= j < k && (#[trigger] arrivals[j]).chunk_idx == index
            &&& forall|j: int|
                0 <= j < k ==> after[name].chunks[(#[trigger] arrivals[j]).chunk_idx]
                    == parts[arrivals[j].chunk_idx as int]
        },
    decreases k,
{
    let chunk = arrivals[k - 1];
    assert(arrivals.take(k).drop_last() =~= arrivals.take(k - 1));
    assert(times.take(k).drop_last() =~= times.take(k - 1));
    assert(arrivals.take(k).last() == chunk);
    assert(times.take(k).last() == times[k - 1]);
    if k == 1 {
        assert(arrivals.take(0).len() == 0);
        assert(ingested_all(transfers, arrivals.take(0), times.take(0)) == Ok::<
            Transfers,
            ChunkMismatch,
        >(transfers));
        let begun = Transfer::fresh(chunk.total_chunks, chunk.checksum, times[0]).with_chunk(
            chunk.chunk_idx,
            chunk.checksum,
            chunk.data,
        );
        let after = transfers.insert(name, begun);
        assert(ingested(transfers, chunk, times[0]) == Ok::<Transfers, ChunkMismatch>(after));
        assert(after.remove(name) =~= transfers);
        assert forall|index: usize|
            after[name].chunks.contains_key(index) <==> exists|j: int|
                0 <= j < k && (#[trigger] arrivals[j]).chunk_idx == index by {
            if index == chunk.chunk_idx {
                assert(arrivals[0].chunk_idx == index);
            }
        }
    } else {
        lemma_after_arrivals(transfers, name, checksum, parts, arrivals, times, k - 1);
        let before = ingested_all(transfers, arrivals.take(k - 1), times.take(k - 1))->Ok_0;
        let held = before[name];
        let after = before.insert(
            name,
            held.with_chunk(chunk.chunk_idx, chunk.checksum, chunk.data),
        );
        assert(ingested(before, chunk, times[k - 1]) == Ok::<Transfers, ChunkMismatch>(after));
        assert(after.remove(name) =~= before.remove(name));
        assert forall|index: usize|
            after[name].chunks.contains_key(index) <==> exists|j: int|
                0 <= j < k && (#[trigger] arrivals[j]).chunk_idx == index by {
            if index == chunk.chunk_idx {
                assert(arrivals[k - 1].chunk_idx == index);
            }
            if held.chunks.contains_key(index) {
                let j = choose|j: int|
                    0 <= j < k - 1 && (#[trigger] arrivals[j]).chunk_idx == index;
                assert(0 <= j < k && arrivals[j].chunk_idx == index);
            }
            if exists|j: int| 0 <= j < k && (#[trigger] arrivals[j]).chunk_idx == index {
                let j = choose|j: int| 0 <= j < k && (#[trigger] arrivals[j]).chunk_idx == index;
                if j < k - 1 {
                    assert(held.chunks.contains_key(index));
                }
            }
        }
        assert forall|j: int| 0 <= j < k implies after[name].chunks[(
        #[trigger] arrivals[j]).chunk_idx] == parts[arrivals[j].chunk_idx as int] by {
            if j < k - 1 {
                assert(arrivals[j].chunk_idx != arrivals[k - 1].chunk_idx);
            }
        }
    }
}

/// Arrival order does not matter. When the parts of a binary arrive as chunks,
/// each exactly once and in whatever order, for a name that no transfer is in
/// progress for, then no chunk is refused, the transfer is complete, what it
/// assembles to is the parts joined in the order of their indices, and the other
/// transfers are as they were.
pub proof fn lemma_assembly_ignores_arrival_order(
    transfers: Transfers,
    name: Seq<char>,
    checksum: Seq<char>,
    parts: Seq<Seq<u8>>,
    arrivals: Seq<ChunkView>,
    times: Seq<u64>,
)
    requires
        !transfers.contains_key(name),
        delivers_each_part_once(arrivals, name, checksum, parts),
        times.len() == arrivals.len(),
    ensures
        ingested_all(transfers, arrivals, times) matches Ok(after) && {
            &&& assemblable(after, name)
            &&& after[name].assembled() == parts.flatten()
            &&& after.remove(name) == transfers
        },
{
    let n = arrivals.len() as int;
    lemma_after_arrivals(transfers, name, checksum, parts, arrivals, times, n);
    assert(arrivals.take(n) =~= arrivals);
    assert(times.take(n) =~= times);
    let after = ingested_all(transfers, arrivals, times)->Ok_0;
    let held = after[name];
    let indices = Seq::new(arrivals.len(), |j: int| arrivals[j].chunk_idx);
    assert(indices.no_duplicates());
    assert(held.chunks.dom() =~= indices.to_set()) by {
        assert forall|index: usize| held.chunks.contains_key(index) <==> indices.contains(
            index,
        ) by {
            if held.chunks.contains_key(index) {
                let j = choose|j: int| 0 <= j < n && (#[trigger] arrivals[j]).chunk_idx == index;
                assert(indices[j] == index);
            }
            if indices.contains(index) {
                let j = choose|j: int| 0 <= j < indices.len() && indices[j] == index;
                assert(arrivals[j].chunk_idx == index);
            }
        }
    }
    indices.unique_seq_to_set();
    assert(held.is_complete());
    assert(held.in_range()) by {
        assert forall|index: usize| held.chunks.contains_key(index) implies index
            < held.total_chunks by {
            let j = choose|j: int| 0 <= j < n && (#[trigger] arrivals[j]).chunk_idx == index;
        }
    }
    held.lemma_complete_holds_every_index();
    assert forall|i: usize| (i as nat) < parts.len() implies (#[trigger] held.chunks.contains_key(
        i,
    )) && held.chunks[i] == parts[i as int] by {
        assert(held.chunks.contains_key(i));
        let j = choose|j: int| 0 <= j < n && (#[trigger] arrivals[j]).chunk_idx == i;
        assert(held.chunks[arrivals[j].chunk_idx] == parts[arrivals[j].chunk_idx as int]);
    }
    lemma_concat_below_is_flatten(held.chunks, parts, parts.len());
    assert(parts.take(parts.len() as int) =~= parts);
}

/// A chunk that announces another number of chunks than the transfer of its name
/// began with is refused, and the transfers stay as they were: the transfer of
/// that name holds the chunks it held.
pub proof fn lemma_other_total_is_refused(transfers: Transfers, chunk: ChunkView, now: u64)
    requires
        transfers.contains_key(chunk.app_name),
        transfers[chunk.app_name].total_chunks != chunk.total_chunks,
    ensures
        ingested(transfers, chunk, now) == Err::<Transfers, ChunkMismatch>(
            ChunkMismatch::TotalChunks,
        ),
        after_ingest(transfers, chunk, now) == transfers,
        after_ingest(transfers, chunk, now)[chunk.app_name].chunks
            == transfers[chunk.app_name].chunks,
{
}

/// A chunk that announces another checksum than the one the transfer of its name
/// holds is refused as well, and the transfers stay as they were.
pub proof fn lemma_other_checksum_is_refused(transfers: Transfers, chunk: ChunkView, now: u64)
    requires
        transfers.contains_key(chunk.app_name),
        transfers[chunk.app_name].total_chunks == chunk.total_chunks,
        chunk.checksum.len() > 0,
        transfers[chunk.app_name].checksum.len() > 0,
        transfers[chunk.app_name].checksum != chunk.checksum,
    ensures
        ingested(transfers, chunk, now) == Err::<Transfers, ChunkMismatch>(ChunkMismatch::Checksum),
        after_ingest(transfers, chunk, now) == transfers,
{
}

/// What is fixed when a transfer begins stays fixed while chunks are stored: the
/// number of chunks expected, the time it began, and the checksum once one is held.
pub proof fn lemma_stored_chunks_leave_the_rest(
    held: Transfer,
    index: usize,
    checksum: Seq<char>,
    data: Seq<u8>,
)
    ensures
        held.with_chunk(index, checksum, data).total_chunks == held.total_chunks,
        held.with_chunk(index, checksum, data).created_at == held.created_at,
        held.checksum.len() > 0 ==> held.with_chunk(index, checksum, data).checksum
            == held.checksum,
        held.checksum.len() == 0 ==> held.with_chunk(index, checksum, data).checksum == checksum,
        held.with_chunk(index, checksum, data).chunks[index] == data,
        forall|other: usize|
            other != index ==> (held.with_chunk(index, checksum, data).chunks.contains_key(other)
                <==> held.chunks.contains_key(other)),
{
}

/// A transfer that began longer ago than the time to live does not survive the
/// sweep, and nothing of it is left: the next chunk for its name begins a
/// transfer that holds that chunk alone.
pub proof fn lemma_expired_transfer_is_gone(
    transfers: Transfers,
    chunk: ChunkView,
    now: u64,
    ttl: u64,
    later: u64,
)
    requires
        transfers.contains_key(chunk.app_name),
        transfers[chunk.app_name].is_expired(now, ttl),
    ensures
        !swept(transfers, now, ttl).contains_key(chunk.app_name),
        ingested(swept(transfers, now, ttl), chunk, later) matches Ok(after) && after
            == swept(transfers, now, ttl).insert(
            chunk.app_name,
            Transfer::fresh(chunk.total_chunks, chunk.checksum, later).with_chunk(
                chunk.chunk_idx,
                chunk.checksum,
                chunk.data,
            ),
        ) && after[chunk.app_name].chunks == Map::<usize, Seq<u8>>::empty().insert(
            chunk.chunk_idx,
            chunk.data,
        ),
{
}

/// The sweep keeps every transfer that has not expired, unchanged.
pub proof fn lemma_sweep_keeps_the_rest(transfers: Transfers, name: Seq<char>, now: u64, ttl: u64)
    requires
        transfers.contains_key(name),
        !transfers[name].is_expired(now, ttl),
    ensures
        swept(transfers, now, ttl).contains_key(name),
        swept(transfers, now, ttl)[name] == transfers[name],
{
}

/// The checksum depends on the bytes alone, not on the pieces they came in; and
/// so does whether an expected checksum accepts them.
pub proof fn lemma_checksum_ignores_assembly(
    pieces: Seq<Seq<u8>>,
    other_pieces: Seq<Seq<u8>>,
    expected: Seq<char>,
)
    requires
        pieces.flatten() == other_pieces.flatten(),
    ensures
        checksum_text(pieces.flatten()) == checksum_text(other_pieces.flatten()),
        checksum_accepts(checksum_text(pieces.flatten()), expected) == checksum_accepts(
            checksum_text(other_pieces.flatten()),
            expected,
        ),
{
}

} // verus!
