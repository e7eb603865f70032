//! One chunked transfer in progress.
//!
//! A binary too large for a single message arrives as indexed chunks. The state
//! of a transfer holds the chunks seen so far by index, the number of chunks that
//! make it complete, the checksum announced for the whole, and the time at which
//! the transfer began.

use crate::crypto::str_eq;
use std::collections::BTreeMap;
use vstd::prelude::*;
use vstd::std_specs::btree::*;
use vstd::std_specs::cmp::OrdSpec;
use vstd::std_specs::iter::IteratorSpec;
use vstd::string::*;

verus! {

/// One more than the largest chunk index.
pub open spec fn index_limit() -> nat {
    (usize::MAX as nat) + 1
}

/// The payloads stored at indices below `limit`, joined in ascending index order.
pub open spec fn concat_below(chunks: Map<usize, Seq<u8>>, limit: nat) -> Seq<u8>
    decreases limit,
{
    if limit == 0 {
        Seq::empty()
    } else {
        let index = (limit - 1) as usize;
        if chunks.contains_key(index) {
            concat_below(chunks, (limit - 1) as nat) + chunks[index]
        } else {
            concat_below(chunks, (limit - 1) as nat)
        }
    }
}

/// The payloads at the indices `keys`, joined in the order of `keys`.
pub open spec fn concat_keys(chunks: Map<usize, Seq<u8>>, keys: Seq<usize>) -> Seq<u8>
    decreases keys.len(),
{
    if keys.len() == 0 {
        Seq::empty()
    } else {
        concat_keys(chunks, keys.drop_last()) + chunks[keys.last()]
    }
}

/// The indices below `n`.
pub open spec fn indices_below(n: nat) -> Set<usize> {
    Set::new(|i: usize| (i as nat) < n)
}

/// There are exactly `n` indices below `n`.
pub proof fn lemma_indices_below_len(n: nat)
    requires
        n <= index_limit(),
    ensures
        indices_below(n).finite(),
        indices_below(n).len() == n,
    decreases n,
{
    if n == 0 {
        assert(indices_below(0) =~= Set::<usize>::empty());
    } else {
        let m = (n - 1) as nat;
        lemma_indices_below_len(m);
        assert(indices_below(n) =~= indices_below(m).insert(m as usize));
    }
}

/// Where no index from `low` up to `high` is stored, joining up to either gives the same.
pub proof fn lemma_concat_below_gap(chunks: Map<usize, Seq<u8>>, low: nat, high: nat)
    requires
        low <= high <= index_limit(),
        forall|k: usize| low <= (k as nat) < high ==> !chunks.contains_key(k),
    ensures
        concat_below(chunks, high) == concat_below(chunks, low),
    decreases high,
{
    if low < high {
        lemma_concat_below_gap(chunks, low, (high - 1) as nat);
    }
}

/// Joining along all stored indices in ascending order is `concat_below`.
proof fn lemma_sorted_keys_below(chunks: Map<usize, Seq<u8>>, keys: Seq<usize>, j: int, limit: nat)
    requires
        forall|a: int, b: int| 0 <= a < b < keys.len() ==> keys[a] < keys[b],
        forall|k: usize| chunks.contains_key(k) <==> keys.contains(k),
        0 <= j <= keys.len(),
        limit <= index_limit(),
        forall|a: int| 0 <= a < j ==> (keys[a] as nat) < limit,
        forall|a: int| j <= a < keys.len() ==> (keys[a] as nat) >= limit,
    ensures
        concat_keys(chunks, keys.take(j)) == concat_below(chunks, limit),
    decreases limit,
{
    if limit == 0 {
        assert(j == 0) by {
            if j > 0 {
                assert((keys[0] as nat) < 0);
            }
        }
        assert(keys.take(0).len() == 0);
    } else {
        let index = (limit - 1) as usize;
        if chunks.contains_key(index) {
            assert(keys.contains(index));
            let p = keys.index_of(index);
            assert(0 <= p < keys.len() && keys[p] == index);
            assert(p < j);
            assert(p == j - 1) by {
                if p < j - 1 {
                    assert(keys[p] < keys[j - 1]);
                }
            }
            assert(keys.take(j).drop_last() =~= keys.take(j - 1));
            assert(keys.take(j).last() == index);
            assert forall|a: int| 0 <= a < j - 1 implies (keys[a] as nat) < limit - 1 by {
                assert(keys[a] < keys[j - 1]);
            }
            lemma_sorted_keys_below(chunks, keys, j - 1, (limit - 1) as nat);
        } else {
            assert forall|a: int| 0 <= a < j implies (keys[a] as nat) < limit - 1 by {
                assert(keys.contains(keys[a]));
            }
            lemma_sorted_keys_below(chunks, keys, j, (limit - 1) as nat);
        }
    }
}

/// A sequence of indices that the standard library calls increasing ascends strictly.
proof fn lemma_increasing_ascends(keys: Seq<usize>)
    requires
        increasing_seq(keys),
    ensures
        forall|a: int, b: int| 0 <= a < b < keys.len() ==> keys[a] < keys[b],
{
    broadcast use vstd::laws_cmp::group_laws_cmp;
    broadcast use group_btree_axioms;

    assert forall|a: int, b: int| 0 <= a < b < keys.len() implies keys[a] < keys[b] by {
        assert(keys[a].cmp_spec(&keys[b]) is Less);
    }
}

/// Why a chunk was refused for a transfer already in progress.
#[derive(Debug, Clone, Copy, PartialEq, Eq)]
pub enum ChunkMismatch {
    /// The chunk announces another number of chunks than the transfer began with.
    TotalChunks,
    /// The chunk announces another checksum than the one the transfer holds.
    Checksum,
}

impl ChunkMismatch {
    /// The text of this error for a chunk of the binary called `app_name`.
    pub open spec fn text(self, app_name: Seq<char>) -> Seq<char> {
        match self {
            ChunkMismatch::TotalChunks => "Chunk total_chunks mismatch for '"@ + app_name + "'"@,
            ChunkMismatch::Checksum => "Chunk checksum mismatch"@,
        }
    }

    /// The text with which the handler of the chunk fails.
    pub fn message(&self, app_name: &str) -> (s: String)
        ensures
            s@ == self.text(app_name@),
    {
        match self {
            ChunkMismatch::TotalChunks => {
                let mut s = String::from_str("Chunk total_chunks mismatch for '");
                s.append(app_name);
                s.append("'");
                s
            },
            ChunkMismatch::Checksum => String::from_str("Chunk checksum mismatch"),
        }
    }
}

/// The model of a transfer in progress.
pub struct Transfer {
    /// The payloads received so far, by chunk index.
    pub chunks: Map<usize, Seq<u8>>,
    /// The number of chunks that completes the transfer.
    pub total_chunks: usize,
    /// The checksum announced for the reassembled binary; empty while none was announced.
    pub checksum: Seq<char>,
    /// The clock reading at which the transfer began.
    pub created_at: u64,
}

impl Transfer {
    /// A transfer that has just begun and holds no chunk.
    pub open spec fn fresh(total_chunks: usize, checksum: Seq<char>, now: u64) -> Transfer {
        Transfer { chunks: Map::empty(), total_chunks, checksum, created_at: now }
    }

    /// The number of chunks received.
    pub open spec fn received(self) -> nat {
        self.chunks.dom().len()
    }

    /// Whether as many chunks were received as the transfer expects.
    pub open spec fn is_complete(self) -> bool {
        self.received() == self.total_chunks
    }

    /// The time since the transfer began; zero if the clock reads earlier than that.
    pub open spec fn age(self, now: u64) -> nat {
        if now >= self.created_at {
            (now - self.created_at) as nat
        } else {
            0
        }
    }

    /// Whether the transfer began longer than `ttl` ago.
    pub open spec fn is_expired(self, now: u64, ttl: u64) -> bool {
        self.age(now) > ttl
    }

    /// Whether a chunk announcing `total_chunks` and `checksum` belongs to this
    /// transfer, and if not, why.
    pub open spec fn admits(self, total_chunks: usize, checksum: Seq<char>) -> Result<
        (),
        ChunkMismatch,
    > {
        if self.total_chunks != total_chunks {
            Err(ChunkMismatch::TotalChunks)
        } else if checksum.len() > 0 && self.checksum.len() > 0 && self.checksum != checksum {
            Err(ChunkMismatch::Checksum)
        } else {
            Ok(())
        }
    }

    /// The transfer after a chunk was stored: the payload stands at its index,
    /// replacing an earlier one, and an announced checksum is adopted if none was held.
    pub open spec fn with_chunk(self, index: usize, checksum: Seq<char>, data: Seq<u8>) -> Transfer {
        Transfer {
            chunks: self.chunks.insert(index, data),
            checksum: if self.checksum.len() == 0 {
                checksum
            } else {
                self.checksum
            },
            ..self
        }
    }

    /// All payloads joined in ascending index order.
    pub open spec fn assembled(self) -> Seq<u8> {
        concat_below(self.chunks, index_limit())
    }

    /// Whether every stored index lies below the expected number of chunks.
    pub open spec fn in_range(self) -> bool {
        forall|k: usize| self.chunks.contains_key(k) ==> k < self.total_chunks
    }

    /// A transfer whose indices all lie below the expected number never holds
    /// more chunks than expected.
    pub proof fn lemma_received_at_most_total(self)
        requires
            self.in_range(),
        ensures
            self.chunks.dom().finite(),
            self.received() <= self.total_chunks,
    {
        lemma_indices_below_len(self.total_chunks as nat);
        assert(self.chunks.dom().subset_of(indices_below(self.total_chunks as nat)));
        vstd::set_lib::lemma_len_subset(self.chunks.dom(), indices_below(self.total_chunks as nat));
    }

    /// A complete transfer whose indices all lie below the expected number holds
    /// every index from zero up, and assembles to their payloads in that order.
    pub proof fn lemma_complete_holds_every_index(self)
        requires
            self.in_range(),
            self.is_complete(),
        ensures
            forall|k: usize| self.chunks.contains_key(k) <==> k < self.total_chunks,
            self.assembled() == concat_below(self.chunks, self.total_chunks as nat),
    {
        let all = indices_below(self.total_chunks as nat);
        lemma_indices_below_len(self.total_chunks as nat);
        assert(self.chunks.dom().subset_of(all));
        vstd::set_lib::lemma_len_subset(self.chunks.dom(), all);
        vstd::set_lib::lemma_subset_equality(self.chunks.dom(), all);
        assert forall|k: usize| self.chunks.contains_key(k) <==> k < self.total_chunks by {
            assert(all.contains(k) <==> k < self.total_chunks);
        }
        lemma_concat_below_gap(self.chunks, self.total_chunks as nat, index_limit());
    }
}

/// The state of one chunked transfer in progress.
pub struct ChunkAssemblyState {
    chunks: BTreeMap<usize, Vec<u8>>,
    total_chunks: usize,
    checksum: String,
    created_at: u64,
}

impl View for ChunkAssemblyState {
    type V = Transfer;

    closed spec fn view(&self) -> Transfer {
        Transfer {
            chunks: Map::new(
                |k: usize| self.chunks@.contains_key(k),
                |k: usize| self.chunks@[k]@,
            ),
            total_chunks: self.total_chunks,
            checksum: self.checksum@,
            created_at: self.created_at,
        }
    }
}

impl ChunkAssemblyState {
    /// Begins a transfer of `total_chunks` chunks at clock reading `now`.
    pub fn new(total_chunks: usize, checksum: String, now: u64) -> (state: Self)
        ensures
            state@ == Transfer::fresh(total_chunks, checksum@, now),
    {
        let state = ChunkAssemblyState {
            chunks: BTreeMap::new(),
            total_chunks,
            checksum,
            created_at: now,
        };
        proof {
            assert(state@.chunks =~= Map::<usize, Seq<u8>>::empty());
        }
        state
    }

    /// The number of chunks that completes the transfer.
    pub fn total_chunks(&self) -> (n: usize)
        ensures
            n == self@.total_chunks,
    {
        self.total_chunks
    }

    /// The checksum held for the reassembled binary; empty if none was announced.
    pub fn checksum(&self) -> (text: &String)
        ensures
            text@ == self@.checksum,
    {
        &self.checksum
    }

    /// The clock reading at which the transfer began.
    pub fn created_at(&self) -> (at: u64)
        ensures
            at == self@.created_at,
    {
        self.created_at
    }

    /// The number of chunks received so far.
    pub fn received(&self) -> (n: usize)
        ensures
            n == self@.received(),
            self@.chunks.dom().finite(),
    {
        proof {
            assert(self@.chunks.dom() =~= self.chunks@.dom());
        }
        self.chunks.len()
    }

    /// Whether as many chunks were received as the transfer expects.
    pub fn is_complete(&self) -> (complete: bool)
        ensures
            complete == self@.is_complete(),
    {
        self.received() == self.total_chunks
    }

    /// Whether the transfer began longer than `ttl` ago, by the clock reading `now`.
    pub fn is_expired(&self, now: u64, ttl: u64) -> (expired: bool)
        ensures
            expired == self@.is_expired(now, ttl),
    {
        if now >= self.created_at {
            now - self.created_at > ttl
        } else {
            false
        }
    }

    /// Whether a chunk announcing `total_chunks` and `checksum` belongs to this transfer.
    pub fn admits(&self, total_chunks: usize, checksum: &str) -> (r: Result<(), ChunkMismatch>)
        ensures
            r == self@.admits(total_chunks, checksum@),
    {
        if self.total_chunks != total_chunks {
            Err(ChunkMismatch::TotalChunks)
        } else if !checksum.is_empty() && !self.checksum.as_str().is_empty()
            && !str_eq(self.checksum.as_str(), checksum) {
            Err(ChunkMismatch::Checksum)
        } else {
            Ok(())
        }
    }

    /// Stores a chunk: the payload at its index, replacing an earlier one there,
    /// and the announced checksum if the transfer held none.
    pub fn store(&mut self, index: usize, checksum: String, data: Vec<u8>)
        ensures
            final(self)@ == old(self)@.with_chunk(index, checksum@, data@),
    {
        if self.checksum.as_str().is_empty() {
            self.checksum = checksum;
        }
        self.chunks.insert(index, data);
        proof {
            assert(self@.chunks =~= old(self)@.chunks.insert(index, data@));
        }
    }

    /// Joins the payloads received, in ascending index order.
    pub fn assemble(&self) -> (binary: Vec<u8>)
        ensures
            binary@ == self@.assembled(),
    {
        let mut binary: Vec<u8> = Vec::new();
        let values = self.chunks.values();
        let ghost keys: Seq<usize> = choose|keys: Seq<usize>|
            {
                &&& increasing_seq(keys)
                &&& keys.to_set() == self.chunks@.dom()
                &&& keys.no_duplicates()
                &&& values.remaining().len() == keys.len()
                &&& forall|i: int|
                    0 <= i < keys.len() ==> *(#[trigger] values.remaining()[i])
                        == self.chunks@[keys[i]]
            };
        proof {
            assert(concat_keys(self@.chunks, keys.take(0)) =~= Seq::<u8>::empty());
        }
        for part in it: values
            invariant
                it.seq().len() == keys.len(),
                forall|i: int|
                    0 <= i < keys.len() ==> *(#[trigger] it.seq()[i]) == self.chunks@[keys[i]],
                keys.to_set() == self.chunks@.dom(),
                increasing_seq(keys),
                binary@ == concat_keys(self@.chunks, keys.take(it.index())),
        {
            let ghost before = binary@;
            let ghost i = it.index();
            binary.extend_from_slice(part.as_slice());
            proof {
                assert(keys.to_set().contains(keys[i]));
                assert(self@.chunks[keys[i]] == part@);
                assert(binary@ =~= before + part@);
                assert(keys.take(i + 1).drop_last() =~= keys.take(i));
                assert(keys.take(i + 1).last() == keys[i]);
            }
        }
        proof {
            assert(keys.take(keys.len() as int) =~= keys);
            assert forall|k: usize| self@.chunks.contains_key(k) <==> keys.contains(k) by {
                assert(keys.to_set().contains(k) <==> keys.contains(k));
            }
            lemma_increasing_ascends(keys);
            lemma_sorted_keys_below(self@.chunks, keys, keys.len() as int, index_limit());
        }
        binary
    }
}

} // verus!
