//! Reassembly of chunked transfers.
//!
//! The assembler holds the transfers in progress by the name of the binary they
//! carry. Chunks may arrive in any order; a transfer is handed out, and forgotten,
//! once as many chunks are held as it expects, and is discarded by the sweep when
//! it began too long ago.

use crate::name_map::{lemma_paired_at, NameMap};
use crate::transfer::{ChunkAssemblyState, ChunkMismatch, Transfer};
use vstd::prelude::*;

verus! {

/// One indexed fragment of a binary, as received.
#[derive(Debug, Clone, PartialEq, Eq)]
pub struct Chunk {
    /// The name of the binary the fragment belongs to.
    pub app_name: String,
    /// The position of the fragment, counted from zero.
    pub chunk_idx: usize,
    /// The number of fragments the binary was cut into.
    pub total_chunks: usize,
    /// The checksum of the whole binary; may be empty.
    pub checksum: String,
    /// The bytes of the fragment.
    pub data: Vec<u8>,
}

/// The model of a chunk.
pub struct ChunkView {
    pub app_name: Seq<char>,
    pub chunk_idx: usize,
    pub total_chunks: usize,
    pub checksum: Seq<char>,
    pub data: Seq<u8>,
}

impl View for Chunk {
    type V = ChunkView;

    open spec fn view(&self) -> ChunkView {
        ChunkView {
            app_name: self.app_name@,
            chunk_idx: self.chunk_idx,
            total_chunks: self.total_chunks,
            checksum: self.checksum@,
            data: self.data@,
        }
    }
}

/// The transfers in progress, by name.
pub type Transfers = Map<Seq<char>, Transfer>;

/// What the transfers become when `chunk` arrives at clock reading `now`, or why
/// the chunk is refused. A chunk for an unknown name begins a transfer.
pub open spec fn ingested(transfers: Transfers, chunk: ChunkView, now: u64) -> Result<
    Transfers,
    ChunkMismatch,
> {
    if transfers.contains_key(chunk.app_name) {
        let held = transfers[chunk.app_name];
        match held.admits(chunk.total_chunks, chunk.checksum) {
            Err(mismatch) => Err(mismatch),
            Ok(_) => Ok(
                transfers.insert(
                    chunk.app_name,
                    held.with_chunk(chunk.chunk_idx, chunk.checksum, chunk.data),
                ),
            ),
        }
    } else {
        Ok(
            transfers.insert(
                chunk.app_name,
                Transfer::fresh(chunk.total_chunks, chunk.checksum, now).with_chunk(
                    chunk.chunk_idx,
                    chunk.checksum,
                    chunk.data,
                ),
            ),
        )
    }
}

/// The transfers after `chunk` arrived at clock reading `now`: a refused chunk
/// leaves them as they were.
pub open spec fn after_ingest(transfers: Transfers, chunk: ChunkView, now: u64) -> Transfers {
    match ingested(transfers, chunk, now) {
        Ok(after) => after,
        Err(_) => transfers,
    }
}

/// What the transfers become when `arrivals` come in, one after the other, at the
/// clock readings `times`; the first refusal ends it.
pub open spec fn ingested_all(transfers: Transfers, arrivals: Seq<ChunkView>, times: Seq<u64>) -> Result<
    Transfers,
    ChunkMismatch,
>
    decreases arrivals.len(),
{
    if arrivals.len() == 0 {
        Ok(transfers)
    } else {
        match ingested_all(transfers, arrivals.drop_last(), times.drop_last()) {
            Err(mismatch) => Err(mismatch),
            Ok(before) => ingested(before, arrivals.last(), times.last()),
        }
    }
}

/// Whether the transfer called `name` can be handed out.
pub open spec fn assemblable(transfers: Transfers, name: Seq<char>) -> bool {
    transfers.contains_key(name) && transfers[name].is_complete()
}

/// The transfers that a sweep at clock reading `now` leaves: those that did not
/// begin longer than `ttl` ago.
pub open spec fn swept(transfers: Transfers, now: u64, ttl: u64) -> Transfers {
    Map::new(
        |name: Seq<char>| transfers.contains_key(name) && !transfers[name].is_expired(now, ttl),
        |name: Seq<char>| transfers[name],
    )
}

/// A reassembled binary, still sealed, with the checksum announced for it.
#[derive(Debug, Clone, PartialEq, Eq)]
pub struct Assembled {
    /// The payloads of the transfer, joined in ascending index order.
    pub binary: Vec<u8>,
    /// The checksum the transfer held; empty if none was announced.
    pub checksum: String,
}

/// A transfer that the sweep discarded.
#[derive(Debug, Clone, PartialEq, Eq)]
pub struct Expired {
    /// The name of the binary.
    pub app_name: String,
    /// The number of chunks that had been received.
    pub received: usize,
    /// The number of chunks that were expected.
    pub total_chunks: usize,
}

/// The transfers in progress.
pub struct ChunkAssembler {
    transfers: NameMap<ChunkAssemblyState>,
}

impl View for ChunkAssembler {
    type V = Transfers;

    closed spec fn view(&self) -> Transfers {
        Map::new(
            |name: Seq<char>| self.transfers@.contains_key(name),
            |name: Seq<char>| self.transfers@[name]@,
        )
    }
}

impl ChunkAssembler {
    /// An assembler with no transfer in progress.
    pub fn new() -> (assembler: Self)
        ensures
            assembler@ == Map::<Seq<char>, Transfer>::empty(),
    {
        let assembler = ChunkAssembler { transfers: NameMap::new() };
        proof {
            assert(assembler@ =~= Map::<Seq<char>, Transfer>::empty());
        }
        assembler
    }

    /// The number of transfers in progress.
    pub fn len(&self) -> (n: usize)
        ensures
            n == self@.dom().len(),
            self@.dom().finite(),
    {
        proof {
            assert(self@.dom() =~= self.transfers@.dom());
        }
        self.transfers.len()
    }

    /// Whether a transfer called `name` is in progress.
    pub fn contains(&self, name: &str) -> (held: bool)
        ensures
            held == self@.contains_key(name@),
    {
        self.transfers.contains(name)
    }

    /// The number of chunks held for `name`, and the number expected.
    pub fn progress(&self, name: &str) -> (counts: Option<(usize, usize)>)
        ensures
            counts matches Some(c) ==> self@.contains_key(name@) && c.0 == self@[name@].received()
                && c.1 == self@[name@].total_chunks,
            counts is None ==> !self@.contains_key(name@),
    {
        match self.transfers.get(name) {
            Some(state) => Some((state.received(), state.total_chunks())),
            None => None,
        }
    }

    /// Takes in one chunk at clock reading `now`.
    ///
    /// The first chunk for a name begins a transfer that expects the number of
    /// chunks the chunk announces. A later chunk that announces another number, or
    /// another checksum than the one held, is refused and leaves everything as it
    /// was. An accepted chunk replaces an earlier one at the same index.
    pub fn ingest(&mut self, chunk: Chunk, now: u64) -> (r: Result<(), ChunkMismatch>)
        ensures
            r matches Ok(_) ==> ingested(old(self)@, chunk@, now) == Ok::<Transfers, ChunkMismatch>(
                final(self)@,
            ),
            r matches Err(mismatch) ==> ingested(old(self)@, chunk@, now) == Err::<
                Transfers,
                ChunkMismatch,
            >(mismatch) && final(self)@ == old(self)@,
            final(self)@ == after_ingest(old(self)@, chunk@, now),
    {
        match self.transfers.find(chunk.app_name.as_str()) {
            Some(at) => {
                let held = self.transfers.value_at(at);
                match held.admits(chunk.total_chunks, chunk.checksum.as_str()) {
                    Err(mismatch) => {
                        return Err(mismatch);
                    },
                    Ok(_) => {},
                }
                let ghost before = self.transfers@;
                let (name, mut state) = self.transfers.remove_at(at);
                state.store(chunk.chunk_idx, chunk.checksum, chunk.data);
                self.transfers.insert(name, state);
                proof {
                    assert(self.transfers@ =~= before.insert(chunk.app_name@, state));
                    assert(self@ =~= old(self)@.insert(
                        chunk.app_name@,
                        old(self)@[chunk.app_name@].with_chunk(
                            chunk.chunk_idx,
                            chunk.checksum@,
                            chunk.data@,
                        ),
                    ));
                }
            },
            None => {
                let mut state = ChunkAssemblyState::new(
                    chunk.total_chunks,
                    chunk.checksum.clone(),
                    now,
                );
                state.store(chunk.chunk_idx, chunk.checksum, chunk.data);
                self.transfers.insert(chunk.app_name, state);
                proof {
                    assert(self@ =~= old(self)@.insert(
                        chunk.app_name@,
                        Transfer::fresh(chunk.total_chunks, chunk.checksum@, now).with_chunk(
                            chunk.chunk_idx,
                            chunk.checksum@,
                            chunk.data@,
                        ),
                    ));
                }
            },
        }
        Ok(())
    }

    /// Hands out the transfer called `name` if it is complete: its payloads joined
    /// in ascending index order, and the checksum it held. The transfer is then
    /// forgotten, whatever the caller finds out about the binary. Nothing happens
    /// while the transfer is unknown or incomplete.
    pub fn try_assemble(&mut self, name: &str) -> (r: Option<Assembled>)
        ensures
            assemblable(old(self)@, name@) ==> (r matches Some(a) && a.binary@ == old(
                self,
            )@[name@].assembled() && a.checksum@ == old(self)@[name@].checksum) && final(self)@
                == old(self)@.remove(name@),
            !assemblable(old(self)@, name@) ==> r is None && final(self)@ == old(self)@,
    {
        let at = match self.transfers.find(name) {
            Some(at) => at,
            None => {
                return None;
            },
        };
        let state = self.transfers.value_at(at);
        if !state.is_complete() {
            return None;
        }
        let binary = state.assemble();
        let checksum = state.checksum().clone();
        let _ = self.transfers.remove_at(at);
        proof {
            assert(self@ =~= old(self)@.remove(name@));
        }
        Some(Assembled { binary, checksum })
    }

    /// Discards every transfer that began longer than `ttl` ago, by the clock
    /// reading `now`, and reports each of them once.
    pub fn sweep(&mut self, now: u64, ttl: u64) -> (report: Vec<Expired>)
        ensures
            final(self)@ == swept(old(self)@, now, ttl),
            forall|i: int|
                0 <= i < report@.len() ==> {
                    let name = (#[trigger] report@[i]).app_name@;
                    &&& old(self)@.contains_key(name)
                    &&& old(self)@[name].is_expired(now, ttl)
                    &&& report@[i].received == old(self)@[name].received()
                    &&& report@[i].total_chunks == old(self)@[name].total_chunks
                },
            forall|name: Seq<char>|
                old(self)@.contains_key(name) && old(self)@[name].is_expired(now, ttl)
                    ==> exists|i: int|
                    0 <= i < report@.len() && (#[trigger] report@[i]).app_name@ == name,
            forall|i: int, j: int|
                0 <= i < j < report@.len() ==> report@[i].app_name@ != report@[j].app_name@,
    {
        let mut report: Vec<Expired> = Vec::new();
        let mut at: usize = 0;
        let ghost before = self@;
        let _ = self.transfers.len();
        while at < self.transfers.len()
            invariant
                self.transfers.consistent(),
                at <= self.transfers.names().len(),
                forall|k: int|
                    0 <= k < at ==> !(#[trigger] self.transfers.values()[k])@.is_expired(now, ttl),
                forall|name: Seq<char>| #[trigger]
                    self@.contains_key(name) ==> before.contains_key(name) && self@[name]
                        == before[name],
                forall|name: Seq<char>|
                    #![trigger self@.contains_key(name)]
                    before.contains_key(name) && !self@.contains_key(name) ==> before[name].is_expired(
                        now,
                        ttl,
                    ) && exists|i: int|
                        0 <= i < report@.len() && (#[trigger] report@[i]).app_name@ == name,
                forall|i: int|
                    0 <= i < report@.len() ==> {
                        let name = (#[trigger] report@[i]).app_name@;
                        &&& before.contains_key(name)
                        &&& !self@.contains_key(name)
                        &&& before[name].is_expired(now, ttl)
                        &&& report@[i].received == before[name].received()
                        &&& report@[i].total_chunks == before[name].total_chunks
                    },
                forall|i: int, j: int|
                    0 <= i < j < report@.len() ==> report@[i].app_name@ != report@[j].app_name@,
            decreases self.transfers.names().len() - at,
        {
            let ghost current = self@;
            let ghost reported = report@;
            if self.transfers.value_at(at).is_expired(now, ttl) {
                let ghost values = self.transfers.values();
                let (name, state) = self.transfers.remove_at(at);
                let expired = Expired {
                    app_name: name,
                    received: state.received(),
                    total_chunks: state.total_chunks(),
                };
                report.push(expired);
                proof {
                    assert(self@ =~= current.remove(name@));
                    assert(current.contains_key(name@) && current[name@] == state@);
                    assert forall|k: int| 0 <= k < at implies !(
                    #[trigger] self.transfers.values()[k])@.is_expired(now, ttl) by {
                        assert(self.transfers.values()[k] == values[k]);
                    }
                    assert forall|missing: Seq<char>|
                        #![trigger self@.contains_key(missing)]
                        before.contains_key(missing) && !self@.contains_key(
                            missing,
                        ) implies before[missing].is_expired(now, ttl) && exists|i: int|
                        0 <= i < report@.len() && (#[trigger] report@[i]).app_name@
                            == missing by {
                        if missing == name@ {
                            assert(report@[reported.len() as int].app_name@ == missing);
                        } else {
                            assert(!current.contains_key(missing));
                            let i = choose|i: int|
                                0 <= i < reported.len() && (#[trigger] reported[i]).app_name@
                                    == missing;
                            assert(report@[i] == reported[i]);
                        }
                    }
                    assert forall|i: int| 0 <= i < report@.len() implies {
                        let n = (#[trigger] report@[i]).app_name@;
                        &&& before.contains_key(n)
                        &&& !self@.contains_key(n)
                        &&& before[n].is_expired(now, ttl)
                        &&& report@[i].received == before[n].received()
                        &&& report@[i].total_chunks == before[n].total_chunks
                    } by {
                        if i < reported.len() {
                            assert(report@[i] == reported[i]);
                        }
                    }
                    assert forall|i: int, j: int| 0 <= i < j < report@.len() implies report@[i].app_name@
                        != report@[j].app_name@ by {
                        if j < reported.len() {
                            assert(report@[i] == reported[i] && report@[j] == reported[j]);
                        } else {
                            assert(report@[i] == reported[i]);
                            assert(!current.contains_key(reported[i].app_name@));
                        }
                    }
                }
            } else {
                at += 1;
            }
        }
        proof {
            assert forall|name: Seq<char>| self@.contains_key(name) implies !self@[name].is_expired(
                now,
                ttl,
            ) by {
                let k = self.transfers.names().index_of(name);
                lemma_paired_at(self.transfers.names(), self.transfers.values(), k);
                assert(!self.transfers.values()[k]@.is_expired(now, ttl));
            }
            assert(self@ =~= swept(before, now, ttl));
            assert forall|name: Seq<char>|
                before.contains_key(name) && before[name].is_expired(now, ttl) implies exists|
                i: int,
            |
                0 <= i < report@.len() && (#[trigger] report@[i]).app_name@ == name by {
                assert(!self@.contains_key(name));
            }
        }
        report
    }
}

} // verus!
