//! Obtaining the binary of a task.
//!
//! A binary comes either inline, in base64 inside the start command, or from the
//! registry, in chunks. Either way what arrives is sealed: its checksum, where one
//! is announced, is taken over the sealed bytes and checked before anything is
//! opened.

use crate::assembler::{assemblable, Assembled, ChunkAssembler, Transfers};
use crate::crypto::{
    checksum, checksum_accepts, checksum_matches, checksum_text, decrypt, decrypt_outcome,
    WorkloadKey,
};
use crate::messages::{StartError, StartFailure};
use base64::Engine;
use vstd::prelude::*;

verus! {

/// How long the registry is given to deliver a binary, in nanoseconds.
pub const REGISTRY_TIMEOUT: u64 = 60_000_000_000;

/// The pause between two looks at the assembler while waiting, in nanoseconds.
pub const POLL_INTERVAL: u64 = 1_000_000_000;

/// How long after it began an incomplete transfer is kept, in nanoseconds.
pub const CHUNK_TTL: u64 = 300_000_000_000;

/// The pause between two sweeps of the assembler, in nanoseconds.
pub const SWEEP_INTERVAL: u64 = 60_000_000_000;

/// The bytes that `text` stands for in standard base64 with padding, as the
/// `base64` crate decodes it; `None` where the crate refuses the text.
pub uninterp spec fn base64_standard_decoded(text: Seq<char>) -> Option<Seq<u8>>;

#[verifier::external_type_specification]
#[verifier::external_body]
pub struct ExDecodeError(base64::DecodeError);

/// `Engine::decode` of the crate's `STANDARD` engine. Trusted: the answer is the
/// one named [`base64_standard_decoded`], bytes on success and an error otherwise.
#[verifier::external_body]
fn base64_decode(text: &str) -> (decoded: Result<Vec<u8>, base64::DecodeError>)
    ensures
        decoded matches Ok(bytes) ==> base64_standard_decoded(text@) == Some(bytes@),
        decoded is Err ==> base64_standard_decoded(text@) is None,
{
    base64::engine::general_purpose::STANDARD.decode(text)
}

/// The text that the `base64` crate gives for one of its decoding errors.
/// Nothing is claimed of it.
#[verifier::external_body]
fn decode_error_text(error: &base64::DecodeError) -> (text: String) {
    error.to_string()
}

/// Whether a result of this module is the one that `outcome` describes.
pub open spec fn agrees(r: Result<Vec<u8>, StartError>, outcome: Result<Seq<u8>, StartFailure>) -> bool {
    match r {
        Ok(binary) => outcome == Ok::<Seq<u8>, StartFailure>(binary@),
        Err(error) => outcome == Err::<Seq<u8>, StartFailure>(error@),
    }
}

/// What an inline payload yields once decoded: the checksum is checked over the
/// sealed bytes first, and only a payload that passes is opened.
pub open spec fn inline_outcome(sealed: Seq<u8>, expected: Seq<char>, key: Seq<u8>) -> Result<
    Seq<u8>,
    StartFailure,
> {
    if !checksum_accepts(checksum_text(sealed), expected) {
        Err(StartFailure::ChecksumMismatch { expected, computed: checksum_text(sealed) })
    } else {
        match decrypt_outcome(key, sealed) {
            Ok(plain) => Ok(plain),
            Err(error) => Err(StartFailure::Decrypt(error)),
        }
    }
}

/// What a reassembled binary yields: as for an inline payload, but the failures
/// are those of reassembly.
pub open spec fn reassembly_outcome(sealed: Seq<u8>, expected: Seq<char>, key: Seq<u8>) -> Result<
    Seq<u8>,
    StartFailure,
> {
    if !checksum_accepts(checksum_text(sealed), expected) {
        Err(StartFailure::ReassemblyChecksum)
    } else {
        match decrypt_outcome(key, sealed) {
            Ok(plain) => Ok(plain),
            Err(_) => Err(StartFailure::ReassemblyDecrypt),
        }
    }
}

/// What a look at the transfer called `name` yields: nothing while it is unknown
/// or incomplete, else what its reassembled binary yields.
pub open spec fn assembly_outcome(transfers: Transfers, name: Seq<char>, key: Seq<u8>) -> Result<
    Option<Seq<u8>>,
    StartFailure,
> {
    if !assemblable(transfers, name) {
        Ok(None)
    } else {
        match reassembly_outcome(transfers[name].assembled(), transfers[name].checksum, key) {
            Ok(plain) => Ok(Some(plain)),
            Err(failure) => Err(failure),
        }
    }
}

/// The transfers after a look at the one called `name`: a complete transfer is
/// forgotten, whatever its binary yields.
pub open spec fn after_assembly(transfers: Transfers, name: Seq<char>) -> Transfers {
    if assemblable(transfers, name) {
        transfers.remove(name)
    } else {
        transfers
    }
}

/// Whether a result of looking at a transfer is the one that `outcome` describes.
pub open spec fn look_agrees(
    r: Result<Option<Vec<u8>>, StartError>,
    outcome: Result<Option<Seq<u8>>, StartFailure>,
) -> bool {
    match r {
        Ok(Some(binary)) => outcome == Ok::<Option<Seq<u8>>, StartFailure>(Some(binary@)),
        Ok(None) => outcome == Ok::<Option<Seq<u8>>, StartFailure>(None),
        Err(error) => outcome == Err::<Option<Seq<u8>>, StartFailure>(error@),
    }
}

/// The time waited since `started`, by the clock reading `now`.
pub open spec fn waited(started: u64, now: u64) -> nat {
    if now >= started {
        (now - started) as nat
    } else {
        0
    }
}

/// Checks and opens an inline payload that has been decoded.
pub fn open_inline(sealed: &[u8], expected: &str, key: &WorkloadKey) -> (r: Result<
    Vec<u8>,
    StartError,
>)
    ensures
        agrees(r, inline_outcome(sealed@, expected@, key@)),
{
    if !expected.is_empty() {
        let computed = checksum(sealed);
        if !checksum_matches(computed.as_str(), expected) {
            return Err(
                StartError::ChecksumMismatch { expected: String::from_str(expected), computed },
            );
        }
    }
    match decrypt(key, sealed) {
        Ok(plain) => Ok(plain),
        Err(error) => Err(StartError::Decrypt(error)),
    }
}

/// Turns what the base64 decoder answered into a binary: a refusal, given by its
/// text, is passed on, and decoded bytes are checked and opened.
pub fn admit_inline(decoded: Result<Vec<u8>, String>, expected: &str, key: &WorkloadKey) -> (r:
    Result<Vec<u8>, StartError>)
    ensures
        decoded matches Ok(sealed) ==> agrees(r, inline_outcome(sealed@, expected@, key@)),
        decoded matches Err(text) ==> r == Err::<Vec<u8>, StartError>(StartError::Encoding(text)),
{
    match decoded {
        Ok(sealed) => open_inline(sealed.as_slice(), expected, key),
        Err(text) => Err(StartError::Encoding(text)),
    }
}

/// Obtains the binary that a start command carries inline.
pub fn acquire_inline(file: &str, expected: &str, key: &WorkloadKey) -> (r: Result<
    Vec<u8>,
    StartError,
>)
    ensures
        base64_standard_decoded(file@) matches Some(sealed) ==> agrees(
            r,
            inline_outcome(sealed, expected@, key@),
        ),
        base64_standard_decoded(file@) is None ==> r matches Err(StartError::Encoding(_)),
{
    let decoded = match base64_decode(file) {
        Ok(sealed) => Ok(sealed),
        Err(error) => Err(decode_error_text(&error)),
    };
    admit_inline(decoded, expected, key)
}

/// Checks and opens a binary that the assembler handed out.
pub fn open_assembled(assembled: &Assembled, key: &WorkloadKey) -> (r: Result<Vec<u8>, StartError>)
    ensures
        agrees(r, reassembly_outcome(assembled.binary@, assembled.checksum@, key@)),
{
    let expected = assembled.checksum.as_str();
    if !expected.is_empty() {
        let computed = checksum(assembled.binary.as_slice());
        if !checksum_matches(computed.as_str(), expected) {
            return Err(StartError::ReassemblyChecksum);
        }
    }
    match decrypt(key, assembled.binary.as_slice()) {
        Ok(plain) => Ok(plain),
        Err(_) => Err(StartError::ReassemblyDecrypt),
    }
}

/// Looks whether the transfer called `name` is complete, and if so takes it out
/// of the assembler, checks it and opens it. A transfer that fails the check or
/// cannot be opened is gone all the same.
pub fn try_assemble_chunks(assembler: &mut ChunkAssembler, key: &WorkloadKey, name: &str) -> (r:
    Result<Option<Vec<u8>>, StartError>)
    ensures
        final(assembler)@ == after_assembly(old(assembler)@, name@),
        look_agrees(r, assembly_outcome(old(assembler)@, name@, key@)),
{
    match assembler.try_assemble(name) {
        None => Ok(None),
        Some(assembled) => match open_assembled(&assembled, key) {
            Ok(plain) => Ok(Some(plain)),
            Err(error) => Err(error),
        },
    }
}

/// What one look at the assembler tells the one who waits for a binary.
#[derive(Debug, Clone, PartialEq, Eq)]
pub enum Poll {
    /// Not there yet: look again after [`POLL_INTERVAL`].
    Pending,
    /// The binary, opened.
    Ready(Vec<u8>),
    /// No binary will come of this wait.
    Failed(StartError),
}

/// Whether `poll` is what a look at the transfer called `name` tells one who has
/// waited since `started`, at clock reading `now`.
pub open spec fn polled(
    poll: Poll,
    transfers: Transfers,
    name: Seq<char>,
    key: Seq<u8>,
    started: u64,
    now: u64,
) -> bool {
    if waited(started, now) > REGISTRY_TIMEOUT {
        poll matches Poll::Failed(error) && error@ == StartFailure::RegistryTimeout
    } else {
        look_agrees(
            match poll {
                Poll::Pending => Ok(None),
                Poll::Ready(binary) => Ok(Some(binary)),
                Poll::Failed(error) => Err(error),
            },
            assembly_outcome(transfers, name, key),
        )
    }
}

/// The transfers after such a look: one that comes too late does not touch them.
pub open spec fn after_poll(transfers: Transfers, name: Seq<char>, started: u64, now: u64) -> Transfers {
    if waited(started, now) > REGISTRY_TIMEOUT {
        transfers
    } else {
        after_assembly(transfers, name)
    }
}

/// One round of waiting for the binary called `name`, begun at clock reading
/// `started` and now at `now`: once more than [`REGISTRY_TIMEOUT`] has passed the
/// wait has failed and the assembler is not looked at; before that, the look
/// decides.
pub fn poll_binary(
    assembler: &mut ChunkAssembler,
    key: &WorkloadKey,
    name: &str,
    started: u64,
    now: u64,
) -> (poll: Poll)
    ensures
        final(assembler)@ == after_poll(old(assembler)@, name@, started, now),
        polled(poll, old(assembler)@, name@, key@, started, now),
{
    if now >= started && now - started > REGISTRY_TIMEOUT {
        return Poll::Failed(StartError::RegistryTimeout);
    }
    match try_assemble_chunks(assembler, key, name) {
        Ok(Some(binary)) => Poll::Ready(binary),
        Ok(None) => Poll::Pending,
        Err(error) => Poll::Failed(error),
    }
}

} // verus!
