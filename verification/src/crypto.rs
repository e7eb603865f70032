//! Integrity and confidentiality of workload binaries.
//!
//! A workload travels as `nonce (12 bytes) || AES-256-GCM ciphertext || tag (16 bytes)`,
//! accompanied by the lower-case hex SHA-256 digest of that sealed byte stream.
//! The primitives themselves (SHA-256, AES-GCM, hex) come from the RustCrypto and
//! `hex` crates; this module fixes how they are combined and what each step answers.

use aes_gcm::aead::Aead;
use aes_gcm::KeyInit;
use sha2::Digest;
use vstd::prelude::*;
use vstd::string::*;

verus! {

/// Length of the symmetric workload key in bytes.
pub const KEY_LEN: usize = 32;

/// Length of the nonce that prefixes every sealed payload.
pub const NONCE_LEN: usize = 12;

/// Length of the authentication tag appended to the encrypted data.
pub const TAG_LEN: usize = 16;

/// Shortest sealed payload that can be opened: a nonce and a tag around no data.
pub const MIN_SEALED_LEN: usize = 28;

/// Length in bytes of a SHA-256 digest.
pub const DIGEST_LEN: usize = 32;

/// The SHA-256 digest of `data`, as computed by the `sha2` crate.
pub uninterp spec fn sha256(data: Seq<u8>) -> Seq<u8>;

/// The plaintext that AES-256-GCM (96-bit nonce, 128-bit tag, no associated data)
/// recovers from `sealed` under `key` and `nonce`, or `None` when authentication fails.
pub uninterp spec fn aes256_gcm_open(key: Seq<u8>, nonce: Seq<u8>, sealed: Seq<u8>) -> Option<
    Seq<u8>,
>;

/// The sixteen lower-case hexadecimal digits, indexed by value.
pub open spec fn hex_digits() -> Seq<char> {
    "0123456789abcdef"@
}

/// Lower-case hexadecimal text of `bytes`: two digits per byte, high nibble first.
pub open spec fn hex_lower(bytes: Seq<u8>) -> Seq<char> {
    Seq::new(
        2 * bytes.len(),
        |i: int|
            if i % 2 == 0 {
                hex_digits()[bytes[i / 2] as int / 16]
            } else {
                hex_digits()[bytes[i / 2] as int % 16]
            },
    )
}

/// Value of one hexadecimal digit, either case; `None` for any other character.
pub open spec fn hex_value(c: char) -> Option<int> {
    let n = c as int;
    if 0x30 <= n <= 0x39 {
        Some(n - 0x30)
    } else if 0x41 <= n <= 0x46 {
        Some(n - 0x41 + 10)
    } else if 0x61 <= n <= 0x66 {
        Some(n - 0x61 + 10)
    } else {
        None
    }
}

/// Whether `text` is an even number of hexadecimal digits.
pub open spec fn is_hex_text(text: Seq<char>) -> bool {
    &&& text.len() % 2 == 0
    &&& forall|i: int| 0 <= i < text.len() ==> (#[trigger] hex_value(text[i])) is Some
}

/// The bytes that hexadecimal `text` spells, two digits per byte, high nibble first.
pub open spec fn hex_bytes(text: Seq<char>) -> Seq<u8> {
    Seq::new(
        text.len() / 2,
        |i: int| (hex_value(text[2 * i])->0 * 16 + hex_value(text[2 * i + 1])->0) as u8,
    )
}

/// The checksum text of `bytes`: lower-case hex of the SHA-256 digest.
pub open spec fn checksum_text(bytes: Seq<u8>) -> Seq<char> {
    hex_lower(sha256(bytes))
}

/// Whether `computed` satisfies an `expected` checksum. An empty expectation
/// means the sender supplied none, and is satisfied by anything.
pub open spec fn checksum_accepts(computed: Seq<char>, expected: Seq<char>) -> bool {
    expected.len() == 0 || computed == expected
}

/// What opening `ciphertext` under `key` yields.
pub open spec fn decrypt_outcome(key: Seq<u8>, ciphertext: Seq<u8>) -> Result<
    Seq<u8>,
    DecryptError,
> {
    if ciphertext.len() < MIN_SEALED_LEN {
        Err(DecryptError::TooShort)
    } else {
        opened_outcome(
            aes256_gcm_open(
                key,
                ciphertext.subrange(0, NONCE_LEN as int),
                ciphertext.subrange(NONCE_LEN as int, ciphertext.len() as int),
            ),
        )
    }
}

/// How the answer of the cipher is reported: a plaintext, or a rejection.
pub open spec fn opened_outcome(opened: Option<Seq<u8>>) -> Result<Seq<u8>, DecryptError> {
    match opened {
        Some(plain) => Ok(plain),
        None => Err(DecryptError::Rejected),
    }
}

/// Why a sealed payload could not be opened. No plaintext accompanies either.
#[derive(Debug, Clone, Copy, PartialEq, Eq)]
pub enum DecryptError {
    /// Fewer bytes than a nonce and a tag take up.
    TooShort,
    /// The cipher did not authenticate the payload: it was altered, or sealed under another key.
    Rejected,
}

impl DecryptError {
    /// The text of this error.
    pub open spec fn text(self) -> Seq<char> {
        match self {
            DecryptError::TooShort => "Ciphertext too short"@,
            DecryptError::Rejected => "Decryption failed: aead::Error"@,
        }
    }

    /// The text under which this error is reported.
    pub fn message(&self) -> (s: String)
        ensures
            s@ == self.text(),
    {
        match self {
            DecryptError::TooShort => String::from_str("Ciphertext too short"),
            DecryptError::Rejected => String::from_str("Decryption failed: aead::Error"),
        }
    }
}

/// Why a configured key was refused.
#[derive(Debug, Clone, Copy, PartialEq, Eq)]
pub enum KeyError {
    /// The text is not an even number of hexadecimal digits.
    InvalidHex,
    /// The text decodes, but not to 32 bytes.
    WrongLength,
}

impl KeyError {
    /// The text of this error.
    pub open spec fn text(self) -> Seq<char> {
        match self {
            KeyError::InvalidHex => "Failed to decode PROPLET_WORKLOAD_KEY from hex"@,
            KeyError::WrongLength => "PROPLET_WORKLOAD_KEY must be 32 bytes (AES-256)"@,
        }
    }

    /// The text under which this error is reported.
    pub fn message(&self) -> (s: String)
        ensures
            s@ == self.text(),
    {
        match self {
            KeyError::InvalidHex => String::from_str(
                "Failed to decode PROPLET_WORKLOAD_KEY from hex",
            ),
            KeyError::WrongLength => String::from_str(
                "PROPLET_WORKLOAD_KEY must be 32 bytes (AES-256)",
            ),
        }
    }
}

#[verifier::external_type_specification]
#[verifier::external_body]
pub struct ExFromHexError(hex::FromHexError);

#[verifier::external_type_specification]
#[verifier::external_body]
pub struct ExAeadError(aes_gcm::Error);

/// `sha2::Sha256`, fed `data` in one piece and finalized. Trusted: the result is
/// the digest named [`sha256`], and a SHA-256 digest is 32 bytes long.
#[verifier::external_body]
fn sha256_digest(data: &[u8]) -> (digest: Vec<u8>)
    ensures
        digest@ == sha256(data@),
        digest@.len() == DIGEST_LEN,
{
    let mut hasher = sha2::Sha256::new();
    hasher.update(data);
    hasher.finalize().to_vec()
}

/// `hex::encode`. Trusted: each byte becomes two characters taken from the table
/// `0123456789abcdef`, the one for the high four bits first.
#[verifier::external_body]
fn hex_encode(bytes: &[u8]) -> (text: String)
    ensures
        text@ == hex_lower(bytes@),
{
    hex::encode(bytes)
}

/// `hex::decode`. Trusted: it succeeds exactly on an even number of characters
/// from `0-9`, `a-f`, `A-F`, and then every two of them give one byte, the first
/// as its high four bits. (It reads the UTF-8 bytes of `text`; a character outside
/// ASCII contributes bytes that are no digits, and digits are one byte each.)
#[verifier::external_body]
fn hex_decode(text: &str) -> (decoded: Result<Vec<u8>, hex::FromHexError>)
    ensures
        decoded is Ok <==> is_hex_text(text@),
        decoded matches Ok(bytes) ==> bytes@ == hex_bytes(text@),
{
    hex::decode(text)
}

/// `Aes256Gcm::decrypt` of the `aes-gcm` crate, with a cipher made from `key`.
/// Trusted: the answer is the one named [`aes256_gcm_open`], a plaintext on
/// success and an error when the tag does not authenticate. The key and the
/// nonce must have their exact lengths, or the crate panics.
#[verifier::external_body]
fn aead_open(key: &[u8], nonce: &[u8], sealed: &[u8]) -> (opened: Result<Vec<u8>, aes_gcm::Error>)
    requires
        key@.len() == KEY_LEN,
        nonce@.len() == NONCE_LEN,
    ensures
        opened matches Ok(plain) ==> aes256_gcm_open(key@, nonce@, sealed@) == Some(plain@),
        opened is Err ==> aes256_gcm_open(key@, nonce@, sealed@) is None,
{
    let cipher = aes_gcm::Aes256Gcm::new(aes_gcm::Key::<aes_gcm::Aes256Gcm>::from_slice(key));
    cipher.decrypt(aes_gcm::Nonce::from_slice(nonce), sealed)
}

/// The symmetric key under which workloads are sealed: exactly 32 bytes,
/// fixed for the lifetime of the agent.
pub struct WorkloadKey {
    bytes: Vec<u8>,
}

impl View for WorkloadKey {
    type V = Seq<u8>;

    closed spec fn view(&self) -> Seq<u8> {
        self.bytes@
    }
}

impl WorkloadKey {
    #[verifier::type_invariant]
    spec fn well_formed(self) -> bool {
        self.bytes@.len() == KEY_LEN
    }

    /// What reading a key from configuration text yields.
    pub open spec fn from_hex_outcome(text: Seq<char>) -> Result<Seq<u8>, KeyError> {
        if !is_hex_text(text) {
            Err(KeyError::InvalidHex)
        } else if text.len() != 2 * KEY_LEN {
            Err(KeyError::WrongLength)
        } else {
            Ok(hex_bytes(text))
        }
    }

    /// Reads the key from its hex-encoded configuration value.
    pub fn from_hex(text: &str) -> (key: Result<WorkloadKey, KeyError>)
        ensures
            key matches Ok(k) ==> Self::from_hex_outcome(text@) == Ok::<Seq<u8>, KeyError>(k@),
            key matches Err(e) ==> Self::from_hex_outcome(text@) == Err::<Seq<u8>, KeyError>(e),
    {
        match hex_decode(text) {
            Err(_) => Err(KeyError::InvalidHex),
            Ok(bytes) => Self::from_bytes(bytes),
        }
    }

    /// Takes `bytes` as the key if there are exactly 32 of them.
    pub fn from_bytes(bytes: Vec<u8>) -> (key: Result<WorkloadKey, KeyError>)
        ensures
            bytes@.len() == KEY_LEN ==> (key matches Ok(k) && k@ == bytes@),
            bytes@.len() != KEY_LEN ==> key == Err::<WorkloadKey, KeyError>(KeyError::WrongLength),
    {
        if bytes.len() != KEY_LEN {
            Err(KeyError::WrongLength)
        } else {
            Ok(WorkloadKey { bytes })
        }
    }

    /// The key bytes.
    pub fn as_bytes(&self) -> (bytes: &[u8])
        ensures
            bytes@ == self@,
            bytes@.len() == KEY_LEN,
    {
        proof {
            use_type_invariant(self);
        }
        self.bytes.as_slice()
    }
}

/// Reports the answer of the cipher: its plaintext, or [`DecryptError::Rejected`].
pub fn opened(answer: Result<Vec<u8>, aes_gcm::Error>) -> (r: Result<Vec<u8>, DecryptError>)
    ensures
        answer matches Ok(plain) ==> r == Ok::<Vec<u8>, DecryptError>(plain),
        answer is Err ==> r == Err::<Vec<u8>, DecryptError>(DecryptError::Rejected),
{
    match answer {
        Ok(plain) => Ok(plain),
        Err(_) => Err(DecryptError::Rejected),
    }
}

/// Opens a sealed payload: a 12-byte nonce followed by the encrypted data and its
/// 16-byte tag. Fails on fewer than 28 bytes and when authentication fails; in
/// neither case is any plaintext returned.
pub fn decrypt(key: &WorkloadKey, ciphertext: &[u8]) -> (r: Result<Vec<u8>, DecryptError>)
    ensures
        r matches Ok(plain) ==> decrypt_outcome(key@, ciphertext@) == Ok::<Seq<u8>, DecryptError>(
            plain@,
        ),
        r matches Err(e) ==> decrypt_outcome(key@, ciphertext@) == Err::<Seq<u8>, DecryptError>(e),
{
    if ciphertext.len() < MIN_SEALED_LEN {
        return Err(DecryptError::TooShort);
    }
    let nonce = &ciphertext[0..NONCE_LEN];
    let sealed = &ciphertext[NONCE_LEN..ciphertext.len()];
    opened(aead_open(key.as_bytes(), nonce, sealed))
}

/// The checksum of `bytes`: its SHA-256 digest in lower-case hex, 64 characters.
pub fn checksum(bytes: &[u8]) -> (text: String)
    ensures
        text@ == checksum_text(bytes@),
        text@.len() == 2 * DIGEST_LEN,
{
    let digest = sha256_digest(bytes);
    hex_encode(digest.as_slice())
}

/// Compares a computed checksum with the expected one, character for character.
/// An empty expectation is no expectation and passes.
pub fn checksum_matches(computed: &str, expected: &str) -> (ok: bool)
    ensures
        ok == checksum_accepts(computed@, expected@),
{
    if expected.is_empty() {
        true
    } else {
        str_eq(computed, expected)
    }
}

/// Whether `bytes` carry the `expected` checksum; an empty `expected` skips the check.
pub fn verify_checksum(bytes: &[u8], expected: &str) -> (ok: bool)
    ensures
        ok == checksum_accepts(checksum_text(bytes@), expected@),
{
    if expected.is_empty() {
        true
    } else {
        let computed = checksum(bytes);
        checksum_matches(computed.as_str(), expected)
    }
}

/// Whether two strings hold the same characters.
pub fn str_eq(a: &str, b: &str) -> (same: bool)
    ensures
        same == (a@ == b@),
{
    let n = a.unicode_len();
    if n != b.unicode_len() {
        return false;
    }
    let mut i: usize = 0;
    while i < n
        invariant
            n == a@.len(),
            n == b@.len(),
            i <= n,
            forall|j: int| 0 <= j < i ==> a@[j] == b@[j],
        decreases n - i,
    {
        if a.get_char(i) != b.get_char(i) {
            return false;
        }
        i += 1;
    }
    assert(a@ =~= b@);
    true
}

} // verus!
