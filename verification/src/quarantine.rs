//! Quarantine: the rules of storing a suspect file and giving it back.
//!
//! A quarantined file is kept as an envelope, a nonce followed by the file's
//! content sealed with AES-256-GCM, beside a record that names it and holds
//! the SHA-256 of the content. Nothing here touches the disk: the caller
//! reads the file, stores what `quarantine` hands out, and writes what
//! `restore` gives back. The source file is never changed.

use vstd::prelude::*;
use vstd::string::StringExecFns;
use vstd::slice::slice_subrange;
use crate::text::{chars_of, decimal, decimal_string};

verus! {

/// Directory that quarantined files are kept in unless configured otherwise.
pub const QUARANTINE_ROOT: &'static str = "/var/lib/av/quarantine";

/// Length of the nonce that opens an envelope.
pub const NONCE_LEN: usize = 12;

/// Length of the authentication tag that closes the sealed content.
pub const TAG_LEN: usize = 16;

/// The SHA-256 digest of `data`.
pub uninterp spec fn sha256(data: Seq<u8>) -> Seq<u8>;

/// What sealing `plaintext` with AES-256-GCM under `key` and `nonce`, with no
/// associated data, gives: the ciphertext followed by its tag, or `None`
/// where the content cannot be sealed.
pub uninterp spec fn aes_256_gcm_seal(key: Seq<u8>, nonce: Seq<u8>, plaintext: Seq<u8>) -> Option<
    Seq<u8>,
>;

/// What opening `sealed` with AES-256-GCM under `key` and `nonce`, with no
/// associated data, gives: the plaintext, or `None` where the tag does not
/// authenticate the content.
pub uninterp spec fn aes_256_gcm_open(key: Seq<u8>, nonce: Seq<u8>, sealed: Seq<u8>) -> Option<
    Seq<u8>,
>;

/// The lower-case hexadecimal digit of value `nibble`.
pub open spec fn hex_char(nibble: int) -> char {
    seq!['0', '1', '2', '3', '4', '5', '6', '7', '8', '9', 'a', 'b', 'c', 'd', 'e', 'f'][nibble]
}

/// `data` in lower-case hexadecimal, two digits per byte, the high one first.
pub open spec fn hex_lower(data: Seq<u8>) -> Seq<char>
    decreases data.len(),
{
    if data.len() == 0 {
        Seq::empty()
    } else {
        hex_lower(data.drop_last()).push(hex_char(data.last() as int / 16)).push(
            hex_char(data.last() as int % 16),
        )
    }
}

/// `sha2::Sha256::digest`: the SHA-256 digest of `data`, 32 bytes.
#[verifier::external_body]
fn sha256_digest(data: &[u8]) -> (digest: Vec<u8>)
    ensures
        digest@ == sha256(data@),
        digest@.len() == 32,
{
    <sha2::Sha256 as sha2::Digest>::digest(data).to_vec()
}

/// `hex::encode`: each byte as two lower-case hexadecimal digits.
#[verifier::external_body]
fn hex_encode(data: &[u8]) -> (text: String)
    ensures
        text@ == hex_lower(data@),
{
    hex::encode(data)
}

/// `ring::rand::SystemRandom::fill` on twelve bytes: a fresh nonce from the
/// system's random source, or `None` where the source fails. Nothing is
/// known of the bytes.
#[verifier::external_body]
fn random_nonce() -> (nonce: Option<[u8; 12]>) {
    let mut nonce = [0u8; 12];
    match ring::rand::SecureRandom::fill(&ring::rand::SystemRandom::new(), &mut nonce) {
        Ok(()) => Some(nonce),
        Err(_) => None,
    }
}

/// `ring::aead::LessSafeKey::seal_in_place_append_tag` with `AES_256_GCM` and
/// no associated data: the ciphertext of `plaintext`, as long as the
/// plaintext, followed by the 16-byte tag. What was sealed opens again:
/// under the same key and nonce, opening the result gives the plaintext
/// back. That is the law of the cipher, by which it is authenticated
/// encryption.
#[verifier::external_body]
fn seal(key: &[u8; 32], nonce: &[u8; 12], plaintext: &[u8]) -> (sealed: Option<Vec<u8>>)
    ensures
        sealed matches Some(bytes) ==> aes_256_gcm_seal(key@, nonce@, plaintext@) == Some(bytes@)
            && bytes@.len() == plaintext@.len() + 16,
        sealed matches Some(bytes) ==> aes_256_gcm_open(key@, nonce@, bytes@) == Some(
            plaintext@,
        ),
        sealed is None ==> aes_256_gcm_seal(key@, nonce@, plaintext@) is None,
{
    let key = ring::aead::LessSafeKey::new(
        ring::aead::UnboundKey::new(&ring::aead::AES_256_GCM, key).ok()?,
    );
    let mut buffer = plaintext.to_vec();
    let nonce = ring::aead::Nonce::assume_unique_for_key(*nonce);
    key.seal_in_place_append_tag(nonce, ring::aead::Aad::empty(), &mut buffer).ok()?;
    Some(buffer)
}

/// `ring::aead::LessSafeKey::open_in_place` with `AES_256_GCM` and no
/// associated data: the plaintext, 16 bytes shorter than what was sealed, or
/// `None` where the content is not authentic.
#[verifier::external_body]
fn open(key: &[u8; 32], nonce: &[u8; 12], sealed: &[u8]) -> (plaintext: Option<Vec<u8>>)
    ensures
        plaintext matches Some(bytes) ==> aes_256_gcm_open(key@, nonce@, sealed@) == Some(bytes@)
            && bytes@.len() + 16 == sealed@.len(),
        plaintext is None ==> aes_256_gcm_open(key@, nonce@, sealed@) is None,
{
    let key = ring::aead::LessSafeKey::new(
        ring::aead::UnboundKey::new(&ring::aead::AES_256_GCM, key).ok()?,
    );
    let mut buffer = sealed.to_vec();
    let nonce = ring::aead::Nonce::assume_unique_for_key(*nonce);
    let opened = key.open_in_place(nonce, ring::aead::Aad::empty(), &mut buffer).ok()?;
    Some(opened.to_vec())
}

/// The SHA-256 of `data` in lower-case hexadecimal: 64 digits.
pub fn to_hex_hash(data: &[u8]) -> (text: String)
    ensures
        text@ == hex_lower(sha256(data@)),
{
    let digest = sha256_digest(data);
    hex_encode(digest.as_slice())
}

/// A point in time: seconds since the Unix epoch and the nanoseconds past
/// that second.
#[derive(Debug, Clone, Copy, PartialEq, Eq, Structural)]
pub struct Timestamp {
    pub secs: i64,
    pub nanos: u32,
}

/// Where quarantined files are kept and the key they are sealed with.
#[derive(Debug, Clone)]
pub struct QuarantineConfig {
    pub root: String,
    pub encryption_key: [u8; 32],
}

impl Default for QuarantineConfig {
    fn default() -> (cfg: Self)
        ensures
            cfg.root@ == QUARANTINE_ROOT@,
            cfg.encryption_key@ == Seq::new(32, |i: int| 0u8),
    {
        let cfg = Self { root: QUARANTINE_ROOT.to_owned(), encryption_key: [0u8; 32] };
        assert(cfg.encryption_key@ =~= Seq::new(32, |i: int| 0u8));
        cfg
    }
}

/// The record that is kept beside a quarantined file.
#[derive(Debug, Clone, PartialEq, Eq)]
pub struct QuarantineRecord {
    /// Name of the stored envelope: the time of quarantine in seconds, a
    /// hyphen, and the content hash.
    pub id: String,
    /// Where the file was found.
    pub original_path: String,
    /// SHA-256 of the content, in lower-case hexadecimal.
    pub sha256: String,
    /// Number of bytes of content.
    pub size: u64,
    /// When the file was quarantined.
    pub timestamp: Timestamp,
}

/// Why a file could not be quarantined or restored.
#[derive(Debug, Clone, Copy, PartialEq, Eq, Structural)]
pub enum QuarantineError {
    /// The system's random source gave no nonce.
    NoRandomness,
    /// The content could not be sealed.
    SealFailed,
    /// The stored envelope is too short to hold a nonce and content.
    CiphertextTooShort,
    /// The stored envelope does not open under the key: it was changed, or
    /// sealed with another key.
    OpenFailed,
    /// The content that came out of the envelope does not have the hash that
    /// the record holds.
    IntegrityMismatch,
}

/// The cipher refuses to seal `data` under `key` for some nonce of twelve
/// bytes.
pub open spec fn seal_can_fail(key: Seq<u8>, data: Seq<u8>) -> bool {
    exists|nonce: Seq<u8>|
        nonce.len() == NONCE_LEN && (#[trigger] aes_256_gcm_seal(key, nonce, data)) is None
}

/// The envelope that holds `sealed` content under `nonce`.
pub open spec fn envelope(nonce: Seq<u8>, sealed: Seq<u8>) -> Seq<u8> {
    nonce + sealed
}

/// What opening an envelope under `key` gives.
pub open spec fn opened(key: Seq<u8>, stored: Seq<u8>) -> Result<Seq<u8>, QuarantineError> {
    if stored.len() <= NONCE_LEN {
        Err(QuarantineError::CiphertextTooShort)
    } else {
        match aes_256_gcm_open(
            key,
            stored.subrange(0, NONCE_LEN as int),
            stored.subrange(NONCE_LEN as int, stored.len() as int),
        ) {
            Some(content) => Ok(content),
            None => Err(QuarantineError::OpenFailed),
        }
    }
}

/// What restoring from a stored envelope gives for a record with content
/// hash `expected`: the content, if the envelope opens and the content has
/// that hash.
pub open spec fn restored(key: Seq<u8>, expected: Seq<char>, stored: Seq<u8>) -> Result<
    Seq<u8>,
    QuarantineError,
> {
    match opened(key, stored) {
        Ok(content) => if hex_lower(sha256(content)) == expected {
            Ok(content)
        } else {
            Err(QuarantineError::IntegrityMismatch)
        },
        Err(e) => Err(e),
    }
}

/// Restoring gives back what was quarantined: an envelope that holds
/// `content` sealed under `nonce`, and a record with the hash of `content`,
/// restore to `content`, wherever the cipher opens what it sealed.
pub proof fn lemma_restore_gives_back(
    key: Seq<u8>,
    nonce: Seq<u8>,
    content: Seq<u8>,
    sealed: Seq<u8>,
)
    requires
        nonce.len() == NONCE_LEN,
        sealed.len() == content.len() + TAG_LEN,
        aes_256_gcm_seal(key, nonce, content) == Some(sealed),
        aes_256_gcm_open(key, nonce, sealed) == Some(content),
    ensures
        restored(key, hex_lower(sha256(content)), envelope(nonce, sealed)) == Ok::<
            Seq<u8>,
            QuarantineError,
        >(content),
{
    let stored = envelope(nonce, sealed);
    assert(stored.subrange(0, NONCE_LEN as int) =~= nonce);
    assert(stored.subrange(NONCE_LEN as int, stored.len() as int) =~= sealed);
}

/// A record with another hash than that of the stored content is never
/// restored from: the content is held back.
pub proof fn lemma_restore_checks_the_hash(key: Seq<u8>, expected: Seq<char>, stored: Seq<u8>)
    ensures
        restored(key, expected, stored) matches Ok(content) ==> hex_lower(sha256(content))
            == expected,
{
}

/// The identifier of a file quarantined at second `secs` with content hash
/// `hash`.
pub open spec fn record_id(secs: i64, hash: Seq<char>) -> Seq<char> {
    decimal(secs as int) + seq!['-'] + hash
}

/// The ending of the name of a record file.
pub open spec fn record_suffix() -> Seq<char> {
    seq!['.', 'j', 's', 'o', 'n']
}

/// Whether a file of the quarantine directory is a record: its name ends in
/// `.json` behind at least one other character.
pub open spec fn is_record_name(name: Seq<char>) -> bool {
    name.len() > 5 && name.subrange(name.len() - 5, name.len() as int) == record_suffix()
}

/// How many of `names` are names of records.
pub open spec fn record_count(names: Seq<String>) -> nat
    decreases names.len(),
{
    if names.len() == 0 {
        0
    } else {
        record_count(names.drop_last()) + if is_record_name(names.last()@) {
            1nat
        } else {
            0nat
        }
    }
}

/// Whether a file of the quarantine directory is a record.
pub fn is_record(name: &str) -> (b: bool)
    ensures
        b == is_record_name(name@),
{
    let chars = chars_of(name);
    let n = chars.len();
    if n <= 5 {
        return false;
    }
    let matches = chars[n - 5] == '.' && chars[n - 4] == 'j' && chars[n - 3] == 's' && chars[n
        - 2] == 'o' && chars[n - 1] == 'n';
    proof {
        let tail = name@.subrange(n - 5, n as int);
        if matches {
            assert(tail =~= record_suffix());
        } else {
            assert(tail[0] == name@[n - 5] && tail[1] == name@[n - 4] && tail[2] == name@[n - 3]
                && tail[3] == name@[n - 2] && tail[4] == name@[n - 1]);
            assert(record_suffix()[0] == '.' && record_suffix()[4] == 'n');
        }
    }
    matches
}

/// Count the records among the files of the quarantine directory: the
/// number of quarantined items.
pub fn count_records(names: &[String]) -> (count: usize)
    ensures
        count == record_count(names@),
{
    let n = names.len();
    let mut count: usize = 0;
    let mut i: usize = 0;
    assert(names@.take(0) =~= Seq::<String>::empty());
    while i < n
        invariant
            n == names@.len(),
            i <= n,
            count <= i,
            count == record_count(names@.take(i as int)),
        decreases n - i,
    {
        assert(names@.take(i + 1).drop_last() =~= names@.take(i as int));
        if is_record(names[i].as_str()) {
            count += 1;
        }
        i += 1;
    }
    assert(names@.take(n as int) =~= names@);
    count
}

/// Quarantine manager: seals and opens what the quarantine directory holds.
pub struct QuarantineManager {
    cfg: QuarantineConfig,
}

impl QuarantineManager {
    /// The configuration of the manager.
    pub closed spec fn spec_config(&self) -> QuarantineConfig {
        self.cfg
    }

    /// The key that envelopes are sealed with.
    pub open spec fn key(&self) -> Seq<u8> {
        self.spec_config().encryption_key@
    }

    pub fn new(cfg: QuarantineConfig) -> (manager: Self)
        ensures
            manager.spec_config() == cfg,
    {
        Self { cfg }
    }

    /// The configuration of the manager.
    pub fn config(&self) -> (cfg: &QuarantineConfig)
        ensures
            *cfg == self.spec_config(),
    {
        &self.cfg
    }

    /// Seal `data` under `nonce` into an envelope.
    pub fn encrypt_with_nonce(&self, nonce: &[u8; 12], data: &[u8]) -> (r: Result<
        Vec<u8>,
        QuarantineError,
    >)
        ensures
            match aes_256_gcm_seal(self.key(), nonce@, data@) {
                Some(sealed) => r matches Ok(stored) && stored@ == envelope(nonce@, sealed)
                    && stored@.len() == NONCE_LEN + data@.len() + TAG_LEN,
                None => r == Err::<Vec<u8>, QuarantineError>(QuarantineError::SealFailed),
            },
            r matches Ok(stored) ==> opened(self.key(), stored@) == Ok::<
                Seq<u8>,
                QuarantineError,
            >(data@),
    {
        match seal(&self.cfg.encryption_key, nonce, data) {
            None => Err(QuarantineError::SealFailed),
            Some(sealed) => {
                let ghost sealed_bytes = sealed@;
                let mut stored: Vec<u8> = Vec::new();
                let mut i: usize = 0;
                while i < 12
                    invariant
                        i <= 12,
                        stored@ == nonce@.take(i as int),
                    decreases 12 - i,
                {
                    stored.push(nonce[i]);
                    assert(nonce@.take(i + 1) =~= nonce@.take(i as int).push(nonce@[i as int]));
                    i += 1;
                }
                assert(nonce@.take(12) =~= nonce@);
                let mut sealed = sealed;
                stored.append(&mut sealed);
                assert(stored@.subrange(0, NONCE_LEN as int) =~= nonce@);
                assert(stored@.subrange(NONCE_LEN as int, stored@.len() as int) =~= sealed_bytes);
                Ok(stored)
            },
        }
    }

    /// Seal `data` under a fresh random nonce into an envelope. The envelope
    /// opens again to `data`. Sealing fails where the random source gives no
    /// nonce, and where the cipher refuses the data under the nonce drawn.
    pub fn encrypt(&self, data: &[u8]) -> (r: Result<Vec<u8>, QuarantineError>)
        ensures
            r matches Ok(stored) ==> stored@.len() == NONCE_LEN + data@.len() + TAG_LEN
                && aes_256_gcm_seal(self.key(), stored@.subrange(0, NONCE_LEN as int), data@)
                == Some(stored@.subrange(NONCE_LEN as int, stored@.len() as int)),
            r matches Ok(stored) ==> opened(self.key(), stored@) == Ok::<
                Seq<u8>,
                QuarantineError,
            >(data@),
            r matches Err(e) ==> e == QuarantineError::NoRandomness || e
                == QuarantineError::SealFailed,
            r == Err::<Vec<u8>, QuarantineError>(QuarantineError::SealFailed) ==> seal_can_fail(
                self.key(),
                data@,
            ),
    {
        match random_nonce() {
            None => Err(QuarantineError::NoRandomness),
            Some(nonce) => {
                let r = self.encrypt_with_nonce(&nonce, data);
                proof {
                    if r is Err {
                        assert(nonce@.len() == NONCE_LEN && aes_256_gcm_seal(
                            self.key(),
                            nonce@,
                            data@,
                        ) is None);
                    }
                    if let Ok(stored) = &r {
                        let sealed = aes_256_gcm_seal(self.key(), nonce@, data@)->0;
                        assert(stored@.subrange(0, NONCE_LEN as int) =~= nonce@);
                        assert(stored@.subrange(NONCE_LEN as int, stored@.len() as int) =~= sealed);
                    }
                }
                r
            },
        }
    }

    /// Open a stored envelope.
    pub fn decrypt(&self, stored: &[u8]) -> (r: Result<Vec<u8>, QuarantineError>)
        ensures
            match opened(self.key(), stored@) {
                Ok(content) => r matches Ok(bytes) && bytes@ == content,
                Err(e) => r == Err::<Vec<u8>, QuarantineError>(e),
            },
            r matches Ok(bytes) ==> bytes@.len() + NONCE_LEN + TAG_LEN == stored@.len(),
    {
        let n = stored.len();
        if n <= NONCE_LEN {
            return Err(QuarantineError::CiphertextTooShort);
        }
        let mut nonce = [0u8; 12];
        let mut i: usize = 0;
        while i < 12
            invariant
                i <= 12,
                n > 12,
                n == stored@.len(),
                forall|j: int| 0 <= j < i ==> nonce@[j] == stored@[j],
            decreases 12 - i,
        {
            nonce[i] = stored[i];
            i += 1;
        }
        assert(nonce@ =~= stored@.subrange(0, NONCE_LEN as int));
        let sealed = slice_subrange(stored, NONCE_LEN, n);
        match open(&self.cfg.encryption_key, &nonce, sealed) {
            Some(content) => Ok(content),
            None => Err(QuarantineError::OpenFailed),
        }
    }

    /// Quarantine the content of the file at `path`: seal it into an envelope
    /// and draw up its record. `now` is the time of quarantine. The caller
    /// stores the envelope under the record's `id` and the record beside it.
    pub fn quarantine(&self, path: &str, data: &[u8], now: Timestamp) -> (r: Result<
        (QuarantineRecord, Vec<u8>),
        QuarantineError,
    >)
        ensures
            r matches Ok((record, stored)) ==> {
                &&& record.sha256@ == hex_lower(sha256(data@))
                &&& record.size == data@.len()
                &&& record.id@ == record_id(now.secs, record.sha256@)
                &&& record.original_path@ == path@
                &&& record.timestamp == now
                &&& stored@.len() == NONCE_LEN + data@.len() + TAG_LEN
                &&& aes_256_gcm_seal(self.key(), stored@.subrange(0, NONCE_LEN as int), data@)
                    == Some(stored@.subrange(NONCE_LEN as int, stored@.len() as int))
                &&& restored(self.key(), record.sha256@, stored@) == Ok::<
                    Seq<u8>,
                    QuarantineError,
                >(data@)
            },
            r matches Err(e) ==> e == QuarantineError::NoRandomness || e
                == QuarantineError::SealFailed,
            r matches Err(QuarantineError::SealFailed) ==> seal_can_fail(self.key(), data@),
    {
        let sha256 = to_hex_hash(data);
        let size = data.len() as u64;
        proof {
            reveal_strlit("-");
        }
        let mut id = decimal_string(now.secs);
        id.append("-");
        id.append(sha256.as_str());
        assert(id@ =~= record_id(now.secs, sha256@));
        let stored = match self.encrypt(data) {
            Ok(stored) => stored,
            Err(e) => {
                return Err(e);
            },
        };
        let record = QuarantineRecord {
            id,
            original_path: path.to_owned(),
            sha256,
            size,
            timestamp: now,
        };
        Ok((record, stored))
    }

    /// Give back the content of a quarantined file from its stored envelope.
    /// The content is handed out only if the envelope opens and the content
    /// has the hash that the record holds.
    pub fn restore(&self, record: &QuarantineRecord, stored: &[u8]) -> (r: Result<
        Vec<u8>,
        QuarantineError,
    >)
        ensures
            match restored(self.key(), record.sha256@, stored@) {
                Ok(content) => r matches Ok(bytes) && bytes@ == content,
                Err(e) => r == Err::<Vec<u8>, QuarantineError>(e),
            },
    {
        let content = match self.decrypt(stored) {
            Ok(content) => content,
            Err(e) => {
                return Err(e);
            },
        };
        let hash = to_hex_hash(content.as_slice());
        if hash == record.sha256 {
            Ok(content)
        } else {
            Err(QuarantineError::IntegrityMismatch)
        }
    }
}

impl QuarantineRecord {
    /// Name of the file that holds this record: the identifier with `.json`
    /// behind it.
    pub fn metadata_name(&self) -> (name: String)
        ensures
            name@ == self.id@ + ".json"@,
    {
        let mut name = self.id.clone();
        name.append(".json");
        name
    }
}

} // verus!
