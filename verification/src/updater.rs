//! Signed rule-bundle updates: what is checked before a fetched bundle is
//! handed to the rule loader.
//!
//! Fetching a bundle and parsing it are the caller's work. A fetched bundle
//! is accepted when its signature verifies under the source's pinned key and
//! its checksum is the one it was announced with.

use vstd::prelude::*;
use crate::signatures::RuleBundle;

verus! {

/// Directory that verified bundles are cached in unless configured otherwise.
pub const SIGNATURE_CACHE_DIR: &'static str = "/var/lib/av/signatures";

/// Where a bundle is fetched from and the key it must be signed with.
#[derive(Clone, Debug)]
pub struct UpdateSource {
    pub name: String,
    pub url: url::Url,
    /// The Ed25519 public key of the source, in base64.
    pub public_key: String,
    pub pin_sha256: String,
}

/// The sources of updates and the place to cache them.
#[derive(Clone, Debug)]
pub struct UpdateConfig {
    pub sources: Vec<UpdateSource>,
    pub cache_dir: String,
}

impl Default for UpdateConfig {
    fn default() -> (cfg: Self)
        ensures
            cfg.sources@.len() == 0,
            cfg.cache_dir@ == SIGNATURE_CACHE_DIR@,
    {
        Self { sources: Vec::new(), cache_dir: SIGNATURE_CACHE_DIR.to_owned() }
    }
}

/// A bundle as it is fetched: with the checksum it is announced under and
/// the signature over its serialised form.
#[derive(Debug)]
pub struct SignedBundle {
    pub bundle_checksum: String,
    pub bundle: RuleBundle,
    pub signature: [u8; 64],
}

/// Why a fetched bundle was turned away.
#[derive(Debug, Clone, Copy, PartialEq, Eq, Structural)]
pub enum UpdateError {
    /// There is no source of that index in the configuration.
    UnknownSource,
    /// The source's public key is not base64.
    KeyEncoding,
    /// The source's public key is no Ed25519 key.
    InvalidKey,
    /// The signature does not verify under the source's key.
    BadSignature,
    /// The bundle does not carry the checksum it was announced with.
    ChecksumMismatch,
    /// Two rules of the bundle are keyed by the same identifier.
    DuplicateRule,
}

/// `ed25519_dalek::VerifyingKey`: an Ed25519 public key that has been
/// checked to be one.
#[verifier::external_type_specification]
#[verifier::external_body]
pub struct ExVerifyingKey(ed25519_dalek::VerifyingKey);

/// The bytes that `text` stands for in standard base64 with padding, or
/// `None` where it is not such an encoding.
pub uninterp spec fn base64_decoded(text: Seq<char>) -> Option<Seq<u8>>;

/// Whether `bytes` are an Ed25519 public key: 32 bytes that are the
/// encoding of a point of the curve.
pub uninterp spec fn ed25519_key_valid(bytes: Seq<u8>) -> bool;

/// The 32 bytes that a public key holds: those it was made from.
pub uninterp spec fn verifying_key_bytes(key: ed25519_dalek::VerifyingKey) -> Seq<u8>;

/// Whether strict Ed25519 verification accepts `signature` over `message`
/// under the public key with the bytes `key`.
pub uninterp spec fn ed25519_verifies(key: Seq<u8>, message: Seq<u8>, signature: Seq<u8>) -> bool;

/// `base64::decode`: the bytes that `text` encodes in standard base64.
#[verifier::external_body]
fn base64_decode(text: &str) -> (bytes: Option<Vec<u8>>)
    ensures
        match base64_decoded(text@) {
            Some(decoded) => bytes matches Some(v) && v@ == decoded,
            None => bytes is None,
        },
{
    #[allow(deprecated)]
    base64::decode(text).ok()
}

/// `ed25519_dalek::VerifyingKey::try_from` on a byte slice: the public key
/// with these bytes, where they are one.
#[verifier::external_body]
fn parse_verifying_key(bytes: &[u8]) -> (key: Option<ed25519_dalek::VerifyingKey>)
    ensures
        key is Some <==> ed25519_key_valid(bytes@),
        key matches Some(k) ==> verifying_key_bytes(k) == bytes@,
{
    ed25519_dalek::VerifyingKey::try_from(bytes).ok()
}

/// `ed25519_dalek::VerifyingKey::verify_strict`: whether the signature over
/// the message verifies under the key.
#[verifier::external_body]
fn verify_strict(key: &ed25519_dalek::VerifyingKey, message: &[u8], signature: &[u8; 64]) -> (ok:
    bool)
    ensures
        ok == ed25519_verifies(verifying_key_bytes(*key), message@, signature@),
{
    key.verify_strict(message, &ed25519_dalek::Signature::from_bytes(signature)).is_ok()
}

/// What checking a fetched bundle comes to: the first check that fails
/// names the error. The key must decode, then be a public key, then the
/// signature must verify under it, then the checksums must agree, then the
/// rules must be keyed. `public_key` is the source's key in base64,
/// `message` the serialised bundle that was signed, `checksum` the bundle's
/// own checksum, `announced` the one it was fetched under, and `keyed` says
/// whether no rule identifier occurs twice.
pub open spec fn bundle_check(
    public_key: Seq<char>,
    message: Seq<u8>,
    signature: Seq<u8>,
    checksum: Seq<char>,
    announced: Seq<char>,
    keyed: bool,
) -> Result<(), UpdateError> {
    match base64_decoded(public_key) {
        None => Err(UpdateError::KeyEncoding),
        Some(key) => if !ed25519_key_valid(key) {
            Err(UpdateError::InvalidKey)
        } else if !ed25519_verifies(key, message, signature) {
            Err(UpdateError::BadSignature)
        } else if checksum != announced {
            Err(UpdateError::ChecksumMismatch)
        } else if !keyed {
            Err(UpdateError::DuplicateRule)
        } else {
            Ok(())
        },
    }
}

/// Check a fetched bundle against the source it came from. `message` is the
/// serialised bundle, the bytes that the signature was made over. A bundle
/// that is accepted is keyed: no rule identifier occurs in it twice.
pub fn verify_bundle(source: &UpdateSource, signed: SignedBundle, message: &[u8]) -> (r: Result<
    RuleBundle,
    UpdateError,
>)
    ensures
        match bundle_check(
            source.public_key@,
            message@,
            signed.signature@,
            signed.bundle.checksum@,
            signed.bundle_checksum@,
            signed.bundle.is_keyed(),
        ) {
            Ok(()) => r == Ok::<RuleBundle, UpdateError>(signed.bundle),
            Err(e) => r == Err::<RuleBundle, UpdateError>(e),
        },
        r matches Ok(bundle) ==> bundle.is_keyed(),
{
    let key = match base64_decode(source.public_key.as_str()) {
        Some(key) => key,
        None => {
            return Err(UpdateError::KeyEncoding);
        },
    };
    let key = match parse_verifying_key(key.as_slice()) {
        Some(key) => key,
        None => {
            return Err(UpdateError::InvalidKey);
        },
    };
    if !verify_strict(&key, message, &signed.signature) {
        return Err(UpdateError::BadSignature);
    }
    match signed.bundle.verify(signed.bundle_checksum.as_str()) {
        Ok(()) => {},
        Err(_) => {
            return Err(UpdateError::ChecksumMismatch);
        },
    }
    if !signed.bundle.has_unique_ids() {
        return Err(UpdateError::DuplicateRule);
    }
    Ok(signed.bundle)
}

/// Takes fetched bundles in, one source after the other.
pub struct Updater {
    cfg: UpdateConfig,
}

impl Updater {
    /// The configuration of the updater.
    pub closed spec fn spec_config(&self) -> UpdateConfig {
        self.cfg
    }

    pub fn new(cfg: UpdateConfig) -> (updater: Self)
        ensures
            updater.spec_config() == cfg,
    {
        Self { cfg }
    }

    /// The configuration of the updater.
    pub fn config(&self) -> (cfg: &UpdateConfig)
        ensures
            *cfg == self.spec_config(),
    {
        &self.cfg
    }

    /// Take in the bundle fetched from source `index`: check it, and add it
    /// to the bundles accepted so far. A bundle that fails a check is not
    /// added, and the update ends with its error.
    pub fn update(
        &self,
        accepted: &mut Vec<RuleBundle>,
        index: usize,
        signed: SignedBundle,
        message: &[u8],
    ) -> (r: Result<(), UpdateError>)
        ensures
            index >= self.spec_config().sources@.len() ==> r == Err::<(), UpdateError>(
                UpdateError::UnknownSource,
            ),
            index < self.spec_config().sources@.len() ==> r == bundle_check(
                self.spec_config().sources@[index as int].public_key@,
                message@,
                signed.signature@,
                signed.bundle.checksum@,
                signed.bundle_checksum@,
                signed.bundle.is_keyed(),
            ),
            r is Ok ==> signed.bundle.is_keyed(),
            r is Ok ==> final(accepted)@ == old(accepted)@.push(signed.bundle),
            r is Err ==> final(accepted)@ == old(accepted)@,
    {
        if index >= self.cfg.sources.len() {
            return Err(UpdateError::UnknownSource);
        }
        match verify_bundle(&self.cfg.sources[index], signed, message) {
            Ok(bundle) => {
                accepted.push(bundle);
                Ok(())
            },
            Err(e) => Err(e),
        }
    }
}

} // verus!
