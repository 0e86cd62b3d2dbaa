//! Identity keys and the cryptographic primitives the protocol is built on:
//! P-384 key pairs and Diffie-Hellman, HMAC-SHA-384 as the key derivation
//! function, and AES-256-GCM as the transport cipher.
//!
//! The primitives themselves come from outside crates. Each call is made in
//! one small function whose contract is taken on trust; what a primitive
//! computes is named by an uninterpreted function, and everything the
//! library derives from those results is verified against the names.

use aes_gcm::aead::{Aead, KeyInit, Payload};
use aes_gcm::{Aes256Gcm, Nonce};
use hmac::{Hmac, Mac};
use p384::elliptic_curve::sec1::ToEncodedPoint;
use rand_core::{OsRng, RngCore};
use sha2::Sha384;
use vstd::prelude::*;
use vstd::slice::slice_to_vec;

use crate::error::Error;

verus! {

/// Length in bytes of a P-384 secret scalar.
pub const SECRET_KEY_SIZE: usize = 48;

/// Length in bytes of a compressed P-384 public key.
pub const PUBLIC_KEY_SIZE: usize = 49;

/// Length in bytes of a raw Diffie-Hellman result.
pub const SHARED_SECRET_SIZE: usize = 48;

/// Length in bytes of an HMAC-SHA-384 output, and so of every chaining key.
pub const HASH_SIZE: usize = 48;

/// Length in bytes of an AES-256-GCM key.
pub const CIPHER_KEY_SIZE: usize = 32;

/// Length in bytes of an AES-GCM nonce.
pub const NONCE_SIZE: usize = 12;

/// Length in bytes of an AES-GCM authentication tag.
pub const TAG_SIZE: usize = 16;

/// Longest plaintext, and longest associated data, that AES-GCM accepts.
pub const CIPHER_MAX_INPUT: u64 = 0x10_0000_0000;

/// The compressed public key that belongs to a secret scalar, or `None`
/// where the bytes are no valid scalar.
pub uninterp spec fn spec_p384_public_key(secret: Seq<u8>) -> Option<Seq<u8>>;

/// The raw Diffie-Hellman result of a secret scalar and a peer's encoded
/// public key, or `None` where either does not decode.
pub uninterp spec fn spec_p384_ecdh(secret: Seq<u8>, peer_public: Seq<u8>) -> Option<Seq<u8>>;

/// The HMAC-SHA-384 tag of `data` under `key`.
pub uninterp spec fn spec_hmac_sha384(key: Seq<u8>, data: Seq<u8>) -> Seq<u8>;

/// The AES-256-GCM ciphertext with its tag appended, or `None` where the
/// cipher refuses the input.
pub uninterp spec fn spec_aes_gcm_seal(
    key: Seq<u8>,
    nonce: Seq<u8>,
    aad: Seq<u8>,
    plaintext: Seq<u8>,
) -> Option<Seq<u8>>;

/// The plaintext of an AES-256-GCM ciphertext, or `None` where the tag does
/// not verify.
pub uninterp spec fn spec_aes_gcm_open(
    key: Seq<u8>,
    nonce: Seq<u8>,
    aad: Seq<u8>,
    sealed: Seq<u8>,
) -> Option<Seq<u8>>;

/// The view of an optional byte string.
pub open spec fn bytes_view(bytes: Option<Vec<u8>>) -> Option<Seq<u8>> {
    match bytes {
        Some(b) => Some(b@),
        None => None,
    }
}

/// Calls `OsRng::try_fill_bytes` of rand_core. Trusted: on success the
/// buffer has the length asked for. Nothing is claimed of its contents, and
/// a failing entropy source yields `None`.
#[verifier::external_body]
pub(crate) fn os_random(len: usize) -> (bytes: Option<Vec<u8>>)
    requires
        len <= 1024,
    ensures
        bytes matches Some(b) ==> b@.len() == len,
{
    let mut buffer = vec![0u8; len];
    OsRng.try_fill_bytes(&mut buffer).ok()?;
    Some(buffer)
}

/// Calls `SecretKey::from_slice` and `SecretKey::public_key` of p384 and
/// encodes the point in compressed SEC1 form. Trusted: the result is the
/// named function of the secret bytes, and a public key is 49 bytes long.
#[verifier::external_body]
pub(crate) fn p384_public_key(secret: &[u8]) -> (public: Option<Vec<u8>>)
    ensures
        bytes_view(public) == spec_p384_public_key(secret@),
        public matches Some(p) ==> p@.len() == PUBLIC_KEY_SIZE,
{
    let key = p384::SecretKey::from_slice(secret).ok()?;
    Some(key.public_key().to_encoded_point(true).as_bytes().to_vec())
}

/// Calls `ecdh::diffie_hellman` of p384 on a decoded secret scalar and a
/// decoded SEC1 public key. Trusted: the result is the named function of
/// the two byte strings, and a shared secret is 48 bytes long.
#[verifier::external_body]
pub(crate) fn p384_ecdh(secret: &[u8], peer_public: &[u8]) -> (shared: Option<Vec<u8>>)
    ensures
        bytes_view(shared) == spec_p384_ecdh(secret@, peer_public@),
        shared matches Some(s) ==> s@.len() == SHARED_SECRET_SIZE,
{
    let key = p384::SecretKey::from_slice(secret).ok()?;
    let peer = p384::PublicKey::from_sec1_bytes(peer_public).ok()?;
    let shared = p384::ecdh::diffie_hellman(key.to_nonzero_scalar(), peer.as_affine());
    Some(shared.raw_secret_bytes().to_vec())
}

/// Calls `Mac::new_from_slice`, `Mac::update` and `Mac::finalize` of hmac
/// on `Hmac<Sha384>`, whose constructor accepts a key of any length.
/// Trusted: the result is the named function of key and data, 48 bytes long.
#[verifier::external_body]
pub(crate) fn hmac_sha384(key: &[u8], data: &[u8]) -> (tag: Vec<u8>)
    ensures
        tag@ == spec_hmac_sha384(key@, data@),
        tag@.len() == HASH_SIZE,
{
    let mut mac = <Hmac<Sha384> as Mac>::new_from_slice(key).expect("any key length");
    mac.update(data);
    mac.finalize().into_bytes().to_vec()
}

/// Calls `Aead::encrypt` of aes-gcm with AES-256. Trusted: the result is the
/// named function of its inputs, it is 16 bytes longer than the plaintext,
/// and the cipher refuses only inputs beyond its length limit.
#[verifier::external_body]
pub(crate) fn aes_gcm_seal(key: &[u8], nonce: &[u8], aad: &[u8], plaintext: &[u8]) -> (sealed:
    Option<Vec<u8>>)
    requires
        key@.len() == CIPHER_KEY_SIZE,
        nonce@.len() == NONCE_SIZE,
    ensures
        bytes_view(sealed) == spec_aes_gcm_seal(key@, nonce@, aad@, plaintext@),
        sealed matches Some(c) ==> c@.len() == plaintext@.len() + TAG_SIZE,
        plaintext@.len() <= CIPHER_MAX_INPUT && aad@.len() <= CIPHER_MAX_INPUT ==> sealed is Some,
{
    let cipher = Aes256Gcm::new_from_slice(key).ok()?;
    cipher.encrypt(Nonce::from_slice(nonce), Payload { msg: plaintext, aad }).ok()
}

/// Calls `Aead::decrypt` of aes-gcm with AES-256. Trusted: the result is the
/// named function of its inputs, and a plaintext is 16 bytes shorter than
/// what was sealed.
#[verifier::external_body]
pub(crate) fn aes_gcm_open(key: &[u8], nonce: &[u8], aad: &[u8], sealed: &[u8]) -> (opened:
    Option<Vec<u8>>)
    requires
        key@.len() == CIPHER_KEY_SIZE,
        nonce@.len() == NONCE_SIZE,
    ensures
        bytes_view(opened) == spec_aes_gcm_open(key@, nonce@, aad@, sealed@),
        opened matches Some(p) ==> p@.len() + TAG_SIZE == sealed@.len(),
{
    let cipher = Aes256Gcm::new_from_slice(key).ok()?;
    cipher.decrypt(Nonce::from_slice(nonce), Payload { msg: sealed, aad }).ok()
}

/// Whether two byte strings are equal. Strings of the same length are
/// compared to the end, so that the time taken does not tell where two
/// authentication tags first differ.
pub fn bytes_equal(a: &[u8], b: &[u8]) -> (same: bool)
    ensures
        same == (a@ == b@),
{
    if a.len() != b.len() {
        return false;
    }
    let mut same: bool = true;
    let mut i: usize = 0;
    while i < a.len()
        invariant
            a@.len() == b@.len(),
            i <= a@.len(),
            same == (forall|j: int| 0 <= j < i ==> a@[j] == b@[j]),
        decreases a@.len() - i,
    {
        if a[i] != b[i] {
            same = false;
        }
        i += 1;
    }
    proof {
        if same {
            assert(a@ =~= b@);
        }
    }
    same
}

/// A long-term or ephemeral P-384 key pair, held as its encoded bytes.
pub struct KeyPair {
    pub secret: Vec<u8>,
    pub public: Vec<u8>,
}

impl KeyPair {
    /// A key pair is well formed when both halves have their fixed lengths.
    pub open spec fn wf(&self) -> bool {
        &&& self.secret@.len() == SECRET_KEY_SIZE
        &&& self.public@.len() == PUBLIC_KEY_SIZE
    }

    /// Whether the public half is the one that belongs to the secret.
    pub open spec fn matched(&self) -> bool {
        spec_p384_public_key(self.secret@) == Some(self.public@)
    }

    /// What [`KeyPair::from_secret`] returns for a secret whose public key
    /// was computed to be `public`.
    pub open spec fn spec_from_parts(secret: Seq<u8>, public: Option<Seq<u8>>) -> Result<
        (Seq<u8>, Seq<u8>),
        Error,
    > {
        match public {
            Some(p) if secret.len() == SECRET_KEY_SIZE => Ok((secret, p)),
            _ => Err(Error::InvalidKeyEncoding),
        }
    }

    /// Builds the key pair of a secret scalar. Fails with
    /// `InvalidKeyEncoding` unless the secret is 48 bytes that encode a
    /// scalar the curve accepts.
    pub fn from_secret(secret: &[u8]) -> (pair: Result<KeyPair, Error>)
        ensures
            match pair {
                Ok(p) => p.wf() && p.matched() && Self::spec_from_parts(
                    secret@,
                    spec_p384_public_key(secret@),
                ) == Ok::<_, Error>((p.secret@, p.public@)),
                Err(e) => Self::spec_from_parts(secret@, spec_p384_public_key(secret@)) == Err::<
                    (Seq<u8>, Seq<u8>),
                    _,
                >(e),
            },
    {
        if secret.len() != SECRET_KEY_SIZE {
            return Err(Error::InvalidKeyEncoding);
        }
        match p384_public_key(secret) {
            Some(public) => Ok(KeyPair { secret: slice_to_vec(secret), public }),
            None => Err(Error::InvalidKeyEncoding),
        }
    }

    /// Draws a fresh key pair from the operating system's entropy source.
    /// Fails with `ResourceExhausted` where the source gives nothing, and
    /// with `InvalidKeyEncoding` where the bytes drawn are no valid scalar.
    pub fn generate() -> (pair: Result<KeyPair, Error>)
        ensures
            pair matches Ok(p) ==> p.wf() && p.matched(),
            pair matches Err(e) ==> e == Error::ResourceExhausted || e
                == Error::InvalidKeyEncoding,
    {
        match os_random(SECRET_KEY_SIZE) {
            Some(secret) => Self::from_secret(secret.as_slice()),
            None => Err(Error::ResourceExhausted),
        }
    }

    /// The encoded public half.
    pub fn public_key_bytes(&self) -> (public: &Vec<u8>)
        ensures
            public@ == self.public@,
    {
        &self.public
    }

    /// A copy of this key pair.
    pub fn duplicate(&self) -> (copy: KeyPair)
        ensures
            copy.secret@ == self.secret@,
            copy.public@ == self.public@,
    {
        KeyPair { secret: copy_bytes(self.secret.as_slice()), public: copy_bytes(self.public.as_slice()) }
    }

    /// The raw shared secret of this key pair and a peer's public key.
    /// Fails with `InvalidKeyEncoding` unless the peer's key is 49 bytes
    /// that decode to a point of the curve.
    pub fn agree(&self, peer_public: &[u8]) -> (shared: Result<Vec<u8>, Error>)
        ensures
            match shared {
                Ok(s) => spec_agree(self.secret@, peer_public@) == Ok::<_, Error>(s@) && s@.len()
                    == SHARED_SECRET_SIZE,
                Err(e) => spec_agree(self.secret@, peer_public@) == Err::<Seq<u8>, _>(e),
            },
    {
        if peer_public.len() != PUBLIC_KEY_SIZE {
            return Err(Error::InvalidKeyEncoding);
        }
        match p384_ecdh(self.secret.as_slice(), peer_public) {
            Some(shared) => Ok(shared),
            None => Err(Error::InvalidKeyEncoding),
        }
    }
}

/// What [`KeyPair::agree`] returns, over the named Diffie-Hellman result.
pub open spec fn spec_agree(secret: Seq<u8>, peer_public: Seq<u8>) -> Result<Seq<u8>, Error> {
    if peer_public.len() != PUBLIC_KEY_SIZE {
        Err(Error::InvalidKeyEncoding)
    } else {
        match spec_p384_ecdh(secret, peer_public) {
            Some(s) => Ok(s),
            None => Err(Error::InvalidKeyEncoding),
        }
    }
}

/// A copy of a byte string.
pub fn copy_bytes(bytes: &[u8]) -> (copy: Vec<u8>)
    ensures
        copy@ == bytes@,
{
    slice_to_vec(bytes)
}

/// Overwrites every byte of `bytes` with zero.
pub fn wipe(bytes: &mut Vec<u8>)
    ensures
        final(bytes)@.len() == old(bytes)@.len(),
        forall|i: int| 0 <= i < final(bytes)@.len() ==> final(bytes)@[i] == 0,
{
    let mut i: usize = 0;
    while i < bytes.len()
        invariant
            bytes@.len() == old(bytes)@.len(),
            i <= bytes@.len(),
            forall|j: int| 0 <= j < i ==> bytes@[j] == 0,
        decreases bytes@.len() - i,
    {
        bytes.set(i, 0);
        i += 1;
    }
}

/// Whether every byte is zero.
pub open spec fn spec_wiped(bytes: Seq<u8>) -> bool {
    forall|i: int| 0 <= i < bytes.len() ==> bytes[i] == 0
}

/// One step of the key derivation chain: the HMAC of `input` under the
/// chaining key.
pub open spec fn spec_mix(chain: Seq<u8>, input: Seq<u8>) -> Seq<u8> {
    spec_hmac_sha384(chain, input)
}

/// Mixes `input` into the chaining key `chain`.
pub fn mix(chain: &[u8], input: &[u8]) -> (next: Vec<u8>)
    ensures
        next@ == spec_mix(chain@, input@),
        next@.len() == HASH_SIZE,
{
    hmac_sha384(chain, input)
}

/// The sub-key that a chaining key yields for a one-byte purpose label.
pub open spec fn spec_expand(chain: Seq<u8>, label: u8) -> Seq<u8> {
    spec_hmac_sha384(chain, seq![label])
}

/// Derives the sub-key of `chain` for the purpose `label`.
pub fn expand(chain: &[u8], label: u8) -> (key: Vec<u8>)
    ensures
        key@ == spec_expand(chain@, label),
        key@.len() == HASH_SIZE,
{
    let mut input: Vec<u8> = Vec::new();
    input.push(label);
    assert(input@ =~= seq![label]);
    hmac_sha384(chain, input.as_slice())
}

/// What [`seal`] returns, over the named cipher result.
pub open spec fn spec_seal(key: Seq<u8>, nonce: Seq<u8>, aad: Seq<u8>, plaintext: Seq<u8>) -> Result<
    Seq<u8>,
    Error,
> {
    match spec_aes_gcm_seal(key, nonce, aad, plaintext) {
        Some(c) => Ok(c),
        None => Err(Error::ResourceExhausted),
    }
}

/// Encrypts and authenticates `plaintext`, binding `aad`. The result is the
/// ciphertext followed by its tag. Fails with `ResourceExhausted` only where
/// an input is beyond the cipher's length limit.
pub fn seal(key: &[u8], nonce: &[u8], aad: &[u8], plaintext: &[u8]) -> (sealed: Result<
    Vec<u8>,
    Error,
>)
    requires
        key@.len() == CIPHER_KEY_SIZE,
        nonce@.len() == NONCE_SIZE,
    ensures
        match sealed {
            Ok(c) => spec_seal(key@, nonce@, aad@, plaintext@) == Ok::<_, Error>(c@) && c@.len()
                == plaintext@.len() + TAG_SIZE,
            Err(e) => spec_seal(key@, nonce@, aad@, plaintext@) == Err::<Seq<u8>, _>(e),
        },
        plaintext@.len() <= CIPHER_MAX_INPUT && aad@.len() <= CIPHER_MAX_INPUT ==> sealed is Ok,
{
    match aes_gcm_seal(key, nonce, aad, plaintext) {
        Some(c) => Ok(c),
        None => Err(Error::ResourceExhausted),
    }
}

/// What [`open`] returns, over the named cipher result.
pub open spec fn spec_open(key: Seq<u8>, nonce: Seq<u8>, aad: Seq<u8>, sealed: Seq<u8>) -> Result<
    Seq<u8>,
    Error,
> {
    match spec_aes_gcm_open(key, nonce, aad, sealed) {
        Some(p) => Ok(p),
        None => Err(Error::AuthenticationFailed),
    }
}

/// Verifies and decrypts what [`seal`] produced. Fails with
/// `AuthenticationFailed` where the tag does not verify.
pub fn open(key: &[u8], nonce: &[u8], aad: &[u8], sealed: &[u8]) -> (opened: Result<Vec<u8>, Error>)
    requires
        key@.len() == CIPHER_KEY_SIZE,
        nonce@.len() == NONCE_SIZE,
    ensures
        match opened {
            Ok(p) => spec_open(key@, nonce@, aad@, sealed@) == Ok::<_, Error>(p@) && p@.len()
                + TAG_SIZE == sealed@.len(),
            Err(e) => spec_open(key@, nonce@, aad@, sealed@) == Err::<Seq<u8>, _>(e),
        },
{
    match aes_gcm_open(key, nonce, aad, sealed) {
        Some(p) => Ok(p),
        None => Err(Error::AuthenticationFailed),
    }
}

} // verus!
