use vstd::prelude::*;
use vstd::string::StringSliceAdditionalSpecFns;
use vstd::string::StrSliceExecFns;
use sha2::Digest;
use aes_gcm::KeyInit;
use aes_gcm::aead::Aead;
use crate::error::ErrorKind;

verus! {

// ---------------------------------------------------------------------------
// Named results of the outside cryptographic functions
// ---------------------------------------------------------------------------

/// The SHA-256 digest of a byte string, named; what it is on given bytes is
/// stated nowhere, only that it is one function of them.
pub uninterp spec fn spec_sha256(data: Seq<u8>) -> Seq<u8>;

/// Whether 32 bytes encode a valid secret scalar.
pub uninterp spec fn spec_sk_valid(sk: Seq<u8>) -> bool;

/// Whether a byte string is an accepted public key encoding.
pub uninterp spec fn spec_pk_valid(pk: Seq<u8>) -> bool;

/// The compressed public key derived from a secret key.
pub uninterp spec fn spec_pk_of(sk: Seq<u8>) -> Seq<u8>;

/// The Diffie-Hellman shared secret of a secret key and a public key.
pub uninterp spec fn spec_ecdh(sk: Seq<u8>, pk: Seq<u8>) -> Seq<u8>;

/// The compact signature over a 32-byte digest under a secret key.
pub uninterp spec fn spec_sign(digest: Seq<u8>, sk: Seq<u8>) -> Seq<u8>;

/// Whether a compact signature over a digest verifies under a public key.
pub uninterp spec fn spec_sig_ok(digest: Seq<u8>, sig: Seq<u8>, pk: Seq<u8>) -> bool;

// ---------------------------------------------------------------------------
// Trusted wrappers around the outside crates
// ---------------------------------------------------------------------------

/// Relies on sha2::Sha256::digest: a deterministic 32-byte digest of the
/// input bytes alone.
#[verifier::external_body]
pub fn sha256(data: &Vec<u8>) -> (r: Vec<u8>)
    ensures
        r@ == spec_sha256(data@),
        r@.len() == 32,
{
    sha2::Sha256::digest(data.as_slice()).to_vec()
}

/// Relies on secp256k1::SecretKey::from_byte_array: it accepts exactly the
/// encodings of valid nonzero scalars, deterministically.
#[verifier::external_body]
fn sk_check(bytes: &Vec<u8>) -> (r: bool)
    requires
        bytes@.len() == 32,
    ensures
        r == spec_sk_valid(bytes@),
{
    let mut arr = [0u8; 32];
    arr.copy_from_slice(bytes.as_slice());
    secp256k1::SecretKey::from_byte_array(arr).is_ok()
}

/// Relies on secp256k1::PublicKey::from_slice: it accepts exactly the valid
/// public key encodings, deterministically.
#[verifier::external_body]
fn pk_check(bytes: &Vec<u8>) -> (r: bool)
    ensures
        r == spec_pk_valid(bytes@),
{
    secp256k1::PublicKey::from_slice(bytes.as_slice()).is_ok()
}

/// Relies on secp256k1::PublicKey::from_secret_key and serialize: the
/// 33-byte compressed encoding of the public key of a valid secret key,
/// which from_slice accepts back.
#[verifier::external_body]
fn pk_derive(sk: &Vec<u8>) -> (r: Vec<u8>)
    requires
        sk@.len() == 32,
        spec_sk_valid(sk@),
    ensures
        r@ == spec_pk_of(sk@),
        r@.len() == 33,
        spec_pk_valid(r@),
{
    let mut arr = [0u8; 32];
    arr.copy_from_slice(sk.as_slice());
    let k = secp256k1::SecretKey::from_byte_array(arr).unwrap();
    secp256k1::PublicKey::from_secret_key(&k).serialize().to_vec()
}

/// Relies on secp256k1::ecdh::SharedSecret::new: a deterministic 32-byte
/// secret of the two keys; its documentation shows both key pairs derive the
/// same secret, which the second clause records for honestly derived keys.
#[verifier::external_body]
fn ecdh_raw(sk: &Vec<u8>, pk: &Vec<u8>) -> (r: Vec<u8>)
    requires
        sk@.len() == 32,
        spec_sk_valid(sk@),
        spec_pk_valid(pk@),
    ensures
        r@ == spec_ecdh(sk@, pk@),
        r@.len() == 32,
        forall|sk2: Seq<u8>|
            sk2.len() == 32 && spec_sk_valid(sk2) && pk@ == spec_pk_of(sk2)
                ==> r@ == spec_ecdh(sk2, spec_pk_of(sk@)),
{
    let mut arr = [0u8; 32];
    arr.copy_from_slice(sk.as_slice());
    let k = secp256k1::SecretKey::from_byte_array(arr).unwrap();
    let p = secp256k1::PublicKey::from_slice(pk.as_slice()).unwrap();
    secp256k1::ecdh::SharedSecret::new(&p, &k).secret_bytes().to_vec()
}

/// Relies on secp256k1::ecdsa::sign with its RFC6979 nonce: a deterministic
/// 64-byte compact signature, whose own documentation shows it verifies
/// under the signer's public key.
#[verifier::external_body]
fn sign_digest(digest: &Vec<u8>, sk: &Vec<u8>) -> (r: Vec<u8>)
    requires
        digest@.len() == 32,
        sk@.len() == 32,
        spec_sk_valid(sk@),
    ensures
        r@ == spec_sign(digest@, sk@),
        r@.len() == 64,
        spec_sig_ok(digest@, r@, spec_pk_of(sk@)),
{
    let mut darr = [0u8; 32];
    darr.copy_from_slice(digest.as_slice());
    let mut karr = [0u8; 32];
    karr.copy_from_slice(sk.as_slice());
    let k = secp256k1::SecretKey::from_byte_array(karr).unwrap();
    let msg = secp256k1::Message::from_digest(darr);
    secp256k1::ecdsa::sign(msg, &k).serialize_compact().to_vec()
}

/// Relies on secp256k1::ecdsa::Signature::from_compact and verify: one
/// deterministic yes-or-no answer per digest, signature and key.
#[verifier::external_body]
fn verify_digest(digest: &Vec<u8>, sig: &Vec<u8>, pk: &Vec<u8>) -> (r: bool)
    requires
        digest@.len() == 32,
        sig@.len() == 64,
        spec_pk_valid(pk@),
    ensures
        r == spec_sig_ok(digest@, sig@, pk@),
{
    let mut darr = [0u8; 32];
    darr.copy_from_slice(digest.as_slice());
    let msg = secp256k1::Message::from_digest(darr);
    let p = secp256k1::PublicKey::from_slice(pk.as_slice()).unwrap();
    match secp256k1::ecdsa::Signature::from_compact(sig.as_slice()) {
        Ok(s) => secp256k1::ecdsa::verify(&s, msg, &p).is_ok(),
        Err(_) => false,
    }
}

/// The AES-256-GCM sealing of a plaintext under a key and nonce.
pub uninterp spec fn spec_seal(key: Seq<u8>, nonce: Seq<u8>, plain: Seq<u8>) -> Seq<u8>;

/// What AES-256-GCM opening of a ciphertext gives back, if anything.
pub uninterp spec fn spec_open(key: Seq<u8>, nonce: Seq<u8>, cipher: Seq<u8>) -> Option<
    Seq<u8>,
>;

/// Relies on aes_gcm::Aes256Gcm::encrypt: deterministic in key, nonce and
/// plaintext; decrypt of its result under the same key and nonce returns the
/// plaintext, as the crate documents.
#[verifier::external_body]
pub fn aead_seal(key: &Vec<u8>, nonce: &Vec<u8>, plain: &Vec<u8>) -> (r: Vec<u8>)
    requires
        key@.len() == 32,
        nonce@.len() == 12,
        plain@.len() < 0x10000000,
    ensures
        r@ == spec_seal(key@, nonce@, plain@),
        r@.len() == plain@.len() + 16,
        spec_open(key@, nonce@, r@) == Some(plain@),
{
    let k = aes_gcm::Key::<aes_gcm::Aes256Gcm>::try_from(key.as_slice()).unwrap();
    let cipher = aes_gcm::Aes256Gcm::new(&k);
    let n = aes_gcm::aead::Nonce::<aes_gcm::Aes256Gcm>::try_from(nonce.as_slice()).unwrap();
    cipher.encrypt(&n, plain.as_slice()).unwrap()
}

/// Relies on aes_gcm::Aes256Gcm::decrypt: deterministic, and failing closed
/// on any integrity failure.
#[verifier::external_body]
pub fn aead_open(key: &Vec<u8>, nonce: &Vec<u8>, cipher_text: &Vec<u8>) -> (r: Option<
    Vec<u8>,
>)
    requires
        key@.len() == 32,
        nonce@.len() == 12,
    ensures
        match r {
            Some(v) => spec_open(key@, nonce@, cipher_text@) == Some(v@),
            None => spec_open(key@, nonce@, cipher_text@) is None,
        },
{
    let k = aes_gcm::Key::<aes_gcm::Aes256Gcm>::try_from(key.as_slice()).unwrap();
    let cipher = aes_gcm::Aes256Gcm::new(&k);
    let n = aes_gcm::aead::Nonce::<aes_gcm::Aes256Gcm>::try_from(nonce.as_slice()).unwrap();
    match cipher.decrypt(&n, cipher_text.as_slice()) {
        Ok(v) => Some(v),
        Err(_) => None,
    }
}

/// Relies on rand::fill: a byte string of the asked length; nothing is
/// stated of its values.
#[verifier::external_body]
pub fn random_bytes(n: usize) -> (r: Vec<u8>)
    ensures
        r@.len() == n,
{
    let mut out = vec![0u8; n];
    rand::fill(out.as_mut_slice());
    out
}

// ---------------------------------------------------------------------------
// Key types
// ---------------------------------------------------------------------------

/// A secret signing and key-agreement key, held as its 32 bytes.
#[derive(Clone, Debug)]
pub struct SecretKey {
    bytes: Vec<u8>,
}

impl View for SecretKey {
    type V = Seq<u8>;

    closed spec fn view(&self) -> Seq<u8> {
        self.bytes@
    }
}

impl SecretKey {
    /// A well-formed secret key holds 32 bytes of a valid scalar.
    pub open spec fn wf(&self) -> bool {
        self@.len() == 32 && spec_sk_valid(self@)
    }

    /// Accepts exactly the 32-byte encodings of valid scalars.
    pub fn from_bytes(bytes: Vec<u8>) -> (r: Result<SecretKey, ErrorKind>)
        ensures
            match r {
                Ok(k) => k.wf() && k@ == bytes@,
                Err(e) => {
                    &&& !(bytes@.len() == 32 && spec_sk_valid(bytes@))
                    &&& e matches ErrorKind::Secp(_)
                },
            },
    {
        if bytes.len() != 32 {
            return Err(ErrorKind::Secp(String::from_str("wrong secret key length")));
        }
        if !sk_check(&bytes) {
            return Err(ErrorKind::Secp(String::from_str("invalid secret key")));
        }
        Ok(SecretKey { bytes })
    }

    /// The bytes of the key.
    pub fn bytes(&self) -> (r: &Vec<u8>)
        ensures
            r@ == self@,
    {
        &self.bytes
    }

    /// An equal copy of this key.
    pub fn duplicate(&self) -> (r: SecretKey)
        ensures
            r@ == self@,
    {
        SecretKey { bytes: self.bytes.clone() }
    }

    /// The public key this secret key determines.
    pub fn public_key(&self) -> (r: PublicKey)
        requires
            self.wf(),
        ensures
            r@ == spec_pk_of(self@),
            r.wf(),
    {
        PublicKey { bytes: pk_derive(&self.bytes) }
    }
}

/// A peer's public key, held as its 33-byte compressed encoding.
#[derive(Clone, Debug)]
pub struct PublicKey {
    bytes: Vec<u8>,
}

impl View for PublicKey {
    type V = Seq<u8>;

    closed spec fn view(&self) -> Seq<u8> {
        self.bytes@
    }
}

impl PublicKey {
    /// A well-formed public key is an accepted encoding.
    pub open spec fn wf(&self) -> bool {
        spec_pk_valid(self@)
    }

    /// Accepts exactly the valid public key encodings.
    pub fn from_bytes(bytes: Vec<u8>) -> (r: Result<PublicKey, ErrorKind>)
        ensures
            match r {
                Ok(k) => k.wf() && k@ == bytes@,
                Err(e) => !spec_pk_valid(bytes@) && e matches ErrorKind::Secp(_),
            },
    {
        if !pk_check(&bytes) {
            return Err(ErrorKind::Secp(String::from_str("invalid public key")));
        }
        Ok(PublicKey { bytes })
    }

    /// The bytes of the key.
    pub fn bytes(&self) -> (r: &Vec<u8>)
        ensures
            r@ == self@,
    {
        &self.bytes
    }
}

// ---------------------------------------------------------------------------
// Challenge signatures and key agreement
// ---------------------------------------------------------------------------

/// The signature hex string that signing a challenge produces: the compact
/// signature over the challenge's SHA-256 digest, hex encoded.
pub open spec fn spec_challenge_sig(challenge: Seq<u8>, sk: Seq<u8>) -> Seq<char> {
    crate::strutil::spec_hex_of(spec_sign(spec_sha256(challenge), sk))
}

/// Signs the exact bytes of a challenge string; the result verifies under
/// the signer's public key.
pub fn sign_challenge(challenge: &str, sk: &SecretKey) -> (r: String)
    requires
        sk.wf(),
    ensures
        r@ == spec_challenge_sig(challenge.spec_bytes(), sk@),
        crate::strutil::is_hex_seq(r@),
        crate::strutil::spec_hex_decode(r@)
            == spec_sign(spec_sha256(challenge.spec_bytes()), sk@),
        crate::strutil::spec_hex_decode(r@).len() == 64,
        spec_sig_ok(
            spec_sha256(challenge.spec_bytes()),
            crate::strutil::spec_hex_decode(r@),
            spec_pk_of(sk@),
        ),
{
    let bytes = challenge.as_bytes_vec();
    let digest = sha256(&bytes);
    let sig = sign_digest(&digest, sk.bytes());
    let out = crate::strutil::hex_encode(&sig);
    proof {
        assert(crate::strutil::spec_hex_decode(out@) =~= sig@);
    }
    out
}

/// Verifies a hex signature over the exact bytes of a challenge string.
pub fn verify_signature(challenge: &str, sig_hex: &str, pk: &PublicKey) -> (r: bool)
    requires
        pk.wf(),
    ensures
        r == {
            let sig = crate::strutil::spec_hex_decode(sig_hex@);
            &&& crate::strutil::is_hex_seq(sig_hex@)
            &&& sig.len() == 64
            &&& spec_sig_ok(spec_sha256(challenge.spec_bytes()), sig, pk@)
        },
{
    let sig = match crate::strutil::hex_decode(sig_hex) {
        Some(s) => s,
        None => {
            return false;
        },
    };
    if sig.len() != 64 {
        return false;
    }
    let bytes = challenge.as_bytes_vec();
    let digest = sha256(&bytes);
    verify_digest(&digest, &sig, pk.bytes())
}

/// Verifies an already decoded compact signature over the exact bytes of a
/// challenge string.
pub fn verify_sig_bytes(challenge: &str, sig: &Vec<u8>, pk: &PublicKey) -> (r: bool)
    requires
        sig@.len() == 64,
        pk.wf(),
    ensures
        r == spec_sig_ok(spec_sha256(challenge.spec_bytes()), sig@, pk@),
{
    let bytes = challenge.as_bytes_vec();
    let digest = sha256(&bytes);
    verify_digest(&digest, sig, pk.bytes())
}

/// Derives the symmetric shared secret between a local secret key and a
/// peer's public key.
pub fn shared_secret(sk: &SecretKey, pk: &PublicKey) -> (r: Vec<u8>)
    requires
        sk.wf(),
        pk.wf(),
    ensures
        r@ == spec_ecdh(sk@, pk@),
        r@.len() == 32,
        forall|sk2: Seq<u8>|
            sk2.len() == 32 && spec_sk_valid(sk2) && pk@ == spec_pk_of(sk2)
                ==> r@ == spec_ecdh(sk2, spec_pk_of(sk@)),
{
    ecdh_raw(sk.bytes(), pk.bytes())
}

} // verus!
