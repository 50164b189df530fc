use vstd::prelude::*;
use vstd::string::StrSliceExecFns;
use vstd::string::StringExecFns;
use vstd::string::StringSliceAdditionalSpecFns;
use vstd::utf8::encode_utf8;
use crate::address::{first_idx, lemma_first_idx_absent, lemma_first_idx_found, MWCMQSAddress};
use crate::base58::b58_val;
use crate::crypto::{
    spec_ecdh, spec_open, spec_pk_of, spec_seal, spec_sha256, spec_sk_valid, PublicKey,
    SecretKey,
};
use crate::error::ErrorKind;
use crate::strutil::{hex_val, is_hex_seq, spec_hex_decode, str_starts_with};

verus! {

// ---------------------------------------------------------------------------
// The envelope and its wire form
// ---------------------------------------------------------------------------

/// The parts of one encrypted envelope, as ghost sequences.
pub struct EnvView {
    pub destination: Seq<char>,
    pub encrypted_message: Seq<char>,
    pub salt: Seq<char>,
    pub nonce: Seq<char>,
}

/// One encrypted, addressed payload: the recipient's stripped address it was
/// written to, the ciphertext, and the key-derivation salt and nonce, all as
/// wire text.
#[derive(Clone, Debug)]
pub struct EncryptedMessage {
    pub destination: String,
    pub encrypted_message: String,
    pub salt: String,
    pub nonce: String,
}

impl View for EncryptedMessage {
    type V = EnvView;

    open spec fn view(&self) -> EnvView {
        EnvView {
            destination: self.destination@,
            encrypted_message: self.encrypted_message@,
            salt: self.salt@,
            nonce: self.nonce@,
        }
    }
}

/// No double-quote character anywhere, so the field can sit in JSON text
/// unescaped.
pub open spec fn quote_free(s: Seq<char>) -> bool {
    forall|i: int| 0 <= i < s.len() ==> s[i] != '"'
}

impl EncryptedMessage {
    /// A well-formed envelope: base58 destination, hex ciphertext, an
    /// 8-byte hex salt and a 12-byte hex nonce.
    pub open spec fn wf(&self) -> bool {
        &&& self@.destination.len() > 0
        &&& crate::base58::all_b58(self@.destination)
        &&& is_hex_seq(self@.encrypted_message)
        &&& is_hex_seq(self@.salt)
        &&& spec_hex_decode(self@.salt).len() == 8
        &&& is_hex_seq(self@.nonce)
        &&& spec_hex_decode(self@.nonce).len() == 12
    }
}

/// The pieces of the envelope's one JSON spelling.
pub open spec fn jp1() -> Seq<char> {
    "{\"destination\":\""@
}

pub open spec fn jp2() -> Seq<char> {
    "\",\"encrypted_message\":\""@
}

pub open spec fn jp3() -> Seq<char> {
    "\",\"salt\":\""@
}

pub open spec fn jp4() -> Seq<char> {
    "\",\"nonce\":\""@
}

pub open spec fn jp5() -> Seq<char> {
    "\"}"@
}

/// The envelope's canonical JSON spelling. The signature over an envelope is
/// made over exactly this text.
pub open spec fn spec_env_json(e: EnvView) -> Seq<char> {
    jp1() + e.destination + jp2() + e.encrypted_message + jp3() + e.salt + jp4() + e.nonce
        + jp5()
}

/// The rest of the text after a fixed prefix, if the prefix is there.
pub open spec fn strip_lit(s: Seq<char>, p: Seq<char>) -> Option<Seq<char>> {
    if s.len() >= p.len() && s.take(p.len() as int) == p {
        Some(s.skip(p.len() as int))
    } else {
        None
    }
}

/// The text up to the first double quote, and the rest from that quote on.
pub open spec fn take_field(s: Seq<char>) -> Option<(Seq<char>, Seq<char>)> {
    let q = first_idx(s, '"');
    if q < 0 {
        None
    } else {
        Some((s.take(q), s.skip(q)))
    }
}

/// What envelope a piece of wire text spells, if any.
pub open spec fn spec_parse_env(s: Seq<char>) -> Option<EnvView> {
    match strip_lit(s, jp1()) {
        None => None,
        Some(r1) => match take_field(r1) {
            None => None,
            Some((dest, r2)) => match strip_lit(r2, jp2()) {
                None => None,
                Some(r3) => match take_field(r3) {
                    None => None,
                    Some((ct, r4)) => match strip_lit(r4, jp3()) {
                        None => None,
                        Some(r5) => match take_field(r5) {
                            None => None,
                            Some((salt, r6)) => match strip_lit(r6, jp4()) {
                                None => None,
                                Some(r7) => match take_field(r7) {
                                    None => None,
                                    Some((nonce, r8)) => match strip_lit(r8, jp5()) {
                                        None => None,
                                        Some(rest) => if rest.len() == 0 {
                                            Some(EnvView {
                                                destination: dest,
                                                encrypted_message: ct,
                                                salt,
                                                nonce,
                                            })
                                        } else {
                                            None
                                        },
                                    },
                                },
                            },
                        },
                    },
                },
            },
        },
    }
}

/// The canonical spelling of an envelope with quote-free fields parses back
/// to exactly that envelope.
#[verifier::spinoff_prover]
#[verifier::rlimit(80)]
pub proof fn lemma_env_json_parses(e: EnvView)
    requires
        quote_free(e.destination),
        quote_free(e.encrypted_message),
        quote_free(e.salt),
        quote_free(e.nonce),
    ensures
        spec_parse_env(spec_env_json(e)) == Some(e),
{
    let s = spec_env_json(e);
    reveal_strlit("{\"destination\":\"");
    reveal_strlit("\",\"encrypted_message\":\"");
    reveal_strlit("\",\"salt\":\"");
    reveal_strlit("\",\"nonce\":\"");
    reveal_strlit("\"}");
    let r1 = e.destination + jp2() + e.encrypted_message + jp3() + e.salt + jp4() + e.nonce
        + jp5();
    assert(s.take(jp1().len() as int) =~= jp1());
    assert(s.skip(jp1().len() as int) =~= r1);
    let t2 = jp2().drop_first() + e.encrypted_message + jp3() + e.salt + jp4() + e.nonce
        + jp5();
    assert(r1 =~= e.destination + seq!['"'] + t2);
    lemma_first_idx_found(e.destination, t2, '"');
    assert(r1.take(e.destination.len() as int) =~= e.destination);
    let r2 = r1.skip(e.destination.len() as int);
    assert(r2 =~= jp2() + e.encrypted_message + jp3() + e.salt + jp4() + e.nonce + jp5());
    assert(r2.take(jp2().len() as int) =~= jp2());
    let r3 = r2.skip(jp2().len() as int);
    assert(r3 =~= e.encrypted_message + jp3() + e.salt + jp4() + e.nonce + jp5());
    let t3 = jp3().drop_first() + e.salt + jp4() + e.nonce + jp5();
    assert(r3 =~= e.encrypted_message + seq!['"'] + t3);
    lemma_first_idx_found(e.encrypted_message, t3, '"');
    assert(r3.take(e.encrypted_message.len() as int) =~= e.encrypted_message);
    let r4 = r3.skip(e.encrypted_message.len() as int);
    assert(r4 =~= jp3() + e.salt + jp4() + e.nonce + jp5());
    assert(r4.take(jp3().len() as int) =~= jp3());
    let r5 = r4.skip(jp3().len() as int);
    assert(r5 =~= e.salt + jp4() + e.nonce + jp5());
    let t4 = jp4().drop_first() + e.nonce + jp5();
    assert(r5 =~= e.salt + seq!['"'] + t4);
    lemma_first_idx_found(e.salt, t4, '"');
    assert(r5.take(e.salt.len() as int) =~= e.salt);
    let r6 = r5.skip(e.salt.len() as int);
    assert(r6 =~= jp4() + e.nonce + jp5());
    assert(r6.take(jp4().len() as int) =~= jp4());
    let r7 = r6.skip(jp4().len() as int);
    assert(r7 =~= e.nonce + jp5());
    let t5 = jp5().drop_first();
    assert(r7 =~= e.nonce + seq!['"'] + t5);
    lemma_first_idx_found(e.nonce, t5, '"');
    assert(r7.take(e.nonce.len() as int) =~= e.nonce);
    let r8 = r7.skip(e.nonce.len() as int);
    assert(r8 =~= jp5());
    assert(r8.take(jp5().len() as int) =~= jp5());
    assert(r8.skip(jp5().len() as int) =~= Seq::<char>::empty());
}

impl EncryptedMessage {
    /// Writes the envelope's one JSON spelling; parsing it gives the
    /// envelope back.
    pub fn to_json(&self) -> (r: String)
        ensures
            r@ == spec_env_json(self@),
            self.wf() ==> spec_parse_env(r@) == Some(self@),
    {
        let mut out = String::from_str("{\"destination\":\"");
        out.append(self.destination.as_str());
        out.append("\",\"encrypted_message\":\"");
        out.append(self.encrypted_message.as_str());
        out.append("\",\"salt\":\"");
        out.append(self.salt.as_str());
        out.append("\",\"nonce\":\"");
        out.append(self.nonce.as_str());
        out.append("\"}");
        proof {
            assert(out@ =~= spec_env_json(self@));
            if self.wf() {
                assert forall|i: int| 0 <= i < self@.destination.len()
                    implies self@.destination[i] != '"' by {
                    assert(b58_val(self@.destination[i]) >= 0);
                }
                assert forall|i: int| 0 <= i < self@.encrypted_message.len()
                    implies self@.encrypted_message[i] != '"' by {
                    assert(hex_val(self@.encrypted_message[i]) >= 0);
                }
                assert forall|i: int| 0 <= i < self@.salt.len()
                    implies self@.salt[i] != '"' by {
                    assert(hex_val(self@.salt[i]) >= 0);
                }
                assert forall|i: int| 0 <= i < self@.nonce.len()
                    implies self@.nonce[i] != '"' by {
                    assert(hex_val(self@.nonce[i]) >= 0);
                }
                lemma_env_json_parses(self@);
            }
        }
        out
    }

    /// Reads an envelope back from wire text; accepts exactly the canonical
    /// spellings.
    pub fn from_json(s: &str) -> (r: Result<EncryptedMessage, ErrorKind>)
        ensures
            match r {
                Ok(e) => spec_parse_env(s@) == Some(e@),
                Err(e) => spec_parse_env(s@) is None
                    && e == ErrorKind::TxProofParseEncryptedMessage,
            },
    {
        let n = s.unicode_len();
        let p1 = "{\"destination\":\"";
        if !str_starts_with(s, p1) {
            return Err(ErrorKind::TxProofParseEncryptedMessage);
        }
        let r1 = s.substring_char(p1.unicode_len(), n);
        let (dest, r2) = match split_field(r1) {
            Some(p) => p,
            None => {
                return Err(ErrorKind::TxProofParseEncryptedMessage);
            },
        };
        let p2 = "\",\"encrypted_message\":\"";
        if !str_starts_with(r2, p2) {
            return Err(ErrorKind::TxProofParseEncryptedMessage);
        }
        let r3 = r2.substring_char(p2.unicode_len(), r2.unicode_len());
        let (ct, r4) = match split_field(r3) {
            Some(p) => p,
            None => {
                return Err(ErrorKind::TxProofParseEncryptedMessage);
            },
        };
        let p3 = "\",\"salt\":\"";
        if !str_starts_with(r4, p3) {
            return Err(ErrorKind::TxProofParseEncryptedMessage);
        }
        let r5 = r4.substring_char(p3.unicode_len(), r4.unicode_len());
        let (salt, r6) = match split_field(r5) {
            Some(p) => p,
            None => {
                return Err(ErrorKind::TxProofParseEncryptedMessage);
            },
        };
        let p4 = "\",\"nonce\":\"";
        if !str_starts_with(r6, p4) {
            return Err(ErrorKind::TxProofParseEncryptedMessage);
        }
        let r7 = r6.substring_char(p4.unicode_len(), r6.unicode_len());
        let (nonce, r8) = match split_field(r7) {
            Some(p) => p,
            None => {
                return Err(ErrorKind::TxProofParseEncryptedMessage);
            },
        };
        let p5 = "\"}";
        if !str_starts_with(r8, p5) {
            return Err(ErrorKind::TxProofParseEncryptedMessage);
        }
        if r8.unicode_len() != p5.unicode_len() {
            proof {
                assert(r8@.skip(jp5().len() as int).len() != 0);
            }
            return Err(ErrorKind::TxProofParseEncryptedMessage);
        }
        proof {
            assert(r8@.skip(jp5().len() as int).len() == 0);
        }
        Ok(EncryptedMessage { destination: dest, encrypted_message: ct, salt, nonce })
    }
}

/// Splits off the text before the first double quote; the rest keeps the
/// quote at its front.
fn split_field<'a>(s: &'a str) -> (r: Option<(String, &'a str)>)
    ensures
        match r {
            Some(p) => take_field(s@) == Some((p.0@, p.1@)),
            None => take_field(s@) is None,
        },
{
    let n = s.unicode_len();
    let mut i: usize = 0;
    let mut found = false;
    while i < n && !found
        invariant
            i <= n,
            n == s@.len(),
            found ==> i < n && s@[i as int] == '"',
            forall|k: int| 0 <= k < i ==> s@[k] != '"',
        decreases n - i + (if found { 0int } else { 1int }),
    {
        if s.get_char(i) == '"' {
            found = true;
        } else {
            i = i + 1;
        }
    }
    if !found {
        proof {
            lemma_first_idx_absent(s@, '"');
        }
        return None;
    }
    proof {
        assert(s@ =~= s@.take(i as int) + seq!['"'] + s@.skip(i as int + 1));
        lemma_first_idx_found(s@.take(i as int), s@.skip(i as int + 1), '"');
        assert(first_idx(s@, '"') == i);
    }
    let field = s.substring_char(0, i);
    let rest = s.substring_char(i, n);
    Some((String::from_str(field), rest))
}

// ---------------------------------------------------------------------------
// Sealing and opening envelopes
// ---------------------------------------------------------------------------

/// The symmetric key of one envelope: a digest of the shared secret, the
/// envelope's salt, and the destination address it is bound to.
pub open spec fn spec_env_key(secret: Seq<u8>, e: EnvView) -> Seq<u8> {
    spec_sha256(secret + spec_hex_decode(e.salt) + encode_utf8(e.destination))
}

/// Whether an envelope's hex fields are well formed enough to decrypt.
pub open spec fn spec_env_fields_ok(e: EnvView) -> bool {
    &&& is_hex_seq(e.salt)
    &&& is_hex_seq(e.nonce)
    &&& spec_hex_decode(e.nonce).len() == 12
    &&& is_hex_seq(e.encrypted_message)
}

/// What decrypting an envelope yields under a local secret key, the sender's
/// public key and the local identity: the payload exactly when the envelope
/// is addressed to that identity and opens cleanly, and nothing otherwise.
pub open spec fn spec_decrypt(
    e: EnvView,
    sk: Seq<u8>,
    sender_pk: Seq<u8>,
    local: Seq<char>,
) -> Option<Seq<u8>> {
    if e.destination == local && spec_env_fields_ok(e) {
        spec_open(
            spec_env_key(spec_ecdh(sk, sender_pk), e),
            spec_hex_decode(e.nonce),
            spec_hex_decode(e.encrypted_message),
        )
    } else {
        None
    }
}

/// An envelope addressed to one identity never decrypts under another: when
/// the local identity differs from the envelope's declared destination,
/// decryption refuses, whatever keys are supplied and however well formed
/// the envelope is.
pub proof fn lemma_destination_binding(
    e: EnvView,
    sk: Seq<u8>,
    sender_pk: Seq<u8>,
    local: Seq<char>,
)
    requires
        local != e.destination,
    ensures
        spec_decrypt(e, sk, sender_pk, local) is None,
{
}

impl EncryptedMessage {
    /// Seals a payload to a destination address: derives the shared secret
    /// with the recipient's public key, a fresh salt and nonce, and a
    /// symmetric key bound to the destination. Whoever holds the secret key
    /// matching the recipient public key gets the payload back.
    pub fn new(
        payload: &Vec<u8>,
        destination: &MWCMQSAddress,
        receiver_pk: &PublicKey,
        secret_key: &SecretKey,
    ) -> (r: EncryptedMessage)
        requires
            destination.wf(),
            receiver_pk.wf(),
            secret_key.wf(),
            payload@.len() < 0x10000000,
        ensures
            r.wf(),
            r@.destination == destination@.key,
            spec_open(
                spec_env_key(spec_ecdh(secret_key@, receiver_pk@), r@),
                spec_hex_decode(r@.nonce),
                spec_hex_decode(r@.encrypted_message),
            ) == Some(payload@),
            forall|rsk: Seq<u8>|
                rsk.len() == 32 && spec_sk_valid(rsk) && receiver_pk@ == spec_pk_of(rsk)
                    ==> spec_decrypt(r@, rsk, spec_pk_of(secret_key@), destination@.key)
                        == Some(payload@),
    {
        let secret = crate::crypto::shared_secret(secret_key, receiver_pk);
        let salt = crate::crypto::random_bytes(8);
        let nonce = crate::crypto::random_bytes(12);
        let dest = destination.stripped();
        let dest_bytes = dest.as_str().as_bytes_vec();
        let mut key_in: Vec<u8> = Vec::new();
        key_in.extend_from_slice(secret.as_slice());
        key_in.extend_from_slice(salt.as_slice());
        key_in.extend_from_slice(dest_bytes.as_slice());
        proof {
            assert(key_in@ =~= secret@ + salt@ + dest_bytes@);
        }
        let key = crate::crypto::sha256(&key_in);
        let ct = crate::crypto::aead_seal(&key, &nonce, payload);
        let out = EncryptedMessage {
            destination: dest,
            encrypted_message: crate::strutil::hex_encode(&ct),
            salt: crate::strutil::hex_encode(&salt),
            nonce: crate::strutil::hex_encode(&nonce),
        };
        proof {
            broadcast use vstd::string::is_ascii_spec_bytes;
            // a valid key string is nonempty
            if destination@.key.len() == 0 {
                let d = destination@.key;
                assert(crate::address::valid_key_str(d));
                assert(crate::base58::leading_ones(d) == 0);
                assert(d.skip(0) =~= d);
                assert(crate::base58::nat_of_b58(d) == 0);
                assert(crate::base58::spec_b58_decode(d)
                    == Some(crate::base58::zero_bytes(0)
                        + crate::base58::bytes_of_nat(0)));
                assert((crate::base58::zero_bytes(0)
                    + crate::base58::bytes_of_nat(0)).len() == 0);
                assert(false);
            }
            assert(spec_env_key(secret@, out@) == key@);
        }
        out
    }

    /// Derives the decryption key of this envelope from the local secret key
    /// and the sender's public key.
    pub fn derive_key(&self, secret_key: &SecretKey, sender_pk: &PublicKey) -> (r: Result<
        Vec<u8>,
        ErrorKind,
    >)
        requires
            secret_key.wf(),
            sender_pk.wf(),
        ensures
            match r {
                Ok(k) => is_hex_seq(self@.salt)
                    && k@ == spec_env_key(spec_ecdh(secret_key@, sender_pk@), self@)
                    && k@.len() == 32,
                Err(e) => !is_hex_seq(self@.salt) && e == ErrorKind::TxProofDecryptionKey,
            },
    {
        let salt = match crate::strutil::hex_decode(self.salt.as_str()) {
            Some(v) => v,
            None => {
                return Err(ErrorKind::TxProofDecryptionKey);
            },
        };
        let secret = crate::crypto::shared_secret(secret_key, sender_pk);
        let dest_bytes = self.destination.as_str().as_bytes_vec();
        let mut key_in: Vec<u8> = Vec::new();
        key_in.extend_from_slice(secret.as_slice());
        key_in.extend_from_slice(salt.as_slice());
        key_in.extend_from_slice(dest_bytes.as_slice());
        proof {
            assert(key_in@ =~= secret@ + salt@ + dest_bytes@);
        }
        Ok(crate::crypto::sha256(&key_in))
    }

    /// Opens this envelope with an already derived key; fails closed on any
    /// malformed field or integrity failure.
    pub fn decrypt_with_key(&self, key: &Vec<u8>) -> (r: Result<Vec<u8>, ErrorKind>)
        requires
            key@.len() == 32,
        ensures
            match r {
                Ok(v) => {
                    &&& is_hex_seq(self@.nonce)
                    &&& spec_hex_decode(self@.nonce).len() == 12
                    &&& is_hex_seq(self@.encrypted_message)
                    &&& spec_open(
                        key@,
                        spec_hex_decode(self@.nonce),
                        spec_hex_decode(self@.encrypted_message),
                    ) == Some(v@)
                },
                Err(e) => {
                    &&& e == ErrorKind::TxProofDecryptMessage
                    &&& !(is_hex_seq(self@.nonce) && spec_hex_decode(self@.nonce).len() == 12
                        && is_hex_seq(self@.encrypted_message)) || spec_open(
                        key@,
                        spec_hex_decode(self@.nonce),
                        spec_hex_decode(self@.encrypted_message),
                    ) is None
                },
            },
    {
        let nonce = match crate::strutil::hex_decode(self.nonce.as_str()) {
            Some(v) => v,
            None => {
                return Err(ErrorKind::TxProofDecryptMessage);
            },
        };
        if nonce.len() != 12 {
            return Err(ErrorKind::TxProofDecryptMessage);
        }
        let ct = match crate::strutil::hex_decode(self.encrypted_message.as_str()) {
            Some(v) => v,
            None => {
                return Err(ErrorKind::TxProofDecryptMessage);
            },
        };
        match crate::crypto::aead_open(key, &nonce, &ct) {
            Some(v) => Ok(v),
            None => Err(ErrorKind::TxProofDecryptMessage),
        }
    }

    /// Opens this envelope end to end, checking that it was addressed to the
    /// local identity; fails closed, with one error for every way in.
    pub fn decrypt(
        &self,
        secret_key: &SecretKey,
        sender_pk: &PublicKey,
        expected: &MWCMQSAddress,
    ) -> (r: Result<Vec<u8>, ErrorKind>)
        requires
            secret_key.wf(),
            sender_pk.wf(),
        ensures
            match r {
                Ok(v) => spec_decrypt(self@, secret_key@, sender_pk@, expected@.key)
                    == Some(v@),
                Err(e) => spec_decrypt(self@, secret_key@, sender_pk@, expected@.key)
                    is None && e matches ErrorKind::Decryption(_),
            },
    {
        let local = expected.stripped();
        if !crate::strutil::str_eq(self.destination.as_str(), local.as_str()) {
            return Err(ErrorKind::Decryption(String::from_str(
                "envelope addressed to a different identity",
            )));
        }
        let key = match self.derive_key(secret_key, sender_pk) {
            Ok(k) => k,
            Err(_) => {
                return Err(ErrorKind::Decryption(String::from_str("bad salt")));
            },
        };
        match self.decrypt_with_key(&key) {
            Ok(v) => Ok(v),
            Err(_) => Err(ErrorKind::Decryption(String::from_str(
                "integrity check failed",
            ))),
        }
    }
}

} // verus!
