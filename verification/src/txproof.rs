use vstd::prelude::*;
use vstd::string::StringExecFns;
use vstd::string::StringSliceAdditionalSpecFns;
use vstd::utf8::encode_utf8;
use crate::address::{spec_key_of, spec_parse_mwcmqs, MWCMQSAddress};
use crate::crypto::{spec_ecdh, spec_sha256, spec_sig_ok, SecretKey};
use crate::message::{spec_env_key, spec_parse_env, EncryptedMessage};
use crate::slate::{spec_slate, Slate};
use crate::strutil::{is_hex_seq, spec_hex_decode, str_eq};
use crate::crypto::spec_open;

verus! {

// ---------------------------------------------------------------------------
// The verification pipeline's failure kinds
// ---------------------------------------------------------------------------

/// One distinct failure kind per pipeline stage, in stage order.
#[derive(Clone, Copy, Debug, PartialEq, Eq)]
pub enum TxProofErrorKind {
    ParseAddress,
    ParsePublicKey,
    ParseSignature,
    VerifySignature,
    ParseEncryptedMessage,
    VerifyDestination,
    DecryptionKey,
    DecryptMessage,
    ParseSlate,
}

// ---------------------------------------------------------------------------
// The stages, as predicates over the wire inputs
// ---------------------------------------------------------------------------

/// Stage: the signature text is a 64-byte hex signature.
pub open spec fn st_sig_parses(sig: Seq<char>) -> bool {
    is_hex_seq(sig) && spec_hex_decode(sig).len() == 64
}

/// Stage: the signature verifies over the exact envelope text under the
/// sender's key.
pub open spec fn st_sig_valid(msg: Seq<char>, sig: Seq<char>, from: Seq<char>) -> bool {
    spec_sig_ok(
        spec_sha256(encode_utf8(msg)),
        spec_hex_decode(sig),
        spec_key_of(spec_parse_mwcmqs(from).unwrap().key),
    )
}

/// The symmetric key the pipeline derives for an envelope from a sender.
pub open spec fn st_env_key(sk: Seq<u8>, from: Seq<char>, msg: Seq<char>) -> Seq<u8> {
    spec_env_key(
        spec_ecdh(sk, spec_key_of(spec_parse_mwcmqs(from).unwrap().key)),
        spec_parse_env(msg).unwrap(),
    )
}

/// Stage: the envelope's nonce and ciphertext are well formed and the
/// ciphertext opens under the derived key.
pub open spec fn st_opens(sk: Seq<u8>, from: Seq<char>, msg: Seq<char>) -> bool {
    let e = spec_parse_env(msg).unwrap();
    &&& is_hex_seq(e.nonce)
    &&& spec_hex_decode(e.nonce).len() == 12
    &&& is_hex_seq(e.encrypted_message)
    &&& spec_open(
        st_env_key(sk, from, msg),
        spec_hex_decode(e.nonce),
        spec_hex_decode(e.encrypted_message),
    ) is Some
}

/// The plaintext the pipeline recovers.
pub open spec fn st_plain(sk: Seq<u8>, from: Seq<char>, msg: Seq<char>) -> Seq<u8> {
    let e = spec_parse_env(msg).unwrap();
    spec_open(
        st_env_key(sk, from, msg),
        spec_hex_decode(e.nonce),
        spec_hex_decode(e.encrypted_message),
    ).unwrap()
}

// ---------------------------------------------------------------------------
// The proof record
// ---------------------------------------------------------------------------

/// The evidence kept for one verified slate exchange: who sent it, which
/// local identity it was addressed to, the exact signed envelope text, and
/// what came out of it. The wallet engine later fills the amount, the output
/// commitments and the kernel excess it confirms.
#[derive(Clone, Debug)]
pub struct TxProof {
    pub address: MWCMQSAddress,
    pub receiver: MWCMQSAddress,
    pub raw_envelope: String,
    pub signature: String,
    pub key: Vec<u8>,
    pub plaintext: Vec<u8>,
    pub amount: u64,
    pub fee: u64,
    pub outputs: Vec<String>,
    pub kernel_excess: Option<String>,
}

/// All nine stages pass.
pub open spec fn st_all_ok(
    sk: Seq<u8>,
    from: Seq<char>,
    msg: Seq<char>,
    sig: Seq<char>,
    local: Seq<char>,
) -> bool {
    &&& spec_parse_mwcmqs(from) is Some
    &&& st_sig_parses(sig)
    &&& st_sig_valid(msg, sig, from)
    &&& spec_parse_env(msg) is Some
    &&& is_hex_seq(spec_parse_env(msg).unwrap().salt)
    &&& st_opens(sk, from, msg)
    &&& spec_parse_env(msg).unwrap().destination == local
    &&& spec_slate(st_plain(sk, from, msg)) is Some
}

/// The failure kind the pipeline stops with: each kind holds exactly when
/// every earlier stage passed and its own stage failed.
pub open spec fn st_error(
    k: TxProofErrorKind,
    sk: Seq<u8>,
    from: Seq<char>,
    msg: Seq<char>,
    sig: Seq<char>,
    local: Seq<char>,
) -> bool {
    match k {
        TxProofErrorKind::ParseAddress => spec_parse_mwcmqs(from) is None,
        TxProofErrorKind::ParseSignature => {
            &&& spec_parse_mwcmqs(from) is Some
            &&& !st_sig_parses(sig)
        },
        TxProofErrorKind::VerifySignature => {
            &&& spec_parse_mwcmqs(from) is Some
            &&& st_sig_parses(sig)
            &&& !st_sig_valid(msg, sig, from)
        },
        TxProofErrorKind::ParseEncryptedMessage => {
            &&& spec_parse_mwcmqs(from) is Some
            &&& st_sig_parses(sig)
            &&& st_sig_valid(msg, sig, from)
            &&& spec_parse_env(msg) is None
        },
        TxProofErrorKind::DecryptionKey => {
            &&& spec_parse_mwcmqs(from) is Some
            &&& st_sig_parses(sig)
            &&& st_sig_valid(msg, sig, from)
            &&& spec_parse_env(msg) is Some
            &&& !is_hex_seq(spec_parse_env(msg).unwrap().salt)
        },
        TxProofErrorKind::DecryptMessage => {
            &&& spec_parse_mwcmqs(from) is Some
            &&& st_sig_parses(sig)
            &&& st_sig_valid(msg, sig, from)
            &&& spec_parse_env(msg) is Some
            &&& is_hex_seq(spec_parse_env(msg).unwrap().salt)
            &&& !st_opens(sk, from, msg)
        },
        TxProofErrorKind::VerifyDestination => {
            &&& spec_parse_mwcmqs(from) is Some
            &&& st_sig_parses(sig)
            &&& st_sig_valid(msg, sig, from)
            &&& spec_parse_env(msg) is Some
            &&& is_hex_seq(spec_parse_env(msg).unwrap().salt)
            &&& st_opens(sk, from, msg)
            &&& spec_parse_env(msg).unwrap().destination != local
        },
        TxProofErrorKind::ParseSlate => {
            &&& spec_parse_mwcmqs(from) is Some
            &&& st_sig_parses(sig)
            &&& st_sig_valid(msg, sig, from)
            &&& spec_parse_env(msg) is Some
            &&& is_hex_seq(spec_parse_env(msg).unwrap().salt)
            &&& st_opens(sk, from, msg)
            &&& spec_parse_env(msg).unwrap().destination == local
            &&& spec_slate(st_plain(sk, from, msg)) is None
        },
        _ => false,
    }
}

/// What the pipeline pins down about the pair it returns.
pub open spec fn st_result_ok(
    p: (Slate, TxProof),
    sk: Seq<u8>,
    from: Seq<char>,
    msg: Seq<char>,
    sig: Seq<char>,
    expected: crate::address::AddrView,
) -> bool {
    &&& p.0.wf()
    &&& p.0.raw@ == st_plain(sk, from, msg)
    &&& spec_slate(p.0.raw@) == Some(p.0.fields())
    &&& p.1.address@ == spec_parse_mwcmqs(from).unwrap()
    &&& p.1.address.wf()
    &&& p.1.receiver@ == expected
    &&& p.1.raw_envelope@ == msg
    &&& p.1.signature@ == sig
    &&& p.1.key@ == st_env_key(sk, from, msg)
    &&& p.1.plaintext@ == st_plain(sk, from, msg)
    &&& p.1.amount == p.0.amount
    &&& p.1.fee == 0
    &&& p.1.outputs@.len() == 0
    &&& p.1.kernel_excess is None
}

impl TxProof {
    /// Runs the full nine-stage verification pipeline over one received
    /// message: parse the sender, its key, and the signature; verify the
    /// signature over the exact received text; parse, key and open the
    /// envelope; check it was addressed to the local identity; and parse the
    /// recovered slate. Each stage fails with its own kind, and the first
    /// failure wins.
    pub fn from_response(
        from: &str,
        message: String,
        challenge: String,
        signature: &str,
        secret_key: &SecretKey,
        expected_destination: &MWCMQSAddress,
    ) -> (r: Result<(Slate, TxProof), TxProofErrorKind>)
        requires
            secret_key.wf(),
            expected_destination.wf(),
        ensures
            match r {
                Ok(p) => st_all_ok(secret_key@, from@, message@, signature@,
                    expected_destination@.key) && st_result_ok(
                    p,
                    secret_key@,
                    from@,
                    message@,
                    signature@,
                    expected_destination@,
                ),
                Err(k) => st_error(k, secret_key@, from@, message@, signature@,
                    expected_destination@.key),
            },
    {
        let _ = challenge;
        let sender = match MWCMQSAddress::from_str(from) {
            Ok(a) => a,
            Err(_) => {
                return Err(TxProofErrorKind::ParseAddress);
            },
        };
        let sender_pk = match sender.public_key() {
            Ok(k) => k,
            Err(_) => {
                return Err(TxProofErrorKind::ParsePublicKey);
            },
        };
        let sig_bytes = match crate::strutil::hex_decode(signature) {
            Some(v) => v,
            None => {
                return Err(TxProofErrorKind::ParseSignature);
            },
        };
        if sig_bytes.len() != 64 {
            return Err(TxProofErrorKind::ParseSignature);
        }
        if !crate::crypto::verify_sig_bytes(message.as_str(), &sig_bytes, &sender_pk) {
            return Err(TxProofErrorKind::VerifySignature);
        }
        let env = match EncryptedMessage::from_json(message.as_str()) {
            Ok(e) => e,
            Err(_) => {
                return Err(TxProofErrorKind::ParseEncryptedMessage);
            },
        };
        let key = match env.derive_key(secret_key, &sender_pk) {
            Ok(k) => k,
            Err(_) => {
                return Err(TxProofErrorKind::DecryptionKey);
            },
        };
        let plain = match env.decrypt_with_key(&key) {
            Ok(p) => p,
            Err(_) => {
                return Err(TxProofErrorKind::DecryptMessage);
            },
        };
        let local = expected_destination.stripped();
        if !str_eq(env.destination.as_str(), local.as_str()) {
            return Err(TxProofErrorKind::VerifyDestination);
        }
        let plaintext_copy = plain.clone();
        let slate = match Slate::parse(plain) {
            Ok(s) => s,
            Err(_) => {
                return Err(TxProofErrorKind::ParseSlate);
            },
        };
        let amount = slate.amount;
        let proof = TxProof {
            address: sender,
            receiver: expected_destination.duplicate(),
            raw_envelope: message,
            signature: String::from_str(signature),
            key,
            plaintext: plaintext_copy,
            amount,
            fee: 0,
            outputs: Vec::new(),
            kernel_excess: None,
        };
        Ok((slate, proof))
    }
}

// ---------------------------------------------------------------------------
// Cold re-verification of a stored proof
// ---------------------------------------------------------------------------

impl TxProof {
    /// Re-verifies a persisted proof from its raw bytes, for audit: the
    /// signature must still verify over the exact envelope text under the
    /// claimed sender's key, the envelope must still parse, be addressed to
    /// the recorded receiver, and open under the recorded key to exactly the
    /// recorded plaintext, which must still be a slate. Each stage fails
    /// with its own kind, and the first failure wins.
    pub fn verify(&self) -> (r: Result<(), TxProofErrorKind>)
        requires
            self.address.wf(),
        ensures
            match r {
                Ok(()) => st_stored_ok(self),
                Err(k) => match k {
                    TxProofErrorKind::ParseSignature => !st_sig_parses(self.signature@),
                    TxProofErrorKind::VerifySignature => st_sig_parses(self.signature@)
                        && !st_stored_sig_valid(self),
                    TxProofErrorKind::ParseEncryptedMessage => {
                        &&& st_sig_parses(self.signature@)
                        &&& st_stored_sig_valid(self)
                        &&& spec_parse_env(self.raw_envelope@) is None
                    },
                    TxProofErrorKind::VerifyDestination => {
                        &&& st_sig_parses(self.signature@)
                        &&& st_stored_sig_valid(self)
                        &&& spec_parse_env(self.raw_envelope@) is Some
                        &&& spec_parse_env(self.raw_envelope@).unwrap().destination
                            != self.receiver@.key
                    },
                    TxProofErrorKind::DecryptionKey => {
                        &&& st_sig_parses(self.signature@)
                        &&& st_stored_sig_valid(self)
                        &&& spec_parse_env(self.raw_envelope@) is Some
                        &&& spec_parse_env(self.raw_envelope@).unwrap().destination
                            == self.receiver@.key
                        &&& self.key@.len() != 32
                    },
                    TxProofErrorKind::DecryptMessage => {
                        &&& st_sig_parses(self.signature@)
                        &&& st_stored_sig_valid(self)
                        &&& spec_parse_env(self.raw_envelope@) is Some
                        &&& spec_parse_env(self.raw_envelope@).unwrap().destination
                            == self.receiver@.key
                        &&& self.key@.len() == 32
                        &&& !st_stored_opens(self)
                    },
                    TxProofErrorKind::ParseSlate => {
                        &&& st_sig_parses(self.signature@)
                        &&& st_stored_sig_valid(self)
                        &&& spec_parse_env(self.raw_envelope@) is Some
                        &&& spec_parse_env(self.raw_envelope@).unwrap().destination
                            == self.receiver@.key
                        &&& self.key@.len() == 32
                        &&& st_stored_opens(self)
                        &&& spec_slate(self.plaintext@) is None
                    },
                    _ => false,
                },
            },
    {
        let sender_pk = match self.address.public_key() {
            Ok(k) => k,
            Err(_) => {
                return Err(TxProofErrorKind::ParsePublicKey);
            },
        };
        let sig_bytes = match crate::strutil::hex_decode(self.signature.as_str()) {
            Some(v) => v,
            None => {
                return Err(TxProofErrorKind::ParseSignature);
            },
        };
        if sig_bytes.len() != 64 {
            return Err(TxProofErrorKind::ParseSignature);
        }
        if !crate::crypto::verify_sig_bytes(self.raw_envelope.as_str(), &sig_bytes,
            &sender_pk) {
            return Err(TxProofErrorKind::VerifySignature);
        }
        let env = match EncryptedMessage::from_json(self.raw_envelope.as_str()) {
            Ok(e) => e,
            Err(_) => {
                return Err(TxProofErrorKind::ParseEncryptedMessage);
            },
        };
        let local = self.receiver.stripped();
        if !str_eq(env.destination.as_str(), local.as_str()) {
            return Err(TxProofErrorKind::VerifyDestination);
        }
        if self.key.len() != 32 {
            return Err(TxProofErrorKind::DecryptionKey);
        }
        let plain = match env.decrypt_with_key(&self.key) {
            Ok(p) => p,
            Err(_) => {
                return Err(TxProofErrorKind::DecryptMessage);
            },
        };
        if !crate::strutil::bytes_eq(&plain, &self.plaintext) {
            return Err(TxProofErrorKind::DecryptMessage);
        }
        match crate::slate::Slate::parse(plain) {
            Ok(_) => Ok(()),
            Err(_) => Err(TxProofErrorKind::ParseSlate),
        }
    }
}

/// A stored proof re-verifies whole: signature, envelope, destination,
/// decryption and slate.
pub open spec fn st_stored_ok(p: &TxProof) -> bool {
    &&& st_sig_parses(p.signature@)
    &&& st_stored_sig_valid(p)
    &&& spec_parse_env(p.raw_envelope@) is Some
    &&& spec_parse_env(p.raw_envelope@).unwrap().destination == p.receiver@.key
    &&& p.key@.len() == 32
    &&& st_stored_opens(p)
    &&& spec_slate(p.plaintext@) is Some
}

/// The stored signature verifies over the stored envelope text under the
/// stored sender's key.
pub open spec fn st_stored_sig_valid(p: &TxProof) -> bool {
    spec_sig_ok(
        spec_sha256(encode_utf8(p.raw_envelope@)),
        spec_hex_decode(p.signature@),
        spec_key_of(p.address@.key),
    )
}

/// The stored ciphertext opens under the stored key to exactly the stored
/// plaintext.
pub open spec fn st_stored_opens(p: &TxProof) -> bool {
    let e = spec_parse_env(p.raw_envelope@).unwrap();
    &&& is_hex_seq(e.nonce)
    &&& spec_hex_decode(e.nonce).len() == 12
    &&& is_hex_seq(e.encrypted_message)
    &&& spec_open(p.key@, spec_hex_decode(e.nonce), spec_hex_decode(e.encrypted_message))
        == Some(p.plaintext@)
}

} // verus!
