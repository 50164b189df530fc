use vstd::prelude::*;
use vstd::string::StringExecFns;
use crate::address::MWCMQSAddress;
use crate::crypto::{spec_pk_of, spec_sha256, spec_sig_ok, SecretKey};
use crate::error::ErrorKind;
use crate::message::{spec_decrypt, spec_parse_env, EncryptedMessage};
use crate::protocol::{spec_payload, spec_response_payloads, PayloadOutcome, PayloadSpec};
use crate::slate::Slate;
use crate::strutil::{nat_of_dec, spec_hex_decode};
use crate::txproof::{st_all_ok, st_error, st_result_ok, TxProof, TxProofErrorKind};

verus! {

// ---------------------------------------------------------------------------
// Listener state
// ---------------------------------------------------------------------------

/// The shared per-listener flag: exactly one receive loop may be active per
/// address, and `stop` only ever requests that it wind down.
#[derive(Clone, Copy, Debug, PartialEq, Eq, Structural)]
pub enum BrokerFlag {
    Stopped,
    Running,
    StopRequested,
}

/// Where the relay service lives.
#[derive(Clone, Debug)]
pub struct RelayConfig {
    pub mwcmqs_domain: String,
    pub mwcmqs_port: u16,
}

impl RelayConfig {
    /// An equal copy of this configuration.
    pub fn duplicate(&self) -> (r: RelayConfig)
        ensures
            r.mwcmqs_domain@ == self.mwcmqs_domain@,
            r.mwcmqs_port == self.mwcmqs_port,
    {
        RelayConfig {
            mwcmqs_domain: self.mwcmqs_domain.clone(),
            mwcmqs_port: self.mwcmqs_port,
        }
    }
}

/// One POST for the caller to carry out against the relay's send endpoint
/// for `to`: the form fields of the request.
pub struct PostJob {
    pub to: String,
    pub mapmessage: String,
    pub from_field: String,
    pub signature: String,
}

/// What the listener decides about one received payload.
pub enum ListenerEvent {
    /// The broker's own wake-up message; silently ignored.
    SkippedSentinel,
    /// A malformed frame; reported and skipped, never fatal.
    SkippedMalformed,
    /// A frame that failed the verification pipeline at the given stage.
    SkippedVerification(TxProofErrorKind),
    /// A fully verified slate, ready for the handler.
    Delivered(MWCMQSAddress, Slate, TxProof),
}

/// How to recover from one failed poll.
pub enum RetryAction {
    /// A long-poll timeout: poll again at once.
    RetryNow,
    /// Any other transport failure: sleep this many milliseconds first.
    SleepThenRetry(u64),
}

/// What one send acknowledgement says about the destination.
pub enum AckStatus {
    /// Too few words to be an acknowledgement.
    Invalid,
    /// The second word is not a number the broker can read.
    UnparsedMillis,
    /// The destination was seen recently.
    Fresh,
    /// The destination has been away this many seconds.
    Stale(u64),
    /// The destination has been away so long it is unlikely to be reached.
    VeryStale,
}

// ---------------------------------------------------------------------------
// The relay broker
// ---------------------------------------------------------------------------

/// The long-poll relay broker: the listener state machine, the framing and
/// verification of what comes off the wire, and the assembly of what goes
/// onto it. The network calls themselves are carried out by the caller
/// around this state machine.
pub struct MWCMQSBroker {
    pub flag: BrokerFlag,
    pub count: u64,
    pub config: RelayConfig,
}

impl MWCMQSBroker {
    /// A fresh broker: not listening yet.
    pub fn new(config: RelayConfig) -> (r: MWCMQSBroker)
        ensures
            r.flag == BrokerFlag::Stopped,
            r.count == 0,
            r.config.mwcmqs_domain@ == config.mwcmqs_domain@,
            r.config.mwcmqs_port == config.mwcmqs_port,
    {
        MWCMQSBroker { flag: BrokerFlag::Stopped, count: 0, config }
    }

    /// An equal copy of this broker.
    pub fn duplicate(&self) -> (r: MWCMQSBroker)
        ensures
            r.flag == self.flag,
            r.count == self.count,
            r.config.mwcmqs_domain@ == self.config.mwcmqs_domain@,
            r.config.mwcmqs_port == self.config.mwcmqs_port,
    {
        MWCMQSBroker { flag: self.flag, count: self.count, config: self.config.duplicate() }
    }

    /// Whether a receive loop is active; a pure read that never blocks.
    pub fn is_running(&self) -> (r: bool)
        ensures
            r == (self.flag is Running),
    {
        matches!(self.flag, BrokerFlag::Running)
    }

    /// Begins a listening session: the loop may poll from now on.
    pub fn start(&mut self)
        ensures
            final(self).flag == BrokerFlag::Running,
            final(self).count == 0,
            final(self).config == old(self).config,
    {
        self.flag = BrokerFlag::Running;
        self.count = 0;
    }

    /// Requests that the listener wind down; returns at once. A loop blocked
    /// in a long poll is released by posting the wake-up job.
    pub fn stop(&mut self)
        ensures
            final(self).flag == (if old(self).flag is Stopped {
                BrokerFlag::Stopped
            } else {
                BrokerFlag::StopRequested
            }),
            final(self).count == old(self).count,
            final(self).config == old(self).config,
            !(final(self).flag is Running),
    {
        if matches!(self.flag, BrokerFlag::Stopped) {
        } else {
            self.flag = BrokerFlag::StopRequested;
        }
    }

    /// The head of one loop iteration: if a stop was requested the loop
    /// exits and the broker is stopped; otherwise the next long poll runs
    /// with a short timeout on the first iteration and a long one after.
    pub fn poll_plan(&mut self) -> (r: Option<u64>)
        requires
            old(self).count < u64::MAX,
        ensures
            final(self).config == old(self).config,
            match r {
                Some(secs) => {
                    &&& old(self).flag is Running
                    &&& final(self).flag is Running
                    &&& final(self).count == old(self).count + 1
                    &&& secs == (if old(self).count == 0 { 1u64 } else { 120u64 })
                },
                None => {
                    &&& !(old(self).flag is Running)
                    &&& final(self).flag is Stopped
                    &&& final(self).count == old(self).count
                },
            },
    {
        if matches!(self.flag, BrokerFlag::Running) {
            let secs: u64 = if self.count == 0 {
                1
            } else {
                120
            };
            self.count = self.count + 1;
            Some(secs)
        } else {
            self.flag = BrokerFlag::Stopped;
            None
        }
    }

    /// What to do after a failed poll: a timeout is expected and is retried
    /// at once; any other failure backs off for five seconds. Neither ends
    /// the loop.
    pub fn on_poll_failure(&self, is_timeout: bool) -> (r: RetryAction)
        ensures
            r == (if is_timeout {
                RetryAction::RetryNow
            } else {
                RetryAction::SleepThenRetry(5000u64)
            }),
    {
        if is_timeout {
            RetryAction::RetryNow
        } else {
            RetryAction::SleepThenRetry(5000)
        }
    }

    /// Builds the encrypted, signed POST for one outgoing slate. Refused
    /// while no listener is running; otherwise the job carries the envelope
    /// bound to the destination and a signature over its exact text.
    #[verifier::spinoff_prover]
    #[verifier::rlimit(80)]
    pub fn post_slate(
        &self,
        slate: &Slate,
        to: &MWCMQSAddress,
        from: &MWCMQSAddress,
        secret_key: &SecretKey,
    ) -> (r: Result<PostJob, ErrorKind>)
        requires
            to.wf(),
            from.wf(),
            secret_key.wf(),
            slate.raw@.len() < 0x10000000,
        ensures
            match r {
                Ok(job) => {
                    &&& self.flag is Running
                    &&& job.to@ == to@.key
                    &&& job.from_field@ == from@.key
                    &&& spec_parse_env(job.mapmessage@) is Some
                    &&& {
                        let env = spec_parse_env(job.mapmessage@).unwrap();
                        &&& env.destination == to@.key
                        &&& forall|rsk: Seq<u8>|
                            rsk.len() == 32 && crate::crypto::spec_sk_valid(rsk)
                                && crate::address::spec_key_of(to@.key)
                                    == spec_pk_of(rsk)
                                ==> spec_decrypt(env, rsk, spec_pk_of(secret_key@),
                                    to@.key) == Some(slate.raw@)
                    }
                    &&& crate::txproof::st_sig_parses(job.signature@)
                    &&& spec_sig_ok(
                        spec_sha256(vstd::utf8::encode_utf8(job.mapmessage@)),
                        spec_hex_decode(job.signature@),
                        spec_pk_of(secret_key@),
                    )
                },
                Err(e) => {
                    &&& !(self.flag is Running)
                    &&& e matches ErrorKind::ClosedListener(_)
                },
            },
    {
        if !self.is_running() {
            return Err(ErrorKind::ClosedListener(String::from_str("mwcmqs")));
        }
        let pkey = match to.public_key() {
            Ok(k) => k,
            Err(e) => {
                return Err(e);
            },
        };
        let message = EncryptedMessage::new(&slate.raw, to, &pkey, secret_key);
        let message_ser = message.to_json();
        let signature = crate::crypto::sign_challenge(message_ser.as_str(), secret_key);
        Ok(PostJob {
            to: to.stripped(),
            mapmessage: message_ser,
            from_field: from.stripped(),
            signature,
        })
    }

    /// The best-effort wake-up that `stop` fires at the listener's own
    /// address so a blocked long poll returns promptly.
    pub fn stop_wakeup_job(&self, address: &MWCMQSAddress) -> (r: PostJob)
        ensures
            r.to@ == address@.key,
            r.mapmessage@ == "nil"@,
            r.from_field@.len() == 0,
            r.signature@.len() == 0,
    {
        PostJob {
            to: address.stripped(),
            mapmessage: String::from_str("nil"),
            from_field: String::new(),
            signature: String::new(),
        }
    }

    /// Reads one send acknowledgement: `<token> <millis-since-last-seen>`.
    /// Never an error: a bad acknowledgement is only reported, posting has
    /// already succeeded.
    pub fn process_post_response(&self, resp: &str) -> (r: AckStatus)
        ensures
            r == spec_ack_status(resp@),
    {
        let parts = crate::protocol::split_str(resp, ' ');
        if parts.len() <= 1 {
            return AckStatus::Invalid;
        }
        proof {
            assert(parts@.map_values(|x: String| x@)[1] == parts@[1]@);
        }
        let millis = match crate::strutil::parse_u64(parts[1].as_str()) {
            Some(v) => v,
            None => {
                return AckStatus::UnparsedMillis;
            },
        };
        if millis > 10000000000 {
            AckStatus::VeryStale
        } else if millis > 150000 {
            AckStatus::Stale(millis / 1000)
        } else {
            AckStatus::Fresh
        }
    }

    /// Works through every payload of one response body: the sentinel and
    /// every malformed frame are skipped without touching anything, and each
    /// remaining frame runs the full verification pipeline. The loop state
    /// is untouched: one bad message never ends a listener.
    pub fn process_response(
        &self,
        body: &str,
        secret_key: &SecretKey,
        local: &MWCMQSAddress,
    ) -> (r: Vec<ListenerEvent>)
        requires
            secret_key.wf(),
            local.wf(),
        ensures
            r@.len() == spec_response_payloads(body@).len(),
            forall|i: int| 0 <= i < r@.len() ==> #[trigger] event_matches(
                r@[i],
                spec_response_payloads(body@)[i],
                secret_key@,
                local@,
            ),
    {
        let payloads = crate::protocol::extract_payloads(body);
        let ghost pviews = spec_response_payloads(body@);
        let n = payloads.len();
        let mut out: Vec<ListenerEvent> = Vec::new();
        let mut i: usize = 0;
        while i < n
            invariant
                i <= n,
                n == payloads@.len(),
                pviews == payloads@.map_values(|x: String| x@),
                pviews == spec_response_payloads(body@),
                secret_key.wf(),
                local.wf(),
                out@.len() == i,
                forall|k: int| 0 <= k < i ==> #[trigger] event_matches(
                    out@[k],
                    pviews[k],
                    secret_key@,
                    local@,
                ),
            decreases n - i,
        {
            proof {
                assert(payloads@.map_values(|x: String| x@)[i as int]
                    == payloads@[i as int]@);
            }
            let ev = self.process_one_payload(payloads[i].as_str(), secret_key, local);
            out.push(ev);
            i = i + 1;
        }
        out
    }

    /// Decides one payload: skip the sentinel, skip anything malformed,
    /// verify everything else.
    fn process_one_payload(
        &self,
        payload: &str,
        secret_key: &SecretKey,
        local: &MWCMQSAddress,
    ) -> (r: ListenerEvent)
        requires
            secret_key.wf(),
            local.wf(),
        ensures
            event_matches(r, payload@, secret_key@, local@),
    {
        match crate::protocol::process_payload(payload) {
            PayloadOutcome::Sentinel => ListenerEvent::SkippedSentinel,
            PayloadOutcome::Malformed => ListenerEvent::SkippedMalformed,
            PayloadOutcome::Fields(f) => {
                match TxProof::from_response(
                    f.from.as_str(),
                    f.mapmessage,
                    String::new(),
                    f.signature.as_str(),
                    secret_key,
                    local,
                ) {
                    Ok(p) => {
                        let (slate, proof) = p;
                        let sender = proof.address.duplicate();
                        ListenerEvent::Delivered(sender, slate, proof)
                    },
                    Err(k) => ListenerEvent::SkippedVerification(k),
                }
            },
        }
    }
}

/// What one send acknowledgement means: the second space-separated word,
/// read as milliseconds since the destination was last seen, against the
/// very-stale and stale thresholds.
pub open spec fn spec_ack_status(resp: Seq<char>) -> AckStatus {
    let parts = crate::protocol::spec_split(resp, ' ');
    if parts.len() <= 1 {
        AckStatus::Invalid
    } else if !(crate::strutil::all_dec(parts[1]) && parts[1].len() > 0 && nat_of_dec(
        parts[1],
    ) <= u64::MAX) {
        AckStatus::UnparsedMillis
    } else {
        let millis = nat_of_dec(parts[1]);
        if millis > 10000000000 {
            AckStatus::VeryStale
        } else if millis > 150000 {
            AckStatus::Stale((millis / 1000) as u64)
        } else {
            AckStatus::Fresh
        }
    }
}

/// The skip policy, by name: the broker's own wake-up message never reaches
/// a handler, and a malformed frame never reaches a handler; each is only
/// ever skipped, whatever the keys and the local identity.
pub proof fn lemma_skip_policy(
    ev: ListenerEvent,
    payload: Seq<char>,
    sk: Seq<u8>,
    local: crate::address::AddrView,
)
    requires
        event_matches(ev, payload, sk, local),
    ensures
        spec_payload(payload) == PayloadSpec::Sentinel
            ==> ev is SkippedSentinel,
        spec_payload(payload) == PayloadSpec::Malformed
            ==> ev is SkippedMalformed,
{
}

/// Each listener event says the truth about its payload: the sentinel and
/// malformed frames are skipped, failed verification names the exact stage,
/// and a delivery carries exactly what the pipeline pinned down.
pub open spec fn event_matches(
    ev: ListenerEvent,
    payload: Seq<char>,
    sk: Seq<u8>,
    local: crate::address::AddrView,
) -> bool {
    match ev {
        ListenerEvent::SkippedSentinel => spec_payload(payload) == PayloadSpec::Sentinel,
        ListenerEvent::SkippedMalformed => spec_payload(payload) == PayloadSpec::Malformed,
        ListenerEvent::SkippedVerification(k) => {
            &&& spec_payload(payload) matches PayloadSpec::Fields(f)
            &&& (spec_payload(payload) matches PayloadSpec::Fields(f) ==> st_error(
                k,
                sk,
                f.from,
                f.mapmessage,
                f.signature,
                local.key,
            ))
        },
        ListenerEvent::Delivered(sender, slate, proof) => {
            &&& spec_payload(payload) matches PayloadSpec::Fields(f)
            &&& (spec_payload(payload) matches PayloadSpec::Fields(f) ==> {
                &&& st_all_ok(sk, f.from, f.mapmessage, f.signature, local.key)
                &&& st_result_ok(
                    (slate, proof),
                    sk,
                    f.from,
                    f.mapmessage,
                    f.signature,
                    local,
                )
                &&& sender@ == crate::address::spec_parse_mwcmqs(f.from).unwrap()
            })
        },
    }
}

// ---------------------------------------------------------------------------
// The publisher and subscriber facade
// ---------------------------------------------------------------------------

/// Posts slates over the relay broker on behalf of one local identity. The
/// identity's address must name exactly the identity's own public key.
pub struct MWCMQPublisher {
    pub address: MWCMQSAddress,
    pub broker: MWCMQSBroker,
    pub secret_key: SecretKey,
}

impl MWCMQPublisher {
    /// A publisher whose address and secret key belong together.
    pub open spec fn wf(&self) -> bool {
        &&& self.address.wf()
        &&& self.secret_key.wf()
        &&& crate::address::spec_key_of(self.address@.key) == spec_pk_of(self.secret_key@)
    }

    /// Binds one local identity to the relay: refused unless the address
    /// encodes exactly the public key of the secret key.
    pub fn new(address: &MWCMQSAddress, secret_key: &SecretKey, config: &RelayConfig) -> (r:
        Result<MWCMQPublisher, ErrorKind>)
        requires
            address.wf(),
            secret_key.wf(),
        ensures
            match r {
                Ok(p) => {
                    &&& p.wf()
                    &&& p.address@ == address@
                    &&& p.secret_key@ == secret_key@
                    &&& p.broker.flag == BrokerFlag::Stopped
                },
                Err(_) => crate::address::spec_key_of(address@.key)
                    != spec_pk_of(secret_key@),
            },
    {
        let addr_pk = match address.public_key() {
            Ok(k) => k,
            Err(e) => {
                return Err(e);
            },
        };
        let own_pk = secret_key.public_key();
        if !crate::strutil::bytes_eq(addr_pk.bytes(), own_pk.bytes()) {
            return Err(ErrorKind::GenericError(String::from_str(
                "address does not belong to this key",
            )));
        }
        Ok(MWCMQPublisher {
            address: address.duplicate(),
            broker: MWCMQSBroker::new(config.duplicate()),
            secret_key: secret_key.duplicate(),
        })
    }

    /// Builds the POST that sends one slate to a destination: the envelope
    /// is bound to the destination, only the holder of the destination's
    /// key reads it, and the signature covers its exact text.
    pub fn post_slate(&self, slate: &Slate, to: &MWCMQSAddress) -> (r: Result<
        PostJob,
        ErrorKind,
    >)
        requires
            self.wf(),
            to.wf(),
            slate.raw@.len() < 0x10000000,
        ensures
            match r {
                Ok(job) => {
                    &&& self.broker.flag is Running
                    &&& job.to@ == to@.key
                    &&& job.from_field@ == self.address@.key
                    &&& spec_parse_env(job.mapmessage@) is Some
                    &&& {
                        let env = spec_parse_env(job.mapmessage@).unwrap();
                        &&& env.destination == to@.key
                        &&& forall|rsk: Seq<u8>|
                            rsk.len() == 32 && crate::crypto::spec_sk_valid(rsk)
                                && crate::address::spec_key_of(to@.key)
                                    == spec_pk_of(rsk)
                                ==> spec_decrypt(env, rsk, spec_pk_of(self.secret_key@),
                                    to@.key) == Some(slate.raw@)
                    }
                    &&& crate::txproof::st_sig_parses(job.signature@)
                    &&& spec_sig_ok(
                        spec_sha256(vstd::utf8::encode_utf8(job.mapmessage@)),
                        spec_hex_decode(job.signature@),
                        spec_pk_of(self.secret_key@),
                    )
                },
                Err(e) => {
                    &&& !(self.broker.flag is Running)
                    &&& e matches ErrorKind::ClosedListener(_)
                },
            },
    {
        self.broker.post_slate(slate, to, &self.address, &self.secret_key)
    }
}

/// Runs the receive side of one local identity over the relay broker.
pub struct MWCMQSubscriber {
    pub address: MWCMQSAddress,
    pub broker: MWCMQSBroker,
    pub secret_key: SecretKey,
}

impl MWCMQSubscriber {
    /// A subscriber over the same identity and broker as a publisher.
    pub fn new(publisher: &MWCMQPublisher) -> (r: Result<MWCMQSubscriber, ErrorKind>)
        requires
            publisher.wf(),
        ensures
            match r {
                Ok(sub) => {
                    &&& sub.address@ == publisher.address@
                    &&& sub.secret_key@ == publisher.secret_key@
                    &&& sub.broker.flag == publisher.broker.flag
                    &&& sub.address.wf()
                    &&& sub.secret_key.wf()
                },
                Err(_) => false,
            },
    {
        Ok(MWCMQSubscriber {
            address: publisher.address.duplicate(),
            broker: publisher.broker.duplicate(),
            secret_key: publisher.secret_key.duplicate(),
        })
    }

    /// Begins listening; the loop around this state machine may poll now.
    pub fn start(&mut self) -> (r: Result<(), ErrorKind>)
        ensures
            r is Ok,
            final(self).broker.flag == BrokerFlag::Running,
            final(self).address@ == old(self).address@,
            final(self).secret_key@ == old(self).secret_key@,
    {
        self.broker.start();
        Ok(())
    }

    /// Requests the listener to stop; `is_running` reports false from here
    /// on, and the caller fires the wake-up job so a blocked poll returns.
    pub fn stop(&mut self)
        ensures
            !(final(self).broker.flag is Running),
            !final(self).is_running_spec(),
            final(self).address@ == old(self).address@,
            final(self).secret_key@ == old(self).secret_key@,
    {
        self.broker.stop();
    }

    /// Whether the listener is running, as a specification.
    pub open spec fn is_running_spec(&self) -> bool {
        self.broker.flag is Running
    }

    /// Whether the listener is running; a pure read.
    pub fn is_running(&self) -> (r: bool)
        ensures
            r == self.is_running_spec(),
    {
        self.broker.is_running()
    }
}

} // verus!
