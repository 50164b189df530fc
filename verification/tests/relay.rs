use mwc713::address::{version_bytes, Address, HttpsAddress, KeybaseAddress, MWCMQSAddress};
use mwc713::base58::to_base58check;
use mwc713::broker::{
    AckStatus, BrokerFlag, ListenerEvent, MWCMQPublisher, MWCMQSBroker, MWCMQSubscriber,
    RelayConfig,
};
use mwc713::crypto::{sign_challenge, verify_signature, PublicKey, SecretKey};
use mwc713::error::ErrorKind;
use mwc713::message::EncryptedMessage;
use mwc713::protocol::{process_payload, PayloadOutcome};
use mwc713::slate::Slate;
use mwc713::txproof::{TxProof, TxProofErrorKind};

fn secret_key(seed: u8) -> SecretKey {
    SecretKey::from_bytes(vec![seed; 32]).unwrap()
}

fn address_of(pk: &PublicKey) -> MWCMQSAddress {
    MWCMQSAddress {
        public_key: to_base58check(pk.bytes(), &version_bytes()),
        domain: None,
        port: None,
    }
}

fn config() -> RelayConfig {
    RelayConfig { mwcmqs_domain: "relay.example.com".to_string(), mwcmqs_port: 443 }
}

fn slate_json(id: &str, amount: u64) -> String {
    format!(
        "{{\"id\":\"{}\",\"amount\":{},\"num_participants\":2,\"participant_data\":[]}}",
        id, amount
    )
}

fn percent_encode(s: &str) -> String {
    s.replace('"', "%22")
        .replace('{', "%7B")
        .replace('}', "%7D")
        .replace(':', "%3A")
        .replace(',', "%2C")
}

#[test]
fn relay_address_round_trip() {
    let sk = secret_key(7);
    let pk = sk.public_key();
    let mut a = address_of(&pk);
    a.domain = Some("relay.example.com".to_string());
    a.port = Some(443);
    let canonical = a.canonical_form();
    let b = MWCMQSAddress::from_str(&canonical).unwrap();
    assert_eq!(b.public_key, a.public_key);
    assert_eq!(b.domain, a.domain);
    assert_eq!(b.port, a.port);
}

#[test]
fn relay_address_round_trip_bare() {
    let sk = secret_key(9);
    let a = address_of(&sk.public_key());
    let b = MWCMQSAddress::from_str(&a.canonical_form()).unwrap();
    assert_eq!(b.public_key, a.public_key);
    assert_eq!(b.domain, None);
    assert_eq!(b.port, None);
    // the bare key parses too
    let c = MWCMQSAddress::from_str(&a.stripped()).unwrap();
    assert_eq!(c.public_key, a.public_key);
}

#[test]
fn relay_address_recovers_public_key() {
    let sk = secret_key(11);
    let pk = sk.public_key();
    let a = address_of(&pk);
    let recovered = a.public_key().unwrap();
    assert_eq!(recovered.bytes(), pk.bytes());
}

#[test]
fn relay_address_rejects_bad_version() {
    let sk = secret_key(13);
    let pk = sk.public_key();
    let text = to_base58check(pk.bytes(), &vec![9u8, 9u8]);
    match MWCMQSAddress::from_str(&text) {
        Err(ErrorKind::InvalidBase58Version) => {},
        other => panic!("expected version failure, got {:?}", other),
    }
}

#[test]
fn address_parse_priority() {
    match Address::parse("keybase://alice:topic1").unwrap() {
        Address::Keybase(k) => {
            assert_eq!(k.username, "alice");
            assert_eq!(k.topic, Some("topic1".to_string()));
        },
        _ => panic!("expected a keybase address"),
    }
    match Address::parse("https://example.com/wallet").unwrap() {
        Address::Https(h) => assert_eq!(h.uri, "https://example.com/wallet"),
        _ => panic!("expected an https address"),
    }
    let sk = secret_key(17);
    let a = address_of(&sk.public_key());
    match Address::parse(&a.canonical_form()).unwrap() {
        Address::MWCMQS(m) => assert_eq!(m.public_key, a.public_key),
        _ => panic!("expected a relay address"),
    }
    match Address::parse("carrier-pigeon://roof") {
        Err(ErrorKind::UnknownAddressType(t)) => assert_eq!(t, "carrier-pigeon"),
        other => panic!("expected unknown type, got {:?}", other),
    }
    match KeybaseAddress::from_str("keybase://") {
        Err(ErrorKind::KeybaseAddressParsingError(_)) => {},
        other => panic!("expected keybase failure, got {:?}", other),
    }
    match HttpsAddress::from_str("https://") {
        Err(ErrorKind::HttpsAddressParsingError(_)) => {},
        other => panic!("expected https failure, got {:?}", other),
    }
}

#[test]
fn signature_verifies_and_breaks() {
    let sk = secret_key(21);
    let pk = sk.public_key();
    let challenge = "exact serialized bytes, carried through unmodified";
    let sig = sign_challenge(challenge, &sk);
    assert!(verify_signature(challenge, &sig, &pk));
    // any single-byte mutation of the signed bytes breaks verification
    let mutated = challenge.replace('e', "E");
    assert!(!verify_signature(&mutated, &sig, &pk));
    // substitution of a different public key breaks verification
    let other_pk = secret_key(22).public_key();
    assert!(!verify_signature(challenge, &sig, &other_pk));
}

#[test]
fn envelope_json_round_trip() {
    let sender = secret_key(31);
    let receiver = secret_key(32);
    let dest = address_of(&receiver.public_key());
    let payload = b"an opaque slate document".to_vec();
    let env = EncryptedMessage::new(&payload, &dest, &receiver.public_key(), &sender);
    let json = env.to_json();
    let parsed = EncryptedMessage::from_json(&json).unwrap();
    assert_eq!(parsed.destination, env.destination);
    assert_eq!(parsed.encrypted_message, env.encrypted_message);
    assert_eq!(parsed.salt, env.salt);
    assert_eq!(parsed.nonce, env.nonce);
    assert!(EncryptedMessage::from_json("{\"nope\":1}").is_err());
}

#[test]
fn envelope_encrypt_decrypt_round_trip() {
    let sender = secret_key(41);
    let receiver = secret_key(42);
    let dest = address_of(&receiver.public_key());
    let payload = b"p2: all plaintexts come back".to_vec();
    let env = EncryptedMessage::new(&payload, &dest, &receiver.public_key(), &sender);
    let out = env.decrypt(&receiver, &sender.public_key(), &dest).unwrap();
    assert_eq!(out, payload);
    // the ciphertext is not the plaintext
    assert_ne!(env.encrypted_message.as_bytes(), payload.as_slice());
}

#[test]
fn envelope_rejects_wrong_destination() {
    let sender = secret_key(51);
    let receiver = secret_key(52);
    let bystander = secret_key(53);
    let dest = address_of(&receiver.public_key());
    let other = address_of(&bystander.public_key());
    let payload = b"p3: bound to one identity".to_vec();
    let env = EncryptedMessage::new(&payload, &dest, &receiver.public_key(), &sender);
    match env.decrypt(&receiver, &sender.public_key(), &other) {
        Err(ErrorKind::Decryption(_)) => {},
        other => panic!("expected a destination failure, got {:?}", other),
    }
}

#[test]
fn envelope_rejects_tampered_ciphertext() {
    let sender = secret_key(54);
    let receiver = secret_key(55);
    let dest = address_of(&receiver.public_key());
    let payload = b"integrity".to_vec();
    let mut env = EncryptedMessage::new(&payload, &dest, &receiver.public_key(), &sender);
    let mut ct: Vec<char> = env.encrypted_message.chars().collect();
    ct[0] = if ct[0] == 'a' { 'b' } else { 'a' };
    env.encrypted_message = ct.into_iter().collect();
    match env.decrypt(&receiver, &sender.public_key(), &dest) {
        Err(ErrorKind::Decryption(_)) => {},
        other => panic!("expected an integrity failure, got {:?}", other),
    }
}

fn build_wire_message(
    sender: &SecretKey,
    receiver_pk: &PublicKey,
    dest: &MWCMQSAddress,
    payload: &[u8],
) -> (String, String, String) {
    let env = EncryptedMessage::new(&payload.to_vec(), dest, receiver_pk, sender);
    let json = env.to_json();
    let sig = sign_challenge(&json, sender);
    let from = address_of(&sender.public_key()).stripped();
    (from, json, sig)
}

#[test]
fn pipeline_accepts_good_message() {
    let sender = secret_key(61);
    let receiver = secret_key(62);
    let dest = address_of(&receiver.public_key());
    let doc = slate_json("7aa12a8c-7a9e-4c35-a79b-c02b7b7f2936", 500);
    let (from, json, sig) = build_wire_message(&sender, &receiver.public_key(), &dest,
        doc.as_bytes());
    let (slate, proof) = TxProof::from_response(&from, json.clone(), String::new(), &sig,
        &receiver, &dest).unwrap();
    assert_eq!(slate.id, "7aa12a8c-7a9e-4c35-a79b-c02b7b7f2936");
    assert_eq!(slate.amount, 500);
    assert_eq!(proof.amount, 500);
    assert_eq!(proof.address.public_key, address_of(&sender.public_key()).public_key);
    assert_eq!(proof.raw_envelope, json);
}

#[test]
fn pipeline_distinct_failures() {
    let sender = secret_key(71);
    let receiver = secret_key(72);
    let dest = address_of(&receiver.public_key());
    let doc = slate_json("11111111-2222-3333-4444-555555555555", 7);
    let (from, json, sig) = build_wire_message(&sender, &receiver.public_key(), &dest,
        doc.as_bytes());

    // stage 1: a from field that is no address
    assert_eq!(
        TxProof::from_response("!!", json.clone(), String::new(), &sig, &receiver, &dest)
            .unwrap_err(),
        TxProofErrorKind::ParseAddress
    );
    // stage 3: a signature that is no hex signature
    assert_eq!(
        TxProof::from_response(&from, json.clone(), String::new(), "zz", &receiver, &dest)
            .unwrap_err(),
        TxProofErrorKind::ParseSignature
    );
    // stage 4: a valid signature over different bytes
    let other_sig = sign_challenge("other bytes", &sender);
    assert_eq!(
        TxProof::from_response(&from, json.clone(), String::new(), &other_sig, &receiver,
            &dest).unwrap_err(),
        TxProofErrorKind::VerifySignature
    );
    // stage 5: signed text that is no envelope
    let not_env = "what envelope".to_string();
    let sig2 = sign_challenge(&not_env, &sender);
    assert_eq!(
        TxProof::from_response(&from, not_env, String::new(), &sig2, &receiver, &dest)
            .unwrap_err(),
        TxProofErrorKind::ParseEncryptedMessage
    );
    // stage 7: an envelope whose ciphertext does not open
    let mut env = EncryptedMessage::from_json(&json).unwrap();
    env.encrypted_message = hex_flip(&env.encrypted_message);
    let bad_json = env.to_json();
    let sig3 = sign_challenge(&bad_json, &sender);
    assert_eq!(
        TxProof::from_response(&from, bad_json, String::new(), &sig3, &receiver, &dest)
            .unwrap_err(),
        TxProofErrorKind::DecryptMessage
    );
    // stage 8: a structurally valid envelope addressed to someone else
    let third = secret_key(73);
    let local = address_of(&third.public_key());
    assert_eq!(
        TxProof::from_response(&from, json.clone(), String::new(), &sig, &receiver, &local)
            .unwrap_err(),
        TxProofErrorKind::VerifyDestination
    );
    // stage 9: a payload that decrypts but is no slate
    let (from2, json2, sig4) = build_wire_message(&sender, &receiver.public_key(), &dest,
        b"not a slate");
    assert_eq!(
        TxProof::from_response(&from2, json2, String::new(), &sig4, &receiver, &dest)
            .unwrap_err(),
        TxProofErrorKind::ParseSlate
    );
}

fn hex_flip(s: &str) -> String {
    let mut cs: Vec<char> = s.chars().collect();
    cs[0] = if cs[0] == '0' { '1' } else { '0' };
    cs.into_iter().collect()
}

#[test]
fn payload_sentinel_is_ignored() {
    assert!(matches!(process_payload("mapmessage=nil"), PayloadOutcome::Sentinel));
    assert!(matches!(
        process_payload("message: mapmessage=nil\n"),
        PayloadOutcome::Sentinel
    ));
}

#[test]
fn payload_field_counts() {
    assert!(matches!(process_payload("a=1&b=2"), PayloadOutcome::Malformed));
    assert!(matches!(process_payload("a=1&b=2&c=3&d=4"), PayloadOutcome::Malformed));
    match process_payload("ts from=alice&signature=f00d&mapmessage=%7B%22a%22%3A1%7D") {
        PayloadOutcome::Fields(f) => {
            assert_eq!(f.from, "alice");
            assert_eq!(f.signature, "f00d");
            assert_eq!(f.mapmessage, "{\"a\":1}");
        },
        _ => panic!("expected fields"),
    }
}

#[test]
fn listener_skips_bad_frames_and_keeps_going() {
    let sender = secret_key(81);
    let receiver = secret_key(82);
    let dest = address_of(&receiver.public_key());
    let doc = slate_json("99999999-8888-7777-6666-555555555555", 42);
    let (from, json, sig) = build_wire_message(&sender, &receiver.public_key(), &dest,
        doc.as_bytes());
    let good = format!("from={}&signature={}&mapmessage={}", from, sig,
        percent_encode(&json));
    let body = format!(
        "messagelist: \n1700000001 two=1&fields=2\n1700000002 a=1&b=2&c=3&d=4\n1700000003 mapmessage=nil\n1700000004 {}",
        good
    );
    let broker = MWCMQSBroker::new(config());
    let events = broker.process_response(&body, &receiver, &dest);
    assert_eq!(events.len(), 4);
    assert!(matches!(&events[0], ListenerEvent::SkippedMalformed));
    assert!(matches!(&events[1], ListenerEvent::SkippedMalformed));
    assert!(matches!(&events[2], ListenerEvent::SkippedSentinel));
    match &events[3] {
        ListenerEvent::Delivered(sender_addr, slate, proof) => {
            assert_eq!(sender_addr.public_key, from);
            assert_eq!(slate.id, "99999999-8888-7777-6666-555555555555");
            assert_eq!(proof.amount, 42);
        },
        other => panic!("expected a delivery, got {:?}", event_name(other)),
    }
}

fn event_name(e: &ListenerEvent) -> &'static str {
    match e {
        ListenerEvent::SkippedSentinel => "sentinel",
        ListenerEvent::SkippedMalformed => "malformed",
        ListenerEvent::SkippedVerification(_) => "verification",
        ListenerEvent::Delivered(_, _, _) => "delivered",
    }
}

#[test]
fn end_to_end_post_and_receive() {
    let sender = secret_key(91);
    let receiver = secret_key(92);
    let sender_addr = address_of(&sender.public_key());
    let receiver_addr = address_of(&receiver.public_key());

    // sender side: a publisher posts a slate to the receiver's address
    let publisher = MWCMQPublisher::new(&sender_addr, &sender, &config()).unwrap();
    let mut sender_sub = MWCMQSubscriber::new(&publisher).unwrap();
    sender_sub.start().unwrap();
    let doc = slate_json("42424242-4242-4242-4242-424242424242", 1000);
    let slate = Slate::parse(doc.into_bytes()).unwrap();
    let job = sender_sub.broker.post_slate(&slate, &receiver_addr, &sender_addr, &sender)
        .unwrap();
    assert_eq!(job.to, receiver_addr.stripped());

    // the relay forwards the form fields as one payload line
    let wire = format!(
        "from={}&signature={}&mapmessage={}",
        job.from_field,
        job.signature,
        percent_encode(&job.mapmessage)
    );

    // receiver side: the listener pulls the payload and verifies it
    let broker = MWCMQSBroker::new(config());
    let events = broker.process_response(&wire, &receiver, &receiver_addr);
    assert_eq!(events.len(), 1);
    match &events[0] {
        ListenerEvent::Delivered(from, got, proof) => {
            assert_eq!(from.public_key, sender_addr.stripped());
            assert_eq!(got.id, "42424242-4242-4242-4242-424242424242");
            assert_eq!(proof.amount, 1000);
        },
        other => panic!("expected a delivery, got {:?}", event_name(other)),
    }
}

#[test]
fn posting_is_fire_and_forget_on_stale_ack() {
    let sender = secret_key(101);
    let receiver = secret_key(102);
    let sender_addr = address_of(&sender.public_key());
    let receiver_addr = address_of(&receiver.public_key());
    let publisher = MWCMQPublisher::new(&sender_addr, &sender, &config()).unwrap();
    let mut broker = publisher.broker.duplicate();
    broker.start();
    let doc = slate_json("10101010-1010-1010-1010-101010101010", 5);
    let slate = Slate::parse(doc.into_bytes()).unwrap();
    // posting succeeds before any acknowledgement arrives
    let job = broker.post_slate(&slate, &receiver_addr, &sender_addr, &sender);
    assert!(job.is_ok());
    // a very stale acknowledgement is only a warning, never a failure
    assert!(matches!(
        broker.process_post_response("ack 999999999999"),
        AckStatus::VeryStale
    ));
    assert!(matches!(broker.process_post_response("ack 200000"), AckStatus::Stale(200)));
    assert!(matches!(broker.process_post_response("ack 5"), AckStatus::Fresh));
    assert!(matches!(broker.process_post_response("nonsense"), AckStatus::Invalid));
    assert!(matches!(
        broker.process_post_response("ack soon"),
        AckStatus::UnparsedMillis
    ));
}

#[test]
fn posting_needs_a_running_listener() {
    let sender = secret_key(103);
    let receiver = secret_key(104);
    let sender_addr = address_of(&sender.public_key());
    let receiver_addr = address_of(&receiver.public_key());
    let broker = MWCMQSBroker::new(config());
    let doc = slate_json("77777777-7777-7777-7777-777777777777", 5);
    let slate = Slate::parse(doc.into_bytes()).unwrap();
    match broker.post_slate(&slate, &receiver_addr, &sender_addr, &sender) {
        Err(ErrorKind::ClosedListener(_)) => {},
        other => panic!("expected a closed listener, got {:?}", other.is_ok()),
    }
}

#[test]
fn publisher_rejects_foreign_address() {
    let sender = secret_key(105);
    let stranger = secret_key(106);
    let stranger_addr = address_of(&stranger.public_key());
    assert!(MWCMQPublisher::new(&stranger_addr, &sender, &config()).is_err());
}

#[test]
fn stop_then_poll_exits_promptly() {
    let sender = secret_key(111);
    let sender_addr = address_of(&sender.public_key());
    let publisher = MWCMQPublisher::new(&sender_addr, &sender, &config()).unwrap();
    let mut sub = MWCMQSubscriber::new(&publisher).unwrap();
    sub.start().unwrap();
    assert!(sub.is_running());
    // the loop polls fast first, then holds the connection open
    assert_eq!(sub.broker.poll_plan(), Some(1));
    assert_eq!(sub.broker.poll_plan(), Some(120));
    // stop while the poll is out: the wake-up job carries the sentinel
    sub.stop();
    assert!(!sub.is_running());
    let wakeup = sub.broker.stop_wakeup_job(&sender_addr);
    assert_eq!(wakeup.mapmessage, "nil");
    assert!(matches!(
        process_payload(&wakeup.mapmessage.replace("nil", "mapmessage=nil")),
        PayloadOutcome::Sentinel
    ));
    // the next loop iteration exits instead of polling again
    assert_eq!(sub.broker.poll_plan(), None);
    assert!(matches!(sub.broker.flag, BrokerFlag::Stopped));
    assert!(!sub.is_running());
}

#[test]
fn stored_proof_reverifies() {
    let sender = secret_key(121);
    let receiver = secret_key(122);
    let dest = address_of(&receiver.public_key());
    let doc = slate_json("13131313-1313-1313-1313-131313131313", 900);
    let (from, json, sig) = build_wire_message(&sender, &receiver.public_key(), &dest,
        doc.as_bytes());
    let (_, proof) = TxProof::from_response(&from, json, String::new(), &sig, &receiver,
        &dest).unwrap();
    assert!(proof.verify().is_ok());

    let mut wallet = mwc713::wallet::Wallet::new(None);
    wallet.unlock("default", true).unwrap();
    let (sdr, rcv, amount, outputs, excess) = wallet.verify_tx_proof(&proof).unwrap();
    assert_eq!(sdr, Some(from));
    assert_eq!(rcv, dest.stripped());
    assert_eq!(amount, 900);
    assert!(outputs.is_empty());
    assert_eq!(excess, "");

    // a tampered signature no longer re-verifies
    let mut bad = proof.clone();
    bad.signature = hex_flip(&bad.signature);
    assert_eq!(bad.verify().unwrap_err(), TxProofErrorKind::VerifySignature);
    assert!(matches!(
        wallet.verify_tx_proof(&bad),
        Err(ErrorKind::VerifyProof(_))
    ));
}
