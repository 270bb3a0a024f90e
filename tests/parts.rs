use infrafabric_chassis::guard::{decide, is_expired, NONCE_WINDOW};
use infrafabric_chassis::witness::{content_bytes, hash_event};
use infrafabric_chassis::{ChassisError, GuardDecision, Hazard, HazardType, IFMessage, NonceCache, WitnessChain};
use sha2::{Digest, Sha256};

fn bare(performative: &str) -> IFMessage {
    IFMessage {
        performative: performative.to_string(),
        sender: String::new(),
        receiver: vec![],
        content: String::new(),
        timestamp: String::new(),
        sequence_num: 0,
        trace_id: String::new(),
        hazard: None,
        citation_ids: None,
        nonce: None,
        ttl: None,
        signature: None,
    }
}

#[test]
fn canonical_form_layout() {
    let mut m = bare("ab");
    m.sequence_num = 258;
    m.ttl = Some(1);
    let mut expected: Vec<u8> = vec![0, 0, 0, 0, 0, 0, 0, 2, b'a', b'b'];
    expected.extend_from_slice(&[0; 8]); // sender
    expected.extend_from_slice(&[0; 8]); // receiver count
    expected.extend_from_slice(&[0; 8]); // content
    expected.extend_from_slice(&[0; 8]); // timestamp
    expected.extend_from_slice(&[0, 0, 0, 0, 0, 0, 1, 2]); // sequence number
    expected.extend_from_slice(&[0; 8]); // trace id
    expected.extend_from_slice(&[0, 0, 0]); // hazard, citations, nonce
    expected.extend_from_slice(&[1, 0, 0, 0, 0, 0, 0, 0, 1]); // ttl
    assert_eq!(m.canonical_bytes(), expected);
}

#[test]
fn canonical_form_leaves_out_signature() {
    let mut m = bare("inform");
    let unsigned = m.canonical_bytes();
    m.signature = Some("00".to_string());
    assert_eq!(m.canonical_bytes(), unsigned);
    let mut record = unsigned.clone();
    record.extend_from_slice(&[1, 0, 0, 0, 0, 0, 0, 0, 2, b'0', b'0']);
    assert_eq!(m.record_bytes(), record);
}

#[test]
fn canonical_form_tells_fields_apart() {
    let mut a = bare("inform");
    a.receiver = vec!["xy".to_string()];
    let mut b = bare("inform");
    b.receiver = vec!["x".to_string(), "y".to_string()];
    assert_ne!(a.canonical_bytes(), b.canonical_bytes());

    let mut h = bare("inform");
    h.hazard = Some(Hazard {
        hazard_type: HazardType::Security,
        severity: "high".to_string(),
        rationale: "r".to_string(),
        action: "HOLD".to_string(),
    });
    let bytes = h.canonical_bytes();
    assert!(bytes.windows(2).any(|w| w == [1, 2]));
    let mut c = bare("inform");
    c.citation_ids = Some(vec![]);
    assert_ne!(c.canonical_bytes(), bare("inform").canonical_bytes());
}

#[test]
fn expiry_formula() {
    assert!(!is_expired(100, 60, 160));
    assert!(is_expired(100, 60, 161));
    assert!(!is_expired(100, 60, 159));
    assert!(!is_expired(100, u64::MAX, i64::MAX));
    assert!(is_expired(i64::MIN, 0, i64::MAX));
    assert!(!is_expired(200, 0, 100));
}

#[test]
fn nonce_seen_twice_is_a_replay() {
    let mut cache = NonceCache::new();
    let n = "n-1".to_string();
    assert!(cache.check_and_record(&n, 1000).is_ok());
    assert!(cache.contains(&n));
    assert!(matches!(cache.check_and_record(&n, 1001), Err(ChassisError::ReplayAttack)));
    assert_eq!(cache.entries.len(), 1);
    assert_eq!(cache.entries[0].expiry, 1000 + NONCE_WINDOW as i128);
}

#[test]
fn stale_nonces_are_evicted_on_insert() {
    let mut cache = NonceCache::new();
    cache.check_and_record(&"old".to_string(), 0).unwrap();
    cache.check_and_record(&"mid".to_string(), 10).unwrap();
    cache.check_and_record(&"new".to_string(), 3600).unwrap();
    let left: Vec<&str> = cache.entries.iter().map(|e| e.nonce.as_str()).collect();
    assert_eq!(left, vec!["mid", "new"]);
    assert!(cache.check_and_record(&"old".to_string(), 3601).is_ok());
}

#[test]
fn decide_matches_infix() {
    assert!(matches!(decide("delete", "db-production-1"), GuardDecision::Deny { .. }));
    assert!(matches!(decide("delete", "productio"), GuardDecision::Allow));
    assert!(matches!(decide("deploy", "xcriticalx"), GuardDecision::Escalate { .. }));
    assert!(matches!(decide("deploy", "production"), GuardDecision::Allow));
    assert!(matches!(decide("", ""), GuardDecision::Allow));
}

fn filled_chain(n: usize) -> WitnessChain {
    let mut chain = WitnessChain::new();
    for i in 0..n {
        chain.append(
            format!("id-{}", i),
            "message_sent".to_string(),
            "if://agent/w".to_string(),
            "2025-11-11T12:00:00+00:00".to_string(),
            vec![i as u8, 7, 7],
        );
    }
    chain
}

#[test]
fn appended_chain_verifies() {
    for n in 0..5 {
        assert!(filled_chain(n).verify());
    }
    let chain = filled_chain(3);
    assert_eq!(chain.events[0].previous_hash, "genesis");
    assert_eq!(chain.events[2].previous_hash, chain.events[1].event_hash);
}

#[test]
fn flipped_payload_bit_breaks_chain() {
    for i in 0..4 {
        let mut chain = filled_chain(4);
        chain.events[i].payload[1] ^= 1;
        assert!(!chain.verify());
    }
}

#[test]
fn broken_link_breaks_chain() {
    let mut chain = filled_chain(3);
    chain.events[2].previous_hash = "genesis".to_string();
    assert!(!chain.verify());
}

#[test]
fn event_hash_is_sha256_hex_of_content() {
    let chain = filled_chain(2);
    for e in &chain.events {
        let expected = hex::encode(Sha256::digest(content_bytes(e)));
        assert_eq!(e.event_hash, expected);
        assert_eq!(hash_event(e), expected);
        assert_eq!(e.event_hash.len(), 64);
    }
    assert_eq!(
        hex::encode(Sha256::digest(b"")),
        "e3b0c44298fc1c149afbf4c8996fb92427ae41e4649b934ca495991b7852b855"
    );
}
