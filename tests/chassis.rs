use infrafabric_chassis::{Chassis, ChassisError, GuardDecision, IFMessage};

fn message(performative: &str, sender: &str, content: &str) -> IFMessage {
    IFMessage {
        performative: performative.to_string(),
        sender: sender.to_string(),
        receiver: vec!["if://agent/receiver".to_string()],
        content: content.to_string(),
        timestamp: String::new(),
        sequence_num: 0,
        trace_id: "trace-0".to_string(),
        hazard: None,
        citation_ids: None,
        nonce: None,
        ttl: None,
        signature: None,
    }
}

#[test]
fn test_message_signing() {
    let chassis = Chassis::new("if://agent/test".to_string());

    let msg = IFMessage {
        performative: "inform".to_string(),
        sender: "if://agent/test".to_string(),
        receiver: vec!["if://agent/receiver".to_string()],
        content: "{\"claim\":\"test\"}".to_string(),
        timestamp: chrono::Utc::now().to_rfc3339(),
        sequence_num: 1,
        trace_id: "trace-123".to_string(),
        hazard: None,
        citation_ids: None,
        nonce: Some("nonce-123".to_string()),
        ttl: Some(60),
        signature: None,
    };

    let signature = chassis.sign_message(&msg);
    assert_eq!(signature.len(), 64);
}

#[test]
fn test_witness_chain_integrity() {
    let mut chassis = Chassis::new("if://agent/test".to_string());

    for i in 0..3 {
        let msg = IFMessage {
            performative: "inform".to_string(),
            sender: String::new(),
            receiver: vec!["if://agent/receiver".to_string()],
            content: format!("{{\"count\":{}}}", i),
            timestamp: String::new(),
            sequence_num: 0,
            trace_id: format!("trace-{}", i),
            hazard: None,
            citation_ids: None,
            nonce: None,
            ttl: None,
            signature: None,
        };

        chassis.send_message(msg).unwrap();
    }

    assert!(chassis.verify_witness_chain());

    let chain = chassis.get_witness_chain();
    assert_eq!(chain.len(), 3);
}

#[test]
fn test_policy_enforcement() {
    let chassis = Chassis::new("if://agent/test".to_string());

    assert_eq!(chassis.check_policy("read", "database"), GuardDecision::Allow);

    match chassis.check_policy("delete", "production-db") {
        GuardDecision::Deny { .. } => {}
        _ => panic!("Expected Deny decision"),
    }

    match chassis.check_policy("deploy", "critical-service") {
        GuardDecision::Escalate { .. } => {}
        _ => panic!("Expected Escalate decision"),
    }
}

#[test]
fn policy_reasons_are_exact() {
    let chassis = Chassis::new("if://agent/test".to_string());
    assert_eq!(
        chassis.check_policy("delete", "eu-production"),
        GuardDecision::Deny { reason: "Cannot delete production resources without approval".to_string() }
    );
    assert_eq!(
        chassis.check_policy("deploy", "critical"),
        GuardDecision::Escalate { reason: "Critical deployments require human approval".to_string() }
    );
    assert_eq!(chassis.check_policy("delete", "staging"), GuardDecision::Allow);
    assert_eq!(chassis.check_policy("Delete", "production"), GuardDecision::Allow);
    assert_eq!(chassis.check_policy("deploy", "crit"), GuardDecision::Allow);
}

/// Two chassis, with A trusting B's key.
fn pair() -> (Chassis, Chassis) {
    let mut a = Chassis::new("if://agent/a".to_string());
    let b = Chassis::new("if://agent/b".to_string());
    a.register_trusted_key("if://agent/b".to_string(), b.public_key());
    (a, b)
}

fn signed_inform(b: &mut Chassis) -> IFMessage {
    let mut msg = message("inform", "", "{\"claim\":\"x\"}");
    msg.ttl = Some(60);
    b.send_message(msg).unwrap()
}

#[test]
fn received_message_is_logged_once() {
    let (mut a, mut b) = pair();
    let signed = signed_inform(&mut b);
    assert_eq!(signed.sender, "if://agent/b");
    assert_eq!(signed.sequence_num, 1);
    assert!(signed.nonce.is_some());
    let before = a.get_witness_chain().len();
    a.receive_message(&signed).unwrap();
    let chain = a.get_witness_chain();
    assert_eq!(chain.len(), before + 1);
    assert_eq!(chain.last().unwrap().event_type, "message_received");
    assert_eq!(chain.last().unwrap().agent_id, "if://agent/a");
    assert_eq!(chain.last().unwrap().payload, signed.record_bytes());
    assert!(a.verify_witness_chain());
}

#[test]
fn replayed_nonce_is_refused() {
    let (mut a, mut b) = pair();
    let signed = signed_inform(&mut b);
    a.receive_message(&signed).unwrap();
    let before = a.get_witness_chain().len();
    assert!(matches!(a.receive_message(&signed), Err(ChassisError::ReplayAttack)));
    assert_eq!(a.get_witness_chain().len(), before);
}

#[test]
fn tampered_performative_is_refused() {
    let (mut a, mut b) = pair();
    let mut signed = signed_inform(&mut b);
    signed.performative = "request".to_string();
    assert!(matches!(a.receive_message(&signed), Err(ChassisError::SignatureError(_))));
    assert_eq!(a.get_witness_chain().len(), 0);
}

#[test]
fn signature_verifies_only_unaltered() {
    let (a, mut b) = pair();
    let signed = signed_inform(&mut b);
    assert!(a.verify_message_signature(&signed).is_ok());

    let mut altered = signed.clone();
    altered.content = "{\"claim\":\"y\"}".to_string();
    assert!(matches!(a.verify_message_signature(&altered), Err(ChassisError::SignatureError(_))));

    let mut altered = signed.clone();
    altered.sequence_num += 1;
    assert!(matches!(a.verify_message_signature(&altered), Err(ChassisError::SignatureError(_))));

    let mut altered = signed.clone();
    let mut hex_sig = altered.signature.clone().unwrap();
    let first = if hex_sig.starts_with('0') { "1" } else { "0" };
    hex_sig.replace_range(0..1, first);
    altered.signature = Some(hex_sig);
    assert!(matches!(a.verify_message_signature(&altered), Err(ChassisError::SignatureError(_))));
}

#[test]
fn malformed_signatures_are_refused() {
    let (a, mut b) = pair();
    let signed = signed_inform(&mut b);

    let mut none = signed.clone();
    none.signature = None;
    assert!(matches!(a.verify_message_signature(&none), Err(ChassisError::SignatureError(_))));

    let mut bad_hex = signed.clone();
    bad_hex.signature = Some("zz".repeat(64));
    assert!(matches!(a.verify_message_signature(&bad_hex), Err(ChassisError::SignatureError(_))));

    let mut short = signed.clone();
    short.signature = Some("ab".repeat(63));
    assert!(matches!(a.verify_message_signature(&short), Err(ChassisError::SignatureError(_))));

    let mut unknown = signed.clone();
    unknown.sender = "if://agent/stranger".to_string();
    assert!(matches!(a.verify_message_signature(&unknown), Err(ChassisError::SignatureError(_))));
}

#[test]
fn signature_is_lowercase_hex_of_sixty_four_bytes() {
    let (_, mut b) = pair();
    let signed = signed_inform(&mut b);
    let sig = signed.signature.unwrap();
    assert_eq!(sig.len(), 128);
    assert!(sig.chars().all(|c| c.is_ascii_digit() || ('a'..='f').contains(&c)));
}

#[test]
fn uppercase_signature_hex_still_verifies() {
    let (a, mut b) = pair();
    let mut signed = signed_inform(&mut b);
    signed.signature = Some(signed.signature.unwrap().to_uppercase());
    assert!(a.verify_message_signature(&signed).is_ok());
}

const T0_TEXT: &str = "2025-11-11T12:00:00+00:00";
const T0: i64 = 1762862400;

fn stamped_at_t0(b: &mut Chassis, nonce: &str) -> IFMessage {
    let mut msg = message("inform", "", "{\"claim\":\"x\"}");
    msg.ttl = Some(60);
    b.send_prepared(msg, T0_TEXT.to_string(), nonce.to_string(), "event-1".to_string())
}

#[test]
fn expired_after_ttl() {
    let (mut a, mut b) = pair();
    let signed = stamped_at_t0(&mut b, "n-1");
    assert_eq!(signed.timestamp, T0_TEXT);
    let r = a.receive_prepared(&signed, T0 + 60 + 1, "later".to_string(), "e".to_string());
    assert!(matches!(r, Err(ChassisError::MessageExpired)));
    assert_eq!(a.get_witness_chain().len(), 0);
}

#[test]
fn not_expired_before_ttl() {
    let (mut a, mut b) = pair();
    let signed = stamped_at_t0(&mut b, "n-2");
    let r = a.receive_prepared(&signed, T0 + 60 - 1, "t".to_string(), "e-7".to_string());
    assert!(r.is_ok());
    let chain = a.get_witness_chain();
    assert_eq!(chain[0].event_id, "e-7");
    assert_eq!(chain[0].timestamp, "t");
    assert_eq!(chain[0].previous_hash, "genesis");
}

#[test]
fn exactly_at_ttl_is_accepted() {
    let (mut a, mut b) = pair();
    let signed = stamped_at_t0(&mut b, "n-3");
    assert!(a.receive_prepared(&signed, T0 + 60, "t".to_string(), "e".to_string()).is_ok());
}

#[test]
fn unreadable_timestamp_is_refused() {
    let (mut a, mut b) = pair();
    let mut msg = message("inform", "", "{}");
    msg.timestamp = "yesterday".to_string();
    msg.ttl = Some(60);
    let signed = b.send_message(msg).unwrap();
    assert!(matches!(a.receive_message(&signed), Err(ChassisError::SerializationError(_))));
}

#[test]
fn missing_ttl_never_expires() {
    let (mut a, mut b) = pair();
    let mut msg = message("inform", "", "{}");
    msg.timestamp = "not a time".to_string();
    let signed = b.send_message(msg).unwrap();
    assert!(a.receive_message(&signed).is_ok());
}

#[test]
fn missing_nonce_skips_replay_check() {
    let (mut a, b) = pair();
    let mut msg = message("inform", "if://agent/b", "{}");
    msg.sequence_num = 9;
    let sig = b.sign_message(&msg);
    msg.signature = Some(hex::encode(sig));
    a.receive_message(&msg).unwrap();
    a.receive_message(&msg).unwrap();
    assert_eq!(a.get_witness_chain().len(), 2);
}

#[test]
fn unknown_sender_is_refused() {
    let mut a = Chassis::new("if://agent/a".to_string());
    let mut b = Chassis::new("if://agent/b".to_string());
    let signed = signed_inform(&mut b);
    assert!(matches!(a.receive_message(&signed), Err(ChassisError::SignatureError(_))));
}

#[test]
fn reregistration_replaces_key() {
    let (mut a, mut b) = pair();
    let other = Chassis::new("if://agent/other".to_string());
    a.register_trusted_key("if://agent/b".to_string(), other.public_key());
    let signed = signed_inform(&mut b);
    assert!(matches!(a.verify_message_signature(&signed), Err(ChassisError::SignatureError(_))));
    a.register_trusted_key("if://agent/b".to_string(), b.public_key());
    assert!(a.verify_message_signature(&signed).is_ok());
}

#[test]
fn sequence_numbers_are_consecutive() {
    let mut c = Chassis::new("if://agent/c".to_string());
    let issued: Vec<u64> = (0..5).map(|_| c.next_sequence()).collect();
    assert_eq!(issued, vec![1, 2, 3, 4, 5]);
    let mut msg = message("inform", "", "{}");
    msg.sequence_num = 77;
    let sent = c.send_message(msg).unwrap();
    assert_eq!(sent.sequence_num, 6);
}

#[test]
fn send_keeps_caller_fields() {
    let mut c = Chassis::new("if://agent/c".to_string());
    let mut msg = message("propose", "if://agent/other", "{}");
    msg.timestamp = "2025-01-01T00:00:00Z".to_string();
    msg.nonce = Some("mine".to_string());
    let sent = c.send_message(msg).unwrap();
    assert_eq!(sent.sender, "if://agent/other");
    assert_eq!(sent.timestamp, "2025-01-01T00:00:00Z");
    assert_eq!(sent.nonce, Some("mine".to_string()));
    assert_eq!(sent.performative, "propose");
    let chain = c.get_witness_chain();
    assert_eq!(chain.len(), 1);
    assert_eq!(chain[0].event_type, "message_sent");
    assert_eq!(chain[0].payload, sent.record_bytes());
}

#[test]
fn log_event_joins_the_chain() {
    let mut c = Chassis::new("if://agent/c".to_string());
    c.send_message(message("inform", "", "{}")).unwrap();
    c.log_event("payload_event".to_string(), "{\"k\":1}".to_string()).unwrap();
    let chain = c.get_witness_chain();
    assert_eq!(chain.len(), 2);
    assert_eq!(chain[1].event_type, "payload_event");
    assert_eq!(chain[1].previous_hash, chain[0].event_hash);
    assert!(c.verify_witness_chain());

    let m = c.log_event_prepared(
        "x".to_string(),
        "{}".to_string(),
        "now".to_string(),
        "tr".to_string(),
        "id".to_string(),
    );
    assert_eq!(m.performative, "log");
    assert_eq!(m.receiver, vec!["if://witness".to_string()]);
    assert_eq!(c.get_witness_chain()[2].payload, m.record_bytes());
}
