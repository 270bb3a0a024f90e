//! The chassis: one agent's identity, trust store, sequence counter, replay
//! cache and witness log, and the send and receive paths through them.
use crate::ambient::{new_uuid, now_rfc3339, now_seconds, parse_rfc3339_seconds, rfc3339_seconds};
use crate::crypto::{derive_public, generate_secret, genuine, public_of, sign_bytes, signature_of, verify_bytes};
use crate::error::ChassisError;
use crate::guard::{
    decide, decided, distinct_keys, expired, held, is_expired, live_at, recorded, GuardDecision, NonceCache,
    NONCE_WINDOW,
};
use crate::hexform::{from_hex, hex_bytes, hex_text, is_hex_encoding, lemma_hex_round_trip, to_hex};
use crate::message::{canonical, record, IFMessage};
use crate::witness::{appended, chain_valid, genesis, same_event, WitnessChain, WitnessEvent};
use vstd::array::ArrayAdditionalExecFns;
use vstd::prelude::*;

verus! {

/// A trusted agent and its Ed25519 public key.
pub struct TrustedKey {
    pub agent_id: String,
    pub key: [u8; 32],
}

/// The key registered last for `id`, if any.
pub open spec fn lookup(s: Seq<TrustedKey>, id: Seq<char>) -> Option<Seq<u8>>
    decreases s.len(),
{
    if s.len() == 0 {
        None
    } else if s.last().agent_id@ == id {
        Some(s.last().key@)
    } else {
        lookup(s.drop_last(), id)
    }
}

/// The signature bytes that a message carries: present only where its
/// signature field is the hex text of exactly 64 bytes.
pub open spec fn carried_signature(m: IFMessage) -> Option<Seq<u8>> {
    match m.signature {
        None => None,
        Some(s) => if is_hex_encoding(s@) && hex_bytes(s@).len() == 64 {
            Some(hex_bytes(s@))
        } else {
            None
        },
    }
}

/// The message carries a signature that the secret key belonging to `key`
/// made over its canonical form.
pub open spec fn genuinely_signed(key: Option<Seq<u8>>, m: IFMessage) -> bool {
    match (carried_signature(m), key) {
        (Some(sig), Some(k)) => genuine(k, canonical(m), sig),
        _ => false,
    }
}

/// A message whose timestamp cannot be read though its time-to-live needs it.
pub open spec fn unreadable_time(m: IFMessage) -> bool {
    m.ttl is Some && rfc3339_seconds(m.timestamp@) is None
}

/// A message whose time-to-live has passed at `now`.
pub open spec fn too_old(m: IFMessage, now: int) -> bool {
    m.ttl matches Some(t) && rfc3339_seconds(m.timestamp@) matches Some(ts) && expired(
        ts as int,
        t as int,
        now,
    )
}

/// A message that carries a nonce already in the cache `v`.
pub open spec fn replayed(v: Seq<(Seq<char>, int)>, m: IFMessage) -> bool {
    m.nonce matches Some(n) && held(v, n@)
}

/// The cache after a message passes the replay check at `now`.
pub open spec fn after_nonce(v: Seq<(Seq<char>, int)>, m: IFMessage, now: int) -> Seq<(Seq<char>, int)> {
    match m.nonce {
        None => v,
        Some(n) => recorded(v, n@, now),
    }
}

/// One agent's trust layer.
pub struct Chassis {
    /// Agent identity, such as "if://agent/swarm/name@1".
    pub agent_id: String,
    secret_key: [u8; 32],
    verifying_key: [u8; 32],
    trusted_keys: Vec<TrustedKey>,
    witness_chain: WitnessChain,
    sequence: u64,
    nonce_cache: NonceCache,
}

impl Chassis {
    /// The agent identity.
    pub closed spec fn id(&self) -> Seq<char> {
        self.agent_id@
    }

    pub closed spec fn secret(&self) -> Seq<u8> {
        self.secret_key@
    }

    pub closed spec fn public(&self) -> Seq<u8> {
        self.verifying_key@
    }

    /// The key trusted for `id`.
    pub closed spec fn trusted(&self, id: Seq<char>) -> Option<Seq<u8>> {
        lookup(self.trusted_keys@, id)
    }

    pub closed spec fn chain(&self) -> Seq<WitnessEvent> {
        self.witness_chain.events@
    }

    /// The last sequence number issued.
    pub closed spec fn sequence(&self) -> u64 {
        self.sequence
    }

    pub closed spec fn nonces(&self) -> Seq<(Seq<char>, int)> {
        self.nonce_cache.view()
    }

    pub open spec fn wf(&self) -> bool {
        &&& chain_valid(self.chain())
        &&& self.chain().len() > 0 ==> self.chain()[0].previous_hash@ == genesis()
        &&& distinct_keys(self.nonces())
        &&& self.public() == public_of(self.secret())
    }

    /// Identity, key pair and trust store are as in `old`.
    pub open spec fn same_identity(&self, old: &Chassis) -> bool {
        &&& self.id() == old.id()
        &&& self.secret() == old.secret()
        &&& self.public() == old.public()
        &&& forall|id: Seq<char>| #[trigger] self.trusted(id) == old.trusted(id)
    }

    /// A chassis with a fresh key pair, no trusted keys and an empty log.
    pub fn new(agent_id: String) -> (r: Chassis)
        ensures
            r.wf(),
            r.id() == agent_id@,
            r.chain().len() == 0,
            r.sequence() == 0,
            r.nonces().len() == 0,
            forall|id: Seq<char>| #[trigger] r.trusted(id) is None,
    {
        let secret_key = generate_secret();
        let verifying_key = derive_public(&secret_key);
        let r = Chassis {
            agent_id,
            secret_key,
            verifying_key,
            trusted_keys: Vec::new(),
            witness_chain: WitnessChain::new(),
            sequence: 0,
            nonce_cache: NonceCache::new(),
        };
        r
    }

    /// The public key, for exchange with other agents.
    pub fn public_key(&self) -> (r: [u8; 32])
        ensures
            r@ == self.public(),
    {
        self.verifying_key
    }

    /// Trusts `public_key` for `agent_id`, replacing any key registered for
    /// it before.
    pub fn register_trusted_key(&mut self, agent_id: String, public_key: [u8; 32])
        requires
            old(self).wf(),
        ensures
            final(self).wf(),
            final(self).id() == old(self).id(),
            final(self).secret() == old(self).secret(),
            final(self).public() == old(self).public(),
            final(self).chain() == old(self).chain(),
            final(self).sequence() == old(self).sequence(),
            final(self).nonces() == old(self).nonces(),
            final(self).trusted(agent_id@) == Some(public_key@),
            forall|id: Seq<char>| id != agent_id@ ==> #[trigger] final(self).trusted(id) == old(self).trusted(id),
    {
        self.trusted_keys.push(TrustedKey { agent_id, key: public_key });
        assert(self.trusted_keys@.drop_last() =~= old(self).trusted_keys@);
    }

    fn find_key(&self, id: &String) -> (r: Option<[u8; 32]>)
        ensures
            r matches Some(k) ==> self.trusted(id@) == Some(k@),
            r is None ==> self.trusted(id@) is None,
    {
        let ghost all = self.trusted_keys@;
        let mut i: usize = self.trusted_keys.len();
        assert(all.subrange(0, i as int) =~= all);
        while i > 0
            invariant
                i <= all.len(),
                all == self.trusted_keys@,
                lookup(all, id@) == lookup(all.subrange(0, i as int), id@),
            decreases i,
        {
            assert(all.subrange(0, i as int).drop_last() =~= all.subrange(0, i - 1));
            if self.trusted_keys[i - 1].agent_id == *id {
                return Some(self.trusted_keys[i - 1].key);
            }
            i = i - 1;
        }
        None
    }

    /// Issues the next sequence number: one more than the last.
    pub fn next_sequence(&mut self) -> (r: u64)
        requires
            old(self).wf(),
            old(self).sequence() < u64::MAX,
        ensures
            final(self).wf(),
            final(self).same_identity(old(self)),
            final(self).chain() == old(self).chain(),
            final(self).nonces() == old(self).nonces(),
            r == old(self).sequence() + 1,
            final(self).sequence() == r,
    {
        self.sequence = self.sequence + 1;
        self.sequence
    }

    /// The Ed25519 signature of the message's canonical form.
    pub fn sign_message(&self, msg: &IFMessage) -> (r: [u8; 64])
        ensures
            r@ == signature_of(self.secret(), canonical(*msg)),
            signature_of(self.secret(), canonical(*msg)).len() == 64,
    {
        let canonical = msg.canonical_bytes();
        sign_bytes(&self.secret_key, canonical.as_slice())
    }

    /// Checks the message's signature against the key trusted for its
    /// sender, over the canonical form.
    pub fn verify_message_signature(&self, msg: &IFMessage) -> (r: Result<(), ChassisError>)
        ensures
            r is Err ==> (r matches Err(ChassisError::SignatureError(_))),
            carried_signature(*msg) is None ==> r is Err,
            self.trusted(msg.sender@) is None ==> r is Err,
            genuinely_signed(self.trusted(msg.sender@), *msg) ==> r is Ok,
    {
        let signature_hex = match &msg.signature {
            None => {
                return Err(ChassisError::SignatureError("No signature present".to_owned()));
            },
            Some(s) => s,
        };
        let signature_bytes = match from_hex(signature_hex.as_str()) {
            None => {
                return Err(ChassisError::SignatureError("Invalid hex".to_owned()));
            },
            Some(b) => b,
        };
        if signature_bytes.len() != 64 {
            return Err(ChassisError::SignatureError("Invalid signature length".to_owned()));
        }
        let signature = to_array64(&signature_bytes);
        let public_key = match self.find_key(&msg.sender) {
            None => {
                return Err(ChassisError::SignatureError("Unknown sender".to_owned()));
            },
            Some(k) => k,
        };
        let canonical = msg.canonical_bytes();
        if verify_bytes(&public_key, canonical.as_slice(), &signature) {
            Ok(())
        } else {
            Err(ChassisError::SignatureError("Verification failed".to_owned()))
        }
    }

    fn log_witness_event(
        &mut self,
        event_type: String,
        payload: &IFMessage,
        event_id: String,
        timestamp: String,
    )
        requires
            old(self).wf(),
        ensures
            final(self).wf(),
            final(self).same_identity(old(self)),
            final(self).sequence() == old(self).sequence(),
            final(self).nonces() == old(self).nonces(),
            appended(
                old(self).chain(),
                final(self).chain(),
                event_id@,
                event_type@,
                old(self).id(),
                timestamp@,
                record(*payload),
            ),
    {
        let agent_id = self.agent_id.clone();
        let bytes = payload.record_bytes();
        self.witness_chain.append(event_id, event_type, agent_id, timestamp, bytes);
    }

    /// The send path with the clock reading, the fresh nonce and the event
    /// identifier given: fills in sender, timestamp, sequence number and
    /// nonce, signs, and logs a "message_sent" event with the signed message.
    pub fn send_prepared(&mut self, msg: IFMessage, now: String, nonce: String, event_id: String) -> (r:
        IFMessage)
        requires
            old(self).wf(),
            old(self).sequence() < u64::MAX,
        ensures
            final(self).wf(),
            final(self).same_identity(old(self)),
            final(self).nonces() == old(self).nonces(),
            final(self).sequence() == old(self).sequence() + 1,
            r.performative == msg.performative,
            r.receiver == msg.receiver,
            r.content == msg.content,
            r.trace_id == msg.trace_id,
            r.hazard == msg.hazard,
            r.citation_ids == msg.citation_ids,
            r.ttl == msg.ttl,
            r.sender@ == (if msg.sender@.len() == 0 {
                old(self).id()
            } else {
                msg.sender@
            }),
            r.timestamp@ == (if msg.timestamp@.len() == 0 {
                now@
            } else {
                msg.timestamp@
            }),
            r.sequence_num == old(self).sequence() + 1,
            msg.nonce is Some ==> r.nonce == msg.nonce,
            msg.nonce is None ==> r.nonce == Some(nonce),
            r.signature matches Some(s) && s@ == hex_text(signature_of(old(self).secret(), canonical(r))),
            signature_of(old(self).secret(), canonical(r)).len() == 64,
            appended(
                old(self).chain(),
                final(self).chain(),
                event_id@,
                "message_sent"@,
                old(self).id(),
                now@,
                record(r),
            ),
    {
        let mut m = msg;
        if m.sender.as_str().is_empty() {
            m.sender = self.agent_id.clone();
        }
        if m.timestamp.as_str().is_empty() {
            m.timestamp = now.clone();
        }
        m.sequence_num = self.next_sequence();
        if m.nonce.is_none() {
            m.nonce = Some(nonce);
        }
        m.signature = None;
        let signature = self.sign_message(&m);
        m.signature = Some(to_hex(signature.as_slice()));
        assert(canonical(m) == canonical(IFMessage { signature: None, ..m }));
        self.log_witness_event("message_sent".to_owned(), &m, event_id, now);
        m
    }

    /// Stamps, signs and logs a message, as [`Chassis::send_prepared`] does
    /// with the current time and fresh identifiers, and hands the signed
    /// message back for transport.
    pub fn send_message(&mut self, msg: IFMessage) -> (r: Result<IFMessage, ChassisError>)
        requires
            old(self).wf(),
            old(self).sequence() < u64::MAX,
        ensures
            final(self).wf(),
            final(self).same_identity(old(self)),
            final(self).nonces() == old(self).nonces(),
            final(self).sequence() == old(self).sequence() + 1,
            r matches Ok(m) && m.sequence_num == old(self).sequence() + 1 && m.sender@ == (if msg.sender@.len()
                == 0 {
                old(self).id()
            } else {
                msg.sender@
            }) && m.performative == msg.performative && m.content == msg.content && m.nonce is Some
                && (msg.nonce is Some ==> m.nonce == msg.nonce) && (m.signature matches Some(s) && s@
                == hex_text(signature_of(old(self).secret(), canonical(m)))) && appended(
                old(self).chain(),
                final(self).chain(),
                final(self).chain().last().event_id@,
                "message_sent"@,
                old(self).id(),
                final(self).chain().last().timestamp@,
                record(m),
            ),
    {
        let now = now_rfc3339();
        let nonce = new_uuid();
        let event_id = new_uuid();
        Ok(self.send_prepared(msg, now, nonce, event_id))
    }

    /// The receive path at Unix time `now`, with the clock's RFC 3339 text
    /// and the event identifier given: time-to-live check, replay check,
    /// signature check, then a "message_received" event. A refused message
    /// leaves the log as it was.
    pub fn receive_prepared(&mut self, msg: &IFMessage, now: i64, now_text: String, event_id: String)
        -> (r: Result<(), ChassisError>)
        requires
            old(self).wf(),
        ensures
            final(self).wf(),
            final(self).same_identity(old(self)),
            final(self).sequence() == old(self).sequence(),
            unreadable_time(*msg) ==> (r matches Err(ChassisError::SerializationError(_)))
                && final(self).nonces() == old(self).nonces(),
            !unreadable_time(*msg) && too_old(*msg, now as int) ==> (r matches Err(
                ChassisError::MessageExpired,
            )) && final(self).nonces() == old(self).nonces(),
            !unreadable_time(*msg) && !too_old(*msg, now as int) && replayed(old(self).nonces(), *msg)
                ==> (r matches Err(ChassisError::ReplayAttack)) && final(self).nonces() == old(
                self,
            ).nonces(),
            !unreadable_time(*msg) && !too_old(*msg, now as int) && !replayed(old(self).nonces(), *msg)
                ==> final(self).nonces() == after_nonce(old(self).nonces(), *msg, now as int),
            !unreadable_time(*msg) && !too_old(*msg, now as int) && !replayed(old(self).nonces(), *msg)
                && (carried_signature(*msg) is None || old(self).trusted(msg.sender@) is None) ==> (r matches Err(
                ChassisError::SignatureError(_),
            )),
            !unreadable_time(*msg) && !too_old(*msg, now as int) && !replayed(old(self).nonces(), *msg)
                && genuinely_signed(old(self).trusted(msg.sender@), *msg) ==> r is Ok,
            r is Ok ==> !unreadable_time(*msg) && !too_old(*msg, now as int) && !replayed(
                old(self).nonces(),
                *msg,
            ) && carried_signature(*msg) is Some && old(self).trusted(msg.sender@) is Some && appended(
                old(self).chain(),
                final(self).chain(),
                event_id@,
                "message_received"@,
                old(self).id(),
                now_text@,
                record(*msg),
            ),
            r is Err ==> final(self).chain() == old(self).chain(),
    {
        if let Some(ttl) = msg.ttl {
            let msg_time = match parse_rfc3339_seconds(msg.timestamp.as_str()) {
                None => {
                    return Err(ChassisError::SerializationError("Invalid timestamp".to_owned()));
                },
                Some(t) => t,
            };
            if is_expired(msg_time, ttl, now) {
                return Err(ChassisError::MessageExpired);
            }
        }
        if let Some(nonce) = &msg.nonce {
            let checked = self.nonce_cache.check_and_record(nonce, now);
            if checked.is_err() {
                return Err(ChassisError::ReplayAttack);
            }
        }
        let verified = self.verify_message_signature(msg);
        match verified {
            Err(e) => {
                return Err(e);
            },
            Ok(()) => {},
        }
        self.log_witness_event("message_received".to_owned(), msg, event_id, now_text);
        Ok(())
    }

    /// Receives a message at the current time, as
    /// [`Chassis::receive_prepared`] does.
    pub fn receive_message(&mut self, msg: &IFMessage) -> (r: Result<(), ChassisError>)
        requires
            old(self).wf(),
        ensures
            final(self).wf(),
            final(self).same_identity(old(self)),
            final(self).sequence() == old(self).sequence(),
            msg.ttl is None && replayed(old(self).nonces(), *msg) ==> (r matches Err(
                ChassisError::ReplayAttack,
            )),
            msg.ttl is None && !replayed(old(self).nonces(), *msg) && genuinely_signed(
                old(self).trusted(msg.sender@),
                *msg,
            ) ==> r is Ok,
            r is Ok ==> !replayed(old(self).nonces(), *msg) && carried_signature(*msg) is Some && old(
                self,
            ).trusted(msg.sender@) is Some && appended(
                old(self).chain(),
                final(self).chain(),
                final(self).chain().last().event_id@,
                "message_received"@,
                old(self).id(),
                final(self).chain().last().timestamp@,
                record(*msg),
            ),
            r is Err ==> final(self).chain() == old(self).chain(),
    {
        let now = now_seconds();
        let now_text = now_rfc3339();
        let event_id = new_uuid();
        self.receive_prepared(msg, now, now_text, event_id)
    }

    /// Logs an extension's event under this chassis's identity: `data`
    /// (JSON text) travels as the content of a "log" message from this agent
    /// to "if://witness", stamped with `now` and traced as `trace_id`.
    pub fn log_event_prepared(
        &mut self,
        event_type: String,
        data: String,
        now: String,
        trace_id: String,
        event_id: String,
    ) -> (r: IFMessage)
        requires
            old(self).wf(),
        ensures
            final(self).wf(),
            final(self).same_identity(old(self)),
            final(self).sequence() == old(self).sequence(),
            final(self).nonces() == old(self).nonces(),
            r.performative@ == "log"@,
            r.sender@ == old(self).id(),
            r.receiver@.len() == 1 && r.receiver@[0]@ == "if://witness"@,
            r.content == data,
            r.timestamp == now,
            r.sequence_num == 0,
            r.trace_id == trace_id,
            r.hazard is None && r.citation_ids is None && r.nonce is None && r.ttl is None,
            r.signature is None,
            appended(
                old(self).chain(),
                final(self).chain(),
                event_id@,
                event_type@,
                old(self).id(),
                now@,
                record(r),
            ),
    {
        let timestamp = now.clone();
        let msg = IFMessage {
            performative: "log".to_owned(),
            sender: self.agent_id.clone(),
            receiver: vec!["if://witness".to_owned()],
            content: data,
            timestamp: now,
            sequence_num: 0,
            trace_id,
            hazard: None,
            citation_ids: None,
            nonce: None,
            ttl: None,
            signature: None,
        };
        self.log_witness_event(event_type, &msg, event_id, timestamp);
        msg
    }

    /// Logs an extension's event, as [`Chassis::log_event_prepared`] does
    /// with the current time and fresh identifiers.
    pub fn log_event(&mut self, event_type: String, data: String) -> (r: Result<(), ChassisError>)
        requires
            old(self).wf(),
        ensures
            r is Ok,
            final(self).wf(),
            final(self).same_identity(old(self)),
            final(self).sequence() == old(self).sequence(),
            final(self).nonces() == old(self).nonces(),
            exists|m: IFMessage|
                m.performative@ == "log"@ && m.sender@ == old(self).id() && m.content == data
                    && m.signature is None && #[trigger] appended(
                    old(self).chain(),
                    final(self).chain(),
                    final(self).chain().last().event_id@,
                    event_type@,
                    old(self).id(),
                    final(self).chain().last().timestamp@,
                    record(m),
                ),
    {
        let now = now_rfc3339();
        let trace_id = new_uuid();
        let event_id = new_uuid();
        let _logged = self.log_event_prepared(event_type, data, now, trace_id, event_id);
        Ok(())
    }

    /// The built-in policy rule; see [`decide`].
    pub fn check_policy(&self, action: &str, resource: &str) -> (r: GuardDecision)
        ensures
            decided(action@, resource@, r),
    {
        decide(action, resource)
    }

    /// A copy of the witness log, oldest event first.
    pub fn get_witness_chain(&self) -> (r: Vec<WitnessEvent>)
        ensures
            r@.len() == self.chain().len(),
            forall|i: int| 0 <= i < r@.len() ==> same_event(#[trigger] r@[i], self.chain()[i]),
    {
        self.witness_chain.snapshot()
    }

    /// Recomputes every event's hash and checks every link.
    pub fn verify_witness_chain(&self) -> (r: bool)
        ensures
            r == chain_valid(self.chain()),
    {
        self.witness_chain.verify()
    }
}

/// The calls that a hosted logic payload makes back into its chassis.
pub trait ChassisHost {
    /// The host is in a state to serve calls.
    spec fn ready(&self) -> bool;

    /// The host can issue one more sequence number.
    spec fn can_send(&self) -> bool;

    fn send_message(&mut self, msg: IFMessage) -> (r: Result<IFMessage, ChassisError>)
        requires
            old(self).ready(),
            old(self).can_send(),
        ensures
            final(self).ready(),
    ;

    fn check_policy(&self, action: &str, resource: &str) -> (r: GuardDecision)
        ensures
            decided(action@, resource@, r),
    ;

    fn log_event(&mut self, event_type: String, data: String) -> (r: Result<(), ChassisError>)
        requires
            old(self).ready(),
        ensures
            final(self).ready(),
    ;
}

impl ChassisHost for Chassis {
    open spec fn ready(&self) -> bool {
        self.wf()
    }

    open spec fn can_send(&self) -> bool {
        self.sequence() < u64::MAX
    }

    fn send_message(&mut self, msg: IFMessage) -> (r: Result<IFMessage, ChassisError>) {
        Chassis::send_message(self, msg)
    }

    fn check_policy(&self, action: &str, resource: &str) -> (r: GuardDecision) {
        Chassis::check_policy(self, action, resource)
    }

    fn log_event(&mut self, event_type: String, data: String) -> (r: Result<(), ChassisError>) {
        Chassis::log_event(self, event_type, data)
    }
}

/// What one chassis signs, another accepts: where the receiver trusts the
/// sender's public key for the message's sender, the signature that the
/// sender put on the message verifies.
pub proof fn lemma_signed_message_verifies(sender: &Chassis, receiver: &Chassis, m: IFMessage)
    requires
        sender.wf(),
        m.signature matches Some(s) && s@ == hex_text(signature_of(sender.secret(), canonical(m))),
        signature_of(sender.secret(), canonical(m)).len() == 64,
        receiver.trusted(m.sender@) == Some(sender.public()),
    ensures
        genuinely_signed(receiver.trusted(m.sender@), m),
{
    let sig = signature_of(sender.secret(), canonical(m));
    lemma_hex_round_trip(sig);
    assert(carried_signature(m) == Some(sig));
    assert(genuine(sender.public(), canonical(m), sig));
}

/// The time-to-live boundary: a message stamped `t0` with time-to-live `t`
/// is too old one second after `t0 + t`, and not one second before.
pub proof fn lemma_ttl_boundary(m: IFMessage, t0: i64, t: u64)
    requires
        m.ttl == Some(t),
        rfc3339_seconds(m.timestamp@) == Some(t0),
    ensures
        too_old(m, t0 + t + 1),
        !too_old(m, t0 + t - 1),
{
}

/// A nonce that passed the replay check is in the cache afterwards, so the
/// same nonce is refused as a replay the next time.
pub proof fn lemma_recorded_nonce_replays(v: Seq<(Seq<char>, int)>, m: IFMessage, now: int)
    requires
        m.nonce is Some,
    ensures
        replayed(after_nonce(v, m, now), m),
{
    let n = m.nonce->Some_0@;
    let all = v.push((n, now + NONCE_WINDOW));
    assert(live_at(now)(all[all.len() - 1]));
    all.lemma_filter_contains(live_at(now), all.len() - 1);
    let f = all.filter(live_at(now));
    let k = choose|k: int| 0 <= k < f.len() && f[k] == all[all.len() - 1];
    assert(f[k].0 == n);
}

fn to_array64(v: &Vec<u8>) -> (r: [u8; 64])
    requires
        v@.len() == 64,
    ensures
        r@ == v@,
{
    let mut a: [u8; 64] = [0u8; 64];
    let mut i: usize = 0;
    while i < 64
        invariant
            i <= 64,
            a@.len() == 64,
            v@.len() == 64,
            forall|k: int| 0 <= k < i ==> a@[k] == v@[k],
        decreases 64 - i,
    {
        a.set(i, v[i]);
        i = i + 1;
    }
    assert(a@ =~= v@);
    a
}

} // verus!
