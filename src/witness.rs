//! The witness log: an append-only chain of events, each hashing its own
//! content and the hash of the event before it.
use crate::codec::{frame, push_bytes, push_frame, push_str_frame, utf8};
use crate::crypto::{sha256, sha256_of};
use crate::hexform::{hex_text, to_hex};
use vstd::prelude::*;

verus! {

/// One audit record.
#[derive(Debug, Clone)]
pub struct WitnessEvent {
    pub event_id: String,
    /// "message_sent", "message_received", or a type that an extension logs.
    pub event_type: String,
    pub agent_id: String,
    /// RFC 3339 time of logging.
    pub timestamp: String,
    /// The logged value in its canonical byte form.
    pub payload: Vec<u8>,
    /// `event_hash` of the event before, or "genesis" for the first.
    pub previous_hash: String,
    /// Lowercase hex SHA-256 of [`event_content`] of this event.
    pub event_hash: String,
}

/// The previous-hash sentinel of the first event.
pub open spec fn genesis() -> Seq<char> {
    seq!['g', 'e', 'n', 'e', 's', 'i', 's']
}

/// The bytes that an event's hash covers: every field but the hash itself.
pub open spec fn event_content(e: WitnessEvent) -> Seq<u8> {
    frame(utf8(e.event_id@)) + frame(utf8(e.event_type@)) + frame(
        utf8(e.agent_id@),
    ) + frame(utf8(e.timestamp@)) + frame(e.payload@) + frame(utf8(e.previous_hash@))
}

/// The hash text that an event ought to carry.
pub open spec fn expected_hash(e: WitnessEvent) -> Seq<char> {
    hex_text(sha256_of(event_content(e)))
}

/// Every event carries the hash of its own content, and every event after
/// the first names the hash of the event before it.
pub open spec fn chain_valid(c: Seq<WitnessEvent>) -> bool {
    forall|i: int|
        0 <= i < c.len() ==> (#[trigger] c[i]).event_hash@ == expected_hash(c[i]) && (i > 0
            ==> c[i].previous_hash@ == c[i - 1].event_hash@)
}

/// The previous hash that the next appended event takes.
pub open spec fn tail_hash(c: Seq<WitnessEvent>) -> Seq<char> {
    if c.len() == 0 {
        genesis()
    } else {
        c.last().event_hash@
    }
}

/// `new` is `old` with one event more, whose fields are the given ones,
/// which links to the tail of `old` and carries its own hash.
pub open spec fn appended(
    old: Seq<WitnessEvent>,
    new: Seq<WitnessEvent>,
    event_id: Seq<char>,
    event_type: Seq<char>,
    agent_id: Seq<char>,
    timestamp: Seq<char>,
    payload: Seq<u8>,
) -> bool {
    &&& new.len() == old.len() + 1
    &&& new.subrange(0, old.len() as int) == old
    &&& new.last().event_id@ == event_id
    &&& new.last().event_type@ == event_type
    &&& new.last().agent_id@ == agent_id
    &&& new.last().timestamp@ == timestamp
    &&& new.last().payload@ == payload
    &&& new.last().previous_hash@ == tail_hash(old)
    &&& new.last().event_hash@ == expected_hash(new.last())
}

/// Appending keeps a chain valid: a log built by appends alone always
/// verifies.
pub proof fn lemma_append_keeps_valid(
    old: Seq<WitnessEvent>,
    new: Seq<WitnessEvent>,
    event_id: Seq<char>,
    event_type: Seq<char>,
    agent_id: Seq<char>,
    timestamp: Seq<char>,
    payload: Seq<u8>,
)
    requires
        chain_valid(old),
        appended(old, new, event_id, event_type, agent_id, timestamp, payload),
    ensures
        chain_valid(new),
{
    assert forall|i: int| 0 <= i < new.len() implies (#[trigger] new[i]).event_hash@ == expected_hash(
        new[i],
    ) && (i > 0 ==> new[i].previous_hash@ == new[i - 1].event_hash@) by {
        if i < old.len() {
            assert(new[i] == new.subrange(0, old.len() as int)[i]);
            if i > 0 {
                assert(new[i - 1] == new.subrange(0, old.len() as int)[i - 1]);
            }
        } else if i > 0 {
            assert(new[i - 1] == new.subrange(0, old.len() as int)[i - 1]);
        }
    }
}

/// Two events agree on every field.
pub open spec fn same_event(a: WitnessEvent, b: WitnessEvent) -> bool {
    a.event_id@ == b.event_id@ && a.event_type@ == b.event_type@ && a.agent_id@ == b.agent_id@
        && a.timestamp@ == b.timestamp@ && a.payload@ == b.payload@ && a.previous_hash@
        == b.previous_hash@ && a.event_hash@ == b.event_hash@
}

pub fn content_bytes(e: &WitnessEvent) -> (r: Vec<u8>)
    ensures
        r@ == event_content(*e),
{
    let mut out: Vec<u8> = Vec::new();
    push_str_frame(&mut out, e.event_id.as_str());
    assert(out@ =~= frame(utf8(e.event_id@)));
    push_str_frame(&mut out, e.event_type.as_str());
    push_str_frame(&mut out, e.agent_id.as_str());
    push_str_frame(&mut out, e.timestamp.as_str());
    push_frame(&mut out, e.payload.as_slice());
    push_str_frame(&mut out, e.previous_hash.as_str());
    out
}

/// The hash text of an event's content.
pub fn hash_event(e: &WitnessEvent) -> (r: String)
    ensures
        r@ == expected_hash(*e),
{
    let content = content_bytes(e);
    let digest = sha256(content.as_slice());
    to_hex(digest.as_slice())
}

fn copy_string(s: &String) -> (r: String)
    ensures
        r@ == s@,
{
    s.clone()
}

/// A field-by-field copy of an event.
pub fn copy_event(e: &WitnessEvent) -> (r: WitnessEvent)
    ensures
        same_event(r, *e),
{
    let mut payload: Vec<u8> = Vec::new();
    push_bytes(&mut payload, e.payload.as_slice());
    assert(payload@ =~= e.payload@);
    WitnessEvent {
        event_id: copy_string(&e.event_id),
        event_type: copy_string(&e.event_type),
        agent_id: copy_string(&e.agent_id),
        timestamp: copy_string(&e.timestamp),
        payload,
        previous_hash: copy_string(&e.previous_hash),
        event_hash: copy_string(&e.event_hash),
    }
}

/// An append-only, hash-linked log of events.
pub struct WitnessChain {
    pub events: Vec<WitnessEvent>,
}

impl WitnessChain {
    /// Valid, and the first event names the genesis sentinel.
    pub open spec fn wf(&self) -> bool {
        chain_valid(self.events@) && (self.events@.len() > 0 ==> self.events@[0].previous_hash@
            == genesis())
    }

    pub fn new() -> (r: WitnessChain)
        ensures
            r.wf(),
            r.events@.len() == 0,
    {
        WitnessChain { events: Vec::new() }
    }

    pub fn len(&self) -> (r: usize)
        ensures
            r == self.events@.len(),
    {
        self.events.len()
    }

    /// Appends an event that links to the current tail and carries the hash
    /// of its own content. Earlier events are left as they were.
    pub fn append(
        &mut self,
        event_id: String,
        event_type: String,
        agent_id: String,
        timestamp: String,
        payload: Vec<u8>,
    ) -> (r: WitnessEvent)
        requires
            old(self).wf(),
        ensures
            final(self).wf(),
            appended(
                old(self).events@,
                final(self).events@,
                event_id@,
                event_type@,
                agent_id@,
                timestamp@,
                payload@,
            ),
            final(self).events@.len() == old(self).events@.len() + 1,
            final(self).events@.subrange(0, old(self).events@.len() as int) == old(self).events@,
            same_event(r, final(self).events@.last()),
            r.event_id@ == event_id@,
            r.event_type@ == event_type@,
            r.agent_id@ == agent_id@,
            r.timestamp@ == timestamp@,
            r.payload@ == payload@,
            r.previous_hash@ == tail_hash(old(self).events@),
            r.event_hash@ == expected_hash(r),
    {
        let n = self.events.len();
        let previous_hash = if n == 0 {
            let g = "genesis".to_owned();
            proof {
                reveal_strlit("genesis");
            }
            assert(g@ =~= genesis());
            g
        } else {
            copy_string(&self.events[n - 1].event_hash)
        };
        let mut event = WitnessEvent {
            event_id,
            event_type,
            agent_id,
            timestamp,
            payload,
            previous_hash,
            event_hash: String::new(),
        };
        let hash = hash_event(&event);
        event.event_hash = hash;
        let r = copy_event(&event);
        self.events.push(event);
        assert(self.events@.subrange(0, n as int) =~= old(self).events@);
        r
    }

    /// True exactly when the chain is valid.
    pub fn verify(&self) -> (r: bool)
        ensures
            r == chain_valid(self.events@),
    {
        let mut i: usize = 0;
        while i < self.events.len()
            invariant
                i <= self.events@.len(),
                forall|k: int|
                    0 <= k < i ==> (#[trigger] self.events@[k]).event_hash@ == expected_hash(
                        self.events@[k],
                    ) && (k > 0 ==> self.events@[k].previous_hash@ == self.events@[k - 1].event_hash@),
            decreases self.events@.len() - i,
        {
            let e = &self.events[i];
            let calculated = hash_event(e);
            if calculated != e.event_hash {
                return false;
            }
            if i > 0 {
                if e.previous_hash != self.events[i - 1].event_hash {
                    return false;
                }
            }
            i = i + 1;
        }
        true
    }

    /// A copy of every event, in order.
    pub fn snapshot(&self) -> (r: Vec<WitnessEvent>)
        ensures
            r@.len() == self.events@.len(),
            forall|i: int| 0 <= i < r@.len() ==> same_event(#[trigger] r@[i], self.events@[i]),
    {
        let mut out: Vec<WitnessEvent> = Vec::new();
        let mut i: usize = 0;
        while i < self.events.len()
            invariant
                i <= self.events@.len(),
                out@.len() == i,
                forall|k: int| 0 <= k < i ==> same_event(#[trigger] out@[k], self.events@[k]),
            decreases self.events@.len() - i,
        {
            out.push(copy_event(&self.events[i]));
            i = i + 1;
        }
        out
    }
}

} // verus!
