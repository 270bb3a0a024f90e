//! Expiry and replay guards for inbound messages, and the policy decision
//! point.
use crate::error::ChassisError;
use vstd::prelude::*;
use vstd::utf8::encode_utf8;

verus! {

/// How long, in seconds, a nonce stays in the replay cache.
pub const NONCE_WINDOW: i64 = 3600;

/// A message stamped at `timestamp` with time-to-live `ttl` has expired at
/// `now` when more than `ttl` seconds have passed.
pub open spec fn expired(timestamp: int, ttl: int, now: int) -> bool {
    now - timestamp > ttl
}

pub fn is_expired(timestamp: i64, ttl: u64, now: i64) -> (r: bool)
    ensures
        r == expired(timestamp as int, ttl as int, now as int),
{
    (now as i128 - timestamp as i128) > ttl as i128
}

/// One entry of the replay cache: a nonce and when it may be evicted.
pub struct NonceEntry {
    pub nonce: String,
    pub expiry: i128,
}

/// Nonces seen so far, each with its eviction time. A nonce appears at most
/// once.
pub struct NonceCache {
    pub entries: Vec<NonceEntry>,
}

pub open spec fn entry_view(e: NonceEntry) -> (Seq<char>, int) {
    (e.nonce@, e.expiry as int)
}

/// Some entry of the cache is for `nonce`.
pub open spec fn held(v: Seq<(Seq<char>, int)>, nonce: Seq<char>) -> bool {
    exists|i: int| 0 <= i < v.len() && #[trigger] v[i].0 == nonce
}

/// The cache after `nonce` is recorded at `now` and stale entries are
/// evicted.
pub open spec fn recorded(v: Seq<(Seq<char>, int)>, nonce: Seq<char>, now: int) -> Seq<(Seq<char>, int)> {
    v.push((nonce, now + NONCE_WINDOW)).filter(live_at(now))
}

/// No nonce appears twice.
pub open spec fn distinct_keys(v: Seq<(Seq<char>, int)>) -> bool {
    forall|i: int, j: int| 0 <= i < j < v.len() ==> #[trigger] v[i].0 != #[trigger] v[j].0
}

pub open spec fn live_at(now: int) -> spec_fn((Seq<char>, int)) -> bool {
    |e: (Seq<char>, int)| e.1 > now
}

impl NonceCache {
    /// The cache as (nonce, expiry) pairs, oldest first.
    pub open spec fn view(&self) -> Seq<(Seq<char>, int)> {
        self.entries@.map_values(|e: NonceEntry| entry_view(e))
    }

    pub open spec fn holds(&self, nonce: Seq<char>) -> bool {
        held(self.view(), nonce)
    }

    pub open spec fn wf(&self) -> bool {
        distinct_keys(self.view())
    }

    pub fn new() -> (r: NonceCache)
        ensures
            r.wf(),
            r.view() == Seq::<(Seq<char>, int)>::empty(),
    {
        let r = NonceCache { entries: Vec::new() };
        assert(r.view() =~= Seq::<(Seq<char>, int)>::empty());
        r
    }

    pub fn contains(&self, nonce: &String) -> (r: bool)
        ensures
            r == self.holds(nonce@),
    {
        let mut i: usize = 0;
        while i < self.entries.len()
            invariant
                i <= self.entries@.len(),
                forall|k: int| 0 <= k < i ==> #[trigger] self.view()[k].0 != nonce@,
            decreases self.entries@.len() - i,
        {
            if self.entries[i].nonce == *nonce {
                assert(self.view()[i as int].0 == nonce@);
                return true;
            }
            i = i + 1;
        }
        false
    }

    /// Refuses a nonce that is in the cache. Otherwise records it with expiry
    /// `now + NONCE_WINDOW`, then evicts every entry whose expiry is not after
    /// `now`.
    pub fn check_and_record(&mut self, nonce: &String, now: i64) -> (r: Result<(), ChassisError>)
        requires
            old(self).wf(),
        ensures
            final(self).wf(),
            old(self).holds(nonce@) ==> (r matches Err(ChassisError::ReplayAttack)) && *final(self)
                == *old(self),
            !old(self).holds(nonce@) ==> r is Ok && final(self).view() == recorded(
                old(self).view(),
                nonce@,
                now as int,
            ),
    {
        if self.contains(nonce) {
            return Err(ChassisError::ReplayAttack);
        }
        let ghost before = self.view();
        self.entries.push(NonceEntry { nonce: nonce.clone(), expiry: now as i128 + NONCE_WINDOW as i128 });
        let ghost all = self.view();
        assert(all =~= before.push((nonce@, now + NONCE_WINDOW)));
        let mut kept: Vec<NonceEntry> = Vec::new();
        let mut i: usize = 0;
        let ghost kept_view = kept@.map_values(|e: NonceEntry| entry_view(e));
        assert(kept_view =~= all.subrange(0, 0).filter(live_at(now as int)));
        while i < self.entries.len()
            invariant
                i <= self.entries@.len(),
                self.view() == all,
                kept@.map_values(|e: NonceEntry| entry_view(e)) == all.subrange(0, i as int).filter(
                    live_at(now as int),
                ),
            decreases self.entries@.len() - i,
        {
            let e = &self.entries[i];
            proof {
                reveal(Seq::filter);
            }
            assert(all.subrange(0, i + 1).drop_last() =~= all.subrange(0, i as int));
            if e.expiry > now as i128 {
                kept.push(NonceEntry { nonce: e.nonce.clone(), expiry: e.expiry });
                assert(kept@.map_values(|e: NonceEntry| entry_view(e)) =~= all.subrange(0, i as int).filter(
                    live_at(now as int),
                ).push(all[i as int]));
            }
            i = i + 1;
        }
        assert(all.subrange(0, i as int) =~= all);
        self.entries = kept;
        proof {
            lemma_filter_keeps_distinct(all, live_at(now as int));
        }
        Ok(())
    }
}

/// Outcome of a policy check.
#[derive(Debug, Clone, PartialEq)]
pub enum GuardDecision {
    Allow,
    Deny { reason: String },
    Escalate { reason: String },
}

/// `p` occurs in `h` at some position.
pub open spec fn has_infix(h: Seq<u8>, p: Seq<u8>) -> bool {
    exists|i: int| 0 <= i && i + p.len() <= h.len() && #[trigger] h.subrange(i, i + p.len()) == p
}

pub open spec fn word_delete() -> Seq<u8> {
    seq![100u8, 101, 108, 101, 116, 101]
}

pub open spec fn word_production() -> Seq<u8> {
    seq![112u8, 114, 111, 100, 117, 99, 116, 105, 111, 110]
}

pub open spec fn word_deploy() -> Seq<u8> {
    seq![100u8, 101, 112, 108, 111, 121]
}

pub open spec fn word_critical() -> Seq<u8> {
    seq![99u8, 114, 105, 116, 105, 99, 97, 108]
}

pub fn bytes_equal(a: &[u8], b: &[u8]) -> (r: bool)
    ensures
        r == (a@ == b@),
{
    if a.len() != b.len() {
        return false;
    }
    let mut i: usize = 0;
    while i < a.len()
        invariant
            a@.len() == b@.len(),
            i <= a@.len(),
            forall|k: int| 0 <= k < i ==> a@[k] == b@[k],
        decreases a@.len() - i,
    {
        if a[i] != b[i] {
            return false;
        }
        i = i + 1;
    }
    assert(a@ =~= b@);
    true
}

pub fn contains_bytes(h: &[u8], p: &[u8]) -> (r: bool)
    ensures
        r == has_infix(h@, p@),
{
    if p.len() > h.len() {
        return false;
    }
    let mut i: usize = 0;
    while i <= h.len() - p.len()
        invariant
            p@.len() <= h@.len(),
            i <= h@.len() - p@.len() + 1,
            forall|k: int| 0 <= k < i ==> #[trigger] h@.subrange(k, k + p@.len()) != p@,
        decreases h@.len() - i,
    {
        let mut j: usize = 0;
        let mut same = true;
        while j < p.len()
            invariant
                i + p@.len() <= h@.len(),
                h@.len() <= usize::MAX,
                j <= p@.len(),
                same == forall|k: int| 0 <= k < j ==> h@[i + k] == p@[k],
            decreases p@.len() - j,
        {
            if h[i + j] != p[j] {
                same = false;
            }
            j = j + 1;
        }
        if same {
            assert(h@.subrange(i as int, i + p@.len()) =~= p@);
            return true;
        }
        assert(h@.subrange(i as int, i + p@.len())[0] == h@[i as int]);
        assert(!(h@.subrange(i as int, i + p@.len()) =~= p@));
        i = i + 1;
    }
    false
}

/// The action is "delete" and the resource names "production".
pub open spec fn denied(action: Seq<char>, resource: Seq<char>) -> bool {
    encode_utf8(action) == word_delete() && has_infix(encode_utf8(resource), word_production())
}

/// The action is "deploy" and the resource names "critical".
pub open spec fn escalated(action: Seq<char>, resource: Seq<char>) -> bool {
    encode_utf8(action) == word_deploy() && has_infix(encode_utf8(resource), word_critical())
}

/// The decision that the built-in rule gives.
pub open spec fn decided(action: Seq<char>, resource: Seq<char>, r: GuardDecision) -> bool {
    if denied(action, resource) {
        r matches GuardDecision::Deny { reason } && reason@
            == "Cannot delete production resources without approval"@
    } else if escalated(action, resource) {
        r matches GuardDecision::Escalate { reason } && reason@
            == "Critical deployments require human approval"@
    } else {
        r is Allow
    }
}

/// The built-in rule: deleting anything named "production" is denied,
/// deploying anything named "critical" is escalated, the rest is allowed.
/// Names are compared as UTF-8 bytes.
pub fn decide(action: &str, resource: &str) -> (r: GuardDecision)
    ensures
        decided(action@, resource@, r),
{
    let delete: Vec<u8> = vec![100u8, 101, 108, 101, 116, 101];
    let production: Vec<u8> = vec![112u8, 114, 111, 100, 117, 99, 116, 105, 111, 110];
    let deploy: Vec<u8> = vec![100u8, 101, 112, 108, 111, 121];
    let critical: Vec<u8> = vec![99u8, 114, 105, 116, 105, 99, 97, 108];
    assert(delete@ =~= word_delete());
    assert(production@ =~= word_production());
    assert(deploy@ =~= word_deploy());
    assert(critical@ =~= word_critical());
    if bytes_equal(action.as_bytes(), delete.as_slice()) && contains_bytes(
        resource.as_bytes(),
        production.as_slice(),
    ) {
        GuardDecision::Deny { reason: "Cannot delete production resources without approval".to_owned() }
    } else if bytes_equal(action.as_bytes(), deploy.as_slice()) && contains_bytes(
        resource.as_bytes(),
        critical.as_slice(),
    ) {
        GuardDecision::Escalate { reason: "Critical deployments require human approval".to_owned() }
    } else {
        GuardDecision::Allow
    }
}

/// A nonce stays in the cache while its window lasts: recording another
/// nonce at a time before the entry's expiry keeps the entry.
pub proof fn lemma_nonce_kept_within_window(
    v: Seq<(Seq<char>, int)>,
    i: int,
    other: Seq<char>,
    now: int,
)
    requires
        0 <= i < v.len(),
        now < v[i].1,
    ensures
        held(recorded(v, other, now), v[i].0),
{
    let all = v.push((other, now + NONCE_WINDOW));
    assert(all[i] == v[i]);
    all.lemma_filter_contains(live_at(now), i);
    let f = all.filter(live_at(now));
    let k = choose|k: int| 0 <= k < f.len() && f[k] == all[i];
    assert(f[k].0 == v[i].0);
}

/// Every entry that a filter keeps comes from the filtered sequence.
proof fn lemma_filter_from(s: Seq<(Seq<char>, int)>, p: spec_fn((Seq<char>, int)) -> bool)
    ensures
        forall|i: int|
            0 <= i < s.filter(p).len() ==> exists|k: int| 0 <= k < s.len() && s[k] == #[trigger] s.filter(p)[i],
    decreases s.len(),
{
    reveal(Seq::filter);
    if s.len() > 0 {
        let d = s.drop_last();
        lemma_filter_from(d, p);
        let f = s.filter(p);
        assert forall|i: int| 0 <= i < f.len() implies exists|k: int| 0 <= k < s.len() && s[k] == #[trigger] f[i] by {
            if i < d.filter(p).len() {
                let k = choose|k: int| 0 <= k < d.len() && d[k] == d.filter(p)[i];
                assert(s[k] == f[i]);
            } else {
                assert(s[s.len() - 1] == f[i]);
            }
        }
    }
}

/// Filtering keeps nonces distinct.
proof fn lemma_filter_keeps_distinct(s: Seq<(Seq<char>, int)>, p: spec_fn((Seq<char>, int)) -> bool)
    requires
        forall|i: int, j: int| 0 <= i < j < s.len() ==> #[trigger] s[i].0 != #[trigger] s[j].0,
    ensures
        forall|i: int, j: int|
            0 <= i < j < s.filter(p).len() ==> #[trigger] s.filter(p)[i].0 != #[trigger] s.filter(p)[j].0,
    decreases s.len(),
{
    reveal(Seq::filter);
    if s.len() > 0 {
        let d = s.drop_last();
        lemma_filter_keeps_distinct(d, p);
        lemma_filter_from(d, p);
        let f = s.filter(p);
        let fd = d.filter(p);
        if p(s.last()) {
            assert forall|i: int, j: int|
                0 <= i < j < f.len() implies #[trigger] f[i].0 != #[trigger] f[j].0 by {
                if j == f.len() - 1 {
                    let k = choose|k: int| 0 <= k < d.len() && d[k] == #[trigger] fd[i];
                    assert(s[k] == f[i]);
                    assert(f[j] == s[s.len() - 1]);
                } else {
                    assert(f[i] == fd[i] && f[j] == fd[j]);
                }
            }
        }
    }
}

} // verus!
