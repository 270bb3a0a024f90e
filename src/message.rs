//! The message envelope and its canonical byte form.
use crate::codec::{
    be8, fits_list, frame, lemma_be8_split, lemma_byte_split, lemma_frame_split, lemma_list_split,
    lemma_opt_frame_split, lemma_utf8_injective, list_frame, opt_bytes, opt_frame, push_opt_str_frame,
    push_str_frame, push_str_list, push_u64, strs_bytes, utf8,
};
use vstd::prelude::*;

verus! {

/// Kind of risk that a hazard annotation names.
#[derive(Debug, Clone, Copy, PartialEq, Eq)]
pub enum HazardType {
    Legal,
    Financial,
    Security,
    Ethical,
    Technical,
}

/// Hazard annotation for risk-aware routing.
#[derive(Debug, Clone)]
pub struct Hazard {
    pub hazard_type: HazardType,
    /// "low", "medium", "high" or "critical".
    pub severity: String,
    /// Human-readable explanation.
    pub rationale: String,
    /// Suggested action: "ESCALATE", "HOLD", "REVIEW" or "LOG".
    pub action: String,
}

/// A message between agents, with performatives in the FIPA-ACL style.
///
/// `content` holds the payload as JSON text; the envelope treats it as
/// opaque. `signature` is the hex text of an Ed25519 signature over
/// [`IFMessage::canonical_bytes`].
#[derive(Debug, Clone)]
pub struct IFMessage {
    pub performative: String,
    pub sender: String,
    pub receiver: Vec<String>,
    pub content: String,
    pub timestamp: String,
    pub sequence_num: u64,
    pub trace_id: String,
    pub hazard: Option<Hazard>,
    pub citation_ids: Option<Vec<String>>,
    pub nonce: Option<String>,
    pub ttl: Option<u64>,
    pub signature: Option<String>,
}

pub open spec fn hazard_tag(t: HazardType) -> u8 {
    match t {
        HazardType::Legal => 0,
        HazardType::Financial => 1,
        HazardType::Security => 2,
        HazardType::Ethical => 3,
        HazardType::Technical => 4,
    }
}

pub open spec fn hazard_part(h: Option<Hazard>) -> Seq<u8> {
    match h {
        None => seq![0u8],
        Some(h) => seq![1u8] + hazard_fields(h),
    }
}

/// A present hazard: its kind, then its three texts.
pub open spec fn hazard_fields(h: Hazard) -> Seq<u8> {
    seq![hazard_tag(h.hazard_type)] + (frame(utf8(h.severity@)) + (frame(utf8(h.rationale@)) + frame(
        utf8(h.action@),
    )))
}

pub open spec fn citations_part(c: Option<Vec<String>>) -> Seq<u8> {
    match c {
        None => seq![0u8],
        Some(l) => seq![1u8] + list_frame(strs_bytes(l@)),
    }
}

pub open spec fn ttl_part(t: Option<u64>) -> Seq<u8> {
    match t {
        None => seq![0u8],
        Some(t) => seq![1u8] + be8(t),
    }
}

/// The bytes that are signed: every field but the signature, in declaration
/// order, strings as length-prefixed UTF-8, absent optional fields as a zero
/// byte.
pub open spec fn canonical(m: IFMessage) -> Seq<u8> {
    frame(utf8(m.performative@)) + frame(utf8(m.sender@)) + list_frame(
        strs_bytes(m.receiver@),
    ) + frame(utf8(m.content@)) + frame(utf8(m.timestamp@)) + be8(m.sequence_num)
        + frame(utf8(m.trace_id@)) + hazard_part(m.hazard) + citations_part(m.citation_ids)
        + opt_frame(opt_bytes(&m.nonce)) + ttl_part(m.ttl)
}

/// The whole envelope, signature included, as the witness log records it.
pub open spec fn record(m: IFMessage) -> Seq<u8> {
    canonical(m) + opt_frame(opt_bytes(&m.signature))
}

/// The text of each string of a list.
pub open spec fn strs_view(l: Seq<String>) -> Seq<Seq<char>> {
    l.map_values(|s: String| s@)
}

pub open spec fn hazard_view(h: Option<Hazard>) -> Option<(HazardType, Seq<char>, Seq<char>, Seq<char>)> {
    match h {
        None => None,
        Some(h) => Some((h.hazard_type, h.severity@, h.rationale@, h.action@)),
    }
}

pub open spec fn citations_view(c: Option<Vec<String>>) -> Option<Seq<Seq<char>>> {
    match c {
        None => None,
        Some(l) => Some(strs_view(l@)),
    }
}

pub open spec fn nonce_view(n: Option<String>) -> Option<Seq<char>> {
    match n {
        None => None,
        Some(s) => Some(s@),
    }
}

pub open spec fn fits_str(s: String) -> bool {
    utf8(s@).len() <= u64::MAX
}

/// Every length in the envelope's canonical form fits in eight bytes, as it
/// does for any envelope held in memory.
pub open spec fn fits(m: IFMessage) -> bool {
    &&& fits_str(m.performative)
    &&& fits_str(m.sender)
    &&& fits_list(strs_bytes(m.receiver@))
    &&& fits_str(m.content)
    &&& fits_str(m.timestamp)
    &&& fits_str(m.trace_id)
    &&& m.hazard matches Some(h) ==> fits_str(h.severity) && fits_str(h.rationale) && fits_str(
        h.action,
    )
    &&& m.citation_ids matches Some(l) ==> fits_list(strs_bytes(l@))
    &&& m.nonce matches Some(n) ==> fits_str(n)
}

/// Two envelopes agree on every field that is signed, strings by their text.
pub open spec fn same_signed_fields(a: IFMessage, b: IFMessage) -> bool {
    &&& a.performative@ == b.performative@
    &&& a.sender@ == b.sender@
    &&& strs_view(a.receiver@) == strs_view(b.receiver@)
    &&& a.content@ == b.content@
    &&& a.timestamp@ == b.timestamp@
    &&& a.sequence_num == b.sequence_num
    &&& a.trace_id@ == b.trace_id@
    &&& hazard_view(a.hazard) == hazard_view(b.hazard)
    &&& citations_view(a.citation_ids) == citations_view(b.citation_ids)
    &&& nonce_view(a.nonce) == nonce_view(b.nonce)
    &&& a.ttl == b.ttl
}

proof fn lemma_strs_injective(l1: Seq<String>, l2: Seq<String>)
    requires
        strs_bytes(l1) == strs_bytes(l2),
    ensures
        strs_view(l1) == strs_view(l2),
{
    assert(strs_bytes(l1).len() == l1.len());
    assert(strs_bytes(l2).len() == l2.len());
    assert forall|i: int| 0 <= i < l1.len() implies #[trigger] strs_view(l1)[i] == strs_view(l2)[i] by {
        assert(strs_bytes(l1)[i] == utf8(l1[i]@));
        assert(strs_bytes(l2)[i] == utf8(l2[i]@));
        lemma_utf8_injective(l1[i]@, l2[i]@);
    }
    assert(strs_view(l1) =~= strs_view(l2));
}

proof fn lemma_str_split(a: String, b: String, x: Seq<u8>, y: Seq<u8>)
    requires
        fits_str(a),
        fits_str(b),
        frame(utf8(a@)) + x == frame(utf8(b@)) + y,
    ensures
        a@ == b@,
        x == y,
{
    lemma_frame_split(utf8(a@), utf8(b@), x, y);
    lemma_utf8_injective(a@, b@);
}

proof fn assoc(a: Seq<u8>, b: Seq<u8>, c: Seq<u8>)
    ensures
        a + (b + c) == (a + b) + c,
{
    vstd::seq_lib::lemma_concat_associative(a, b, c);
}

proof fn lemma_hazard_split(h1: Option<Hazard>, h2: Option<Hazard>, x: Seq<u8>, y: Seq<u8>)
    requires
        h1 matches Some(h) ==> fits_str(h.severity) && fits_str(h.rationale) && fits_str(h.action),
        h2 matches Some(h) ==> fits_str(h.severity) && fits_str(h.rationale) && fits_str(h.action),
        hazard_part(h1) + x == hazard_part(h2) + y,
    ensures
        hazard_view(h1) == hazard_view(h2),
        x == y,
{
    match (h1, h2) {
        (None, None) => {
            lemma_byte_split(0, 0, x, y);
        },
        (None, Some(b)) => {
            assoc(seq![1u8], hazard_fields(b), y);
            lemma_byte_split(0, 1, x, hazard_fields(b) + y);
        },
        (Some(a), None) => {
            assoc(seq![1u8], hazard_fields(a), x);
            lemma_byte_split(1, 0, hazard_fields(a) + x, y);
        },
        (Some(a), Some(b)) => {
            assoc(seq![1u8], hazard_fields(a), x);
            assoc(seq![1u8], hazard_fields(b), y);
            lemma_byte_split(1, 1, hazard_fields(a) + x, hazard_fields(b) + y);
            let fa1 = frame(utf8(a.severity@));
            let fa2 = frame(utf8(a.rationale@));
            let fa3 = frame(utf8(a.action@));
            let fb1 = frame(utf8(b.severity@));
            let fb2 = frame(utf8(b.rationale@));
            let fb3 = frame(utf8(b.action@));
            let ta = seq![hazard_tag(a.hazard_type)];
            let tb = seq![hazard_tag(b.hazard_type)];
            assoc(ta, fa1 + (fa2 + fa3), x);
            assoc(tb, fb1 + (fb2 + fb3), y);
            lemma_byte_split(
                hazard_tag(a.hazard_type),
                hazard_tag(b.hazard_type),
                (fa1 + (fa2 + fa3)) + x,
                (fb1 + (fb2 + fb3)) + y,
            );
            assoc(fa1, fa2 + fa3, x);
            assoc(fb1, fb2 + fb3, y);
            lemma_str_split(a.severity, b.severity, (fa2 + fa3) + x, (fb2 + fb3) + y);
            assoc(fa2, fa3, x);
            assoc(fb2, fb3, y);
            lemma_str_split(a.rationale, b.rationale, fa3 + x, fb3 + y);
            lemma_str_split(a.action, b.action, x, y);
        },
    }
}

proof fn lemma_citations_split(c1: Option<Vec<String>>, c2: Option<Vec<String>>, x: Seq<u8>, y: Seq<u8>)
    requires
        c1 matches Some(l) ==> fits_list(strs_bytes(l@)),
        c2 matches Some(l) ==> fits_list(strs_bytes(l@)),
        citations_part(c1) + x == citations_part(c2) + y,
    ensures
        citations_view(c1) == citations_view(c2),
        x == y,
{
    match (c1, c2) {
        (None, None) => {
            lemma_byte_split(0, 0, x, y);
        },
        (None, Some(b)) => {
            assoc(seq![1u8], list_frame(strs_bytes(b@)), y);
            lemma_byte_split(0, 1, x, list_frame(strs_bytes(b@)) + y);
        },
        (Some(a), None) => {
            assoc(seq![1u8], list_frame(strs_bytes(a@)), x);
            lemma_byte_split(1, 0, list_frame(strs_bytes(a@)) + x, y);
        },
        (Some(a), Some(b)) => {
            assoc(seq![1u8], list_frame(strs_bytes(a@)), x);
            assoc(seq![1u8], list_frame(strs_bytes(b@)), y);
            lemma_byte_split(1, 1, list_frame(strs_bytes(a@)) + x, list_frame(strs_bytes(b@)) + y);
            lemma_list_split(strs_bytes(a@), strs_bytes(b@), x, y);
            lemma_strs_injective(a@, b@);
        },
    }
}

proof fn lemma_ttl_injective(t1: Option<u64>, t2: Option<u64>)
    requires
        ttl_part(t1) == ttl_part(t2),
    ensures
        t1 == t2,
{
    let e = Seq::<u8>::empty();
    match (t1, t2) {
        (None, None) => {},
        (None, Some(b)) => {
            assert(ttl_part(t1)[0] == 0u8);
            assert(ttl_part(t2)[0] == 1u8);
        },
        (Some(a), None) => {
            assert(ttl_part(t1)[0] == 1u8);
            assert(ttl_part(t2)[0] == 0u8);
        },
        (Some(a), Some(b)) => {
            assert(ttl_part(t1) =~= seq![1u8] + be8(a));
            assert(ttl_part(t2) =~= seq![1u8] + be8(b));
            lemma_byte_split(1, 1, be8(a), be8(b));
            assert(be8(a) + e =~= be8(a));
            assert(be8(b) + e =~= be8(b));
            lemma_be8_split(a, b, e, e);
        },
    }
}

/// The canonical form with its parts nested from the right.
pub open spec fn nested(m: IFMessage) -> Seq<u8> {
    frame(utf8(m.performative@)) + (frame(utf8(m.sender@)) + (list_frame(strs_bytes(m.receiver@)) + (
    frame(utf8(m.content@)) + (frame(utf8(m.timestamp@)) + (be8(m.sequence_num) + (frame(
        utf8(m.trace_id@),
    ) + (hazard_part(m.hazard) + (citations_part(m.citation_ids) + (opt_frame(opt_bytes(&m.nonce))
        + ttl_part(m.ttl))))))))))
}

proof fn lemma_canonical_nested(m: IFMessage)
    ensures
        canonical(m) == nested(m),
{
    let q1 = frame(utf8(m.performative@));
    let q2 = frame(utf8(m.sender@));
    let q3 = list_frame(strs_bytes(m.receiver@));
    let q4 = frame(utf8(m.content@));
    let q5 = frame(utf8(m.timestamp@));
    let q6 = be8(m.sequence_num);
    let q7 = frame(utf8(m.trace_id@));
    let q8 = hazard_part(m.hazard);
    let q9 = citations_part(m.citation_ids);
    let q10 = opt_frame(opt_bytes(&m.nonce));
    let q11 = ttl_part(m.ttl);
    let l2 = q1 + q2;
    let l3 = l2 + q3;
    let l4 = l3 + q4;
    let l5 = l4 + q5;
    let l6 = l5 + q6;
    let l7 = l6 + q7;
    let l8 = l7 + q8;
    let l9 = l8 + q9;
    let r10 = q10 + q11;
    let r9 = q9 + r10;
    let r8 = q8 + r9;
    let r7 = q7 + r8;
    let r6 = q6 + r7;
    let r5 = q5 + r6;
    let r4 = q4 + r5;
    let r3 = q3 + r4;
    assoc(l9, q10, q11);
    assoc(l8, q9, r10);
    assoc(l7, q8, r9);
    assoc(l6, q7, r8);
    assoc(l5, q6, r7);
    assoc(l4, q5, r6);
    assoc(l3, q4, r5);
    assoc(l2, q3, r4);
    assoc(q1, q2, r3);
}

/// The canonical form is unambiguous: two envelopes with the same signed
/// bytes agree on every signed field. So altering any signed field after
/// signing changes the bytes that the signature is checked against.
pub proof fn lemma_canonical_unambiguous(a: IFMessage, b: IFMessage)
    requires
        fits(a),
        fits(b),
        canonical(a) == canonical(b),
    ensures
        same_signed_fields(a, b),
{
    lemma_canonical_nested(a);
    lemma_canonical_nested(b);
    let a11 = ttl_part(a.ttl);
    let a10 = opt_frame(opt_bytes(&a.nonce)) + a11;
    let a9 = citations_part(a.citation_ids) + a10;
    let a8 = hazard_part(a.hazard) + a9;
    let a7 = frame(utf8(a.trace_id@)) + a8;
    let a6 = be8(a.sequence_num) + a7;
    let a5 = frame(utf8(a.timestamp@)) + a6;
    let a4 = frame(utf8(a.content@)) + a5;
    let a3 = list_frame(strs_bytes(a.receiver@)) + a4;
    let a2 = frame(utf8(a.sender@)) + a3;
    let b11 = ttl_part(b.ttl);
    let b10 = opt_frame(opt_bytes(&b.nonce)) + b11;
    let b9 = citations_part(b.citation_ids) + b10;
    let b8 = hazard_part(b.hazard) + b9;
    let b7 = frame(utf8(b.trace_id@)) + b8;
    let b6 = be8(b.sequence_num) + b7;
    let b5 = frame(utf8(b.timestamp@)) + b6;
    let b4 = frame(utf8(b.content@)) + b5;
    let b3 = list_frame(strs_bytes(b.receiver@)) + b4;
    let b2 = frame(utf8(b.sender@)) + b3;
    lemma_str_split(a.performative, b.performative, a2, b2);
    lemma_str_split(a.sender, b.sender, a3, b3);
    lemma_list_split(strs_bytes(a.receiver@), strs_bytes(b.receiver@), a4, b4);
    lemma_strs_injective(a.receiver@, b.receiver@);
    lemma_str_split(a.content, b.content, a5, b5);
    lemma_str_split(a.timestamp, b.timestamp, a6, b6);
    lemma_be8_split(a.sequence_num, b.sequence_num, a7, b7);
    lemma_str_split(a.trace_id, b.trace_id, a8, b8);
    lemma_hazard_split(a.hazard, b.hazard, a9, b9);
    lemma_citations_split(a.citation_ids, b.citation_ids, a10, b10);
    lemma_opt_frame_split(opt_bytes(&a.nonce), opt_bytes(&b.nonce), a11, b11);
    if a.nonce is Some && b.nonce is Some {
        lemma_utf8_injective(a.nonce->Some_0@, b.nonce->Some_0@);
    }
    lemma_ttl_injective(a.ttl, b.ttl);
}

fn push_hazard(out: &mut Vec<u8>, h: &Option<Hazard>)
    ensures
        final(out)@ == old(out)@ + hazard_part(*h),
{
    match h {
        None => {
            out.push(0u8);
        },
        Some(h) => {
            out.push(1u8);
            out.push(
                match h.hazard_type {
                    HazardType::Legal => 0u8,
                    HazardType::Financial => 1u8,
                    HazardType::Security => 2u8,
                    HazardType::Ethical => 3u8,
                    HazardType::Technical => 4u8,
                },
            );
            push_str_frame(out, h.severity.as_str());
            push_str_frame(out, h.rationale.as_str());
            push_str_frame(out, h.action.as_str());
        },
    }
    assert(out@ =~= old(out)@ + hazard_part(*h));
}

fn push_citations(out: &mut Vec<u8>, c: &Option<Vec<String>>)
    ensures
        final(out)@ == old(out)@ + citations_part(*c),
{
    match c {
        None => {
            out.push(0u8);
        },
        Some(l) => {
            out.push(1u8);
            push_str_list(out, l);
        },
    }
    assert(out@ =~= old(out)@ + citations_part(*c));
}

fn push_ttl(out: &mut Vec<u8>, t: Option<u64>)
    ensures
        final(out)@ == old(out)@ + ttl_part(t),
{
    match t {
        None => {
            out.push(0u8);
        },
        Some(t) => {
            out.push(1u8);
            push_u64(out, t);
        },
    }
    assert(out@ =~= old(out)@ + ttl_part(t));
}

impl IFMessage {
    /// The canonical form that is signed and verified; it leaves the
    /// signature out.
    pub fn canonical_bytes(&self) -> (r: Vec<u8>)
        ensures
            r@ == canonical(*self),
    {
        let mut out: Vec<u8> = Vec::new();
        push_str_frame(&mut out, self.performative.as_str());
        let ghost g1 = frame(utf8(self.performative@));
        assert(out@ =~= g1);
        push_str_frame(&mut out, self.sender.as_str());
        let ghost g2 = g1 + frame(utf8(self.sender@));
        push_str_list(&mut out, &self.receiver);
        let ghost g3 = g2 + list_frame(strs_bytes(self.receiver@));
        push_str_frame(&mut out, self.content.as_str());
        let ghost g4 = g3 + frame(utf8(self.content@));
        push_str_frame(&mut out, self.timestamp.as_str());
        let ghost g5 = g4 + frame(utf8(self.timestamp@));
        push_u64(&mut out, self.sequence_num);
        let ghost g6 = g5 + be8(self.sequence_num);
        push_str_frame(&mut out, self.trace_id.as_str());
        let ghost g7 = g6 + frame(utf8(self.trace_id@));
        assert(out@ == g7);
        push_hazard(&mut out, &self.hazard);
        let ghost g8 = g7 + hazard_part(self.hazard);
        push_citations(&mut out, &self.citation_ids);
        let ghost g9 = g8 + citations_part(self.citation_ids);
        push_opt_str_frame(&mut out, &self.nonce);
        let ghost g10 = g9 + opt_frame(opt_bytes(&self.nonce));
        push_ttl(&mut out, self.ttl);
        assert(out@ == g10 + ttl_part(self.ttl));
        out
    }

    /// The whole envelope, signature included, in the same byte form.
    pub fn record_bytes(&self) -> (r: Vec<u8>)
        ensures
            r@ == record(*self),
    {
        let mut out = self.canonical_bytes();
        push_opt_str_frame(&mut out, &self.signature);
        out
    }
}

} // verus!
