//! Length-prefixed byte framing: the building blocks of every canonical form.
use vstd::prelude::*;
use vstd::utf8::encode_utf8;

verus! {

/// The UTF-8 bytes of a text.
#[verifier::opaque]
pub open spec fn utf8(s: Seq<char>) -> Seq<u8> {
    encode_utf8(s)
}

/// Eight bytes, most significant first.
pub open spec fn be8(n: u64) -> Seq<u8> {
    seq![
        (n >> 56u64) as u8,
        (n >> 48u64) as u8,
        (n >> 40u64) as u8,
        (n >> 32u64) as u8,
        (n >> 24u64) as u8,
        (n >> 16u64) as u8,
        (n >> 8u64) as u8,
        n as u8,
    ]
}

/// A byte string preceded by its length.
pub open spec fn frame(s: Seq<u8>) -> Seq<u8> {
    be8(s.len() as u64) + s
}

/// An optional byte string: a zero byte when absent, a one byte and the frame
/// when present.
pub open spec fn opt_frame(o: Option<Seq<u8>>) -> Seq<u8> {
    match o {
        None => seq![0u8],
        Some(s) => seq![1u8] + frame(s),
    }
}

/// The frames of a list of byte strings, one after another.
pub open spec fn frames(l: Seq<Seq<u8>>) -> Seq<u8>
    decreases l.len(),
{
    if l.len() == 0 {
        Seq::empty()
    } else {
        frames(l.drop_last()) + frame(l.last())
    }
}

/// A list of byte strings: its count, then each frame.
pub open spec fn list_frame(l: Seq<Seq<u8>>) -> Seq<u8> {
    be8(l.len() as u64) + frames(l)
}

pub fn push_u64(out: &mut Vec<u8>, n: u64)
    ensures
        final(out)@ == old(out)@ + be8(n),
{
    out.push((n >> 56u64) as u8);
    out.push((n >> 48u64) as u8);
    out.push((n >> 40u64) as u8);
    out.push((n >> 32u64) as u8);
    out.push((n >> 24u64) as u8);
    out.push((n >> 16u64) as u8);
    out.push((n >> 8u64) as u8);
    out.push(n as u8);
    assert(out@ =~= old(out)@ + be8(n));
}

pub fn push_bytes(out: &mut Vec<u8>, b: &[u8])
    ensures
        final(out)@ == old(out)@ + b@,
{
    let ghost start = out@;
    let mut i: usize = 0;
    while i < b.len()
        invariant
            i <= b@.len(),
            out@ == start + b@.subrange(0, i as int),
        decreases b@.len() - i,
    {
        out.push(b[i]);
        i = i + 1;
        assert(out@ =~= start + b@.subrange(0, i as int));
    }
    assert(b@.subrange(0, i as int) =~= b@);
}

pub fn push_frame(out: &mut Vec<u8>, b: &[u8])
    ensures
        final(out)@ == old(out)@ + frame(b@),
{
    push_u64(out, b.len() as u64);
    push_bytes(out, b);
    assert(out@ =~= old(out)@ + frame(b@));
}

pub fn push_str_frame(out: &mut Vec<u8>, s: &str)
    ensures
        final(out)@ == old(out)@ + frame(utf8(s@)),
{
    proof {
        reveal(utf8);
    }
    push_frame(out, s.as_bytes());
}

pub fn push_opt_str_frame(out: &mut Vec<u8>, o: &Option<String>)
    ensures
        final(out)@ == old(out)@ + opt_frame(opt_bytes(o)),
{
    match o {
        None => {
            out.push(0u8);
            assert(out@ =~= old(out)@ + opt_frame(opt_bytes(o)));
        },
        Some(s) => {
            out.push(1u8);
            push_str_frame(out, s.as_str());
            assert(out@ =~= old(out)@ + opt_frame(opt_bytes(o)));
        },
    }
}

pub fn push_str_list(out: &mut Vec<u8>, l: &Vec<String>)
    ensures
        final(out)@ == old(out)@ + list_frame(strs_bytes(l@)),
{
    let ghost start = out@;
    push_u64(out, l.len() as u64);
    let mut i: usize = 0;
    while i < l.len()
        invariant
            i <= l@.len(),
            out@ == start + be8(l@.len() as u64) + frames(strs_bytes(l@.subrange(0, i as int))),
        decreases l@.len() - i,
    {
        push_str_frame(out, l[i].as_str());
        proof {
            let next = strs_bytes(l@.subrange(0, i + 1));
            assert(next.drop_last() =~= strs_bytes(l@.subrange(0, i as int)));
        }
        i = i + 1;
        assert(out@ =~= start + be8(l@.len() as u64) + frames(strs_bytes(l@.subrange(0, i as int))));
    }
    assert(l@.subrange(0, i as int) =~= l@);
    assert(out@ =~= old(out)@ + list_frame(strs_bytes(l@)));
}

/// The UTF-8 bytes of an optional string.
pub open spec fn opt_bytes(o: &Option<String>) -> Option<Seq<u8>> {
    match o {
        None => None,
        Some(s) => Some(utf8(s@)),
    }
}

/// The UTF-8 bytes of each string of a list.
pub open spec fn strs_bytes(l: Seq<String>) -> Seq<Seq<u8>> {
    l.map_values(|s: String| utf8(s@))
}

/// Eight big-endian bytes determine the number.
pub proof fn lemma_be8_injective(n: u64, m: u64)
    requires
        be8(n) == be8(m),
    ensures
        n == m,
{
    assert(be8(n)[0] == be8(m)[0] && be8(n)[1] == be8(m)[1] && be8(n)[2] == be8(m)[2] && be8(n)[3]
        == be8(m)[3] && be8(n)[4] == be8(m)[4] && be8(n)[5] == be8(m)[5] && be8(n)[6] == be8(m)[6]
        && be8(n)[7] == be8(m)[7]);
    assert(((n >> 56u64) as u8 == (m >> 56u64) as u8 && (n >> 48u64) as u8 == (m >> 48u64) as u8 && (n
        >> 40u64) as u8 == (m >> 40u64) as u8 && (n >> 32u64) as u8 == (m >> 32u64) as u8 && (n
        >> 24u64) as u8 == (m >> 24u64) as u8 && (n >> 16u64) as u8 == (m >> 16u64) as u8 && (n
        >> 8u64) as u8 == (m >> 8u64) as u8 && n as u8 == m as u8) ==> n == m) by (bit_vector);
}

/// A number in front of the rest can be read off unambiguously.
pub proof fn lemma_be8_split(n: u64, m: u64, x: Seq<u8>, y: Seq<u8>)
    requires
        be8(n) + x == be8(m) + y,
    ensures
        n == m,
        x == y,
{
    assert((be8(n) + x).subrange(0, 8) =~= be8(n));
    assert((be8(m) + y).subrange(0, 8) =~= be8(m));
    lemma_be8_injective(n, m);
    assert((be8(n) + x).subrange(8, (be8(n) + x).len() as int) =~= x);
    assert((be8(m) + y).subrange(8, (be8(m) + y).len() as int) =~= y);
}

/// A byte in front of the rest can be read off unambiguously.
pub proof fn lemma_byte_split(a: u8, b: u8, x: Seq<u8>, y: Seq<u8>)
    requires
        seq![a] + x == seq![b] + y,
    ensures
        a == b,
        x == y,
{
    assert((seq![a] + x)[0] == a);
    assert((seq![b] + y)[0] == b);
    assert((seq![a] + x).subrange(1, (seq![a] + x).len() as int) =~= x);
    assert((seq![b] + y).subrange(1, (seq![b] + y).len() as int) =~= y);
}

/// A frame in front of the rest can be read off unambiguously, where the
/// lengths fit in eight bytes.
pub proof fn lemma_frame_split(a: Seq<u8>, b: Seq<u8>, x: Seq<u8>, y: Seq<u8>)
    requires
        a.len() <= u64::MAX,
        b.len() <= u64::MAX,
        frame(a) + x == frame(b) + y,
    ensures
        a == b,
        x == y,
{
    assert(frame(a) + x =~= be8(a.len() as u64) + (a + x));
    assert(frame(b) + y =~= be8(b.len() as u64) + (b + y));
    lemma_be8_split(a.len() as u64, b.len() as u64, a + x, b + y);
    assert((a + x).subrange(0, a.len() as int) =~= a);
    assert((b + y).subrange(0, b.len() as int) =~= b);
    assert((a + x).subrange(a.len() as int, (a + x).len() as int) =~= x);
    assert((b + y).subrange(b.len() as int, (b + y).len() as int) =~= y);
}

/// The frames of a list, read from the front.
pub proof fn lemma_frames_front(l: Seq<Seq<u8>>)
    requires
        l.len() > 0,
    ensures
        frames(l) == frame(l[0]) + frames(l.skip(1)),
    decreases l.len(),
{
    if l.len() == 1 {
        assert(l.drop_last() =~= Seq::<Seq<u8>>::empty());
        assert(l.skip(1) =~= Seq::<Seq<u8>>::empty());
        assert(frames(l) =~= frame(l[0]) + frames(l.skip(1)));
    } else {
        lemma_frames_front(l.drop_last());
        assert(l.drop_last().skip(1) =~= l.skip(1).drop_last());
        assert(l.skip(1).last() == l.last());
        assert(frames(l) =~= frame(l[0]) + frames(l.skip(1)));
    }
}

/// Every length in a list fits in eight bytes.
pub open spec fn fits_list(l: Seq<Seq<u8>>) -> bool {
    l.len() <= u64::MAX && forall|i: int| 0 <= i < l.len() ==> (#[trigger] l[i]).len() <= u64::MAX
}

/// The frames of `n` items in front of the rest can be read off
/// unambiguously.
proof fn lemma_frames_split(l1: Seq<Seq<u8>>, l2: Seq<Seq<u8>>, x: Seq<u8>, y: Seq<u8>)
    requires
        l1.len() == l2.len(),
        fits_list(l1),
        fits_list(l2),
        frames(l1) + x == frames(l2) + y,
    ensures
        l1 == l2,
        x == y,
    decreases l1.len(),
{
    if l1.len() == 0 {
        assert(frames(l1) + x =~= x);
        assert(frames(l2) + y =~= y);
        assert(l1 =~= l2);
    } else {
        lemma_frames_front(l1);
        lemma_frames_front(l2);
        assert(frames(l1) + x =~= frame(l1[0]) + (frames(l1.skip(1)) + x));
        assert(frames(l2) + y =~= frame(l2[0]) + (frames(l2.skip(1)) + y));
        lemma_frame_split(l1[0], l2[0], frames(l1.skip(1)) + x, frames(l2.skip(1)) + y);
        assert(fits_list(l1.skip(1)));
        assert(fits_list(l2.skip(1)));
        lemma_frames_split(l1.skip(1), l2.skip(1), x, y);
        assert(l1 =~= seq![l1[0]] + l1.skip(1));
        assert(l2 =~= seq![l2[0]] + l2.skip(1));
    }
}

/// A counted list of frames in front of the rest can be read off
/// unambiguously.
pub proof fn lemma_list_split(l1: Seq<Seq<u8>>, l2: Seq<Seq<u8>>, x: Seq<u8>, y: Seq<u8>)
    requires
        fits_list(l1),
        fits_list(l2),
        list_frame(l1) + x == list_frame(l2) + y,
    ensures
        l1 == l2,
        x == y,
{
    assert(list_frame(l1) + x =~= be8(l1.len() as u64) + (frames(l1) + x));
    assert(list_frame(l2) + y =~= be8(l2.len() as u64) + (frames(l2) + y));
    lemma_be8_split(l1.len() as u64, l2.len() as u64, frames(l1) + x, frames(l2) + y);
    lemma_frames_split(l1, l2, x, y);
}

/// An optional frame in front of the rest can be read off unambiguously.
pub proof fn lemma_opt_frame_split(o1: Option<Seq<u8>>, o2: Option<Seq<u8>>, x: Seq<u8>, y: Seq<u8>)
    requires
        o1 matches Some(a) ==> a.len() <= u64::MAX,
        o2 matches Some(b) ==> b.len() <= u64::MAX,
        opt_frame(o1) + x == opt_frame(o2) + y,
    ensures
        o1 == o2,
        x == y,
{
    match (o1, o2) {
        (None, None) => {
            lemma_byte_split(0, 0, x, y);
        },
        (None, Some(b)) => {
            assert(opt_frame(o2) + y =~= seq![1u8] + (frame(b) + y));
            lemma_byte_split(0, 1, x, frame(b) + y);
        },
        (Some(a), None) => {
            assert(opt_frame(o1) + x =~= seq![1u8] + (frame(a) + x));
            lemma_byte_split(1, 0, frame(a) + x, y);
        },
        (Some(a), Some(b)) => {
            assert(opt_frame(o1) + x =~= seq![1u8] + (frame(a) + x));
            assert(opt_frame(o2) + y =~= seq![1u8] + (frame(b) + y));
            lemma_byte_split(1, 1, frame(a) + x, frame(b) + y);
            lemma_frame_split(a, b, x, y);
        },
    }
}

/// UTF-8 encoding loses nothing.
pub proof fn lemma_utf8_injective(a: Seq<char>, b: Seq<char>)
    requires
        utf8(a) == utf8(b),
    ensures
        a == b,
{
    reveal(utf8);
    vstd::utf8::encode_utf8_decode_utf8(a);
    vstd::utf8::encode_utf8_decode_utf8(b);
}

} // verus!
