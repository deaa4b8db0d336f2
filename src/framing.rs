//! Splitting an inbound byte stream into whole FIX messages.
use vstd::prelude::*;

verus! {

/// The byte that ends every field on the wire.
pub const SOH: u8 = 1;

/// `8=FIX`: the bytes that open a message of this protocol family.
pub open spec fn begin_marker() -> Seq<u8> {
    seq![56u8, 61u8, 70u8, 73u8, 88u8]
}

/// The begin marker starts at offset `p` of `s`.
pub open spec fn marker_at(s: Seq<u8>, p: int) -> bool {
    0 <= p && p + 5 <= s.len() && s.subrange(p, p + 5) == begin_marker()
}

/// `p` is the first offset of `s` where the begin marker starts.
pub open spec fn first_marker(s: Seq<u8>, p: int) -> bool {
    marker_at(s, p) && forall|q: int| 0 <= q < p ==> !marker_at(s, q)
}

/// `10=` starts at offset `i` of `s`.
pub open spec fn trailer_tag_at(s: Seq<u8>, i: int) -> bool {
    0 <= i && i + 3 <= s.len() && s[i] == 49u8 && s[i + 1] == 48u8 && s[i + 2] == 61u8
}

/// `i` is the first offset the scan finds the trailer tag at.
pub open spec fn first_trailer_tag(s: Seq<u8>, i: int) -> bool {
    trailer_tag_at(s, i) && forall|j: int| 0 <= j < i ==> !trailer_tag_at(s, j)
}

/// The first trailer tag of `s` is at `i`, and the delimiter that ends its value is at `e`.
pub open spec fn frame_end(s: Seq<u8>, i: int, e: int) -> bool {
    first_trailer_tag(s, i) && i + 3 <= e < s.len() && s[e] == SOH && forall|k: int|
        i + 3 <= k < e ==> s[k] != SOH
}

/// What remains of `s` once the bytes before its first begin marker are dropped.
pub open spec fn synced(s: Seq<u8>) -> Seq<u8> {
    if exists|p: int| first_marker(s, p) {
        s.skip(choose|p: int| first_marker(s, p))
    } else {
        s
    }
}

/// The decoder may act on `s`: it holds ten bytes or more and a begin marker.
pub open spec fn decodable(s: Seq<u8>) -> bool {
    s.len() >= 10 && exists|p: int| first_marker(s, p)
}

/// The message that opens `t`, which starts at a begin marker, if it is complete.
pub open spec fn frame_of(t: Seq<u8>) -> Option<Seq<u8>> {
    if exists|i: int, e: int| frame_end(t, i, e) {
        let (i, e) = choose|i: int, e: int| frame_end(t, i, e);
        Some(t.take(e + 1))
    } else {
        None
    }
}

/// What is left of `t` once a complete message that opens it is taken away.
pub open spec fn rest_of(t: Seq<u8>) -> Seq<u8> {
    if exists|i: int, e: int| frame_end(t, i, e) {
        let (i, e) = choose|i: int, e: int| frame_end(t, i, e);
        t.skip(e + 1)
    } else {
        t
    }
}

/// The message the decoder hands out for buffer contents `s`, if any.
pub open spec fn decoded(s: Seq<u8>) -> Option<Seq<u8>> {
    if decodable(s) {
        frame_of(synced(s))
    } else {
        None
    }
}

/// What the decoder leaves in a buffer that held `s`.
pub open spec fn remainder(s: Seq<u8>) -> Seq<u8> {
    if decodable(s) {
        rest_of(synced(s))
    } else {
        s
    }
}

proof fn lemma_first_marker_unique(s: Seq<u8>, p: int, q: int)
    requires
        first_marker(s, p),
        first_marker(s, q),
    ensures
        p == q,
{
}

proof fn lemma_frame_end_unique(s: Seq<u8>, i: int, e: int, i2: int, e2: int)
    requires
        frame_end(s, i, e),
        frame_end(s, i2, e2),
    ensures
        i == i2 && e == e2,
{
    assert(i == i2);
    if e < e2 {
        assert(s[e] != SOH);
    } else if e2 < e {
        assert(s[e2] != SOH);
    }
}

fn find_marker(buf: &Vec<u8>) -> (r: Option<usize>)
    ensures
        match r {
            Some(p) => first_marker(buf@, p as int),
            None => forall|q: int| !first_marker(buf@, q),
        },
{
    let ghost s = buf@;
    let len = buf.len();
    let mut p: usize = 0;
    while len >= 5 && p <= len - 5
        invariant
            p <= len,
            buf@ == s,
            len == s.len(),
            forall|q: int| 0 <= q < p ==> !marker_at(s, q),
        decreases len - p,
    {
        if buf[p] == 56u8 && buf[p + 1] == 61u8 && buf[p + 2] == 70u8 && buf[p + 3] == 73u8
            && buf[p + 4] == 88u8 {
            assert(s.subrange(p as int, p + 5) =~= begin_marker());
            return Some(p);
        }
        assert(!marker_at(s, p as int)) by {
            if marker_at(s, p as int) {
                assert(s.subrange(p as int, p + 5)[0] == s[p as int]);
                assert(s.subrange(p as int, p + 5)[1] == s[p + 1]);
                assert(s.subrange(p as int, p + 5)[2] == s[p + 2]);
                assert(s.subrange(p as int, p + 5)[3] == s[p + 3]);
                assert(s.subrange(p as int, p + 5)[4] == s[p + 4]);
            }
        }
        p = p + 1;
    }
    assert forall|q: int| !first_marker(s, q) by {
        if first_marker(s, q) {
            assert(!marker_at(s, q));
        }
    }
    None
}

/// The stateless codec that frames FIX messages on a byte stream.
pub struct FixCodec;

impl FixCodec {
    /// Takes at most one whole message off the front of `buf`.
    ///
    /// With ten bytes or more and a begin marker in the buffer, the bytes before the
    /// first marker are dropped. A message then runs from the marker through the
    /// delimiter that ends the first trailer field; it is removed and returned. In
    /// every other case nothing more is consumed and `None` comes back.
    pub fn decode(&mut self, buf: &mut Vec<u8>) -> (r: Option<Vec<u8>>)
        ensures
            match r {
                Some(m) => decoded(old(buf)@) == Some(m@),
                None => decoded(old(buf)@) is None,
            },
            final(buf)@ == remainder(old(buf)@),
    {
        let ghost s = buf@;
        let len = buf.len();
        if len < 10 {
            return None;
        }
        let p = match find_marker(buf) {
            Some(p) => p,
            None => {
                return None;
            },
        };
        assert(first_marker(s, p as int));
        proof {
            let c = choose|c: int| first_marker(s, c);
            lemma_first_marker_unique(s, p as int, c);
        }
        let rest = buf.split_off(p);
        *buf = rest;
        let ghost t = buf@;
        assert(t =~= synced(s));
        assert(decodable(s));
        let n = buf.len();
        let limit: usize = if n >= 3 {
            n - 2
        } else {
            0
        };
        let mut i: usize = 0;
        while i < limit
            invariant
                limit as int == if n >= 3 { n - 2 } else { 0 },
                buf@ == t,
                t == synced(s),
                old(buf)@ == s,
                decodable(s),
                n == t.len(),
                forall|j: int| 0 <= j < i ==> !trailer_tag_at(t, j),
            decreases n - i,
        {
            if buf[i] == 49u8 && buf[i + 1] == 48u8 && buf[i + 2] == 61u8 {
                let mut e: usize = i + 3;
                while e < n
                    invariant
                        buf@ == t,
                        t == synced(s),
                        old(buf)@ == s,
                        decodable(s),
                        n == t.len(),
                        first_trailer_tag(t, i as int),
                        i + 3 <= e <= n,
                        forall|k: int| i + 3 <= k < e ==> t[k] != SOH,
                    decreases n - e,
                {
                    if buf[e] == SOH {
                        assert(frame_end(t, i as int, e as int));
                        proof {
                            let (i2, e2) = choose|i2: int, e2: int| frame_end(t, i2, e2);
                            lemma_frame_end_unique(t, i as int, e as int, i2, e2);
                        }
                        let tail = buf.split_off(e + 1);
                        let frame = buf.split_off(0);
                        *buf = tail;
                        assert(frame@ =~= t.take(e + 1));
                        assert(buf@ =~= t.skip(e + 1));
                        return Some(frame);
                    }
                    e = e + 1;
                }
                assert forall|i2: int, e2: int| !frame_end(t, i2, e2) by {
                    if frame_end(t, i2, e2) {
                        assert(i2 == i);
                    }
                }
                return None;
            }
            i = i + 1;
        }
        assert forall|i2: int, e2: int| !frame_end(t, i2, e2) by {
            if frame_end(t, i2, e2) {
                assert(!trailer_tag_at(t, i2));
            }
        }
        None
    }

    /// Appends an already complete message to the outbound buffer, byte for byte.
    pub fn encode(&mut self, item: &Vec<u8>, dst: &mut Vec<u8>)
        ensures
            final(dst)@ == old(dst)@ + item@,
    {
        dst.extend_from_slice(item.as_slice());
    }
}


/// `m` is one whole message on the wire: at least ten bytes, the begin marker first,
/// and `10=`, three bytes other than the delimiter, and the delimiter last, with no
/// earlier `10=` anywhere.
pub open spec fn wire_frame(m: Seq<u8>) -> bool {
    let n = m.len() as int;
    &&& n >= 10
    &&& marker_at(m, 0)
    &&& m[n - 7] == 49u8 && m[n - 6] == 48u8 && m[n - 5] == 61u8
    &&& m[n - 4] != SOH && m[n - 3] != SOH && m[n - 2] != SOH
    &&& m[n - 1] == SOH
    &&& forall|j: int| 0 <= j < n - 7 ==> !trailer_tag_at(m, j)
}

proof fn lemma_synced_at(s: Seq<u8>, p: int)
    requires
        first_marker(s, p),
    ensures
        synced(s) == s.skip(p),
{
    let c = choose|c: int| first_marker(s, c);
    lemma_first_marker_unique(s, p, c);
}

proof fn lemma_frame_of_whole(m: Seq<u8>)
    requires
        wire_frame(m),
    ensures
        frame_of(m) == Some(m),
        rest_of(m) == Seq::<u8>::empty(),
{
    let n = m.len() as int;
    assert(trailer_tag_at(m, n - 7));
    assert(first_trailer_tag(m, n - 7));
    assert forall|k: int| n - 7 + 3 <= k < n - 1 implies m[k] != SOH by {
        assert(k == n - 4 || k == n - 3 || k == n - 2);
    }
    assert(frame_end(m, n - 7, n - 1));
    let (i2, e2) = choose|i2: int, e2: int| frame_end(m, i2, e2);
    lemma_frame_end_unique(m, n - 7, n - 1, i2, e2);
    assert(m.take(n) =~= m);
    assert(m.skip(n) =~= Seq::<u8>::empty());
}

/// A whole message in the buffer is handed out as it is, and the buffer is left empty.
pub proof fn lemma_whole_frame_decodes(m: Seq<u8>)
    requires
        wire_frame(m),
    ensures
        decoded(m) == Some(m),
        remainder(m) == Seq::<u8>::empty(),
{
    assert(first_marker(m, 0));
    lemma_synced_at(m, 0);
    assert(m.skip(0) =~= m);
    lemma_frame_of_whole(m);
}

proof fn lemma_prefix_has_no_frame(m: Seq<u8>, k: int, i: int, e: int)
    requires
        wire_frame(m),
        0 <= k < m.len(),
    ensures
        !frame_end(m.take(k), i, e),
{
    let s = m.take(k);
    let n = m.len() as int;
    if frame_end(s, i, e) {
        assert(trailer_tag_at(s, i));
        assert(s[i] == m[i] && s[i + 1] == m[i + 1] && s[i + 2] == m[i + 2]);
        assert(trailer_tag_at(m, i));
        assert(i >= n - 7);
        assert(s[e] == SOH);
        assert(s[e] == m[e]);
        assert(n - 4 <= e <= n - 2);
    }
}

/// Partial reads are safe: on any proper prefix of a message the decoder hands out
/// nothing and consumes nothing, so the message comes out whole, once, however the
/// bytes were split between reads.
pub proof fn lemma_prefix_waits(m: Seq<u8>, k: int)
    requires
        wire_frame(m),
        0 <= k < m.len(),
    ensures
        decoded(m.take(k)) is None,
        remainder(m.take(k)) == m.take(k),
{
    let s = m.take(k);
    if k >= 10 {
        assert(s.subrange(0, 5) =~= m.subrange(0, 5));
        assert(first_marker(s, 0));
        lemma_synced_at(s, 0);
        assert(s.skip(0) =~= s);
        assert forall|i: int, e: int| !frame_end(s, i, e) by {
            lemma_prefix_has_no_frame(m, k, i, e);
        }
    } else {
        assert(!decodable(s));
    }
}

/// Resynchronisation: bytes before a message that hold no begin marker are dropped,
/// and the message comes out whole.
pub proof fn lemma_garbage_skipped(garbage: Seq<u8>, m: Seq<u8>)
    requires
        wire_frame(m),
        forall|p: int| 0 <= p < garbage.len() ==> !marker_at(garbage + m, p),
    ensures
        decoded(garbage + m) == Some(m),
        remainder(garbage + m) == Seq::<u8>::empty(),
{
    let s = garbage + m;
    let g = garbage.len() as int;
    assert(s.subrange(g, g + 5) =~= m.subrange(0, 5));
    assert(first_marker(s, g));
    lemma_synced_at(s, g);
    assert(s.skip(g) =~= m);
    lemma_frame_of_whole(m);
}

/// The bytes of `chunks`, one after another.
pub open spec fn joined(chunks: Seq<Seq<u8>>) -> Seq<u8>
    decreases chunks.len(),
{
    if chunks.len() == 0 {
        Seq::<u8>::empty()
    } else {
        joined(chunks.drop_last()) + chunks.last()
    }
}

/// A stream read in pieces: starting from a buffer holding `buf`, each chunk of
/// `chunks` is appended in turn and the decoder is called after each. The result is
/// the messages handed out, in order, and what is left in the buffer.
pub open spec fn feed(buf: Seq<u8>, chunks: Seq<Seq<u8>>) -> (Seq<Seq<u8>>, Seq<u8>)
    decreases chunks.len(),
{
    if chunks.len() == 0 {
        (Seq::<Seq<u8>>::empty(), buf)
    } else {
        let (out, b) = feed(buf, chunks.drop_last());
        let s = b + chunks.last();
        match decoded(s) {
            Some(f) => (out.push(f), remainder(s)),
            None => (out, remainder(s)),
        }
    }
}

proof fn lemma_feed_prefix(m: Seq<u8>, chunks: Seq<Seq<u8>>)
    requires
        wire_frame(m),
        joined(chunks).len() <= m.len(),
        m.take(joined(chunks).len() as int) == joined(chunks),
    ensures
        joined(chunks).len() < m.len() ==> feed(Seq::<u8>::empty(), chunks) == (
        Seq::<Seq<u8>>::empty(),
        joined(chunks),
        ),
        joined(chunks).len() == m.len() ==> feed(Seq::<u8>::empty(), chunks) == (
        seq![m],
        Seq::<u8>::empty(),
        ),
    decreases chunks.len(),
{
    if chunks.len() == 0 {
        assert(feed(Seq::<u8>::empty(), chunks) == (Seq::<Seq<u8>>::empty(), Seq::<u8>::empty()));
    } else {
        let d = chunks.drop_last();
        let c = chunks.last();
        let l = joined(chunks).len() as int;
        let ld = joined(d).len() as int;
        assert(joined(chunks) == joined(d) + c);
        assert(m.take(ld) =~= joined(d)) by {
            assert(m.take(l).take(ld) =~= m.take(ld));
            assert(joined(chunks).take(ld) =~= joined(d));
        }
        lemma_feed_prefix(m, d);
        if ld < m.len() {
            let s = joined(d) + c;
            assert(s == m.take(l));
            if l < m.len() {
                lemma_prefix_waits(m, l);
            } else {
                assert(m.take(l) =~= m);
                lemma_whole_frame_decodes(m);
                assert(Seq::<Seq<u8>>::empty().push(m) =~= seq![m]);
            }
        } else {
            assert(c.len() == 0);
            let s = Seq::<u8>::empty() + c;
            assert(s =~= Seq::<u8>::empty());
            assert(!decodable(s));
        }
    }
}

/// However a message is split between reads, feeding the pieces in turn hands it out
/// exactly once, whole, after the last piece, and leaves the buffer empty; before the
/// last piece nothing is handed out and nothing is consumed.
pub proof fn lemma_split_reads(m: Seq<u8>, chunks: Seq<Seq<u8>>)
    requires
        wire_frame(m),
        joined(chunks) == m,
    ensures
        feed(Seq::<u8>::empty(), chunks) == (seq![m], Seq::<u8>::empty()),
        forall|j: int|
            0 <= j <= chunks.len() && joined(chunks.take(j)).len() < m.len() ==> #[trigger] feed(
                Seq::<u8>::empty(),
                chunks.take(j),
            ) == (Seq::<Seq<u8>>::empty(), joined(chunks.take(j))),
{
    assert(m.take(m.len() as int) =~= m);
    lemma_feed_prefix(m, chunks);
    assert forall|j: int|
        0 <= j <= chunks.len() && joined(chunks.take(j)).len() < m.len() implies #[trigger] feed(
            Seq::<u8>::empty(),
            chunks.take(j),
        ) == (Seq::<Seq<u8>>::empty(), joined(chunks.take(j))) by {
        lemma_joined_prefix(chunks, j);
        let pj = joined(chunks.take(j));
        assert(m.take(pj.len() as int) =~= pj);
        lemma_feed_prefix(m, chunks.take(j));
    }
}

proof fn lemma_joined_prefix(chunks: Seq<Seq<u8>>, j: int)
    requires
        0 <= j <= chunks.len(),
    ensures
        joined(chunks.take(j)).len() <= joined(chunks).len(),
        joined(chunks).take(joined(chunks.take(j)).len() as int) == joined(chunks.take(j)),
    decreases chunks.len(),
{
    if j == chunks.len() {
        assert(chunks.take(j) =~= chunks);
        assert(joined(chunks).take(joined(chunks).len() as int) =~= joined(chunks));
    } else {
        let d = chunks.drop_last();
        lemma_joined_prefix(d, j);
        assert(d.take(j) =~= chunks.take(j));
        let pj = joined(chunks.take(j));
        assert(joined(chunks) == joined(d) + chunks.last());
        assert(joined(chunks).take(pj.len() as int) =~= joined(d).take(pj.len() as int));
    }
}

} // verus!
