use bytes::BytesMut;
use vstd::prelude::*;
use vstd::slice::{slice_subrange, slice_to_vec};

use crate::status::{Code, Status};

verus! {

#[verifier::external_type_specification]
#[verifier::external_body]
pub struct ExBytesMut(bytes::BytesMut);

/// What a `BytesMut` holds, from its start to its length.
pub uninterp spec fn bytes_mut_contents(b: BytesMut) -> Seq<u8>;

/// The largest number of bytes a buffer may hold.
pub const MAX_BUFFER_LEN: usize = 0x7fff_ffff;

/// Relies on `BytesMut::with_capacity`: the new buffer is empty.
#[verifier::external_body]
fn bytes_mut_with_capacity(capacity: usize) -> (r: BytesMut)
    requires
        capacity <= MAX_BUFFER_LEN,
    ensures
        bytes_mut_contents(r) == Seq::<u8>::empty(),
{
    BytesMut::with_capacity(capacity)
}

/// Relies on `BytesMut::len`: the number of bytes held.
#[verifier::external_body]
fn bytes_mut_len(b: &BytesMut) -> (r: usize)
    ensures
        r == bytes_mut_contents(*b).len(),
{
    b.len()
}

/// Relies on `BytesMut::capacity`: the bytes the buffer holds without
/// reallocating, never fewer than those it holds.
#[verifier::external_body]
fn bytes_mut_capacity(b: &BytesMut) -> (r: usize)
    ensures
        r >= bytes_mut_contents(*b).len(),
{
    b.capacity()
}

/// Relies on `BytesMut::reserve`: it grows the allocation and keeps the bytes.
/// Its one panic, a capacity past `usize`, is ruled out by the bound; a
/// failed allocation aborts rather than unwinds.
#[verifier::external_body]
fn bytes_mut_reserve(b: &mut BytesMut, additional: usize)
    requires
        bytes_mut_contents(*old(b)).len() + additional <= MAX_BUFFER_LEN,
    ensures
        bytes_mut_contents(*final(b)) == bytes_mut_contents(*old(b)),
    no_unwind
{
    b.reserve(additional)
}

/// Relies on `BytesMut::extend_from_slice`: the bytes are appended. It
/// reserves room first, so its `put_slice` never panics; the bound rules
/// out the capacity overflow, and a failed allocation aborts.
#[verifier::external_body]
fn bytes_mut_extend(b: &mut BytesMut, s: &[u8])
    requires
        bytes_mut_contents(*old(b)).len() + s@.len() <= MAX_BUFFER_LEN,
    ensures
        bytes_mut_contents(*final(b)) == bytes_mut_contents(*old(b)) + s@,
    no_unwind
{
    b.extend_from_slice(s)
}

/// Relies on `BytesMut`'s `AsRef<[u8]>`: a view of the bytes held.
#[verifier::external_body]
fn bytes_mut_as_slice(b: &BytesMut) -> (r: &[u8])
    ensures
        r@ == bytes_mut_contents(*b),
{
    b.as_ref()
}

/// The message of the error for a writer that produced another number of
/// bytes than the size computed before.
pub const SIZE_MISMATCH: &'static str = "encoded message length differs from its computed size";

/// The message of the error for a message that would take a buffer past
/// `MAX_BUFFER_LEN` bytes.
pub const BUFFER_FULL: &'static str = "encoded message does not fit in the buffer";

/// A growable destination for encoded messages. Bytes are only ever
/// appended, a whole message at a time.
pub struct EncodeBuf {
    bytes: BytesMut,
}

impl View for EncodeBuf {
    type V = Seq<u8>;

    closed spec fn view(&self) -> Seq<u8> {
        bytes_mut_contents(self.bytes)
    }
}

impl EncodeBuf {
    #[verifier::type_invariant]
    closed spec fn bounded(&self) -> bool {
        self@.len() <= MAX_BUFFER_LEN
    }

    pub fn new() -> (r: EncodeBuf)
        ensures
            r@ == Seq::<u8>::empty(),
    {
        EncodeBuf { bytes: bytes_mut_with_capacity(0) }
    }

    /// An empty buffer that holds `capacity` bytes before it grows.
    pub fn with_capacity(capacity: usize) -> (r: EncodeBuf)
        requires
            capacity <= MAX_BUFFER_LEN,
        ensures
            r@ == Seq::<u8>::empty(),
    {
        EncodeBuf { bytes: bytes_mut_with_capacity(capacity) }
    }

    pub fn len(&self) -> (r: usize)
        ensures
            r == self@.len(),
            r <= MAX_BUFFER_LEN,
    {
        proof {
            use_type_invariant(self);
        }
        bytes_mut_len(&self.bytes)
    }

    /// The bytes that can be written before the buffer must grow.
    pub fn remaining_mut(&self) -> (r: usize) {
        let cap = bytes_mut_capacity(&self.bytes);
        let len = bytes_mut_len(&self.bytes);
        cap - len
    }

    /// Asks for room for `additional` more bytes; the contents stay as they are.
    pub fn reserve(&mut self, additional: usize)
        requires
            old(self)@.len() + additional <= MAX_BUFFER_LEN,
        ensures
            final(self)@ == old(self)@,
    {
        proof {
            use_type_invariant(&*self);
        }
        bytes_mut_reserve(&mut self.bytes, additional)
    }

    /// Appends the bytes that a message writer produced, provided it wrote
    /// exactly the `expected` number of bytes computed beforehand.
    pub fn commit(&mut self, expected: usize, written: &[u8]) -> (r: Result<(), Status>)
        ensures
            r is Ok <==> (written@.len() == expected && old(self)@.len() + expected
                <= MAX_BUFFER_LEN),
            r is Ok ==> final(self)@ == old(self)@ + written@,
            r is Err ==> final(self)@ == old(self)@,
            written@.len() != expected ==> (r matches Err(s) && s.code == Code::Internal
                && s.message@ == SIZE_MISMATCH@),
            written@.len() == expected && old(self)@.len() + expected > MAX_BUFFER_LEN
                ==> (r matches Err(s) && s.code == Code::ResourceExhausted && s.message@
                == BUFFER_FULL@),
    {
        proof {
            use_type_invariant(&*self);
        }
        if written.len() != expected {
            return Err(
                Status::new(
                    Code::Internal,
                    String::from_str(SIZE_MISMATCH),
                ),
            );
        }
        let len = bytes_mut_len(&self.bytes);
        if expected > MAX_BUFFER_LEN - len {
            return Err(
                Status::new(
                    Code::ResourceExhausted,
                    String::from_str(BUFFER_FULL),
                ),
            );
        }
        bytes_mut_extend(&mut self.bytes, written);
        Ok(())
    }

    pub fn as_slice(&self) -> (r: &[u8])
        ensures
            r@ == self@,
    {
        bytes_mut_as_slice(&self.bytes)
    }

    pub fn to_vec(&self) -> (r: Vec<u8>)
        ensures
            r@ == self@,
    {
        slice_to_vec(bytes_mut_as_slice(&self.bytes))
    }
}

/// The bytes of `segs[i]`, `segs[i + 1]`, ... one after the other.
pub open spec fn joined(segs: Seq<Vec<u8>>, i: int) -> Seq<u8>
    decreases segs.len() - i,
{
    if i < 0 || i >= segs.len() {
        Seq::empty()
    } else {
        segs[i]@ + joined(segs, i + 1)
    }
}

/// What is left to read from segment `seg`, offset `off`, on.
pub open spec fn rest_from(segs: Seq<Vec<u8>>, seg: int, off: int) -> Seq<u8> {
    if 0 <= seg < segs.len() {
        segs[seg]@.subrange(off, segs[seg]@.len() as int) + joined(segs, seg + 1)
    } else {
        Seq::empty()
    }
}

/// Where the next unread byte stands, and how many are left.
struct Cursor {
    seg: usize,
    off: usize,
    left: usize,
}

/// One message's bytes, held in one or more segments, read front to back.
/// A reader sees the segments only through `bytes` and `advance`: the
/// bytes it reads are the same however the window is cut up.
pub struct DecodeBuf {
    segments: Vec<Vec<u8>>,
    cur: Cursor,
}

impl View for DecodeBuf {
    type V = Seq<u8>;

    closed spec fn view(&self) -> Seq<u8> {
        rest_from(self.segments@, self.cur.seg as int, self.cur.off as int)
    }
}

proof fn lemma_joined_step(segs: Seq<Vec<u8>>, i: int)
    requires
        0 <= i < segs.len(),
    ensures
        joined(segs, i) == segs[i]@ + joined(segs, i + 1),
{
}

proof fn lemma_joined_end(segs: Seq<Vec<u8>>, i: int)
    requires
        i >= segs.len(),
    ensures
        joined(segs, i) == Seq::<u8>::empty(),
{
}

/// Stepping past the end of a segment leaves what is left unchanged.
proof fn lemma_rest_next(segs: Seq<Vec<u8>>, s: int)
    requires
        0 <= s < segs.len(),
    ensures
        rest_from(segs, s, segs[s]@.len() as int) == rest_from(segs, s + 1, 0),
{
    let cur = segs[s]@;
    assert(cur.subrange(cur.len() as int, cur.len() as int) =~= Seq::<u8>::empty());
    if s + 1 < segs.len() {
        lemma_joined_step(segs, s + 1);
        let nxt = segs[s + 1]@;
        assert(nxt.subrange(0, nxt.len() as int) =~= nxt);
    } else {
        lemma_joined_end(segs, s + 1);
    }
    assert(Seq::<u8>::empty() + joined(segs, s + 1) =~= joined(segs, s + 1));
}

/// Moving `t` bytes along a segment drops the first `t` bytes of what is left.
proof fn lemma_rest_skip(segs: Seq<Vec<u8>>, s: int, o: int, t: int)
    requires
        0 <= s < segs.len(),
        0 <= o,
        0 <= t,
        o + t <= segs[s]@.len(),
    ensures
        rest_from(segs, s, o + t) == rest_from(segs, s, o).subrange(t, rest_from(segs, s, o).len() as int),
{
    let cur = segs[s]@;
    let j = joined(segs, s + 1);
    assert(cur.subrange(o + t, cur.len() as int) + j =~= (cur.subrange(o, cur.len() as int) + j).subrange(
        t,
        (cur.subrange(o, cur.len() as int) + j).len() as int,
    ));
}

impl DecodeBuf {
    #[verifier::type_invariant]
    closed spec fn well_formed(&self) -> bool {
        &&& self.cur.seg <= self.segments@.len()
        &&& self.cur.seg < self.segments@.len() ==> self.cur.off < self.segments@[self.cur.seg as int]@.len()
        &&& self.cur.seg == self.segments@.len() ==> self.cur.off == 0
        &&& self.cur.left == self@.len()
    }

    /// Moves past exhausted segments from `seg` on.
    fn settle(segments: &Vec<Vec<u8>>, seg: usize, off: usize) -> (r: (usize, usize))
        requires
            seg <= segments@.len(),
            seg < segments@.len() ==> off <= segments@[seg as int]@.len(),
            seg == segments@.len() ==> off == 0,
        ensures
            r.0 <= segments@.len(),
            r.0 < segments@.len() ==> r.1 < segments@[r.0 as int]@.len(),
            r.0 == segments@.len() ==> r.1 == 0,
            rest_from(segments@, r.0 as int, r.1 as int) == rest_from(segments@, seg as int, off as int),
    {
        let mut s = seg;
        let mut o = off;
        while s < segments.len() && o == segments[s].len()
            invariant
                seg <= s <= segments@.len(),
                s < segments@.len() ==> o <= segments@[s as int]@.len(),
                s == segments@.len() ==> o == 0,
                rest_from(segments@, s as int, o as int) == rest_from(segments@, seg as int, off as int),
            decreases segments@.len() - s,
        {
            proof {
                lemma_rest_next(segments@, s as int);
            }
            s = s + 1;
            o = 0;
        }
        (s, o)
    }

    /// A window over `segments`, read in order.
    pub fn new(segments: Vec<Vec<u8>>) -> (r: DecodeBuf)
        requires
            joined(segments@, 0).len() <= usize::MAX,
        ensures
            r@ == joined(segments@, 0),
    {
        let mut total: usize = 0;
        let mut i: usize = 0;
        while i < segments.len()
            invariant
                i <= segments@.len(),
                total + joined(segments@, i as int).len() == joined(segments@, 0).len(),
                joined(segments@, 0).len() <= usize::MAX,
            decreases segments@.len() - i,
        {
            proof {
                lemma_joined_step(segments@, i as int);
            }
            total = total + segments[i].len();
            i = i + 1;
        }
        proof {
            if segments@.len() > 0 {
                lemma_joined_step(segments@, 0);
                let first = segments@[0]@;
                assert(first.subrange(0, first.len() as int) =~= first);
            } else {
                lemma_joined_end(segments@, 0);
            }
        }
        let (seg, off) = DecodeBuf::settle(&segments, 0, 0);
        DecodeBuf { segments, cur: Cursor { seg, off, left: total } }
    }

    /// A window over one contiguous run of bytes.
    pub fn from_vec(bytes: Vec<u8>) -> (r: DecodeBuf)
        ensures
            r@ == bytes@,
    {
        let ghost whole = bytes@;
        let len: usize = bytes.len();
        let mut segments: Vec<Vec<u8>> = Vec::new();
        segments.push(bytes);
        proof {
            lemma_joined_step(segments@, 0);
            lemma_joined_end(segments@, 1);
            assert(whole.len() == len);
            assert(whole + Seq::<u8>::empty() =~= whole);
        }
        DecodeBuf::new(segments)
    }

    /// The number of bytes left to read.
    pub fn remaining(&self) -> (r: usize)
        ensures
            r == self@.len(),
    {
        proof {
            use_type_invariant(self);
        }
        self.cur.left
    }

    /// The next contiguous run of unread bytes: empty only when nothing is
    /// left, and possibly shorter than what is left.
    pub fn bytes(&self) -> (r: &[u8])
        ensures
            r@.len() <= self@.len(),
            r@ == self@.subrange(0, r@.len() as int),
            r@.len() == 0 <==> self@.len() == 0,
    {
        proof {
            use_type_invariant(self);
        }
        if self.cur.seg < self.segments.len() {
            let v = &self.segments[self.cur.seg];
            let r = slice_subrange(v.as_slice(), self.cur.off, v.len());
            proof {
                let cur = self.segments@[self.cur.seg as int]@;
                let a = cur.subrange(self.cur.off as int, cur.len() as int);
                assert(a =~= (a + joined(self.segments@, self.cur.seg + 1)).subrange(0, a.len() as int));
            }
            r
        } else {
            let r: &[u8] = &[];
            proof {
                assert(r@ =~= self@.subrange(0, 0));
            }
            r
        }
    }

    /// Marks the first `n` unread bytes as read.
    pub fn advance(&mut self, n: usize)
        requires
            n <= old(self)@.len(),
        ensures
            final(self)@ == old(self)@.subrange(n as int, old(self)@.len() as int),
    {
        proof {
            use_type_invariant(&*self);
        }
        let ghost start = self@;
        let mut s = self.cur.seg;
        let mut o = self.cur.off;
        let mut k = n;
        while k > 0
            invariant
                s <= self.segments@.len(),
                s < self.segments@.len() ==> o < self.segments@[s as int]@.len(),
                s == self.segments@.len() ==> o == 0,
                k <= n,
                k <= rest_from(self.segments@, s as int, o as int).len(),
                rest_from(self.segments@, s as int, o as int) == start.subrange(n - k, start.len() as int),
                n <= start.len(),
            decreases k,
        {
            assert(s < self.segments@.len()) by {
                if s == self.segments@.len() {
                    assert(rest_from(self.segments@, s as int, o as int).len() == 0);
                }
            };
            let seg_len = self.segments[s].len();
            let avail = seg_len - o;
            let t = if k < avail { k } else { avail };
            proof {
                lemma_rest_skip(self.segments@, s as int, o as int, t as int);
                let r0 = rest_from(self.segments@, s as int, o as int);
                assert(r0.subrange(t as int, r0.len() as int) =~= start.subrange(n - k + t, start.len() as int));
            }
            let (s2, o2) = DecodeBuf::settle(&self.segments, s, o + t);
            s = s2;
            o = o2;
            k = k - t;
        }
        let left = self.cur.left - n;
        self.cur = Cursor { seg: s, off: o, left };
    }

    /// Copies at most `max` bytes of the next contiguous run onto `out`
    /// and marks them read; returns how many were copied.
    pub fn read(&mut self, out: &mut Vec<u8>, max: usize) -> (r: usize)
        ensures
            r <= max,
            r <= old(self)@.len(),
            max > 0 && old(self)@.len() > 0 ==> r > 0,
            final(out)@ == old(out)@ + old(self)@.subrange(0, r as int),
            final(self)@ == old(self)@.subrange(r as int, old(self)@.len() as int),
    {
        let span = self.bytes();
        let n = if span.len() < max { span.len() } else { max };
        let mut i: usize = 0;
        while i < n
            invariant
                i <= n,
                n <= span@.len(),
                out@ == old(out)@ + span@.subrange(0, i as int),
            decreases n - i,
        {
            out.push(span[i]);
            proof {
                assert(span@.subrange(0, i + 1) =~= span@.subrange(0, i as int).push(span@[i as int]));
            }
            i = i + 1;
        }
        proof {
            assert(span@.subrange(0, n as int) =~= self@.subrange(0, n as int));
        }
        self.advance(n);
        n
    }

    /// Reads everything that is left, in order.
    pub fn drain(&mut self) -> (r: Vec<u8>)
        ensures
            r@ == old(self)@,
            final(self)@.len() == 0,
    {
        let mut out: Vec<u8> = Vec::new();
        while self.remaining() > 0
            invariant
                out@ + self@ == old(self)@,
            decreases self@.len(),
        {
            let ghost before = self@;
            let ghost out_before = out@;
            self.read(&mut out, usize::MAX);
            proof {
                assert(out@ + self@ =~= out_before + before);
            }
        }
        proof {
            assert(out@ + self@ =~= out@);
        }
        out
    }
}

/// How a window's bytes are cut into segments does not change what it
/// holds: a window of the segments `segs` holds the same bytes as a window
/// of the one contiguous segment `whole` that they join up to. Since a
/// reader sees a window only through its bytes, a message read from
/// either is read from the same bytes.
pub proof fn lemma_fragmentation_invisible(segs: Seq<Vec<u8>>, whole: Vec<u8>)
    requires
        joined(segs, 0) == whole@,
    ensures
        joined(seq![whole], 0) == joined(segs, 0),
{
    let one = seq![whole];
    lemma_joined_step(one, 0);
    lemma_joined_end(one, 1);
    assert(whole@ + Seq::<u8>::empty() =~= whole@);
}

} // verus!
