use std::marker::PhantomData;
use vstd::prelude::*;

use crate::buf::{DecodeBuf, EncodeBuf, BUFFER_FULL, MAX_BUFFER_LEN, SIZE_MISMATCH};
use crate::status::{Code, Status};

verus! {

/// The content type that a protocol-buffer codec advertises.
pub const CONTENT_TYPE: &'static str = "application/grpc+proto";

/// The message of the error for a parser that left bytes of its window
/// unread.
pub const UNREAD_BYTES: &'static str = "message parser left bytes of its frame unread";

/// What every message type carried by the codec supplies: its default
/// value, the size of its serialized form, a writer for that form, and a
/// parser that merges bytes read from a window into the value.
pub trait Message: Sized {
    /// The default value, into which a decoded message is merged.
    fn new() -> Self;

    /// The number of bytes that `write_to` produces for this value.
    fn compute_size(&self) -> u32;

    /// Appends the serialized form to `out`, or describes why it cannot.
    fn write_to(&self, out: &mut Vec<u8>) -> Result<(), String>;

    /// Reads serialized bytes from `input` and merges them into this value,
    /// or describes why they do not form a message.
    fn merge_from(&mut self, input: &mut DecodeBuf) -> Result<(), String>;
}

/// A parse failure becomes a status with code `Internal` and the parser's
/// description as its message.
pub fn from_decode_error(description: String) -> (r: Status)
    ensures
        r.code == Code::Internal,
        r.message@ == description@,
{
    Status::new(Code::Internal, description)
}

/// A stateless factory for the encoder of outbound messages `T` and the
/// decoder of inbound messages `U`.
pub struct Codec<T, U> {
    marker: PhantomData<(T, U)>,
}

/// Serializes one message of type `T` into an output buffer.
pub struct Encoder<T> {
    marker: PhantomData<T>,
}

/// Parses one message of type `T` from an input window.
pub struct Decoder<T> {
    marker: PhantomData<T>,
}

impl<T: Message, U: Message> Codec<T, U> {
    pub fn new() -> (r: Self)
        ensures
            r == Self::fresh(),
    {
        Codec { marker: PhantomData }
    }
}

impl<T, U> Codec<T, U> {
    /// The one value a codec has: it carries no state.
    pub closed spec fn fresh() -> Self {
        Codec { marker: PhantomData }
    }

    /// A codec carries no state: every value is the fresh one.
    pub proof fn lemma_stateless(c: Self)
        ensures
            c == Self::fresh(),
    {
        assert(c.marker == PhantomData::<(T, U)>);
    }

    /// A fresh encoder; the codec is left as it was.
    pub fn encoder(&mut self) -> (r: Encoder<T>)
        ensures
            r == Encoder::<T>::fresh(),
            *final(self) == *old(self),
    {
        Encoder { marker: PhantomData }
    }

    /// A fresh decoder; the codec is left as it was.
    pub fn decoder(&mut self) -> (r: Decoder<U>)
        ensures
            r == Decoder::<U>::fresh(),
            *final(self) == *old(self),
    {
        Decoder { marker: PhantomData }
    }

    /// The content type to advertise on outbound headers and to expect on
    /// inbound ones.
    pub fn content_type(&self) -> (r: &'static str)
        ensures
            r@ == CONTENT_TYPE@,
    {
        CONTENT_TYPE
    }
}

impl<T, U> Clone for Codec<T, U> {
    fn clone(&self) -> (r: Self)
        ensures
            r == *self,
    {
        Codec { marker: self.marker }
    }
}

impl<T> Encoder<T> {
    /// The one value an encoder has: it carries no state.
    pub closed spec fn fresh() -> Self {
        Encoder { marker: PhantomData }
    }

    /// An encoder carries no state: every value is the fresh one.
    pub proof fn lemma_stateless(e: Self)
        ensures
            e == Self::fresh(),
    {
        assert(e.marker == PhantomData::<T>);
    }
}

impl<T: Message> Encoder<T> {
    pub fn new() -> (r: Self)
        ensures
            r == Self::fresh(),
    {
        Encoder { marker: PhantomData }
    }

    /// Appends the serialized form of `item` to `buf`. The size is computed
    /// first and, where it fits, room is reserved for it; the writer then
    /// fills a fresh window, whose bytes are committed only if there are
    /// exactly that many. A writer failure or a size mismatch gives
    /// `Internal`, a message that would take `buf` past `MAX_BUFFER_LEN`
    /// gives `ResourceExhausted`; on any failure `buf` is left as it was.
    /// The encoder itself is never changed.
    pub fn encode(&mut self, item: T, buf: &mut EncodeBuf) -> (r: Result<(), Status>)
        ensures
            *final(self) == *old(self),
            r is Ok ==> final(buf)@.len() >= old(buf)@.len() && final(buf)@.subrange(
                0,
                old(buf)@.len() as int,
            ) == old(buf)@,
            r is Err ==> final(buf)@ == old(buf)@,
            r matches Err(s) ==> s.code == Code::Internal || s.code == Code::ResourceExhausted,
    {
        let len = item.compute_size() as usize;
        let have = buf.len();
        if buf.remaining_mut() < len && len <= MAX_BUFFER_LEN - have {
            buf.reserve(len);
        }
        let mut window: Vec<u8> = Vec::with_capacity(len);
        let written = match item.write_to(&mut window) {
            Ok(()) => Ok(window),
            Err(description) => Err(description),
        };
        let r = Self::finish(len, written, buf);
        proof {
            if r is Ok {
                assert(buf@.subrange(0, old(buf)@.len() as int) =~= old(buf)@);
            }
        }
        r
    }

    /// Settles an encode once the writer has run: `written` is what it
    /// produced, or its description of a failure, and `expected` the size
    /// computed before. The bytes are appended to `buf` only if there are
    /// exactly `expected` of them.
    pub fn finish(expected: usize, written: Result<Vec<u8>, String>, buf: &mut EncodeBuf) -> (r:
        Result<(), Status>)
        ensures
            written matches Err(d) ==> (r matches Err(s) && s.code == Code::Internal && s.message@
                == d@) && final(buf)@ == old(buf)@,
            written matches Ok(w) ==> {
                &&& r is Ok <==> (w@.len() == expected && old(buf)@.len() + expected <= MAX_BUFFER_LEN)
                &&& r is Ok ==> final(buf)@ == old(buf)@ + w@
                &&& r is Err ==> final(buf)@ == old(buf)@
                &&& w@.len() != expected ==> (r matches Err(s) && s.code == Code::Internal
                    && s.message@ == SIZE_MISMATCH@)
                &&& w@.len() == expected && old(buf)@.len() + expected > MAX_BUFFER_LEN ==> (
                r matches Err(s) && s.code == Code::ResourceExhausted && s.message@ == BUFFER_FULL@)
            },
    {
        match written {
            Err(description) => Err(Status::new(Code::Internal, description)),
            Ok(bytes) => buf.commit(expected, bytes.as_slice()),
        }
    }

    /// The content type of the bytes this encoder writes.
    pub fn content_type(&self) -> (r: &'static str)
        ensures
            r@ == CONTENT_TYPE@,
    {
        CONTENT_TYPE
    }
}

impl<T> Clone for Encoder<T> {
    fn clone(&self) -> (r: Self)
        ensures
            r == *self,
    {
        Encoder { marker: self.marker }
    }
}

impl<T> Decoder<T> {
    /// The one value a decoder has: it carries no state.
    pub closed spec fn fresh() -> Self {
        Decoder { marker: PhantomData }
    }

    /// A decoder carries no state: every value is the fresh one.
    pub proof fn lemma_stateless(e: Self)
        ensures
            e == Self::fresh(),
    {
        assert(e.marker == PhantomData::<T>);
    }
}

impl<T: Message> Decoder<T> {
    pub fn new() -> (r: Self)
        ensures
            r == Self::fresh(),
    {
        Decoder { marker: PhantomData }
    }

    /// Parses one message from the whole window: the default value with the
    /// window's bytes merged into it. Parse failures, and bytes left unread
    /// by the parser, give `Internal`; success means the window was read to
    /// its end.
    pub fn decode(&mut self, buf: &mut DecodeBuf) -> (r: Result<T, Status>)
        ensures
            *final(self) == *old(self),
            r is Ok ==> final(buf)@.len() == 0,
            r matches Err(s) ==> s.code == Code::Internal,
    {
        let mut t = T::new();
        let merged = t.merge_from(buf);
        Self::finish(t, merged, buf)
    }

    /// Settles a decode once the parser has run: `merged` is its outcome.
    /// The message is the result only if the parser succeeded and read the
    /// window to its end.
    pub fn finish(t: T, merged: Result<(), String>, buf: &DecodeBuf) -> (r: Result<T, Status>)
        ensures
            merged matches Err(d) ==> (r matches Err(s) && s.code == Code::Internal && s.message@
                == d@),
            merged is Ok && buf@.len() == 0 ==> r == Ok::<T, Status>(t),
            merged is Ok && buf@.len() != 0 ==> (r matches Err(s) && s.code == Code::Internal
                && s.message@ == UNREAD_BYTES@),
    {
        match merged {
            Err(description) => Err(from_decode_error(description)),
            Ok(()) => {
                if buf.remaining() == 0 {
                    Ok(t)
                } else {
                    Err(
                        Status::new(
                            Code::Internal,
                            String::from_str(UNREAD_BYTES),
                        ),
                    )
                }
            },
        }
    }
}

impl<T> Clone for Decoder<T> {
    fn clone(&self) -> (r: Self)
        ensures
            r == *self,
    {
        Decoder { marker: self.marker }
    }
}

} // verus!
