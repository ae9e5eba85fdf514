use vstd::prelude::*;

use crate::buf::EncodeBuf;
use crate::codec::{Encoder, Message};
use crate::status::{Code, Status};

verus! {

/// What the message source gave when it was last polled.
pub enum SourceEvent<T> {
    /// No item yet; the source will signal when it has one.
    NotReady,
    /// The next item, in the source's order.
    Item(T),
    /// The source is exhausted.
    Done,
    /// The source failed; the status ends the stream.
    Failed(Status),
}

/// What one poll for data yields.
pub enum DataPoll {
    /// Not ready: poll again once the source signals readiness.
    NotReady,
    /// The encoded bytes of the next item.
    Chunk(Vec<u8>),
    /// No more data; the trailers are now available.
    End,
}

/// Whether the stream has ended, after one poll for data from a stream
/// that had ended already or not and that yielded `out`.
pub open spec fn ended_after(ended: bool, out: DataPoll) -> bool {
    ended || out is End
}

/// Whether the stream has ended after a fresh adapter yielded `outs`, one
/// poll after another.
pub open spec fn ended_after_all(outs: Seq<DataPoll>) -> bool
    decreases outs.len(),
{
    if outs.len() == 0 {
        false
    } else {
        ended_after(ended_after_all(outs.drop_last()), outs.last())
    }
}

/// What one poll for data may yield for the source outcome `event`, on a
/// stream that had ended already or not: `End` once ended; else not ready
/// exactly for a source that is not ready, a chunk or (when the item
/// cannot be encoded) the end for an item, and the end for an exhausted
/// or failed source.
pub open spec fn poll_allows<T>(ended: bool, event: SourceEvent<T>, out: DataPoll) -> bool {
    if ended {
        out is End
    } else {
        match event {
            SourceEvent::NotReady => out is NotReady,
            SourceEvent::Item(_) => out is Chunk || out is End,
            SourceEvent::Done => out is End,
            SourceEvent::Failed(_) => out is End,
        }
    }
}

/// A response body that encodes the items of a message source, one chunk
/// per item and in the source's order, and then yields trailers with the
/// stream's final status. The source is polled by the caller, which hands
/// each outcome to `poll_data`.
pub struct Encode<T> {
    encoder: Encoder<T>,
    trailers: Option<Status>,
    trailers_taken: bool,
}

impl<T: Message> Encode<T> {
    /// Whether data has ended, so that trailers may be asked for.
    pub closed spec fn ended(&self) -> bool {
        self.trailers is Some || self.trailers_taken
    }

    /// Whether the trailers have been handed out already.
    pub closed spec fn trailers_taken(&self) -> bool {
        self.trailers_taken
    }

    /// The status that the trailers will carry, once data has ended and
    /// until they are handed out.
    pub closed spec fn trailer(&self) -> Option<Status> {
        self.trailers
    }

    pub fn new(encoder: Encoder<T>) -> (r: Self)
        ensures
            !r.ended(),
            !r.trailers_taken(),
            r.trailer() is None,
    {
        Encode { encoder, trailers: None, trailers_taken: false }
    }

    /// End of stream is never known ahead: it is told by `poll_data`.
    pub fn is_end_stream(&self) -> (r: bool)
        ensures
            !r,
    {
        false
    }

    /// Turns the source's latest outcome into the next piece of the body.
    /// An item becomes a chunk; an item that cannot be encoded, a failed
    /// source, or an exhausted one ends the data, and the trailers then
    /// carry the status (an error status, or `OK`). Once data has ended,
    /// every further poll yields `End`.
    pub fn poll_data(&mut self, event: SourceEvent<T>) -> (r: DataPoll)
        ensures
            final(self).ended() == ended_after(old(self).ended(), r),
            poll_allows(old(self).ended(), event, r),
            final(self).trailers_taken() == old(self).trailers_taken(),
            old(self).ended() ==> r is End && final(self).trailer() == old(self).trailer(),
            !old(self).ended() ==> old(self).trailer() is None && match event {
                SourceEvent::NotReady => r is NotReady && final(self).trailer() is None,
                SourceEvent::Item(_) => (r is Chunk && final(self).trailer() is None) || (r is End
                    && (final(self).trailer() matches Some(s) && (s.code == Code::Internal || s.code
                    == Code::ResourceExhausted))),
                SourceEvent::Done => r is End && (final(self).trailer() matches Some(s) && s.code
                    == Code::OK && s.message@.len() == 0),
                SourceEvent::Failed(s) => r is End && final(self).trailer() == Some(s),
            },
    {
        if self.trailers.is_some() || self.trailers_taken {
            return DataPoll::End;
        }
        match event {
            SourceEvent::NotReady => DataPoll::NotReady,
            SourceEvent::Item(item) => {
                let mut buf = EncodeBuf::new();
                match self.encoder.encode(item, &mut buf) {
                    Ok(()) => DataPoll::Chunk(buf.to_vec()),
                    Err(status) => {
                        self.trailers = Some(status);
                        DataPoll::End
                    },
                }
            },
            SourceEvent::Done => {
                self.trailers = Some(Status::ok());
                DataPoll::End
            },
            SourceEvent::Failed(status) => {
                self.trailers = Some(status);
                DataPoll::End
            },
        }
    }

    /// The trailing status, handed out once, after data has ended; `None`
    /// before that, and after it was handed out.
    pub fn poll_trailers(&mut self) -> (r: Option<Status>)
        ensures
            r is Some <==> old(self).ended() && !old(self).trailers_taken(),
            r == (if old(self).trailers_taken() { None } else { old(self).trailer() }),
            final(self).trailer() is None,
            final(self).ended() == old(self).ended(),
            final(self).trailers_taken() == (old(self).trailers_taken() || r is Some),
    {
        if self.trailers_taken {
            self.trailers = None;
            return None;
        }
        match self.trailers.take() {
            Some(status) => {
                self.trailers_taken = true;
                Some(status)
            },
            None => None,
        }
    }
}

/// Data ends exactly when some poll has yielded `End`: a fresh adapter
/// hands out trailers only after `poll_data` has reported end of data.
pub proof fn lemma_end_precedes_trailers(outs: Seq<DataPoll>)
    ensures
        ended_after_all(outs) <==> exists|i: int| 0 <= i < outs.len() && (#[trigger] outs[i]) is End,
    decreases outs.len(),
{
    if outs.len() > 0 {
        let init = outs.drop_last();
        lemma_end_precedes_trailers(init);
        if ended_after_all(init) {
            let i = choose|i: int| 0 <= i < init.len() && (#[trigger] init[i]) is End;
            assert(outs[i] == init[i]);
        }
        if exists|i: int| 0 <= i < outs.len() && (#[trigger] outs[i]) is End {
            let i = choose|i: int| 0 <= i < outs.len() && (#[trigger] outs[i]) is End;
            if i < init.len() {
                assert(init[i] == outs[i]);
            }
        }
    }
}

/// Polls of a fresh adapter yield one result per source outcome, in the
/// source's order: while data has not ended, a poll is not ready exactly
/// when the source was not ready, and every chunk stands where the source
/// gave an item. `events[i]` is the outcome handed to the `i`-th poll and
/// `outs[i]` what it yielded.
pub proof fn lemma_one_result_per_event<T>(events: Seq<SourceEvent<T>>, outs: Seq<DataPoll>)
    requires
        events.len() == outs.len(),
        forall|i: int|
            0 <= i < outs.len() ==> poll_allows(
                ended_after_all(outs.take(i)),
                #[trigger] events[i],
                outs[i],
            ),
        forall|i: int| 0 <= i < outs.len() - 1 ==> !((#[trigger] outs[i]) is End),
    ensures
        forall|i: int|
            0 <= i < outs.len() ==> ((#[trigger] outs[i]) is NotReady <==> events[i] is NotReady),
        forall|i: int| 0 <= i < outs.len() ==> ((#[trigger] outs[i]) is Chunk ==> events[i] is Item),
{
    assert forall|i: int| 0 <= i < outs.len() implies !ended_after_all(outs.take(i)) by {
        let pre = outs.take(i);
        lemma_end_precedes_trailers(pre);
        if ended_after_all(pre) {
            let j = choose|j: int| 0 <= j < pre.len() && (#[trigger] pre[j]) is End;
            assert(pre[j] == outs[j]);
        }
    }
    assert forall|i: int| 0 <= i < outs.len() implies ((#[trigger] outs[i]) is NotReady
        <==> events[i] is NotReady) && (outs[i] is Chunk ==> events[i] is Item) by {
        assert(!ended_after_all(outs.take(i)));
        assert(poll_allows(ended_after_all(outs.take(i)), events[i], outs[i]));
    }
}

} // verus!
