//! A bounded single-direction channel of byte buffers that aggregates small
//! buffers on read.
use vstd::prelude::*;
use std::collections::VecDeque;
use crate::io::BufView;

verus! {

/// `anyhow::Error`, an error of any kind.
#[verifier::external_type_specification]
#[verifier::external_body]
pub struct ExAnyhowError(anyhow::Error);

/// How many buffer slots the channel has; one always stays free, so at most
/// one less than this many buffers are queued at once.
pub const BUFFER_CHANNEL_SIZE: u16 = 1024;

/// How many bytes may be queued before writers are asked to wait.
pub const BUFFER_BACKPRESSURE_LIMIT: usize = 65536;

/// Up to this many queued bytes, a read that finds more than one buffer
/// queued copies them all into the reader's buffer at once.
pub const BUFFER_AGGREGATION_LIMIT: usize = 1024;

/// The total number of bytes in the views `s`.
pub open spec fn total_len(s: Seq<BufView>) -> int
    decreases s.len(),
{
    if s.len() == 0 {
        0
    } else {
        s[0].view().len() + total_len(s.drop_first())
    }
}

/// The bytes of the views `s`, one after the other.
pub open spec fn concat_views(s: Seq<BufView>) -> Seq<u8>
    decreases s.len(),
{
    if s.len() == 0 {
        Seq::empty()
    } else {
        s[0].view() + concat_views(s.drop_first())
    }
}

/// Appending a view adds its length to the total.
pub proof fn lemma_total_len_push(s: Seq<BufView>, v: BufView)
    ensures
        total_len(s.push(v)) == total_len(s) + v.view().len(),
    decreases s.len(),
{
    if s.len() == 0 {
        assert(s.push(v).drop_first() =~= Seq::<BufView>::empty());
        assert(total_len(Seq::<BufView>::empty()) == 0);
        assert(s.push(v)[0] == v);
    } else {
        lemma_total_len_push(s.drop_first(), v);
        assert(s.push(v).drop_first() =~= s.drop_first().push(v));
        assert(s.push(v)[0] == s[0]);
    }
}

/// The concatenated bytes are as many as the total length.
pub proof fn lemma_concat_len(s: Seq<BufView>)
    ensures
        concat_views(s).len() == total_len(s),
    decreases s.len(),
{
    if s.len() > 0 {
        lemma_concat_len(s.drop_first());
    }
}

/// What a read from the channel produced.
pub enum ChannelReadResult {
    /// The channel was empty and an error had been written: the error, which
    /// the read removes from the channel.
    Error(anyhow::Error),
    /// The channel is empty and closed.
    EOF,
    /// Every queued buffer was copied into the reader's buffer.
    Ready,
    /// The oldest queued buffer.
    ReadyBuf(BufView),
    /// The channel is empty but open: nothing to read yet.
    PollAgain,
}

/// The state of a bounded buffer channel: a first-in first-out queue of byte
/// buffers with a count of the bytes they hold, an optional pending error,
/// and whether the writer has closed the channel.
pub struct BoundedBufferChannelInner {
    buffers: VecDeque<BufView>,
    error: Option<anyhow::Error>,
    current_size: usize,
    len: usize,
    closed: bool,
}

impl BoundedBufferChannelInner {
    /// The queued buffers, oldest first.
    pub closed spec fn queue(&self) -> Seq<BufView> {
        self.buffers@
    }

    /// The number of queued bytes.
    pub closed spec fn spec_size(&self) -> nat {
        self.current_size as nat
    }

    /// Whether an error is pending: whether there is a pending error.
    pub open spec fn has_error(&self) -> bool {
        self.spec_error() is Some
    }

    /// The pending error, if any.
    pub closed spec fn spec_error(&self) -> Option<anyhow::Error> {
        self.error
    }

    /// Whether the channel has been closed.
    pub closed spec fn is_closed(&self) -> bool {
        self.closed
    }

    /// The queue holds at most `BUFFER_CHANNEL_SIZE - 1` well-formed views,
    /// and the byte count is their total length.
    pub closed spec fn wf(&self) -> bool {
        &&& self.len == self.buffers@.len()
        &&& self.len < BUFFER_CHANNEL_SIZE
        &&& forall|i: int| 0 <= i < self.buffers@.len() ==> (#[trigger] self.buffers@[i]).wf()
        &&& self.current_size == total_len(self.buffers@)
    }

    /// The byte count is the total length of the queued views.
    pub proof fn lemma_size_is_total(&self)
        requires
            self.wf(),
        ensures
            self.spec_size() == total_len(self.queue()),
    {
    }

    /// Whether a write would be accepted into the queue.
    pub open spec fn spec_can_write(&self) -> bool {
        self.is_closed() || self.has_error() || (self.queue().len() + 1 < BUFFER_CHANNEL_SIZE
            && self.spec_size() < BUFFER_BACKPRESSURE_LIMIT)
    }

    /// An empty, open channel.
    pub fn new() -> (r: Self)
        ensures
            r.wf(),
            r.queue() == Seq::<BufView>::empty(),
            r.spec_size() == 0,
            !r.has_error(),
            !r.is_closed(),
    {
        BoundedBufferChannelInner {
            buffers: VecDeque::new(),
            error: None,
            current_size: 0,
            len: 0,
            closed: false,
        }
    }

    /// Whether a read would not have to wait: the channel is closed, holds
    /// an error, or has a buffer queued.
    pub fn can_read(&self) -> (r: bool)
        requires
            self.wf(),
        ensures
            r == (self.is_closed() || self.has_error() || self.queue().len() > 0),
    {
        self.closed || self.error.is_some() || self.len != 0
    }

    /// Whether a write would not have to wait: the channel is closed, holds
    /// an error, or has both a free slot and room under the byte limit.
    pub fn can_write(&self) -> (r: bool)
        requires
            self.wf(),
        ensures
            r == self.spec_can_write(),
    {
        self.closed || self.error.is_some() || (self.len + 1 < BUFFER_CHANNEL_SIZE as usize
            && self.current_size < BUFFER_BACKPRESSURE_LIMIT)
    }

    /// The number of queued bytes.
    pub fn byte_size(&self) -> (r: usize)
        ensures
            r == self.spec_size(),
    {
        self.current_size
    }

    /// Whether the channel has been closed.
    pub fn closed(&self) -> (r: bool)
        ensures
            r == self.is_closed(),
    {
        self.closed
    }

    /// Closes the channel: reads and writes no longer wait.
    pub fn close(&mut self)
        requires
            old(self).wf(),
        ensures
            final(self).wf(),
            final(self).is_closed(),
            final(self).queue() == old(self).queue(),
            final(self).spec_size() == old(self).spec_size(),
            final(self).has_error() == old(self).has_error(),
            final(self).spec_error() == old(self).spec_error(),
    {
        self.closed = true;
    }

    /// Records an error for the reader, replacing any earlier one.
    pub fn write_error(&mut self, error: anyhow::Error)
        requires
            old(self).wf(),
        ensures
            final(self).wf(),
            final(self).has_error(),
            final(self).spec_error() == Some(error),
            final(self).queue() == old(self).queue(),
            final(self).spec_size() == old(self).spec_size(),
            final(self).is_closed() == old(self).is_closed(),
    {
        self.error = Some(error);
    }

    /// Queues `buffer`. When every slot is taken, a closed channel or one
    /// with an error drops the buffer and reports success, and an open one
    /// hands the buffer back.
    pub fn write(&mut self, buffer: BufView) -> (r: Result<(), BufView>)
        requires
            old(self).wf(),
            buffer.wf(),
            old(self).spec_size() + buffer.view().len() <= usize::MAX,
        ensures
            final(self).wf(),
            final(self).is_closed() == old(self).is_closed(),
            final(self).has_error() == old(self).has_error(),
            final(self).spec_error() == old(self).spec_error(),
            old(self).queue().len() + 1 < BUFFER_CHANNEL_SIZE ==> r is Ok && final(self).queue()
                == old(self).queue().push(buffer) && final(self).spec_size() == old(
                self,
            ).spec_size() + buffer.view().len(),
            old(self).queue().len() + 1 >= BUFFER_CHANNEL_SIZE ==> final(self).queue() == old(
                self,
            ).queue() && final(self).spec_size() == old(self).spec_size() && (if old(
                self,
            ).is_closed() || old(self).has_error() {
                r is Ok
            } else {
                r == Err::<(), BufView>(buffer)
            }),
    {
        if self.len + 1 == BUFFER_CHANNEL_SIZE as usize {
            return if self.closed || self.error.is_some() {
                Ok(())
            } else {
                Err(buffer)
            };
        }
        proof {
            lemma_total_len_push(self.buffers@, buffer);
        }
        self.current_size = self.current_size + buffer.len();
        self.buffers.push_back(buffer);
        self.len = self.len + 1;
        Ok(())
    }

    /// Moves every queued buffer, oldest first, into `out` and empties the
    /// channel's queue.
    fn drain(&mut self, out: &mut Vec<u8>)
        requires
            old(self).wf(),
        ensures
            final(self).wf(),
            final(out)@ == old(out)@ + concat_views(old(self).queue()),
            final(self).queue() == Seq::<BufView>::empty(),
            final(self).spec_size() == 0,
            final(self).is_closed() == old(self).is_closed(),
            final(self).has_error() == old(self).has_error(),
            final(self).spec_error() == old(self).spec_error(),
    {
        let ghost start_out = out@;
        let ghost start_queue = self.buffers@;
        let ghost was_closed = self.closed;
        let ghost had_error = self.error is Some;
        proof {
            assert(start_out + concat_views(start_queue) =~= out@ + concat_views(self.buffers@));
        }
        while self.buffers.len() > 0
            invariant
                out@ + concat_views(self.buffers@) == start_out + concat_views(start_queue),
                self.closed == was_closed,
                (self.error is Some) == had_error,
                self.error == old(self).error,
                forall|i: int| 0 <= i < self.buffers@.len() ==> (#[trigger] self.buffers@[i]).wf(),
            decreases self.buffers@.len(),
        {
            let ghost q = self.buffers@;
            let view = match self.buffers.pop_front() {
                Some(v) => v,
                None => vstd::pervasive::unreached(),
            };
            assert(self.buffers@ =~= q.drop_first());
            assert(q[0].wf());
            let bytes = view.as_slice();
            let ghost before = out@;
            let mut i: usize = 0;
            while i < bytes.len()
                invariant
                    i <= bytes@.len(),
                    out@ == before + bytes@.take(i as int),
                decreases bytes@.len() - i,
            {
                out.push(bytes[i]);
                i = i + 1;
                assert(out@ =~= before + bytes@.take(i as int));
            }
            assert(bytes@.take(bytes@.len() as int) =~= bytes@);
            assert(before + q[0].view() + concat_views(q.drop_first()) =~= before + (q[0].view()
                + concat_views(q.drop_first())));
        }
        assert(concat_views(self.buffers@) =~= Seq::<u8>::empty());
        assert(out@ =~= start_out + concat_views(start_queue));
        self.current_size = 0;
        self.len = 0;
    }

    /// Reads from the channel into a reader whose buffer takes `remaining`
    /// more bytes, appending to `out` what it copies. Returns the outcome and
    /// whether a waiting writer should be woken.
    ///
    /// An empty channel yields its pending error (and forgets it), else the
    /// end of the stream if closed, else nothing yet. When more than one
    /// buffer is queued and their bytes fit both under the aggregation limit
    /// and into the reader's buffer, all of them are copied into `out` at
    /// once. Otherwise the oldest buffer is handed out.
    pub fn read(&mut self, out: &mut Vec<u8>, remaining: usize) -> (r: (ChannelReadResult, bool))
        requires
            old(self).wf(),
        ensures
            final(self).wf(),
            final(self).is_closed() == old(self).is_closed(),
            ({
                let (res, wake_writer) = r;
                let q = old(self).queue();
                if q.len() == 0 {
                    &&& final(self).queue() == q
                    &&& final(self).spec_size() == old(self).spec_size()
                    &&& final(out)@ == old(out)@
                    &&& !wake_writer
                    &&& !final(self).has_error()
                    &&& if old(self).has_error() {
                        res == ChannelReadResult::Error(old(self).spec_error()->0)
                    } else if old(self).is_closed() {
                        res is EOF
                    } else {
                        res is PollAgain
                    }
                } else if old(self).spec_size() <= BUFFER_AGGREGATION_LIMIT && old(self).spec_size()
                    <= remaining && q.len() > 1 {
                    &&& res is Ready
                    &&& wake_writer
                    &&& final(out)@ == old(out)@ + concat_views(q)
                    &&& final(out)@.len() == old(out)@.len() + old(self).spec_size()
                    &&& final(self).queue() == Seq::<BufView>::empty()
                    &&& final(self).spec_size() == 0
                    &&& final(self).spec_error() == old(self).spec_error()
                } else {
                    &&& res == ChannelReadResult::ReadyBuf(q[0])
                    &&& final(self).queue() == q.drop_first()
                    &&& final(self).spec_size() == old(self).spec_size() - q[0].view().len()
                    &&& final(out)@ == old(out)@
                    &&& final(self).spec_error() == old(self).spec_error()
                    &&& wake_writer == final(self).spec_can_write()
                }
            }),
    {
        if self.len == 0 {
            match self.error.take() {
                Some(error) => {
                    return (ChannelReadResult::Error(error), false);
                },
                None => {
                    if self.closed {
                        return (ChannelReadResult::EOF, false);
                    } else {
                        return (ChannelReadResult::PollAgain, false);
                    }
                },
            }
        }
        if self.current_size <= BUFFER_AGGREGATION_LIMIT && self.current_size <= remaining
            && self.len > 1 {
            proof {
                lemma_concat_len(self.buffers@);
            }
            self.drain(out);
            return (ChannelReadResult::Ready, true);
        }
        let ghost q = self.buffers@;
        let buf = match self.buffers.pop_front() {
            Some(b) => b,
            None => vstd::pervasive::unreached(),
        };
        assert(self.buffers@ =~= q.drop_first());
        assert(q[0].wf());
        proof {
            lemma_concat_len(q.drop_first());
        }
        self.current_size = self.current_size - buf.len();
        self.len = self.len - 1;
        let wake_writer = self.can_write();
        (ChannelReadResult::ReadyBuf(buf), wake_writer)
    }
}

} // verus!
