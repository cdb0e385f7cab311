//! How a read from a resource fills the reader's buffer: bytes the resource
//! hands back beyond what the buffer takes wait for the next read.
use vstd::prelude::*;
use crate::io::{BufMutView, BufView};
use crate::core_error::{IoErrorInfo, IoErrorKind};

verus! {

/// What polling a resource for a read produced.
pub enum ReadOutcome {
    /// The end of the stream.
    EOF,
    /// The resource wrote this many bytes into the reader's buffer itself.
    Ready(usize),
    /// The read failed.
    Failed(anyhow::Error),
    /// The resource handed back a buffer of its own.
    ReadyBuf(BufView),
    /// The resource handed back a writable buffer of its own.
    ReadyBufMut(BufMutView),
}

/// The bytes a resource handed back that did not fit into the reader's
/// buffer, waiting for the next read.
pub struct ReadState {
    partial: Option<BufView>,
}

/// The smaller of two lengths.
pub open spec fn min_len(a: int, b: int) -> int {
    if a < b {
        a
    } else {
        b
    }
}

/// A buffer `b` that the resource handed back was copied into the reader's
/// buffer (`before`, then `after`) as far as it fits; the rest waits for the
/// next read, and where all of it fit what waited before still waits.
pub open spec fn handed_back(
    b: Seq<u8>,
    before: Seq<u8>,
    after: Seq<u8>,
    waiting_before: Option<Seq<u8>>,
    waiting_after: Option<Seq<u8>>,
) -> bool {
    let n = min_len(b.len() as int, before.len() as int);
    &&& after == b.take(n) + before.skip(n)
    &&& waiting_after == if b.len() > before.len() {
        Some(b.skip(n))
    } else {
        waiting_before
    }
}

/// What polling a resource for a write produced.
pub enum WriteOutcome {
    /// The resource takes no more bytes.
    EOF,
    /// The resource took this many bytes.
    Ready(usize),
    /// The write failed.
    Failed(anyhow::Error),
}

/// Ends a write with what polling the resource produced: the end of the
/// stream wrote 0 bytes, a count is the result, an error stays an error.
pub fn complete_write(outcome: WriteOutcome) -> (r: Result<usize, anyhow::Error>)
    ensures
        match outcome {
            WriteOutcome::EOF => r matches Ok(0usize),
            WriteOutcome::Ready(n) => r matches Ok(m) && m == n,
            WriteOutcome::Failed(e) => r matches Err(x) && x == e,
        },
{
    match outcome {
        WriteOutcome::EOF => Ok(0),
        WriteOutcome::Ready(n) => Ok(n),
        WriteOutcome::Failed(err) => Err(err),
    }
}

/// Ends a synchronous read from a file descriptor or socket: a read that
/// would block reads 0 bytes, any other error stays an error.
pub fn complete_sync_read(r: Result<usize, IoErrorInfo>) -> (out: Result<usize, IoErrorInfo>)
    ensures
        match r {
            Ok(n) => out matches Ok(m) && m == n,
            Err(e) => if e.kind is WouldBlock {
                out matches Ok(0usize)
            } else {
                out matches Err(x) && x == e
            },
        },
{
    match r {
        Ok(n) => Ok(n),
        Err(e) => {
            if let IoErrorKind::WouldBlock = e.kind {
                Ok(0)
            } else {
                Err(e)
            }
        },
    }
}

impl ReadState {
    /// The bytes waiting for the next read, if any.
    pub closed spec fn spec_partial(&self) -> Option<Seq<u8>> {
        match self.partial {
            Some(b) => Some(b.view()),
            None => None,
        }
    }

    /// A waiting buffer is well formed.
    pub closed spec fn wf(&self) -> bool {
        match self.partial {
            Some(b) => b.wf(),
            None => true,
        }
    }

    /// Nothing waits.
    pub fn new() -> (r: Self)
        ensures
            r.wf(),
            r.spec_partial() is None,
    {
        ReadState { partial: None }
    }

    /// Copies the bytes of `buf` into `slice`, as many as fit; what does not
    /// fit waits for the next read. Returns how many bytes were copied.
    pub fn write(&mut self, slice: &mut [u8], buf: BufView) -> (n: usize)
        requires
            old(self).wf(),
            buf.wf(),
        ensures
            final(self).wf(),
            n == min_len(buf.view().len() as int, old(slice)@.len() as int),
            final(slice)@.len() == old(slice)@.len(),
            final(slice)@ == buf.view().take(n as int) + old(slice)@.skip(n as int),
            buf.view().len() > old(slice)@.len() ==> final(self).spec_partial() == Some(
                buf.view().skip(n as int),
            ),
            buf.view().len() <= old(slice)@.len() ==> final(self).spec_partial() == old(
                self,
            ).spec_partial(),
    {
        let mut buf = buf;
        let buf_len = buf.len();
        let slice_len = slice.len();
        let n = if buf_len > slice_len {
            slice_len
        } else {
            buf_len
        };
        let src = buf.as_slice();
        let ghost orig = slice@;
        let mut i: usize = 0;
        while i < n
            invariant
                n <= src@.len(),
                n <= slice@.len(),
                slice@.len() == orig.len(),
                i <= n,
                forall|j: int| 0 <= j < i ==> slice@[j] == src@[j],
                forall|j: int| i <= j < slice@.len() ==> slice@[j] == orig[j],
            decreases n - i,
        {
            slice[i] = src[i];
            i = i + 1;
        }
        assert(slice@ =~= buf.view().take(n as int) + orig.skip(n as int));
        if buf_len > slice_len {
            let ghost before = buf.view();
            buf.advance_cursor(slice_len);
            assert(buf.view() =~= before.skip(n as int));
            self.partial = Some(buf);
        }
        n
    }

    /// Starts a read: bytes waiting from an earlier read are copied into
    /// `slice` first, and then the read ends there (`Some` of the count);
    /// `None` when nothing waits and the resource must be polled.
    pub fn begin_read(&mut self, slice: &mut [u8]) -> (r: Option<usize>)
        requires
            old(self).wf(),
        ensures
            final(self).wf(),
            match old(self).spec_partial() {
                None => r is None && final(slice)@ == old(slice)@ && final(self).spec_partial() is None,
                Some(p) => {
                    let n = min_len(p.len() as int, old(slice)@.len() as int);
                    &&& r == Some(n as usize)
                    &&& final(slice)@ == p.take(n) + old(slice)@.skip(n)
                    &&& final(self).spec_partial() == if p.len() > old(slice)@.len() {
                        Some(p.skip(n))
                    } else {
                        None::<Seq<u8>>
                    }
                },
            },
    {
        match self.partial.take() {
            Some(retbuf) => Some(self.write(slice, retbuf)),
            None => None,
        }
    }

    /// Ends a read with what polling the resource produced: the end of the
    /// stream reads 0 bytes, an error stays an error, and a buffer the
    /// resource handed back is copied into `slice` as far as it fits.
    pub fn complete_read(&mut self, slice: &mut [u8], outcome: ReadOutcome) -> (r: Result<
        usize,
        anyhow::Error,
    >)
        requires
            old(self).wf(),
            outcome matches ReadOutcome::ReadyBuf(b) ==> b.wf(),
            outcome matches ReadOutcome::ReadyBufMut(b) ==> b.wf(),
        ensures
            final(self).wf(),
            match outcome {
                ReadOutcome::EOF => r matches Ok(0usize) && final(slice)@ == old(slice)@
                    && final(self).spec_partial() == old(self).spec_partial(),
                ReadOutcome::Ready(n) => r matches Ok(m) && m == n && final(slice)@ == old(slice)@
                    && final(self).spec_partial() == old(self).spec_partial(),
                ReadOutcome::Failed(e) => r matches Err(x) && x == e && final(slice)@ == old(slice)@
                    && final(self).spec_partial() == old(self).spec_partial(),
                ReadOutcome::ReadyBuf(b) => handed_back(
                    b.view(),
                    old(slice)@,
                    final(slice)@,
                    old(self).spec_partial(),
                    final(self).spec_partial(),
                ) && (r matches Ok(m) && m == min_len(b.view().len() as int, old(slice)@.len() as int)),
                ReadOutcome::ReadyBufMut(b) => handed_back(
                    b.view(),
                    old(slice)@,
                    final(slice)@,
                    old(self).spec_partial(),
                    final(self).spec_partial(),
                ) && (r matches Ok(m) && m == min_len(b.view().len() as int, old(slice)@.len() as int)),
            },
    {
        match outcome {
            ReadOutcome::EOF => Ok(0),
            ReadOutcome::Ready(n) => Ok(n),
            ReadOutcome::Failed(err) => Err(err),
            ReadOutcome::ReadyBuf(retbuf) => Ok(self.write(slice, retbuf)),
            ReadOutcome::ReadyBufMut(retbuf) => Ok(self.write(slice, retbuf.into_view())),
        }
    }
}

impl Default for ReadState {
    fn default() -> (r: Self)
        ensures
            r.wf(),
            r.spec_partial() is None,
    {
        Self::new()
    }
}

} // verus!
