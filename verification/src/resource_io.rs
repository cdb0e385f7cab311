//! What a resource hands back from a synchronous read or write, and how the
//! caller's buffer and the write outcome follow from it.
use vstd::prelude::*;
use crate::io::{overwritten, BufMutView, BufView, WriteOutcome};

verus! {

/// What a synchronous read from a resource produced.
pub enum ReadResultSync {
    /// The read failed.
    Failed(anyhow::Error),
    /// The end of the stream.
    EOF,
    /// The resource filled the reader's buffer itself.
    Ready,
    /// The resource handed back a writable buffer of its own.
    ReadyBufMut(BufMutView),
    /// The resource handed back a buffer of its own.
    ReadyBuf(BufView),
}

/// The bytes that a read result hands back in a buffer of its own, if any.
pub open spec fn handed_back_bytes(r: ReadResultSync) -> Option<Seq<u8>> {
    match r {
        ReadResultSync::ReadyBufMut(b) => Some(b.view()),
        ReadResultSync::ReadyBuf(b) => Some(b.view()),
        _ => None,
    }
}

/// A buffer handed back by the resource is well formed and fits into the
/// caller's buffer `buf`.
pub open spec fn fits_into(r: ReadResultSync, buf: BufMutView) -> bool {
    match r {
        ReadResultSync::ReadyBufMut(b) => b.wf() && b.view().len() <= buf.view().len(),
        ReadResultSync::ReadyBuf(b) => b.wf() && b.view().len() <= buf.view().len(),
        _ => true,
    }
}

impl ReadResultSync {
    /// The result of a read into `buf`, given `read_size`, the count the
    /// resource reports when it filled `buf` itself: an error stays an
    /// error, the end of the stream reads 0 bytes, and a buffer the resource
    /// handed back is copied to the front of `buf` and counts its length.
    pub fn into_read_byob_result(self, buf: BufMutView, read_size: usize) -> (r: Result<
        (usize, BufMutView),
        anyhow::Error,
    >)
        requires
            buf.wf(),
            fits_into(self, buf),
        ensures
            match self {
                ReadResultSync::Failed(e) => r matches Err(x) && x == e,
                ReadResultSync::EOF => r matches Ok((n, out)) && n == 0 && out == buf,
                ReadResultSync::Ready => r matches Ok((n, out)) && n == read_size && out == buf,
                _ => {
                    let src = handed_back_bytes(self)->0;
                    r matches Ok((n, out)) && n == src.len() && out.wf() && out.spec_cursor()
                        == buf.spec_cursor() && out.buffer() == overwritten(
                        buf.buffer(),
                        buf.spec_cursor() as int,
                        src,
                    )
                },
            },
    {
        let mut buf = buf;
        match self {
            ReadResultSync::Ready => Ok((read_size, buf)),
            ReadResultSync::Failed(err) => Err(err),
            ReadResultSync::EOF => Ok((0, buf)),
            ReadResultSync::ReadyBuf(new_buf) => {
                let n = new_buf.len();
                buf.overwrite_front(new_buf.as_slice());
                Ok((n, buf))
            },
            ReadResultSync::ReadyBufMut(new_buf) => {
                let n = new_buf.len();
                buf.overwrite_front(new_buf.as_slice());
                Ok((n, buf))
            },
        }
    }
}

/// What a synchronous write to a resource produced.
pub enum WriteResultSync {
    /// The write failed.
    Failed(anyhow::Error),
    /// No more bytes can be written; the buffer comes back.
    EOF(BufView),
    /// The buffer was written whole and consumed.
    Ready(usize),
    /// This many bytes were written; the buffer comes back.
    ReadyReturn(usize, BufView),
}

impl WriteResultSync {
    /// The write outcome: a returned buffer makes a partial write (of 0
    /// bytes at the end of the stream), a consumed one a full write, and an
    /// error stays an error.
    pub fn into_write_result(self) -> (r: Result<WriteOutcome, anyhow::Error>)
        ensures
            match self {
                WriteResultSync::Failed(e) => r matches Err(x) && x == e,
                WriteResultSync::EOF(v) => r matches Ok(WriteOutcome::Partial { nwritten, view })
                    && nwritten == 0 && view == v,
                WriteResultSync::Ready(n) => r matches Ok(WriteOutcome::Full { nwritten })
                    && nwritten == n,
                WriteResultSync::ReadyReturn(n, v) => r matches Ok(
                    WriteOutcome::Partial { nwritten, view },
                ) && nwritten == n && view == v,
            },
    {
        match self {
            WriteResultSync::EOF(view) => Ok(WriteOutcome::Partial { nwritten: 0, view }),
            WriteResultSync::Ready(nwritten) => Ok(WriteOutcome::Full { nwritten }),
            WriteResultSync::ReadyReturn(nwritten, view) => Ok(
                WriteOutcome::Partial { nwritten, view },
            ),
            WriteResultSync::Failed(err) => Err(err),
        }
    }
}

} // verus!
