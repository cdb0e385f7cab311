//! Views onto contiguous byte buffers with an internal cursor.
use vstd::prelude::*;
use bytes::Bytes;
use bytes::BytesMut;

verus! {

/// `bytes::Bytes`, an immutable reference-counted byte buffer.
#[verifier::external_type_specification]
#[verifier::external_body]
pub struct ExBytes(Bytes);

/// `bytes::BytesMut`, a mutable byte buffer.
#[verifier::external_type_specification]
#[verifier::external_body]
pub struct ExBytesMut(BytesMut);

/// The bytes that a `Bytes` holds.
pub uninterp spec fn bytes_contents(b: Bytes) -> Seq<u8>;

/// The bytes that a `BytesMut` holds.
pub uninterp spec fn bytes_mut_contents(b: BytesMut) -> Seq<u8>;

/// `Bytes::new`: an empty buffer.
#[verifier::external_body]
fn bytes_new() -> (r: Bytes)
    ensures
        bytes_contents(r) == Seq::<u8>::empty(),
{
    Bytes::new()
}

/// `Bytes::from(Vec<u8>)`: takes over the vector's bytes.
#[verifier::external_body]
fn bytes_from_vec(v: Vec<u8>) -> (r: Bytes)
    ensures
        bytes_contents(r) == v@,
{
    Bytes::from(v)
}

/// `Bytes::len`.
#[verifier::external_body]
fn bytes_len(b: &Bytes) -> (r: usize)
    ensures
        r == bytes_contents(*b).len(),
{
    b.len()
}

/// `<Bytes as Deref>::deref`: the bytes as a slice.
#[verifier::external_body]
fn bytes_as_slice(b: &Bytes) -> (r: &[u8])
    ensures
        r@ == bytes_contents(*b),
{
    b.as_ref()
}

/// `Bytes::truncate`: keeps the first `len` bytes; no effect when `len` is not
/// below the length.
#[verifier::external_body]
fn bytes_truncate(b: &mut Bytes, len: usize)
    ensures
        bytes_contents(*final(b)) == (if len < bytes_contents(*old(b)).len() {
            bytes_contents(*old(b)).take(len as int)
        } else {
            bytes_contents(*old(b))
        }),
{
    b.truncate(len)
}

/// `Bytes::split_off`: keeps `[0, at)` and returns `[at, len)`.
#[verifier::external_body]
fn bytes_split_off(b: &mut Bytes, at: usize) -> (r: Bytes)
    requires
        at <= bytes_contents(*old(b)).len(),
    ensures
        bytes_contents(*final(b)) == bytes_contents(*old(b)).take(at as int),
        bytes_contents(r) == bytes_contents(*old(b)).skip(at as int),
{
    b.split_off(at)
}

/// `Bytes::split_to`: keeps `[at, len)` and returns `[0, at)`.
#[verifier::external_body]
fn bytes_split_to(b: &mut Bytes, at: usize) -> (r: Bytes)
    requires
        at <= bytes_contents(*old(b)).len(),
    ensures
        bytes_contents(*final(b)) == bytes_contents(*old(b)).skip(at as int),
        bytes_contents(r) == bytes_contents(*old(b)).take(at as int),
{
    b.split_to(at)
}

/// `BytesMut::zeroed`: `len` zero bytes.
#[verifier::external_body]
fn bytes_mut_zeroed(len: usize) -> (r: BytesMut)
    ensures
        bytes_mut_contents(r) == Seq::new(len as nat, |i: int| 0u8),
{
    BytesMut::zeroed(len)
}

/// `BytesMut::from(&[u8])`: a copy of the slice.
#[verifier::external_body]
fn bytes_mut_from_slice(s: &[u8]) -> (r: BytesMut)
    ensures
        bytes_mut_contents(r) == s@,
{
    BytesMut::from(s)
}

/// `BytesMut::len`.
#[verifier::external_body]
fn bytes_mut_len(b: &BytesMut) -> (r: usize)
    ensures
        r == bytes_mut_contents(*b).len(),
{
    b.len()
}

/// `<BytesMut as Deref>::deref`: the bytes as a slice.
#[verifier::external_body]
fn bytes_mut_as_slice(b: &BytesMut) -> (r: &[u8])
    ensures
        r@ == bytes_mut_contents(*b),
{
    b.as_ref()
}

/// `<BytesMut as DerefMut>::deref_mut`: the bytes as a writable slice; what
/// is written through the slice is what the buffer then holds.
#[verifier::external_body]
fn bytes_mut_as_mut_slice(b: &mut BytesMut) -> (r: &mut [u8])
    ensures
        r@ == bytes_mut_contents(*old(b)),
        bytes_mut_contents(*final(b)) == final(r)@,
{
    b.as_mut()
}

/// `BytesMut::truncate`: keeps the first `len` bytes; no effect when `len` is
/// above the length.
#[verifier::external_body]
fn bytes_mut_truncate(b: &mut BytesMut, len: usize)
    ensures
        bytes_mut_contents(*final(b)) == (if len <= bytes_mut_contents(*old(b)).len() {
            bytes_mut_contents(*old(b)).take(len as int)
        } else {
            bytes_mut_contents(*old(b))
        }),
{
    b.truncate(len)
}

/// `BytesMut::resize`: truncates to `new_len`, or appends copies of `value`
/// up to `new_len`.
#[verifier::external_body]
fn bytes_mut_resize(b: &mut BytesMut, new_len: usize, value: u8)
    ensures
        bytes_mut_contents(*final(b)) == (if new_len <= bytes_mut_contents(*old(b)).len() {
            bytes_mut_contents(*old(b)).take(new_len as int)
        } else {
            bytes_mut_contents(*old(b)) + Seq::new(
                (new_len - bytes_mut_contents(*old(b)).len()) as nat,
                |i: int| value,
            )
        }),
{
    b.resize(new_len, value)
}

/// `BytesMut::split_off`: keeps `[0, at)` and returns `[at, len)`.
#[verifier::external_body]
fn bytes_mut_split_off(b: &mut BytesMut, at: usize) -> (r: BytesMut)
    requires
        at <= bytes_mut_contents(*old(b)).len(),
    ensures
        bytes_mut_contents(*final(b)) == bytes_mut_contents(*old(b)).take(at as int),
        bytes_mut_contents(r) == bytes_mut_contents(*old(b)).skip(at as int),
{
    b.split_off(at)
}

/// `BytesMut::split_to`: keeps `[at, len)` and returns `[0, at)`.
#[verifier::external_body]
fn bytes_mut_split_to(b: &mut BytesMut, at: usize) -> (r: BytesMut)
    requires
        at <= bytes_mut_contents(*old(b)).len(),
    ensures
        bytes_mut_contents(*final(b)) == bytes_mut_contents(*old(b)).skip(at as int),
        bytes_mut_contents(r) == bytes_mut_contents(*old(b)).take(at as int),
{
    b.split_to(at)
}

/// `BytesMut::freeze`: the same bytes, made immutable.
#[verifier::external_body]
fn bytes_mut_freeze(b: BytesMut) -> (r: Bytes)
    ensures
        bytes_contents(r) == bytes_mut_contents(b),
{
    b.freeze()
}

/// `buf` with the bytes from `at` on replaced by `src`, as far as `src`
/// reaches.
pub open spec fn overwritten(buf: Seq<u8>, at: int, src: Seq<u8>) -> Seq<u8> {
    buf.take(at) + src + buf.skip(at + src.len())
}

enum BufViewInner {
    Empty,
    Bytes(Bytes),
}

/// A view onto a contiguous chunk of bytes with a cursor: the view exposes
/// the bytes from the cursor on. Splitting and truncating act on the
/// underlying buffer.
pub struct BufView {
    inner: BufViewInner,
    cursor: usize,
}

impl BufView {
    /// The whole underlying buffer, cursor or not.
    pub closed spec fn buffer(&self) -> Seq<u8> {
        match self.inner {
            BufViewInner::Empty => Seq::empty(),
            BufViewInner::Bytes(b) => bytes_contents(b),
        }
    }

    /// The cursor position within the underlying buffer.
    pub closed spec fn spec_cursor(&self) -> nat {
        self.cursor as nat
    }

    /// The cursor lies within the underlying buffer.
    pub open spec fn wf(&self) -> bool {
        self.spec_cursor() <= self.buffer().len() <= usize::MAX
    }

    /// The bytes that the view exposes: the buffer from the cursor on.
    pub open spec fn view(&self) -> Seq<u8> {
        self.buffer().skip(self.spec_cursor() as int)
    }

    fn from_inner(inner: BufViewInner) -> (r: Self)
        ensures
            r.inner == inner,
            r.cursor == 0,
    {
        BufView { inner, cursor: 0 }
    }

    /// An empty view.
    pub fn empty() -> (r: Self)
        ensures
            r.wf(),
            r.buffer() == Seq::<u8>::empty(),
            r.spec_cursor() == 0,
    {
        Self::from_inner(BufViewInner::Empty)
    }

    fn buffer_len(&self) -> (r: usize)
        ensures
            r == self.buffer().len(),
    {
        match &self.inner {
            BufViewInner::Empty => 0,
            BufViewInner::Bytes(b) => bytes_len(b),
        }
    }

    /// The length of the view: the buffer's length minus the cursor.
    pub fn len(&self) -> (r: usize)
        requires
            self.wf(),
        ensures
            r == self.view().len(),
            r == self.buffer().len() - self.spec_cursor(),
    {
        self.buffer_len() - self.cursor
    }

    /// Whether the view is empty.
    pub fn is_empty(&self) -> (r: bool)
        requires
            self.wf(),
        ensures
            r == (self.view().len() == 0),
    {
        self.len() == 0
    }

    /// The cursor position.
    pub fn cursor(&self) -> (r: usize)
        ensures
            r == self.spec_cursor(),
    {
        self.cursor
    }

    /// Moves the cursor forward by `n` bytes.
    pub fn advance_cursor(&mut self, n: usize)
        requires
            old(self).wf(),
            n <= old(self).view().len(),
        ensures
            final(self).wf(),
            final(self).buffer() == old(self).buffer(),
            final(self).spec_cursor() == old(self).spec_cursor() + n,
    {
        self.cursor = self.cursor + n;
    }

    /// Moves the cursor back to the start of the buffer and returns where it
    /// was.
    pub fn reset_cursor(&mut self) -> (r: usize)
        requires
            old(self).wf(),
        ensures
            final(self).wf(),
            r == old(self).spec_cursor(),
            final(self).buffer() == old(self).buffer(),
            final(self).spec_cursor() == 0,
    {
        let old_cursor = self.cursor;
        self.cursor = 0;
        old_cursor
    }

    /// Shortens the view to `size` bytes by truncating the underlying buffer
    /// at `size` past the cursor; no effect when the view is not longer.
    pub fn truncate(&mut self, size: usize)
        requires
            old(self).wf(),
            size + old(self).spec_cursor() <= usize::MAX,
        ensures
            final(self).wf(),
            final(self).spec_cursor() == old(self).spec_cursor(),
            final(self).buffer() == (if size + old(self).spec_cursor() < old(self).buffer().len() {
                old(self).buffer().take(size + old(self).spec_cursor())
            } else {
                old(self).buffer()
            }),
    {
        let limit = size + self.cursor;
        match &mut self.inner {
            BufViewInner::Empty => {},
            BufViewInner::Bytes(b) => bytes_truncate(b, limit),
        }
    }

    /// Splits the underlying buffer at `at` bytes past the cursor: this view
    /// keeps the part before, with its cursor; the returned view holds the
    /// part after, with its cursor at zero.
    pub fn split_off(&mut self, at: usize) -> (r: Self)
        requires
            old(self).wf(),
            at + old(self).spec_cursor() <= old(self).view().len(),
        ensures
            final(self).wf(),
            r.wf(),
            final(self).buffer() == old(self).buffer().take(at + old(self).spec_cursor()),
            final(self).spec_cursor() == old(self).spec_cursor(),
            r.buffer() == old(self).buffer().skip(at + old(self).spec_cursor()),
            r.spec_cursor() == 0,
    {
        let at = at + self.cursor;
        let other = match &mut self.inner {
            BufViewInner::Empty => {
                assert(Seq::<u8>::empty().skip(at as int) =~= Seq::<u8>::empty());
                assert(Seq::<u8>::empty().take(at as int) =~= Seq::<u8>::empty());
                BufViewInner::Empty
            },
            BufViewInner::Bytes(b) => BufViewInner::Bytes(bytes_split_off(b, at)),
        };
        BufView { inner: other, cursor: 0 }
    }

    /// Splits the underlying buffer at `at` bytes past the cursor: the
    /// returned view holds the part before, with this view's cursor; this view
    /// keeps the part after, with its cursor at zero.
    pub fn split_to(&mut self, at: usize) -> (r: Self)
        requires
            old(self).wf(),
            at <= old(self).view().len(),
        ensures
            final(self).wf(),
            r.wf(),
            r.buffer() == old(self).buffer().take(at + old(self).spec_cursor()),
            r.spec_cursor() == old(self).spec_cursor(),
            final(self).buffer() == old(self).buffer().skip(at + old(self).spec_cursor()),
            final(self).spec_cursor() == 0,
    {
        let at = at + self.cursor;
        let other = match &mut self.inner {
            BufViewInner::Empty => {
                assert(Seq::<u8>::empty().skip(at as int) =~= Seq::<u8>::empty());
                assert(Seq::<u8>::empty().take(at as int) =~= Seq::<u8>::empty());
                BufViewInner::Empty
            },
            BufViewInner::Bytes(b) => BufViewInner::Bytes(bytes_split_to(b, at)),
        };
        let cursor = self.cursor;
        self.cursor = 0;
        BufView { inner: other, cursor }
    }

    /// The bytes of the view.
    pub fn as_slice(&self) -> (r: &[u8])
        requires
            self.wf(),
        ensures
            r@ == self.view(),
    {
        let whole: &[u8] = match &self.inner {
            BufViewInner::Empty => &[],
            BufViewInner::Bytes(b) => bytes_as_slice(b),
        };
        proof {
            assert(whole@ =~= self.buffer());
        }
        let (_head, tail) = whole.split_at(self.cursor);
        tail
    }

    /// Reads the first byte of the view and moves the cursor past it.
    pub fn get_u8(&mut self) -> (r: u8)
        requires
            old(self).wf(),
            old(self).view().len() > 0,
        ensures
            final(self).wf(),
            r == old(self).view()[0],
            final(self).buffer() == old(self).buffer(),
            final(self).spec_cursor() == old(self).spec_cursor() + 1,
    {
        let b = self.as_slice()[0];
        self.advance_cursor(1);
        b
    }

    /// The number of bytes left to read: the view's length.
    pub fn remaining(&self) -> (r: usize)
        requires
            self.wf(),
        ensures
            r == self.view().len(),
    {
        self.len()
    }

    /// The bytes left to read.
    pub fn chunk(&self) -> (r: &[u8])
        requires
            self.wf(),
        ensures
            r@ == self.view(),
    {
        self.as_slice()
    }

    /// Moves the cursor forward by `cnt` bytes.
    pub fn advance(&mut self, cnt: usize)
        requires
            old(self).wf(),
            cnt <= old(self).view().len(),
        ensures
            final(self).wf(),
            final(self).buffer() == old(self).buffer(),
            final(self).spec_cursor() == old(self).spec_cursor() + cnt,
    {
        self.advance_cursor(cnt)
    }

    /// A view of the bytes of `vec`, with the cursor at zero.
    pub fn from_vec(vec: Vec<u8>) -> (r: Self)
        ensures
            r.wf(),
            r.buffer() == vec@,
            r.spec_cursor() == 0,
    {
        let _len = vec.len();
        BufView::from_inner(BufViewInner::Bytes(bytes_from_vec(vec)))
    }

    /// A view of the bytes of `buf`, with the cursor at zero.
    pub fn from_bytes(buf: Bytes) -> (r: Self)
        ensures
            r.wf(),
            r.buffer() == bytes_contents(buf),
            r.spec_cursor() == 0,
    {
        let _len = bytes_len(&buf);
        BufView::from_inner(BufViewInner::Bytes(buf))
    }

    /// The underlying buffer as `Bytes`, dropping the cursor.
    pub fn into_bytes(self) -> (r: Bytes)
        ensures
            bytes_contents(r) == self.buffer(),
    {
        match self.inner {
            BufViewInner::Empty => bytes_new(),
            BufViewInner::Bytes(b) => b,
        }
    }
}

/// A view onto a contiguous chunk of writable bytes with a cursor: the view
/// exposes the bytes from the cursor on. It can be turned into a [`BufView`].
pub struct BufMutView {
    inner: BytesMut,
    cursor: usize,
}

impl BufMutView {
    /// The whole underlying buffer, cursor or not.
    pub closed spec fn buffer(&self) -> Seq<u8> {
        bytes_mut_contents(self.inner)
    }

    /// The cursor position within the underlying buffer.
    pub closed spec fn spec_cursor(&self) -> nat {
        self.cursor as nat
    }

    /// The cursor lies within the underlying buffer.
    pub open spec fn wf(&self) -> bool {
        self.spec_cursor() <= self.buffer().len() <= usize::MAX
    }

    /// The bytes that the view exposes: the buffer from the cursor on.
    pub open spec fn view(&self) -> Seq<u8> {
        self.buffer().skip(self.spec_cursor() as int)
    }

    /// A view of `len` zero bytes.
    pub fn new(len: usize) -> (r: Self)
        ensures
            r.wf(),
            r.buffer() == Seq::new(len as nat, |i: int| 0u8),
            r.spec_cursor() == 0,
    {
        BufMutView { inner: bytes_mut_zeroed(len), cursor: 0 }
    }

    /// A view of the bytes of `buf`, with the cursor at zero.
    pub fn from_bytes_mut(buf: BytesMut) -> (r: Self)
        ensures
            r.wf(),
            r.buffer() == bytes_mut_contents(buf),
            r.spec_cursor() == 0,
    {
        let _len = bytes_mut_len(&buf);
        BufMutView { inner: buf, cursor: 0 }
    }

    /// A view of a copy of `s`, with the cursor at zero.
    pub fn from_slice(s: &[u8]) -> (r: Self)
        ensures
            r.wf(),
            r.buffer() == s@,
            r.spec_cursor() == 0,
    {
        Self::from_bytes_mut(bytes_mut_from_slice(s))
    }

    /// Overwrites the first bytes of the view with `src`; the cursor and the
    /// rest of the buffer stay.
    pub(crate) fn overwrite_front(&mut self, src: &[u8])
        requires
            old(self).wf(),
            src@.len() <= old(self).view().len(),
        ensures
            final(self).wf(),
            final(self).spec_cursor() == old(self).spec_cursor(),
            final(self).buffer() == overwritten(old(self).buffer(), old(self).spec_cursor() as int, src@),
    {
        let at = self.cursor;
        let ghost orig = self.buffer();
        let n = src.len();
        let slice = bytes_mut_as_mut_slice(&mut self.inner);
        let mut i: usize = 0;
        while i < n
            invariant
                slice@.len() == orig.len(),
                orig.len() <= usize::MAX,
                at + n <= orig.len(),
                n == src@.len(),
                i <= n,
                forall|j: int| 0 <= j < at + i ==> #[trigger] slice@[j] == if j < at {
                    orig[j]
                } else {
                    src@[j - at]
                },
                forall|j: int| at + i <= j < orig.len() ==> #[trigger] slice@[j] == orig[j],
            decreases n - i,
        {
            slice[at + i] = src[i];
            i = i + 1;
        }
        assert(slice@ =~= overwritten(orig, at as int, src@));
    }

    /// The length of the view: the buffer's length minus the cursor.
    pub fn len(&self) -> (r: usize)
        requires
            self.wf(),
        ensures
            r == self.view().len(),
            r == self.buffer().len() - self.spec_cursor(),
    {
        bytes_mut_len(&self.inner) - self.cursor
    }

    /// Whether the view is empty.
    pub fn is_empty(&self) -> (r: bool)
        requires
            self.wf(),
        ensures
            r == (self.view().len() == 0),
    {
        self.len() == 0
    }

    /// The cursor position.
    pub fn cursor(&self) -> (r: usize)
        ensures
            r == self.spec_cursor(),
    {
        self.cursor
    }

    /// Moves the cursor forward by `n` bytes.
    pub fn advance_cursor(&mut self, n: usize)
        requires
            old(self).wf(),
            n <= old(self).view().len(),
        ensures
            final(self).wf(),
            final(self).buffer() == old(self).buffer(),
            final(self).spec_cursor() == old(self).spec_cursor() + n,
    {
        self.cursor = self.cursor + n;
    }

    /// Moves the cursor back to the start of the buffer and returns where it
    /// was.
    pub fn reset_cursor(&mut self) -> (r: usize)
        requires
            old(self).wf(),
        ensures
            final(self).wf(),
            r == old(self).spec_cursor(),
            final(self).buffer() == old(self).buffer(),
            final(self).spec_cursor() == 0,
    {
        let old_cursor = self.cursor;
        self.cursor = 0;
        old_cursor
    }

    /// Turns this view into a [`BufView`] of the same bytes and cursor.
    pub fn into_view(self) -> (r: BufView)
        requires
            self.wf(),
        ensures
            r.wf(),
            r.buffer() == self.buffer(),
            r.spec_cursor() == self.spec_cursor(),
    {
        BufView { inner: BufViewInner::Bytes(bytes_mut_freeze(self.inner)), cursor: self.cursor }
    }

    /// The underlying `BytesMut`. Every view of this type is backed by one, so
    /// this always succeeds.
    pub fn maybe_unwrap_bytes(self) -> (r: Result<BytesMut, Self>)
        ensures
            r matches Ok(b) && bytes_mut_contents(b) == self.buffer(),
    {
        Ok(self.inner)
    }

    /// Resizes the buffer towards `target_size` bytes past the cursor, growing
    /// it by at most `maximum_increment` bytes (with zeros) or shrinking it to
    /// fit. Returns the new length of the underlying buffer.
    pub fn maybe_resize(&mut self, target_size: usize, maximum_increment: usize) -> (r: Option<
        usize,
    >)
        requires
            old(self).wf(),
            target_size + old(self).spec_cursor() <= usize::MAX,
            old(self).buffer().len() + maximum_increment <= usize::MAX,
        ensures
            final(self).wf(),
            final(self).spec_cursor() == old(self).spec_cursor(),
            ({
                let len = old(self).buffer().len();
                let target = target_size + old(self).spec_cursor();
                let new_len = if target > len {
                    if target < len + maximum_increment {
                        target
                    } else {
                        len + maximum_increment
                    }
                } else {
                    target
                };
                &&& final(self).buffer().len() == new_len
                &&& final(self).buffer() =~= (if new_len <= len {
                    old(self).buffer().take(new_len)
                } else {
                    old(self).buffer() + Seq::new((new_len - len) as nat, |i: int| 0u8)
                })
            }),
            r == Some(final(self).buffer().len() as usize),
    {
        let len = bytes_mut_len(&self.inner);
        let target_size = target_size + self.cursor;
        if target_size > len {
            let grow_to = if target_size < len + maximum_increment {
                target_size
            } else {
                len + maximum_increment
            };
            bytes_mut_resize(&mut self.inner, grow_to, 0);
        } else if target_size < len {
            bytes_mut_truncate(&mut self.inner, target_size);
        }
        Some(bytes_mut_len(&self.inner))
    }

    /// Grows the buffer with zeros so that it reaches `target_size` bytes past
    /// the cursor; never shrinks it. Returns the new length of the underlying
    /// buffer.
    pub fn maybe_grow(&mut self, target_size: usize) -> (r: Option<usize>)
        requires
            old(self).wf(),
            target_size + old(self).spec_cursor() <= usize::MAX,
        ensures
            final(self).wf(),
            final(self).spec_cursor() == old(self).spec_cursor(),
            ({
                let len = old(self).buffer().len();
                let target = target_size + old(self).spec_cursor();
                final(self).buffer() =~= (if target > len {
                    old(self).buffer() + Seq::new((target - len) as nat, |i: int| 0u8)
                } else {
                    old(self).buffer()
                })
            }),
            r == Some(final(self).buffer().len() as usize),
    {
        let len = bytes_mut_len(&self.inner);
        let target_size = target_size + self.cursor;
        if target_size > len {
            bytes_mut_resize(&mut self.inner, target_size, 0);
        }
        Some(bytes_mut_len(&self.inner))
    }

    /// Truncates the underlying buffer at `size` bytes past the cursor (no
    /// effect when it is not longer), then caps the cursor at the view's new
    /// length.
    pub fn truncate(&mut self, size: usize)
        requires
            old(self).wf(),
            size + old(self).spec_cursor() <= usize::MAX,
        ensures
            final(self).wf(),
            ({
                let limit = size + old(self).spec_cursor();
                let buf = if limit <= old(self).buffer().len() {
                    old(self).buffer().take(limit)
                } else {
                    old(self).buffer()
                };
                let len = buf.len() - old(self).spec_cursor();
                &&& final(self).buffer() == buf
                &&& final(self).spec_cursor() == (if old(self).spec_cursor() < len {
                    old(self).spec_cursor() as int
                } else {
                    len
                })
            }),
    {
        bytes_mut_truncate(&mut self.inner, size + self.cursor);
        let len = self.len();
        if len < self.cursor {
            self.cursor = len;
        }
    }

    /// Splits the underlying buffer at `at` bytes past the cursor: this view
    /// keeps the part before, with its cursor; the returned view holds the
    /// part after, with its cursor at zero.
    pub fn split_off(&mut self, at: usize) -> (r: Self)
        requires
            old(self).wf(),
            at + old(self).spec_cursor() <= old(self).view().len(),
        ensures
            final(self).wf(),
            r.wf(),
            final(self).buffer() == old(self).buffer().take(at + old(self).spec_cursor()),
            final(self).spec_cursor() == old(self).spec_cursor(),
            r.buffer() == old(self).buffer().skip(at + old(self).spec_cursor()),
            r.spec_cursor() == 0,
    {
        let at = at + self.cursor;
        let other = bytes_mut_split_off(&mut self.inner, at);
        BufMutView { inner: other, cursor: 0 }
    }

    /// Splits the underlying buffer at `at` bytes past the cursor: the
    /// returned view holds the part before, with this view's cursor; this view
    /// keeps the part after, with its cursor at zero.
    pub fn split_to(&mut self, at: usize) -> (r: Self)
        requires
            old(self).wf(),
            at <= old(self).view().len(),
        ensures
            final(self).wf(),
            r.wf(),
            r.buffer() == old(self).buffer().take(at + old(self).spec_cursor()),
            r.spec_cursor() == old(self).spec_cursor(),
            final(self).buffer() == old(self).buffer().skip(at + old(self).spec_cursor()),
            final(self).spec_cursor() == 0,
    {
        let at = at + self.cursor;
        let other = bytes_mut_split_to(&mut self.inner, at);
        let cursor = self.cursor;
        self.cursor = 0;
        BufMutView { inner: other, cursor }
    }

    /// The bytes of the view.
    pub fn as_slice(&self) -> (r: &[u8])
        requires
            self.wf(),
        ensures
            r@ == self.view(),
    {
        let whole = bytes_mut_as_slice(&self.inner);
        let (_head, tail) = whole.split_at(self.cursor);
        tail
    }

    /// Reads the first byte of the view and moves the cursor past it.
    pub fn get_u8(&mut self) -> (r: u8)
        requires
            old(self).wf(),
            old(self).view().len() > 0,
        ensures
            final(self).wf(),
            r == old(self).view()[0],
            final(self).buffer() == old(self).buffer(),
            final(self).spec_cursor() == old(self).spec_cursor() + 1,
    {
        let b = self.as_slice()[0];
        self.advance_cursor(1);
        b
    }

    /// The number of bytes left to read: the view's length.
    pub fn remaining(&self) -> (r: usize)
        requires
            self.wf(),
        ensures
            r == self.view().len(),
    {
        self.len()
    }

    /// The bytes left to read.
    pub fn chunk(&self) -> (r: &[u8])
        requires
            self.wf(),
        ensures
            r@ == self.view(),
    {
        self.as_slice()
    }

    /// Moves the cursor forward by `cnt` bytes.
    pub fn advance(&mut self, cnt: usize)
        requires
            old(self).wf(),
            cnt <= old(self).view().len(),
        ensures
            final(self).wf(),
            final(self).buffer() == old(self).buffer(),
            final(self).spec_cursor() == old(self).spec_cursor() + cnt,
    {
        self.advance_cursor(cnt)
    }
}

/// The outcome of a write: how many bytes were written and, when only part
/// of the view was, the view of what is left.
pub enum WriteOutcome {
    Partial { nwritten: usize, view: BufView },
    Full { nwritten: usize },
}

impl WriteOutcome {
    /// The number of bytes written.
    pub fn nwritten(&self) -> (r: usize)
        ensures
            r == (match self {
                WriteOutcome::Partial { nwritten, .. } => *nwritten,
                WriteOutcome::Full { nwritten } => *nwritten,
            }),
    {
        match self {
            WriteOutcome::Partial { nwritten, .. } => *nwritten,
            WriteOutcome::Full { nwritten } => *nwritten,
        }
    }
}

} // verus!
