//! Buffers of UTF-16 words that system calls fill.
use vstd::prelude::*;

verus! {

/// Length below which a [`SmallBuf`] uses its inline storage.
pub const SMALL_BUF_STACK_MAX: usize = 0x100;

/// Base trait for buffers of UTF-16 words.
pub trait Buffer: Sized {
    /// The words that the buffer exposes.
    spec fn contents(&self) -> Seq<u16>;

    /// The buffer can expose its words.
    spec fn valid(&self) -> bool;

    /// The words of the buffer, for reading and writing: what is written
    /// through the slice (which keeps its length) becomes the buffer's words.
    fn as_bytes(&mut self) -> (r: &mut [u16])
        requires
            old(self).valid(),
        ensures
            r@ == old(self).contents(),
            final(r)@.len() == r@.len() ==> final(self).valid() && final(self).contents() == final(r)@,
    ;
}

/// Constrain the length of a buffer
pub fn with_length<B: Buffer>(buf: B, len: usize) -> (r: WithLength<B>)
    ensures
        r.inner() == buf,
        r.length() == len,
{
    WithLength::new(buf, len)
}

/// A buffer constrained to its first `length` words.
pub struct WithLength<B: Buffer> {
    inner: B,
    length: usize,
}

impl<B: Buffer> WithLength<B> {
    /// The constrained buffer
    pub closed spec fn inner(&self) -> B {
        self.inner
    }

    /// The length it is constrained to
    pub closed spec fn length(&self) -> usize {
        self.length
    }

    pub fn new(inner: B, length: usize) -> (r: WithLength<B>)
        ensures
            r.inner() == inner,
            r.length() == length,
    {
        WithLength { inner, length }
    }

    /// The words it exposes are the first `length` words of the inner
    /// buffer, which must have at least that many.
    pub proof fn lemma_contents(&self)
        ensures
            self.contents() == self.inner().contents().take(self.length() as int),
            self.valid() == (self.inner().valid() && self.length() <= self.inner().contents().len()),
    {
    }
}

impl<B: Buffer> Buffer for WithLength<B> {
    closed spec fn contents(&self) -> Seq<u16> {
        self.inner.contents().take(self.length as int)
    }

    closed spec fn valid(&self) -> bool {
        self.inner.valid() && self.length <= self.inner.contents().len()
    }

    fn as_bytes(&mut self) -> (r: &mut [u16]) {
        let len = self.length;
        let all = self.inner.as_bytes();
        let (head, _rest) = all.split_at_mut(len);
        head
    }
}

/// Buffer allocated on the heap, zero-initialized.
pub struct Alloc {
    inner: Vec<u16>,
}

/// `n` zero words.
fn zeros(n: usize) -> (r: Vec<u16>)
    ensures
        r@ == Seq::new(n as nat, |i: int| 0u16),
{
    let mut v: Vec<u16> = Vec::new();
    let mut i: usize = 0;
    while i < n
        invariant
            i <= n,
            v@ == Seq::new(i as nat, |j: int| 0u16),
        decreases n - i,
    {
        v.push(0);
        i = i + 1;
        assert(v@ =~= Seq::new(i as nat, |j: int| 0u16));
    }
    v
}

impl Alloc {
    /// A buffer of `len` zero words.
    pub fn new(len: usize) -> (r: Alloc)
        ensures
            r.valid(),
            r.contents() == Seq::new(len as nat, |i: int| 0u16),
    {
        Alloc { inner: zeros(len) }
    }
}

impl Buffer for Alloc {
    closed spec fn contents(&self) -> Seq<u16> {
        self.inner@
    }

    closed spec fn valid(&self) -> bool {
        true
    }

    fn as_bytes(&mut self) -> (r: &mut [u16]) {
        self.inner.as_mut_slice()
    }
}

/// Create a new buffer of `len` zero words, allocated on the heap.
pub fn alloc_buffer(len: usize) -> (r: Alloc)
    ensures
        r.valid(),
        r.contents() == Seq::new(len as nat, |i: int| 0u16),
{
    Alloc::new(len)
}

/// Buffer held inline if shorter than [`SMALL_BUF_STACK_MAX`] words, and on
/// the heap otherwise; zero-initialized.
pub struct SmallBuf {
    stack: [u16; 256],
    heap: Vec<u16>,
    len: usize,
}

impl SmallBuf {
    /// A buffer of `len` zero words.
    pub fn new(len: usize) -> (r: Self)
        ensures
            r.valid(),
            r.contents() == Seq::new(len as nat, |i: int| 0u16),
    {
        let r = Self { stack: [0u16; 256], heap: zeros(len), len };
        proof {
            if len < SMALL_BUF_STACK_MAX {
                assert(r.stack@.take(len as int) =~= Seq::new(len as nat, |i: int| 0u16));
            } else {
                assert(r.heap@.take(len as int) =~= Seq::new(len as nat, |i: int| 0u16));
            }
        }
        r
    }
}

impl Buffer for SmallBuf {
    closed spec fn contents(&self) -> Seq<u16> {
        if self.len < SMALL_BUF_STACK_MAX {
            self.stack@.take(self.len as int)
        } else {
            self.heap@.take(self.len as int)
        }
    }

    closed spec fn valid(&self) -> bool {
        self.heap@.len() == self.len
    }

    fn as_bytes(&mut self) -> (r: &mut [u16]) {
        let len = self.len;
        if len < SMALL_BUF_STACK_MAX {
            let all: &mut [u16] = &mut self.stack;
            let (head, _rest) = all.split_at_mut(len);
            head
        } else {
            let all = self.heap.as_mut_slice();
            let (head, _rest) = all.split_at_mut(len);
            head
        }
    }
}

/// Create a new buffer of `len` zero words.
pub fn buf(len: usize) -> (r: SmallBuf)
    ensures
        r.valid(),
        r.contents() == Seq::new(len as nat, |i: int| 0u16),
{
    SmallBuf::new(len)
}

} // verus!
