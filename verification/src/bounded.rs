//! A byte buffer of fixed capacity for targets without an allocator, kept in
//! a `heapless::Vec`.
//!
//! Verus cannot look into the `heapless` buffer. `HeaplessVec` therefore
//! carries the bytes a second time, as a ghost sequence, and the four
//! functions that reach into the buffer are trusted to keep the two in step.
//! Everything else is proved from their contracts.

use vstd::prelude::*;

verus! {

#[verifier::external_type_specification]
#[verifier::external_body]
#[verifier::reject_recursive_types(T)]
pub struct ExHeaplessVec<T, const N: usize>(heapless::Vec<T, N>);

/// Up to `N` bytes, stored in place.
pub struct HeaplessVec<const N: usize> {
    inner: heapless::Vec<u8, N>,
    model: Ghost<Seq<u8>>,
}

impl<const N: usize> View for HeaplessVec<N> {
    type V = Seq<u8>;

    closed spec fn view(&self) -> Seq<u8> {
        self.model@
    }
}

impl<const N: usize> HeaplessVec<N> {
    /// `heapless::Vec::new`: a buffer that holds nothing.
    #[verifier::external_body]
    pub(crate) fn raw_new() -> (buffer: Self)
        ensures
            buffer@ == Seq::<u8>::empty(),
    {
        HeaplessVec { inner: heapless::Vec::new(), model: Ghost(Seq::empty()) }
    }

    /// `heapless::Vec::push`: appends `byte` if fewer than `N` bytes are held,
    /// and says so; a full buffer is left as it is.
    #[verifier::external_body]
    pub(crate) fn raw_push(&mut self, byte: u8) -> (pushed: bool)
        ensures
            pushed == (old(self)@.len() < N),
            pushed ==> final(self)@ == old(self)@.push(byte),
            !pushed ==> final(self)@ == old(self)@,
    {
        self.inner.push(byte).is_ok()
    }

    /// `heapless::Vec::as_mut_slice`, to overwrite the byte at `index`.
    #[verifier::external_body]
    pub(crate) fn raw_set(&mut self, index: usize, byte: u8)
        requires
            index < old(self)@.len(),
        ensures
            final(self)@ == old(self)@.update(index as int, byte),
    {
        self.inner.as_mut_slice()[index] = byte;
    }

    /// `heapless::Vec::as_slice`: the bytes held, of which there are at most `N`.
    #[verifier::external_body]
    pub(crate) fn raw_slice(&self) -> (bytes: &[u8])
        ensures
            bytes@ == self@,
            bytes@.len() <= N,
    {
        self.inner.as_slice()
    }

    /// An empty buffer.
    pub fn new() -> (buffer: Self)
        ensures
            buffer@ == Seq::<u8>::empty(),
    {
        Self::raw_new()
    }

    /// Appends `byte`. A full buffer hands the byte back and stays as it is.
    pub fn push(&mut self, byte: u8) -> (result: Result<(), u8>)
        ensures
            result is Ok <==> old(self)@.len() < N,
            result is Ok ==> final(self)@ == old(self)@.push(byte),
            result matches Err(back) ==> back == byte && final(self)@ == old(self)@,
    {
        if self.raw_push(byte) {
            Ok(())
        } else {
            Err(byte)
        }
    }

    /// The bytes held.
    pub fn as_slice(&self) -> (bytes: &[u8])
        ensures
            bytes@ == self@,
            bytes@.len() <= N,
    {
        self.raw_slice()
    }

    /// Number of bytes held.
    pub fn len(&self) -> (len: usize)
        ensures
            len == self@.len(),
            len <= N,
    {
        self.raw_slice().len()
    }

    /// Whether nothing is held.
    pub fn is_empty(&self) -> (empty: bool)
        ensures
            empty == (self@.len() == 0),
    {
        self.raw_slice().len() == 0
    }

    /// The most bytes the buffer can hold.
    pub fn capacity(&self) -> (capacity: usize)
        ensures
            capacity == N,
    {
        N
    }
}

} // verus!
