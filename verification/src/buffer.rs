//! # The byte buffer
//!
//! The bytes of a chunk, with the position of the next byte to read and the
//! length that has been counted. The decoders read from it and move the
//! position on; the encoders write to its bytes and count the length.
use vstd::prelude::*;

verus! {

/// # The byte buffer as the contracts see it
pub struct ByteBufferView {
    pub offset: int,
    pub len: int,
    pub bytes: Seq<u8>,
}

impl ByteBufferView {
    /// The counted length is the number of bytes.
    pub open spec fn counts_its_bytes(self) -> bool {
        self.len == self.bytes.len()
    }
}

/// A buffer whose counted length is its number of bytes keeps it so through
/// every write of the encoders (each appends its bytes and counts them, see
/// `put`) and every read of the decoders (each moves only the position, see
/// `moved_to`). `new` and `clear` give such a buffer.
pub proof fn lemma_counted_length_kept(v: ByteBufferView, x: Seq<u8>, p: int)
    requires
        v.counts_its_bytes(),
    ensures
        crate::encoders::put(v, x).counts_its_bytes(),
        crate::decoders::moved_to(v, p).counts_its_bytes(),
{
}

/// # The byte buffer
///
/// `offset` is the position of the next byte to read, `len` the length that
/// was counted (on construction, the number of bytes), `bytes` the bytes.
#[derive(Debug)]
pub struct ByteBuffer {
    offset: usize,
    len: usize,
    bytes: Vec<u8>,
}

impl View for ByteBuffer {
    type V = ByteBufferView;

    closed spec fn view(&self) -> ByteBufferView {
        ByteBufferView { offset: self.offset as int, len: self.len as int, bytes: self.bytes@ }
    }
}

impl ByteBuffer {
    /// A buffer holds no more than `usize::MAX` bytes, and its position and
    /// length are `usize` values.
    pub proof fn lemma_bytes_fit(&self)
        ensures
            self@.bytes.len() <= usize::MAX,
            0 <= self@.offset <= usize::MAX,
            0 <= self@.len <= usize::MAX,
    {
        assert(self.bytes.len() == self.bytes@.len());
    }

    /// Constructs a buffer of `bytes`, to be read from its start; its length
    /// is their number.
    pub fn new(bytes: Vec<u8>) -> (r: Self)
        ensures
            r@ == (ByteBufferView { offset: 0, len: bytes@.len() as int, bytes: bytes@ }),
            r@.counts_its_bytes(),
    {
        let len = bytes.len();
        ByteBuffer { offset: 0, len, bytes }
    }

    /// Empties the buffer: no bytes, position and length 0.
    pub fn clear(&mut self)
        ensures
            final(self)@ == (ByteBufferView { offset: 0, len: 0, bytes: Seq::empty() }),
            final(self)@.counts_its_bytes(),
    {
        self.offset = 0;
        self.len = 0;
        self.bytes = Vec::new();
    }

    /// Returns the position of the next byte to read.
    pub fn offset(&self) -> (r: usize)
        ensures
            r as int == self@.offset,
    {
        self.offset
    }

    /// Moves the position of the next byte to read on by `offset`.
    pub fn offset_to(&mut self, offset: usize)
        requires
            old(self)@.offset + offset <= usize::MAX,
        ensures
            final(self)@ == (ByteBufferView { offset: old(self)@.offset + offset, ..old(self)@ }),
    {
        self.offset = self.offset + offset;
    }

    /// Puts the position of the next byte to read back to `offset`.
    pub(crate) fn rewind_to(&mut self, offset: usize)
        ensures
            final(self)@ == (ByteBufferView { offset: offset as int, ..old(self)@ }),
    {
        self.offset = offset;
    }

    /// Returns the length that was counted.
    pub fn len(&self) -> (r: usize)
        ensures
            r as int == self@.len,
    {
        self.len
    }

    /// Adds `len` to the length that was counted.
    pub fn add_len(&mut self, len: usize)
        requires
            old(self)@.len + len <= usize::MAX,
        ensures
            final(self)@ == (ByteBufferView { len: old(self)@.len + len, ..old(self)@ }),
    {
        self.len = self.len + len;
    }

    /// Returns the bytes.
    pub fn bytes(&self) -> (r: &Vec<u8>)
        ensures
            r@ == self@.bytes,
    {
        &self.bytes
    }

    /// Returns the bytes to be written to; what is written to them is the
    /// buffer's bytes afterwards.
    pub fn bytes_mut(&mut self) -> (r: &mut Vec<u8>)
        ensures
            r@ == old(self)@.bytes,
            final(self)@ == (ByteBufferView { bytes: final(r)@, ..old(self)@ }),
    {
        &mut self.bytes
    }
}

} // verus!
