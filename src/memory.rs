use vstd::prelude::*;
use crate::buffer::{BufferModel, CodeBuffer, MAX_REGION};
use crate::bytes::{le4, le8};
use crate::error::BufferError;

verus! {

/// Bytes in one page of a `Memory`.
pub const PAGE_SIZE: usize = 1024;

/// A code region of whole pages of `PAGE_SIZE` bytes.
pub struct Memory {
    buffer: CodeBuffer,
}

impl View for Memory {
    type V = BufferModel;

    closed spec fn view(&self) -> BufferModel {
        self.buffer@
    }
}

impl Memory {
    /// A region of `amount_pages` pages of trap bytes, with the cursor at its
    /// start; fails where that many bytes cannot be had.
    pub fn new(amount_pages: usize) -> (r: Result<Memory, BufferError>)
        ensures
            match r {
                Ok(m) => amount_pages * PAGE_SIZE <= MAX_REGION && m@.wf() && m@ == BufferModel::fresh(
                    (amount_pages * PAGE_SIZE) as nat,
                ),
                Err(e) => amount_pages * PAGE_SIZE > MAX_REGION && e == BufferError::AllocationError,
            },
    {
        if amount_pages > MAX_REGION / PAGE_SIZE {
            return Err(BufferError::AllocationError);
        }
        let buffer = CodeBuffer::new(amount_pages * PAGE_SIZE);
        Ok(Memory { buffer })
    }

    /// Number of bytes in the region.
    pub fn capacity(&self) -> (r: usize)
        ensures
            r == self@.bytes.len(),
    {
        self.buffer.capacity()
    }

    /// Position of the next emitted byte.
    pub fn cursor(&self) -> (r: usize)
        ensures
            r == self@.cursor,
    {
        self.buffer.cursor()
    }

    /// The whole region.
    pub fn as_bytes(&self) -> (r: &[u8])
        ensures
            r@ == self@.bytes,
    {
        self.buffer.as_bytes()
    }

    /// The byte at `index`, or `None` past the end of the region.
    pub fn byte_at(&self, index: usize) -> (r: Option<u8>)
        ensures
            r == (if index < self@.bytes.len() {
                Some(self@.bytes[index as int])
            } else {
                None
            }),
    {
        self.buffer.byte_at(index)
    }

    /// Sets the byte at `index`; past the end of the region nothing is
    /// written and the call fails.
    pub fn set_byte(&mut self, index: usize, b: u8) -> (r: Result<(), BufferError>)
        requires
            old(self)@.wf(),
        ensures
            final(self)@.wf(),
            r == (if index < old(self)@.bytes.len() {
                Ok::<(), BufferError>(())
            } else {
                Err(BufferError::BufferOverflow)
            }),
            final(self)@.cursor == old(self)@.cursor,
            final(self)@.bytes == (if index < old(self)@.bytes.len() {
                old(self)@.bytes.update(index as int, b)
            } else {
                old(self)@.bytes
            }),
    {
        self.buffer.set_byte(index, b)
    }

    /// Sets every byte of the region to `byte`; the cursor stays.
    pub fn fill(&mut self, byte: u8)
        requires
            old(self)@.wf(),
        ensures
            final(self)@.wf(),
            final(self)@ == old(self)@.filled(byte),
    {
        self.buffer.fill(byte)
    }

    /// Fills the region with the trap byte and moves the cursor to the start.
    pub fn reset(&mut self)
        requires
            old(self)@.wf(),
        ensures
            final(self)@.wf(),
            final(self)@ == old(self)@.reset(),
    {
        self.buffer.reset()
    }

    /// Writes `byte` at the cursor and advances it; fails, writing nothing,
    /// where the cursor is at the end of the region.
    pub fn emit(&mut self, byte: u8) -> (r: Result<(), BufferError>)
        requires
            old(self)@.wf(),
        ensures
            final(self)@.wf(),
            final(self)@ == old(self)@.emitted(seq![byte]),
            r is Ok <==> old(self)@.fits(seq![byte]),
            r matches Err(e) ==> e == BufferError::BufferOverflow,
    {
        self.buffer.emit(byte)
    }

    /// Emits each byte of `code` in order, stopping at the first that does
    /// not fit; the bytes before it stay written.
    pub fn emit_bytes(&mut self, code: Vec<u8>) -> (r: Result<(), BufferError>)
        requires
            old(self)@.wf(),
        ensures
            final(self)@.wf(),
            final(self)@ == old(self)@.emitted(code@),
            r is Ok <==> old(self)@.fits(code@),
            r matches Err(e) ==> e == BufferError::BufferOverflow,
    {
        self.buffer.emit_bytes(code.as_slice())
    }

    /// Emits the four bytes of `value`, least significant first.
    pub fn emit32(&mut self, value: u32) -> (r: Result<(), BufferError>)
        requires
            old(self)@.wf(),
        ensures
            final(self)@.wf(),
            final(self)@ == old(self)@.emitted(le4(value as int)),
            r is Ok <==> old(self)@.fits(le4(value as int)),
            r matches Err(e) ==> e == BufferError::BufferOverflow,
    {
        self.buffer.emit32(value)
    }

    /// Emits the eight bytes of `value`, least significant first: the low half
    /// as by `emit32`, then the high half.
    pub fn emit64(&mut self, value: u64) -> (r: Result<(), BufferError>)
        requires
            old(self)@.wf(),
        ensures
            final(self)@.wf(),
            final(self)@ == old(self)@.emitted(le8(value)),
            r is Ok <==> old(self)@.fits(le8(value)),
            r matches Err(e) ==> e == BufferError::BufferOverflow,
    {
        self.buffer.emit64(value)
    }
}

} // verus!
