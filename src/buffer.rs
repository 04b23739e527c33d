use vstd::prelude::*;
use crate::bytes::{le4, le8, le_bytes, overwrite};
use crate::error::BufferError;

verus! {

/// The one-byte `ret` instruction: unused space holds it, so that a jump
/// into it returns at once.
pub const TRAP: u8 = 0xc3;

/// The largest region, in bytes, that a buffer may have.
pub const MAX_REGION: usize = usize::MAX / 2;

/// What a code buffer holds: its bytes, and the cursor where the next
/// emitted byte goes.
pub struct BufferModel {
    pub bytes: Seq<u8>,
    pub cursor: nat,
}

impl BufferModel {
    /// The cursor stays within the region.
    pub open spec fn wf(self) -> bool {
        self.cursor <= self.bytes.len()
    }

    /// A region of `len` trap bytes, with the cursor at its start.
    pub open spec fn fresh(len: nat) -> BufferModel {
        BufferModel { bytes: Seq::new(len, |i: int| TRAP), cursor: 0 }
    }

    /// Bytes left between the cursor and the end of the region.
    pub open spec fn room(self) -> nat {
        (self.bytes.len() - self.cursor) as nat
    }

    /// Emitting `bs` succeeds: all of it fits before the end.
    pub open spec fn fits(self, bs: Seq<u8>) -> bool {
        bs.len() <= self.room()
    }

    /// Every byte set to `b`; the cursor stays.
    pub open spec fn filled(self, b: u8) -> BufferModel {
        BufferModel { bytes: Seq::new(self.bytes.len(), |i: int| b), cursor: self.cursor }
    }

    /// Every byte set to the trap byte; the cursor back at the start.
    pub open spec fn reset(self) -> BufferModel {
        BufferModel::fresh(self.bytes.len())
    }

    /// After emitting `bs` byte by byte, stopping at the first byte that
    /// finds no room: the bytes that fit are written from the cursor on,
    /// and the cursor moves past them.
    pub open spec fn emitted(self, bs: Seq<u8>) -> BufferModel {
        let n = if self.fits(bs) {
            bs.len()
        } else {
            self.room()
        };
        BufferModel {
            bytes: overwrite(self.bytes, self.cursor as int, bs.take(n as int)),
            cursor: self.cursor + n,
        }
    }
}

/// Emitting `a` and then `b` is emitting `a + b`, and succeeds exactly when
/// both steps do.
pub proof fn lemma_emitted_concat(m: BufferModel, a: Seq<u8>, b: Seq<u8>)
    requires
        m.wf(),
    ensures
        m.emitted(a).wf(),
        m.emitted(a).emitted(b) == m.emitted(a + b),
        (m.fits(a) && m.emitted(a).fits(b)) == m.fits(a + b),
{
    let m1 = m.emitted(a);
    let l = m1.emitted(b);
    let r = m.emitted(a + b);
    assert(l.bytes =~= r.bytes);
}

/// Emitting a byte when the cursor is at the end of the region fails and
/// changes nothing: no byte is written in the region or past it.
pub proof fn lemma_emit_past_end(m: BufferModel, b: u8)
    requires
        m.wf(),
        m.cursor == m.bytes.len(),
    ensures
        !m.fits(seq![b]),
        m.emitted(seq![b]) == m,
{
    assert(m.emitted(seq![b]).bytes =~= m.bytes);
}

/// A bounds-checked region of machine code with a write cursor.
pub struct CodeBuffer {
    bytes: Vec<u8>,
    pc: usize,
}

impl View for CodeBuffer {
    type V = BufferModel;

    closed spec fn view(&self) -> BufferModel {
        BufferModel { bytes: self.bytes@, cursor: self.pc as nat }
    }
}

impl CodeBuffer {
    /// A region of `size` trap bytes, with the cursor at its start.
    pub fn new(size: usize) -> (r: CodeBuffer)
        ensures
            r@ == BufferModel::fresh(size as nat),
    {
        let bytes = vec![TRAP; size];
        let r = CodeBuffer { bytes, pc: 0 };
        assert(r@.bytes =~= BufferModel::fresh(size as nat).bytes);
        r
    }

    /// Number of bytes in the region.
    pub fn capacity(&self) -> (r: usize)
        ensures
            r == self@.bytes.len(),
    {
        self.bytes.len()
    }

    /// Position of the next emitted byte.
    pub fn cursor(&self) -> (r: usize)
        ensures
            r == self@.cursor,
    {
        self.pc
    }

    /// The whole region.
    pub fn as_bytes(&self) -> (r: &[u8])
        ensures
            r@ == self@.bytes,
    {
        self.bytes.as_slice()
    }

    /// The byte at `index`, or `None` past the end of the region.
    pub fn byte_at(&self, index: usize) -> (r: Option<u8>)
        ensures
            r == (if index < self@.bytes.len() {
                Some(self@.bytes[index as int])
            } else {
                None
            }),
    {
        if index < self.bytes.len() {
            Some(self.bytes[index])
        } else {
            None
        }
    }

    /// Sets the byte at `index`; past the end of the region nothing is
    /// written and the call fails.
    pub fn set_byte(&mut self, index: usize, b: u8) -> (r: Result<(), BufferError>)
        ensures
            r == (if index < old(self)@.bytes.len() {
                Ok::<(), BufferError>(())
            } else {
                Err(BufferError::BufferOverflow)
            }),
            final(self)@.cursor == old(self)@.cursor,
            final(self)@.bytes == (if index < old(self)@.bytes.len() {
                old(self)@.bytes.update(index as int, b)
            } else {
                old(self)@.bytes
            }),
    {
        if index < self.bytes.len() {
            self.bytes.set(index, b);
            Ok(())
        } else {
            Err(BufferError::BufferOverflow)
        }
    }

    /// Sets every byte of the region to `b`; the cursor stays.
    pub fn fill(&mut self, b: u8)
        ensures
            final(self)@ == old(self)@.filled(b),
    {
        let n = self.bytes.len();
        let mut i: usize = 0;
        while i < n
            invariant
                n == self.bytes@.len(),
                i <= n,
                self.pc == old(self).pc,
                old(self).bytes@.len() == n,
                forall|j: int| 0 <= j < i ==> self.bytes@[j] == b,
            decreases n - i,
        {
            self.bytes.set(i, b);
            i = i + 1;
        }
        assert(self@.bytes =~= old(self)@.filled(b).bytes);
    }

    /// Fills the region with the trap byte and moves the cursor to the start.
    pub fn reset(&mut self)
        ensures
            final(self)@ == old(self)@.reset(),
    {
        self.fill(TRAP);
        self.pc = 0;
        assert(self@.bytes =~= old(self)@.reset().bytes);
    }

    /// Writes `b` at the cursor and advances it; fails, writing nothing,
    /// where the cursor is at the end of the region.
    pub fn emit(&mut self, b: u8) -> (r: Result<(), BufferError>)
        requires
            old(self)@.wf(),
        ensures
            final(self)@.wf(),
            final(self)@ == old(self)@.emitted(seq![b]),
            r is Ok <==> old(self)@.fits(seq![b]),
            r matches Err(e) ==> e == BufferError::BufferOverflow,
    {
        if self.pc < self.bytes.len() {
            self.bytes.set(self.pc, b);
            self.pc = self.pc + 1;
            assert(self@.bytes =~= old(self)@.emitted(seq![b]).bytes);
            Ok(())
        } else {
            assert(self@.bytes =~= old(self)@.emitted(seq![b]).bytes);
            Err(BufferError::BufferOverflow)
        }
    }

    /// Emits each byte of `bs` in order, stopping at the first that does not
    /// fit; the bytes before it stay written.
    pub fn emit_bytes(&mut self, bs: &[u8]) -> (r: Result<(), BufferError>)
        requires
            old(self)@.wf(),
        ensures
            final(self)@.wf(),
            final(self)@ == old(self)@.emitted(bs@),
            r is Ok <==> old(self)@.fits(bs@),
            r matches Err(e) ==> e == BufferError::BufferOverflow,
    {
        let mut i: usize = 0;
        assert(old(self)@.emitted(bs@.take(0)).bytes =~= old(self)@.bytes);
        while i < bs.len()
            invariant
                old(self)@.wf(),
                self@.wf(),
                i <= bs@.len(),
                self@ == old(self)@.emitted(bs@.take(i as int)),
                old(self)@.fits(bs@.take(i as int)),
            decreases bs@.len() - i,
        {
            proof {
                lemma_emitted_concat(old(self)@, bs@.take(i as int), seq![bs@[i as int]]);
                assert(bs@.take(i as int) + seq![bs@[i as int]] =~= bs@.take(i + 1));
            }
            let ghost before = self@;
            let step = self.emit(bs[i]);
            proof {
                if step.is_err() {
                    assert(self@.bytes =~= before.bytes);
                }
            }
            if step.is_err() {
                proof {
                    let rest = bs@.skip(i as int);
                    lemma_emitted_concat(old(self)@, bs@.take(i as int), rest);
                    assert(bs@.take(i as int) + rest =~= bs@);
                    assert(self@.emitted(rest).bytes =~= self@.bytes);
                }
                return Err(BufferError::BufferOverflow);
            }
            i = i + 1;
        }
        assert(bs@.take(i as int) =~= bs@);
        Ok(())
    }

    /// Emits the four bytes of `v`, least significant first.
    pub fn emit32(&mut self, v: u32) -> (r: Result<(), BufferError>)
        requires
            old(self)@.wf(),
        ensures
            final(self)@.wf(),
            final(self)@ == old(self)@.emitted(le4(v as int)),
            r is Ok <==> old(self)@.fits(le4(v as int)),
            r matches Err(e) ==> e == BufferError::BufferOverflow,
    {
        let bs = le_bytes(v as u64);
        self.emit_bytes(bs.as_slice())
    }

    /// Emits the low half of `v` and then its high half, each as by `emit32`.
    pub fn emit64(&mut self, v: u64) -> (r: Result<(), BufferError>)
        requires
            old(self)@.wf(),
        ensures
            final(self)@.wf(),
            final(self)@ == old(self)@.emitted(le8(v)),
            r is Ok <==> old(self)@.fits(le8(v)),
            r matches Err(e) ==> e == BufferError::BufferOverflow,
    {
        let low = (v % 0x1_0000_0000) as u32;
        let high = (v / 0x1_0000_0000) as u32;
        proof {
            lemma_emitted_concat(old(self)@, le4(low as int), le4(high as int));
        }
        let first = self.emit32(low);
        if first.is_err() {
            proof {
                assert(self@.emitted(le4(high as int)).bytes =~= self@.bytes);
            }
            return first;
        }
        self.emit32(high)
    }
}

} // verus!
