//! Stream reassembler: a reusable fixed-capacity byte buffer with consumed
//! and filled offsets.
//!
//! The caller feeds whatever bytes the transport produced; the decoder sees
//! one contiguous window of unconsumed bytes that survives a
//! shift-and-refill cycle byte for byte and in order.  Bytes before the
//! consumed offset are logically gone and may be overwritten by the shift.

use vstd::prelude::*;
use vstd::slice::slice_subrange;

use crate::Error;

verus! {

/// Buffer capacity.  The largest non-string frame is a descriptor of 32
/// fields at 170 bytes, so this bounds only how long an interned string may
/// be; a frame that cannot fit even after a full shift is fatal.
pub const BUF_CAPACITY: usize = 4096;

/// The reassembly state: a fixed buffer and the consumed and filled offsets
/// into it.
pub struct Reassembler {
    buf: Vec<u8>,
    consumed: usize,
    filled: usize,
}

impl Reassembler {
    #[verifier::type_invariant]
    spec fn inv(self) -> bool {
        &&& self.consumed <= self.filled
        &&& self.filled <= self.buf@.len()
        &&& self.buf@.len() == BUF_CAPACITY
    }

    /// The window of unconsumed, not-yet-parsed bytes.
    pub closed spec fn view(&self) -> Seq<u8> {
        self.buf@.subrange(self.consumed as int, self.filled as int)
    }

    /// A fresh reassembler with an empty window.
    pub fn new() -> (r: Reassembler)
        ensures
            r@ == Seq::<u8>::empty(),
    {
        let buf = vec![0u8; BUF_CAPACITY];
        let r = Reassembler { buf, consumed: 0, filled: 0 };
        proof {
            assert(r@ =~= Seq::<u8>::empty());
        }
        r
    }

    /// The count of unconsumed bytes.
    pub fn len(&self) -> (r: usize)
        ensures
            r == self@.len(),
    {
        proof {
            use_type_invariant(&*self);
        }
        self.filled - self.consumed
    }

    /// Borrows the whole window.
    pub fn window_slice(&self) -> (r: &[u8])
        ensures
            r@ == self@,
    {
        proof {
            use_type_invariant(&*self);
        }
        slice_subrange(self.buf.as_slice(), self.consumed, self.filled)
    }

    /// Borrows the next `n` unconsumed bytes if that many are buffered.
    /// `None` is not an error, only insufficient data: the caller feeds
    /// more bytes and retries.
    pub fn peek(&self, n: usize) -> (r: Option<&[u8]>)
        ensures
            r is Some <==> n <= self@.len(),
            r matches Some(w) ==> w@ == self@.take(n as int),
    {
        proof {
            use_type_invariant(&*self);
        }
        if n <= self.filled - self.consumed {
            let w = slice_subrange(self.buf.as_slice(), self.consumed, self.consumed + n);
            proof {
                assert(w@ =~= self@.take(n as int));
            }
            Some(w)
        } else {
            None
        }
    }

    /// Consumes the first `n` window bytes; they may be overwritten by the
    /// next shift.
    pub fn advance(&mut self, n: usize)
        requires
            n <= old(self)@.len(),
        ensures
            final(self)@ == old(self)@.skip(n as int),
    {
        proof {
            use_type_invariant(&*self);
        }
        self.consumed = self.consumed + n;
        proof {
            assert(self@ =~= old(self)@.skip(n as int));
        }
    }

    /// Shifts the window down to the buffer start, freeing the consumed
    /// prefix for reuse.
    fn compact(&mut self)
        ensures
            final(self)@ == old(self)@,
            final(self).consumed == 0,
            final(self).filled == old(self)@.len(),
            final(self).buf@.len() == old(self).buf@.len(),
    {
        proof {
            use_type_invariant(&*self);
        }
        let ghost w0 = self@;
        let c = self.consumed;
        let f = self.filled;
        let len = f - c;
        for j in 0..len
            invariant
                self.consumed == c,
                self.filled == f,
                c <= f <= self.buf@.len(),
                self.buf@.len() == BUF_CAPACITY,
                len == f - c,
                w0 == old(self)@,
                w0.len() == len,
                self.buf@.subrange(0, j as int) == w0.take(j as int),
                self.buf@.subrange(c as int + j as int, f as int) == w0.skip(j as int),
        {
            let b = self.buf[c + j];
            proof {
                assert(self.buf@.subrange(c as int + j as int, f as int)[0] == w0.skip(
                    j as int,
                )[0]);
                assert(b == w0[j as int]);
            }
            let ghost bpre = self.buf@;
            self.buf[j] = b;
            proof {
                assert(self.buf@ =~= bpre.update(j as int, b));
                assert(self.buf@.subrange(0, j as int + 1) =~= w0.take(j as int + 1));
                assert forall|i: int|
                    0 <= i < f - (c + j + 1) implies #[trigger] self.buf@.subrange(
                    c as int + (j as int + 1),
                    f as int,
                )[i] == w0.skip(j as int + 1)[i] by {
                    assert(self.buf@[c as int + j as int + 1 + i] == bpre[c as int + j as int + 1
                        + i]);
                    assert(bpre.subrange(c as int + j as int, f as int)[1 + i] == bpre[c as int
                        + j as int + 1 + i]);
                }
                assert(self.buf@.subrange(c as int + (j as int + 1), f as int) =~= w0.skip(
                    j as int + 1,
                ));
            }
        }
        self.consumed = 0;
        self.filled = len;
        proof {
            assert(self@ =~= w0);
        }
    }

    /// Appends freshly read transport bytes behind the window, shifting the
    /// window to the buffer start first.  Succeeds exactly when the window
    /// and the new bytes fit the capacity together; otherwise nothing
    /// changes and the frame can never be completed.
    pub fn feed(&mut self, data: &[u8]) -> (r: Result<(), Error>)
        ensures
            r is Ok <==> old(self)@.len() + data@.len() <= BUF_CAPACITY,
            r is Ok ==> final(self)@ == old(self)@ + data@,
            r is Err ==> final(self)@ == old(self)@ && r == Err::<(), Error>(Error::FrameTooLarge),
    {
        proof {
            use_type_invariant(&*self);
        }
        let wl = self.filled - self.consumed;
        if data.len() > BUF_CAPACITY - wl {
            return Err(Error::FrameTooLarge);
        }
        if self.consumed > 0 {
            self.compact();
        }
        let ghost w0 = self@;
        let ghost c0 = self.consumed as int;
        let ghost f0 = self.filled as int;
        let m = data.len();
        for j in 0..m
            invariant
                self.consumed as int == c0,
                self.filled as int == f0,
                c0 <= f0,
                f0 + m <= self.buf@.len(),
                self.buf@.len() == BUF_CAPACITY,
                m == data@.len(),
                self.buf@.subrange(c0, f0) == w0,
                self.buf@.subrange(f0, f0 + j as int) == data@.take(j as int),
        {
            let idx = self.filled + j;
            let ghost bpre = self.buf@;
            self.buf[idx] = data[j];
            proof {
                assert(self.buf@ =~= bpre.update(f0 + j as int, data@[j as int]));
                assert(self.buf@.subrange(c0, f0) =~= w0);
                assert(self.buf@.subrange(f0, f0 + (j as int + 1)) =~= data@.take(j as int + 1));
            }
        }
        self.filled = self.filled + m;
        proof {
            assert(data@.take(m as int) =~= data@);
            assert(self@ =~= w0 + data@);
        }
        Ok(())
    }
}

/// The window contents after feeding each part in turn.
pub open spec fn spec_fed(w: Seq<u8>, parts: Seq<Seq<u8>>) -> Seq<u8>
    decreases parts.len(),
{
    if parts.len() == 0 {
        w
    } else {
        spec_fed(w + parts[0], parts.drop_first())
    }
}

/// Law: stream fragmentation invariance.  Feeding the parts of any split of
/// a byte sequence one at a time leaves exactly the window that feeding the
/// whole sequence at once leaves, whatever the split; decoding reads only
/// the window, so it cannot observe how the bytes arrived.
pub proof fn lemma_fragmentation(w: Seq<u8>, parts: Seq<Seq<u8>>)
    ensures
        spec_fed(w, parts) == w + parts.flatten(),
    decreases parts.len(),
{
    if parts.len() == 0 {
        assert(w + parts.flatten() =~= w);
    } else {
        lemma_fragmentation(w + parts[0], parts.drop_first());
        assert(parts.first() == parts[0]);
        assert((w + parts[0]) + parts.drop_first().flatten() =~= w + (parts[0]
            + parts.drop_first().flatten()));
    }
}

} // verus!
