//! Byte accumulation and batch framing.
//!
//! The device sends no frame delimiters or lengths: the only framing
//! signal is the transport's read timeout. The accumulator appends every
//! chunk the transport delivers; on an idle signal it hands out the whole
//! buffer as one batch and starts empty, or hands out nothing when no
//! bytes arrived since the last batch.

use vstd::prelude::*;

verus! {

/// Owns the bytes read from the transport since the last batch.
pub struct FrameAccumulator {
    buf: Vec<u8>,
}

impl FrameAccumulator {
    /// The bytes accumulated so far, in arrival order.
    pub closed spec fn buffered(&self) -> Seq<u8> {
        self.buf@
    }

    /// A fresh accumulator holding nothing.
    pub fn new() -> (r: FrameAccumulator)
        ensures
            r.buffered() == Seq::<u8>::empty(),
    {
        FrameAccumulator { buf: Vec::new() }
    }

    /// Appends one chunk of transport bytes; a pure append, any chunk
    /// size (including empty) is accepted.
    pub fn on_bytes(&mut self, chunk: &[u8])
        ensures
            final(self).buffered() == old(self).buffered() + chunk@,
    {
        let n: usize = chunk.len();
        let mut i: usize = 0;
        while i < n
            invariant
                i <= n,
                n == chunk@.len(),
                self.buf@ == old(self).buffered() + chunk@.take(i as int),
            decreases n - i,
        {
            self.buf.push(chunk[i]);
            proof {
                let base: Seq<u8> = old(self).buffered();
                assert((base + chunk@.take(i as int)).push(chunk@[i as int]) =~= base + chunk@.take(
                    i as int + 1,
                ));
            }
            i = i + 1;
        }
        proof {
            let base: Seq<u8> = old(self).buffered();
            assert(base + chunk@.take(n as int) =~= base + chunk@);
        }
    }

    /// Handles the transport's idle signal: hands out the buffered bytes
    /// as one batch and resets, or hands out nothing when the buffer is
    /// empty — an idle gap with no data yields no batch.
    pub fn on_idle_signal(&mut self) -> (r: Option<Vec<u8>>)
        ensures
            final(self).buffered() == Seq::<u8>::empty(),
            old(self).buffered().len() == 0 ==> r is None,
            old(self).buffered().len() > 0 ==> (match r {
                Some(b) => b@ == old(self).buffered(),
                None => false,
            }),
    {
        if self.buf.len() == 0 {
            proof {
                assert(self.buf@ =~= Seq::<u8>::empty());
            }
            return None;
        }
        let b: Vec<u8> = self.buf.split_off(0);
        proof {
            assert(b@ =~= old(self).buffered());
            assert(self.buf@ =~= Seq::<u8>::empty());
        }
        Some(b)
    }
}

} // verus!
