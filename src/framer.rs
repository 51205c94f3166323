//! Groups a stream of audio samples into fixed-size frames for the
//! demodulator; samples short of a frame wait for the next chunk.
use vstd::prelude::*;

verus! {

/// The demodulator's frame length.
pub const FRAME_SIZE: usize = 8192;

/// Buffers samples and hands them out `frame_size` at a time, in order.
pub struct Framer<T> {
    buffer: Vec<T>,
    frame_size: usize,
}

impl<T: Copy> Framer<T> {
    /// The samples waiting for a full frame, oldest first.
    pub closed spec fn spec_pending(&self) -> Seq<T> {
        self.buffer@
    }

    /// The frame length.
    pub closed spec fn spec_frame_size(&self) -> int {
        self.frame_size as int
    }

    /// An empty framer for frames of `frame_size` samples.
    pub fn new(frame_size: usize) -> (r: Framer<T>)
        requires
            frame_size > 0,
        ensures
            r.spec_frame_size() == frame_size,
            r.spec_pending() == Seq::<T>::empty(),
    {
        Framer { buffer: Vec::new(), frame_size }
    }

    /// Appends a chunk of samples.
    pub fn push(&mut self, chunk: &[T])
        ensures
            final(self).spec_frame_size() == old(self).spec_frame_size(),
            final(self).spec_pending() == old(self).spec_pending() + chunk@,
    {
        let mut i: usize = 0;
        while i < chunk.len()
            invariant
                i <= chunk@.len(),
                self.frame_size == old(self).frame_size,
                self.buffer@ == old(self).buffer@ + chunk@.subrange(0, i as int),
            decreases chunk.len() - i,
        {
            self.buffer.push(chunk[i]);
            i = i + 1;
            assert(chunk@.subrange(0, i as int) == chunk@.subrange(0, i - 1).push(chunk@[i - 1]));
        }
        assert(chunk@.subrange(0, chunk@.len() as int) == chunk@);
    }

    /// Takes the oldest full frame, if one is waiting.
    pub fn next_frame(&mut self) -> (r: Option<Vec<T>>)
        ensures
            final(self).spec_frame_size() == old(self).spec_frame_size(),
            old(self).spec_pending().len() >= old(self).spec_frame_size() ==> {
                &&& r matches Some(frame)
                &&& frame@ == old(self).spec_pending().subrange(0, old(self).spec_frame_size())
                &&& final(self).spec_pending() == old(self).spec_pending().subrange(
                    old(self).spec_frame_size(),
                    old(self).spec_pending().len() as int,
                )
            },
            old(self).spec_pending().len() < old(self).spec_frame_size() ==> {
                &&& r is None
                &&& final(self).spec_pending() == old(self).spec_pending()
            },
    {
        if self.buffer.len() < self.frame_size {
            return None;
        }
        let mut frame = self.buffer.split_off(self.frame_size);
        std::mem::swap(&mut frame, &mut self.buffer);
        Some(frame)
    }
}

} // verus!
