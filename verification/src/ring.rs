//! Fixed-capacity FIFO of audio samples.
//!
//! One ring sits between exactly one producer and one consumer: the capture
//! callback pushes and the encode loop pops, or the decode path pushes and
//! the playback callback pops. Both ends are total and never wait: a push
//! into a full ring drops the sample and reports it, a pop from an empty
//! ring yields `None` (or silence, for the playback variant).

use vstd::prelude::*;

verus! {

/// A bounded queue of 16-bit PCM samples. The view `self@` is the queue's
/// content, oldest sample first; `self.capacity()` never changes after
/// construction and `self@.len() <= self.capacity()` always holds.
pub struct SampleRing {
    buf: Vec<i16>,
    cap: usize,
}

impl View for SampleRing {
    type V = Seq<i16>;

    closed spec fn view(&self) -> Seq<i16> {
        self.buf@
    }
}

impl SampleRing {
    /// The fixed capacity the ring was created with.
    pub closed spec fn capacity(&self) -> nat {
        self.cap as nat
    }

    #[verifier::type_invariant]
    spec fn inv(&self) -> bool {
        self.buf@.len() <= self.cap
    }

    /// An empty ring that can hold up to `capacity` samples.
    pub fn new(capacity: usize) -> (r: Self)
        ensures
            r@ == Seq::<i16>::empty(),
            r.capacity() == capacity,
    {
        SampleRing { buf: Vec::new(), cap: capacity }
    }

    /// How many samples are queued.
    pub fn len(&self) -> (n: usize)
        ensures
            n == self@.len(),
    {
        self.buf.len()
    }

    /// The fixed capacity, as a runtime value.
    pub fn capacity_value(&self) -> (c: usize)
        ensures
            c == self.capacity(),
    {
        self.cap
    }

    /// Append one sample if there is room. A full ring drops the sample and
    /// returns false; the call never waits.
    pub fn push(&mut self, sample: i16) -> (ok: bool)
        ensures
            final(self).capacity() == old(self).capacity(),
            old(self)@.len() < old(self).capacity() ==> ok && final(self)@ == old(self)@.push(sample),
            old(self)@.len() >= old(self).capacity() ==> !ok && final(self)@ == old(self)@,
    {
        proof {
            use_type_invariant(&*self);
        }
        let mut buf: Vec<i16> = Vec::new();
        core::mem::swap(&mut buf, &mut self.buf);
        let ok: bool = if buf.len() < self.cap {
            buf.push(sample);
            true
        } else {
            false
        };
        self.buf = buf;
        ok
    }

    /// Append as many samples of `data` as fit, in order, and report how
    /// many were taken; the overflow is dropped silently.
    pub fn push_slice(&mut self, data: &[i16]) -> (taken: usize)
        ensures
            final(self).capacity() == old(self).capacity(),
            taken == if data@.len() <= old(self).capacity() - old(self)@.len() {
                data@.len() as int
            } else {
                old(self).capacity() - old(self)@.len()
            },
            final(self)@ == old(self)@ + data@.take(taken as int),
    {
        proof {
            use_type_invariant(&*self);
        }
        let mut buf: Vec<i16> = Vec::new();
        core::mem::swap(&mut buf, &mut self.buf);
        let room: usize = self.cap - buf.len();
        let n: usize = if data.len() <= room {
            data.len()
        } else {
            room
        };
        let mut i: usize = 0;
        while i < n
            invariant
                i <= n,
                n <= data@.len(),
                old(self)@.len() + n <= old(self).capacity(),
                buf@ == old(self)@ + data@.take(i as int),
            decreases n - i,
        {
            buf.push(data[i]);
            proof {
                assert(data@.take(i + 1) =~= data@.take(i as int).push(data@[i as int]));
            }
            i = i + 1;
        }
        self.buf = buf;
        n
    }

    /// Remove and return the oldest sample, or `None` if the ring is empty;
    /// the call never waits.
    pub fn pop(&mut self) -> (r: Option<i16>)
        ensures
            final(self).capacity() == old(self).capacity(),
            old(self)@.len() == 0 ==> r is None && final(self)@ == old(self)@,
            old(self)@.len() > 0 ==> r == Some(old(self)@[0]) && final(self)@ == old(self)@.drop_first(),
    {
        proof {
            use_type_invariant(&*self);
        }
        let mut buf: Vec<i16> = Vec::new();
        core::mem::swap(&mut buf, &mut self.buf);
        let r: Option<i16> = if buf.len() > 0 {
            let s = buf.remove(0);
            Some(s)
        } else {
            None
        };
        self.buf = buf;
        proof {
            if old(self)@.len() > 0 {
                assert(self@ =~= old(self)@.drop_first());
            }
        }
        r
    }

    /// Remove and return the oldest sample, or silence (0) if the ring is
    /// empty. This is the playback callback's underflow policy.
    pub fn pop_or_silence(&mut self) -> (s: i16)
        ensures
            final(self).capacity() == old(self).capacity(),
            old(self)@.len() == 0 ==> s == 0 && final(self)@ == old(self)@,
            old(self)@.len() > 0 ==> s == old(self)@[0] && final(self)@ == old(self)@.drop_first(),
    {
        match self.pop() {
            Some(s) => s,
            None => 0,
        }
    }

    /// Remove and return up to `n` of the oldest samples, in order. Fewer
    /// come back only when the ring holds fewer.
    pub fn pop_upto(&mut self, n: usize) -> (r: Vec<i16>)
        ensures
            final(self).capacity() == old(self).capacity(),
            r@.len() == if n <= old(self)@.len() {
                n as int
            } else {
                old(self)@.len() as int
            },
            r@ == old(self)@.take(r@.len() as int),
            final(self)@ == old(self)@.skip(r@.len() as int),
    {
        proof {
            use_type_invariant(&*self);
        }
        let mut buf: Vec<i16> = Vec::new();
        core::mem::swap(&mut buf, &mut self.buf);
        let k: usize = if n <= buf.len() {
            n
        } else {
            buf.len()
        };
        let mut r: Vec<i16> = Vec::new();
        let mut i: usize = 0;
        while i < k
            invariant
                i <= k,
                k <= old(self)@.len(),
                r@ == old(self)@.take(i as int),
                buf@ == old(self)@.skip(i as int),
            decreases k - i,
        {
            proof {
                assert(buf@[0] == old(self)@[i as int]);
            }
            let s = buf.remove(0);
            r.push(s);
            proof {
                assert(old(self)@.take(i + 1) =~= old(self)@.take(i as int).push(
                    old(self)@[i as int],
                ));
                assert(buf@ =~= old(self)@.skip(i + 1));
            }
            i = i + 1;
        }
        self.buf = buf;
        r
    }

    /// Remove and return exactly `n` samples when at least that many are
    /// queued; otherwise leave the ring untouched and return `None`.
    pub fn pop_exact(&mut self, n: usize) -> (r: Option<Vec<i16>>)
        ensures
            final(self).capacity() == old(self).capacity(),
            old(self)@.len() < n ==> r is None && final(self)@ == old(self)@,
            old(self)@.len() >= n ==> (r matches Some(v) && v@ == old(self)@.take(n as int)
                && final(self)@ == old(self)@.skip(n as int)),
    {
        if self.len() >= n {
            Some(self.pop_upto(n))
        } else {
            None
        }
    }
}

} // verus!
