//! Capture side of the pipeline: frame assembly and sequence stamping.
//!
//! The input device callback pushes captured samples into the ring without
//! ever waiting (overflow is dropped). The encode loop polls the ring; once
//! one frame's worth of samples is queued it takes exactly one frame, has it
//! encoded, and stamps the compressed payload with the next sequence number.
//! The encoder itself and the datagram send are outside collaborators: they
//! exchange plain sample and byte vectors with this state machine.

use vstd::prelude::*;

use crate::config::FrameGeometry;
use crate::messages::{RoomMessage, RoomMessageView};
use crate::ring::SampleRing;

verus! {

/// The sequence numbers emitted by a capture state whose counter starts at
/// `start`, over `n` consecutive successful encode cycles.
pub open spec fn emitted_sequences(start: u64, n: nat) -> Seq<u64>
    decreases n,
{
    if n == 0 {
        Seq::empty()
    } else {
        seq![start] + emitted_sequences(
            if start == u64::MAX {
                0u64
            } else {
                (start + 1) as u64
            },
            (n - 1) as nat,
        )
    }
}

/// Capture-side state: the ring filled by the input device callback, the
/// fixed frame geometry, the sender's own identity, and the sequence counter
/// stamped onto outgoing packets.
pub struct VoiceInput {
    pub geometry: FrameGeometry,
    pub ring: SampleRing,
    pub next_sequence: u64,
    pub speaker_id: u64,
}

impl VoiceInput {
    /// Fresh capture state: an empty ring holding one second of interleaved
    /// samples, and a sequence counter at zero.
    pub fn new(geometry: FrameGeometry, speaker_id: u64) -> (r: Self)
        requires
            geometry.valid(),
        ensures
            r.geometry == geometry,
            r.speaker_id == speaker_id,
            r.next_sequence == 0,
            r.ring@ == Seq::<i16>::empty(),
            r.ring.capacity() == geometry.spec_ring_capacity(),
    {
        let cap = geometry.ring_capacity();
        VoiceInput {
            geometry,
            ring: SampleRing::new(cap),
            next_sequence: 0,
            speaker_id,
        }
    }

    /// The input device callback's push: append what fits, drop the rest,
    /// never wait.
    pub fn push_captured(&mut self, data: &[i16]) -> (taken: usize)
        ensures
            final(self).geometry == old(self).geometry,
            final(self).next_sequence == old(self).next_sequence,
            final(self).speaker_id == old(self).speaker_id,
            final(self).ring.capacity() == old(self).ring.capacity(),
            taken == if data@.len() <= old(self).ring.capacity() - old(self).ring@.len() {
                data@.len() as int
            } else {
                old(self).ring.capacity() - old(self).ring@.len()
            },
            final(self).ring@ == old(self).ring@ + data@.take(taken as int),
    {
        self.ring.push_slice(data)
    }

    /// Frame assembly: when at least one frame's worth of samples is queued,
    /// remove and return exactly that many (the oldest ones); otherwise do
    /// nothing and report that more input is required.
    pub fn try_assemble_frame(&mut self) -> (r: Option<Vec<i16>>)
        requires
            old(self).geometry.valid(),
        ensures
            final(self).geometry == old(self).geometry,
            final(self).next_sequence == old(self).next_sequence,
            final(self).speaker_id == old(self).speaker_id,
            final(self).ring.capacity() == old(self).ring.capacity(),
            old(self).ring@.len() < old(self).geometry.spec_samples_per_frame() ==> r is None
                && final(self).ring@ == old(self).ring@,
            old(self).ring@.len() >= old(self).geometry.spec_samples_per_frame() ==> (r matches
                Some(frame) && frame@.len() == old(self).geometry.spec_samples_per_frame()
                && frame@ == old(self).ring@.take(old(self).geometry.spec_samples_per_frame())
                && final(self).ring@ == old(self).ring@.skip(
                old(self).geometry.spec_samples_per_frame(),
            )),
    {
        let frame_len = self.geometry.samples_per_frame();
        self.ring.pop_exact(frame_len)
    }

    /// Stamp one encoded payload as a voice packet carrying the current
    /// sequence number and this sender's identity, then advance the counter
    /// (wrapping at the 64-bit boundary, which practical sessions never
    /// reach).
    pub fn stamp_packet(&mut self, body: Vec<u8>) -> (p: RoomMessage)
        ensures
            final(self).geometry == old(self).geometry,
            final(self).speaker_id == old(self).speaker_id,
            final(self).ring@ == old(self).ring@,
            final(self).ring.capacity() == old(self).ring.capacity(),
            p@ == (RoomMessageView::VoicePacket {
                body: body@,
                order_id: old(self).next_sequence,
                user_id: old(self).speaker_id,
            }),
            final(self).next_sequence == (if old(self).next_sequence == u64::MAX {
                0u64
            } else {
                (old(self).next_sequence + 1) as u64
            }),
    {
        let p = RoomMessage::VoicePacket {
            body,
            order_id: self.next_sequence,
            user_id: self.speaker_id,
        };
        self.next_sequence = self.next_sequence.wrapping_add(1);
        p
    }
}

/// Sequence monotonicity: as long as the counter does not wrap, `n`
/// consecutive encode cycles starting from counter value `start` emit the
/// sequence numbers `start, start + 1, ..., start + n - 1`, with no gap and
/// no repeat. Started from a fresh state, that is `0, 1, ..., n - 1`.
pub proof fn lemma_sequence_monotonic(start: u64, n: nat)
    requires
        start + n <= u64::MAX + 1,
    ensures
        emitted_sequences(start, n).len() == n,
        forall|i: int| 0 <= i < n ==> emitted_sequences(start, n)[i] == start + i,
    decreases n,
{
    if n == 0 {
        assert(emitted_sequences(start, n) == Seq::<u64>::empty());
    } else {
        let next: u64 = if start == u64::MAX {
            0u64
        } else {
            (start + 1) as u64
        };
        assert(emitted_sequences(start, n) == seq![start] + emitted_sequences(
            next,
            (n - 1) as nat,
        ));
        if start < u64::MAX {
            lemma_sequence_monotonic(next, (n - 1) as nat);
        } else {
            assert(n == 1);
            assert(emitted_sequences(next, 0) == Seq::<u64>::empty());
        }
    }
}

} // verus!
