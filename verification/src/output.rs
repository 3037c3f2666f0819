//! Receive side of the pipeline: the per-speaker jitter channels and the
//! mixer that feeds the playback device.
//!
//! Every inbound voice packet is routed by speaker identity. A packet from
//! an unseen identity creates that speaker's channel (empty ring, sequence
//! zero, unity volume) and reports it, exactly once per identity, so the
//! interface can list the new speaker. A packet whose sequence number is
//! strictly below the channel's last accepted one is discarded untouched;
//! any other packet is accepted and moves the channel's sequence forward.
//! Accepted audio is volume-scaled sample by sample and queued in the
//! speaker's ring; the playback callback takes one sample per active
//! speaker per output slot, sums them and clamps the sum once.
//!
//! The opus decoder is an outside collaborator: it turns a packet body into
//! plain samples, which `deliver_decoded` takes as an argument. Channels are
//! never removed; a speaker's state is retained for the session's lifetime.

use vstd::prelude::*;

use crate::messages::ControlSignal;
use crate::mix::{clamp_i16, clamp_sample, scale_i16, scale_sample, scaled, VOLUME_UNITY};
use vstd::pervasive::VecAdditionalExecFns;
use crate::ring::SampleRing;

verus! {

/// State kept for one remote speaker.
pub struct SpeakerChannel {
    pub ring: SampleRing,
    pub last_accepted_sequence: u64,
    pub volume: u16,
}

/// One registry slot: a speaker identity and its channel.
pub struct SpeakerEntry {
    pub id: u64,
    pub channel: SpeakerChannel,
}

/// What `accept_packet` decided about one inbound packet.
#[derive(Debug, Clone, Copy, PartialEq, Eq, Structural)]
pub struct PacketDecision {
    /// The packet came from a previously unseen speaker; report it once.
    pub is_new_speaker: bool,
    /// The packet is not stale: decode it and deliver the samples.
    pub accepted: bool,
}

/// No two registry slots name the same speaker.
pub open spec fn unique_ids(s: Seq<SpeakerEntry>) -> bool {
    forall|i: int, j: int| 0 <= i < j < s.len() ==> s[i].id != s[j].id
}

/// The sample a ring contributes to output slot `j`: its `j`-th queued
/// sample, or silence once it runs dry.
pub open spec fn sample_at(ring: Seq<i16>, j: int) -> i16 {
    if 0 <= j < ring.len() {
        ring[j]
    } else {
        0
    }
}

/// The unclamped sum of every speaker's contribution to output slot `j`.
pub open spec fn slot_sum(rings: Seq<Seq<i16>>, j: int) -> int
    decreases rings.len(),
{
    if rings.len() == 0 {
        0
    } else {
        slot_sum(rings.drop_last(), j) + sample_at(rings.last(), j)
    }
}

/// The mixed output sample for slot `j`: summation, then one clamp.
pub open spec fn mixed_slot(rings: Seq<Seq<i16>>, j: int) -> int {
    clamp_i16(slot_sum(rings, j))
}

/// The speaker registry and mixer of one playback session.
pub struct VoiceOutput {
    speakers: Vec<SpeakerEntry>,
    ring_capacity: usize,
}

impl VoiceOutput {
    /// The registry's slots, in order of first appearance.
    pub closed spec fn entries(&self) -> Seq<SpeakerEntry> {
        self.speakers@
    }

    /// The capacity every speaker ring is created with.
    pub closed spec fn channel_capacity(&self) -> nat {
        self.ring_capacity as nat
    }

    #[verifier::type_invariant]
    spec fn inv(&self) -> bool {
        &&& unique_ids(self.speakers@)
        &&& forall|i: int|
            0 <= i < self.speakers@.len() ==> (#[trigger] self.speakers@[i]).channel.ring.capacity()
                == self.ring_capacity
    }

    /// Whether a packet from `id` has been seen in this session.
    pub open spec fn has_speaker(&self, id: u64) -> bool {
        exists|i: int| 0 <= i < self.entries().len() && (#[trigger] self.entries()[i]).id == id
    }

    /// The registry slot holding `id` (meaningful only when `has_speaker`).
    pub open spec fn index_of(&self, id: u64) -> int {
        choose|i: int| 0 <= i < self.entries().len() && (#[trigger] self.entries()[i]).id == id
    }

    /// The channel of speaker `id` (meaningful only when `has_speaker`).
    pub open spec fn channel(&self, id: u64) -> SpeakerChannel {
        self.entries()[self.index_of(id)].channel
    }

    /// Every speaker's queued samples, in registry order.
    pub open spec fn rings(&self) -> Seq<Seq<i16>> {
        self.entries().map(|i: int, e: SpeakerEntry| e.channel.ring@)
    }

    /// A fresh registry with no speakers; every channel created later gets a
    /// ring of `ring_capacity` samples.
    pub fn new(ring_capacity: usize) -> (r: Self)
        ensures
            r.entries().len() == 0,
            r.channel_capacity() == ring_capacity,
            forall|x: u64| !r.has_speaker(x),
    {
        VoiceOutput { speakers: Vec::new(), ring_capacity }
    }

    /// How many speakers have been seen.
    pub fn speaker_count(&self) -> (n: usize)
        ensures
            n == self.entries().len(),
    {
        self.speakers.len()
    }

    /// Whether a packet from `id` has been seen, as a runtime test.
    pub fn contains_speaker(&self, id: u64) -> (b: bool)
        ensures
            b == self.has_speaker(id),
    {
        let r = find_index(&self.speakers, id);
        match r {
            Some(i) => {
                proof {
                    assert(self.entries()[i as int].id == id);
                }
                true
            },
            None => {
                proof {
                    if self.has_speaker(id) {
                        let w = self.index_of(id);
                        assert(self.entries()[w].id == id);
                        assert(false);
                    }
                }
                false
            },
        }
    }

    /// Route one inbound packet header. An unseen speaker identity gets a
    /// fresh channel and is reported exactly once; a stale packet (sequence
    /// strictly below the last accepted one) is discarded with the whole
    /// registry untouched; any other packet is accepted and moves the
    /// channel's last accepted sequence to the packet's.
    pub fn accept_packet(&mut self, speaker_id: u64, sequence: u64) -> (d: PacketDecision)
        ensures
            d.is_new_speaker == !old(self).has_speaker(speaker_id),
            final(self).has_speaker(speaker_id),
            final(self).channel_capacity() == old(self).channel_capacity(),
            forall|x: u64|
                final(self).has_speaker(x) <==> (old(self).has_speaker(x) || x == speaker_id),
            forall|x: u64|
                x != speaker_id && old(self).has_speaker(x) ==> final(self).channel(x) == old(
                    self,
                ).channel(x),
            !old(self).has_speaker(speaker_id) ==> d.accepted && final(self).entries().len() == old(
                self,
            ).entries().len() + 1 && final(self).channel(speaker_id).last_accepted_sequence
                == sequence && final(self).channel(speaker_id).ring@ == Seq::<i16>::empty()
                && final(self).channel(speaker_id).ring.capacity() == old(self).channel_capacity()
                && final(self).channel(speaker_id).volume == VOLUME_UNITY,
            old(self).has_speaker(speaker_id) && sequence < old(self).channel(
                speaker_id,
            ).last_accepted_sequence ==> !d.accepted && final(self).entries() == old(
                self,
            ).entries(),
            old(self).has_speaker(speaker_id) && sequence >= old(self).channel(
                speaker_id,
            ).last_accepted_sequence ==> d.accepted && final(self).entries().len() == old(
                self,
            ).entries().len() && final(self).channel(speaker_id) == (SpeakerChannel {
                last_accepted_sequence: sequence,
                ..old(self).channel(speaker_id)
            }),
    {
        proof {
            use_type_invariant(&*self);
        }
        let ghost snap = self.speakers@;
        let mut spk: Vec<SpeakerEntry> = Vec::new();
        core::mem::swap(&mut spk, &mut self.speakers);
        let found = find_index(&spk, speaker_id);
        match found {
            None => {
                let channel = SpeakerChannel {
                    ring: SampleRing::new(self.ring_capacity),
                    last_accepted_sequence: sequence,
                    volume: VOLUME_UNITY,
                };
                spk.push(SpeakerEntry { id: speaker_id, channel });
                self.speakers = spk;
                proof {
                    let k = snap.len() as int;
                    assert(self.entries()[k].id == speaker_id);
                    lemma_lookup(self, k, speaker_id);
                    assert(!old(self).has_speaker(speaker_id));
                    assert forall|x: u64|
                        self.has_speaker(x) <==> (old(self).has_speaker(x)
                            || x == speaker_id) by {
                        if self.has_speaker(x) {
                            let i = self.index_of(x);
                            if i < k {
                                assert(old(self).entries()[i].id == x);
                            }
                        }
                        if old(self).has_speaker(x) {
                            let i = old(self).index_of(x);
                            assert(self.entries()[i].id == x);
                        }
                    }
                    assert forall|x: u64|
                        x != speaker_id && old(self).has_speaker(x) implies self.channel(x) == old(
                        self,
                    ).channel(x) by {
                        let i = old(self).index_of(x);
                        lemma_lookup(old(self), i, x);
                        assert(self.entries()[i].id == x);
                        lemma_lookup(self, i, x);
                    }
                }
                PacketDecision { is_new_speaker: true, accepted: true }
            },
            Some(i) => {
                proof {
                    lemma_lookup(old(self), i as int, speaker_id);
                }
                let stale = spk[i].channel.last_accepted_sequence > sequence;
                let d: PacketDecision = if stale {
                    PacketDecision { is_new_speaker: false, accepted: false }
                } else {
                    let mut entry = spk.remove(i);
                    entry.channel.last_accepted_sequence = sequence;
                    spk.insert(i, entry);
                    proof {
                        assert(spk@ =~= snap.update(
                            i as int,
                            SpeakerEntry {
                                id: speaker_id,
                                channel: SpeakerChannel {
                                    last_accepted_sequence: sequence,
                                    ..snap[i as int].channel
                                },
                            },
                        ));
                    }
                    PacketDecision { is_new_speaker: false, accepted: true }
                };
                self.speakers = spk;
                proof {
                    assert(self.entries()[i as int].id == speaker_id);
                    lemma_lookup(self, i as int, speaker_id);
                    assert forall|x: u64|
                        self.has_speaker(x) <==> (old(self).has_speaker(x)
                            || x == speaker_id) by {
                        if self.has_speaker(x) {
                            let w = self.index_of(x);
                            assert(old(self).entries()[w].id == x);
                        }
                        if old(self).has_speaker(x) {
                            let w = old(self).index_of(x);
                            assert(self.entries()[w].id == x);
                        }
                    }
                    assert forall|x: u64|
                        x != speaker_id && old(self).has_speaker(x) implies self.channel(x) == old(
                        self,
                    ).channel(x) by {
                        let w = old(self).index_of(x);
                        lemma_lookup(old(self), w, x);
                        assert(self.entries()[w].id == x);
                        lemma_lookup(self, w, x);
                    }
                }
                d
            },
        }
    }

    /// Change one speaker's playback gain; it takes effect from the next
    /// delivered packet, never retroactively.
    pub fn set_volume(&mut self, speaker_id: u64, volume: u16)
        requires
            old(self).has_speaker(speaker_id),
        ensures
            final(self).channel_capacity() == old(self).channel_capacity(),
            final(self).entries().len() == old(self).entries().len(),
            forall|x: u64| final(self).has_speaker(x) <==> old(self).has_speaker(x),
            forall|x: u64|
                x != speaker_id && old(self).has_speaker(x) ==> final(self).channel(x) == old(
                    self,
                ).channel(x),
            final(self).channel(speaker_id) == (SpeakerChannel {
                volume,
                ..old(self).channel(speaker_id)
            }),
    {
        proof {
            use_type_invariant(&*self);
        }
        let ghost snap = self.speakers@;
        let mut spk: Vec<SpeakerEntry> = Vec::new();
        core::mem::swap(&mut spk, &mut self.speakers);
        let found = find_index(&spk, speaker_id);
        match found {
            None => {
                proof {
                    let w = old(self).index_of(speaker_id);
                    assert(old(self).entries()[w].id == speaker_id);
                    assert(false);
                }
                vstd::pervasive::unreached()
            },
            Some(i) => {
                proof {
                    lemma_lookup(old(self), i as int, speaker_id);
                }
                let mut entry = spk.remove(i);
                entry.channel.volume = volume;
                spk.insert(i, entry);
                proof {
                    assert(spk@ =~= snap.update(
                        i as int,
                        SpeakerEntry {
                            id: speaker_id,
                            channel: SpeakerChannel { volume, ..snap[i as int].channel },
                        },
                    ));
                }
                self.speakers = spk;
                proof {
                    assert(self.entries()[i as int].id == speaker_id);
                    lemma_lookup(self, i as int, speaker_id);
                    assert forall|x: u64|
                        self.has_speaker(x) <==> old(self).has_speaker(x) by {
                        if self.has_speaker(x) {
                            let w = self.index_of(x);
                            assert(old(self).entries()[w].id == x);
                        }
                        if old(self).has_speaker(x) {
                            let w = old(self).index_of(x);
                            assert(self.entries()[w].id == x);
                        }
                    }
                    assert forall|x: u64|
                        x != speaker_id && old(self).has_speaker(x) implies self.channel(x) == old(
                        self,
                    ).channel(x) by {
                        let w = old(self).index_of(x);
                        lemma_lookup(old(self), w, x);
                        assert(self.entries()[w].id == x);
                        lemma_lookup(self, w, x);
                    }
                }
            },
        }
    }

    /// Deliver one accepted packet's decoded samples into the speaker's
    /// ring: every sample is scaled by the volume in effect now, and what
    /// does not fit in the ring is dropped.
    pub fn deliver_decoded(&mut self, speaker_id: u64, samples: &[i16]) -> (pushed: usize)
        requires
            old(self).has_speaker(speaker_id),
        ensures
            final(self).channel_capacity() == old(self).channel_capacity(),
            final(self).entries().len() == old(self).entries().len(),
            forall|x: u64| final(self).has_speaker(x) <==> old(self).has_speaker(x),
            forall|x: u64|
                x != speaker_id && old(self).has_speaker(x) ==> final(self).channel(x) == old(
                    self,
                ).channel(x),
            pushed == (if samples@.len() <= old(self).channel(speaker_id).ring.capacity() - old(
                self,
            ).channel(speaker_id).ring@.len() {
                samples@.len() as int
            } else {
                old(self).channel(speaker_id).ring.capacity() - old(self).channel(
                    speaker_id,
                ).ring@.len()
            }),
            final(self).channel(speaker_id).ring@ == old(self).channel(speaker_id).ring@ + scaled(
                samples@,
                old(self).channel(speaker_id).volume,
            ).take(pushed as int),
            final(self).channel(speaker_id).ring.capacity() == old(self).channel(
                speaker_id,
            ).ring.capacity(),
            final(self).channel(speaker_id).volume == old(self).channel(speaker_id).volume,
            final(self).channel(speaker_id).last_accepted_sequence == old(self).channel(
                speaker_id,
            ).last_accepted_sequence,
    {
        proof {
            use_type_invariant(&*self);
        }
        let ghost snap = self.speakers@;
        let mut spk: Vec<SpeakerEntry> = Vec::new();
        core::mem::swap(&mut spk, &mut self.speakers);
        let found = find_index(&spk, speaker_id);
        match found {
            None => {
                proof {
                    let w = old(self).index_of(speaker_id);
                    assert(old(self).entries()[w].id == speaker_id);
                    assert(false);
                }
                vstd::pervasive::unreached()
            },
            Some(i) => {
                proof {
                    lemma_lookup(old(self), i as int, speaker_id);
                }
                let mut entry = spk.remove(i);
                let vol = entry.channel.volume;
                let mut buf: Vec<i16> = Vec::new();
                let mut j: usize = 0;
                while j < samples.len()
                    invariant
                        j <= samples@.len(),
                        buf@ == scaled(samples@, vol).take(j as int),
                    decreases samples@.len() - j,
                {
                    let s = scale_sample(samples[j], vol);
                    buf.push(s);
                    proof {
                        assert(scaled(samples@, vol).take(j + 1) =~= scaled(samples@, vol).take(
                            j as int,
                        ).push(scale_i16(samples@[j as int], vol)));
                    }
                    j = j + 1;
                }
                proof {
                    assert(buf@ =~= scaled(samples@, vol));
                }
                let pushed = entry.channel.ring.push_slice(buf.as_slice());
                spk.insert(i, entry);
                proof {
                    assert(spk@ =~= snap.update(i as int, spk@[i as int]));
                }
                self.speakers = spk;
                proof {
                    assert(self.entries()[i as int].id == speaker_id);
                    lemma_lookup(self, i as int, speaker_id);
                    assert forall|x: u64|
                        self.has_speaker(x) <==> old(self).has_speaker(x) by {
                        if self.has_speaker(x) {
                            let w = self.index_of(x);
                            assert(old(self).entries()[w].id == x);
                        }
                        if old(self).has_speaker(x) {
                            let w = old(self).index_of(x);
                            assert(self.entries()[w].id == x);
                        }
                    }
                    assert forall|x: u64|
                        x != speaker_id && old(self).has_speaker(x) implies self.channel(x) == old(
                        self,
                    ).channel(x) by {
                        let w = old(self).index_of(x);
                        lemma_lookup(old(self), w, x);
                        assert(self.entries()[w].id == x);
                        lemma_lookup(self, w, x);
                    }
                }
                pushed
            },
        }
    }

    /// Fill one output frame of `n` slots. Each slot is the clamped sum of
    /// one sample from every speaker's ring (silence where a ring has run
    /// dry); every ring loses the samples it contributed. The callback that
    /// calls this never waits: a dry ring only contributes silence.
    pub fn mix_frame(&mut self, n: usize) -> (out: Vec<i16>)
        requires
            old(self).entries().len() <= 0x1_0000_0000,
        ensures
            out@.len() == n,
            forall|j: int| 0 <= j < n ==> out@[j] as int == mixed_slot(old(self).rings(), j),
            final(self).channel_capacity() == old(self).channel_capacity(),
            final(self).entries().len() == old(self).entries().len(),
            forall|x: u64| final(self).has_speaker(x) <==> old(self).has_speaker(x),
            forall|x: u64|
                old(self).has_speaker(x) ==> final(self).channel(x).volume == old(self).channel(
                    x,
                ).volume && final(self).channel(x).last_accepted_sequence == old(self).channel(
                    x,
                ).last_accepted_sequence && final(self).channel(x).ring.capacity() == old(
                    self,
                ).channel(x).ring.capacity() && final(self).channel(x).ring@ == old(self).channel(
                    x,
                ).ring@.skip(
                    if n <= old(self).channel(x).ring@.len() {
                        n as int
                    } else {
                        old(self).channel(x).ring@.len() as int
                    },
                ),
    {
        proof {
            use_type_invariant(&*self);
        }
        let ghost snap = self.speakers@;
        let ghost rings0 = self.rings();
        let mut rest: Vec<SpeakerEntry> = Vec::new();
        core::mem::swap(&mut rest, &mut self.speakers);
        let mut done: Vec<SpeakerEntry> = Vec::new();
        let mut acc: Vec<i64> = Vec::new();
        let mut z: usize = 0;
        while z < n
            invariant
                acc@.len() == z <= n,
                forall|j: int| 0 <= j < z ==> acc@[j] == 0,
            decreases n - z,
        {
            acc.push(0);
            z = z + 1;
        }
        proof {
            assert(rings0.take(0) =~= Seq::<Seq<i16>>::empty());
            assert(rings0.len() == snap.len());
        }
        while rest.len() > 0
            invariant
                done@.len() + rest@.len() == snap.len(),
                snap.len() <= 0x1_0000_0000,
                rings0.len() == snap.len(),
                forall|i: int|
                    0 <= i < snap.len() ==> rings0[i] == (#[trigger] snap[i]).channel.ring@,
                acc@.len() == n,
                forall|i: int|
                    0 <= i < rest@.len() ==> #[trigger] rest@[i] == snap[done@.len() + i],
                forall|i: int|
                    0 <= i < done@.len() ==> {
                        &&& (#[trigger] done@[i]).id == snap[i].id
                        &&& done@[i].channel.volume == snap[i].channel.volume
                        &&& done@[i].channel.last_accepted_sequence
                            == snap[i].channel.last_accepted_sequence
                        &&& done@[i].channel.ring.capacity() == snap[i].channel.ring.capacity()
                        &&& done@[i].channel.ring@ == snap[i].channel.ring@.skip(
                            if n <= snap[i].channel.ring@.len() {
                                n as int
                            } else {
                                snap[i].channel.ring@.len() as int
                            },
                        )
                    },
                forall|j: int|
                    0 <= j < n ==> #[trigger] acc@[j] == slot_sum(
                        rings0.take(done@.len() as int),
                        j,
                    ),
            decreases rest@.len(),
        {
            let ghost k = done@.len() as int;
            let mut entry = rest.remove(0);
            proof {
                assert(entry == snap[k]);
                assert(rings0[k] == entry.channel.ring@);
            }
            let taken = entry.channel.ring.pop_upto(n);
            let mut j: usize = 0;
            while j < taken.len()
                invariant
                    0 <= k < rings0.len() <= 0x1_0000_0000,
                    taken@.len() <= n,
                    taken@.len() <= rings0[k].len(),
                    taken@ == rings0[k].take(taken@.len() as int),
                    acc@.len() == n,
                    j <= taken@.len(),
                    forall|jj: int|
                        0 <= jj < j ==> #[trigger] acc@[jj] == slot_sum(rings0.take(k), jj)
                            + sample_at(rings0[k], jj),
                    forall|jj: int|
                        j <= jj < n ==> #[trigger] acc@[jj] == slot_sum(rings0.take(k), jj),
                decreases taken@.len() - j,
            {
                proof {
                    lemma_slot_sum_bounds(rings0.take(k), j as int);
                    assert(rings0.take(k).len() == k);
                    assert(sample_at(rings0[k], j as int) == taken@[j as int]);
                }
                let v: i64 = acc[j] + (taken[j] as i64);
                acc.set(j, v);
                j = j + 1;
            }
            proof {
                assert forall|jj: int| 0 <= jj < n implies acc@[jj] == slot_sum(
                    rings0.take(k + 1),
                    jj,
                ) by {
                    assert(rings0.take(k + 1).drop_last() =~= rings0.take(k));
                    assert(rings0.take(k + 1).last() == rings0[k]);
                    if jj >= taken@.len() {
                        assert(sample_at(rings0[k], jj) == 0);
                    }
                }
            }
            done.push(entry);
        }
        core::mem::swap(&mut done, &mut self.speakers);
        proof {
            assert(rings0.take(snap.len() as int) =~= rings0);
        }
        let mut out: Vec<i16> = Vec::new();
        let mut j: usize = 0;
        while j < n
            invariant
                out@.len() == j <= n,
                acc@.len() == n,
                forall|jj: int| 0 <= jj < n ==> #[trigger] acc@[jj] == slot_sum(rings0, jj),
                forall|jj: int|
                    0 <= jj < j ==> (#[trigger] out@[jj]) as int == clamp_i16(slot_sum(rings0, jj)),
            decreases n - j,
        {
            let s = clamp_sample(acc[j]);
            out.push(s);
            j = j + 1;
        }
        proof {
            assert forall|x: u64| self.has_speaker(x) <==> old(self).has_speaker(x) by {
                if self.has_speaker(x) {
                    let w = self.index_of(x);
                    assert(old(self).entries()[w].id == x);
                }
                if old(self).has_speaker(x) {
                    let w = old(self).index_of(x);
                    assert(self.entries()[w].id == x);
                }
            }
            assert forall|x: u64| old(self).has_speaker(x) implies self.channel(x).volume == old(
                self,
            ).channel(x).volume && self.channel(x).last_accepted_sequence == old(self).channel(
                x,
            ).last_accepted_sequence && self.channel(x).ring.capacity() == old(self).channel(
                x,
            ).ring.capacity() && self.channel(x).ring@ == old(self).channel(x).ring@.skip(
                if n <= old(self).channel(x).ring@.len() {
                    n as int
                } else {
                    old(self).channel(x).ring@.len() as int
                },
            ) by {
                let w = old(self).index_of(x);
                lemma_lookup(old(self), w, x);
                assert(self.entries()[w].id == x);
                lemma_lookup(self, w, x);
                assert(rings0[w] == snap[w].channel.ring@);
            }
        }
        out
    }

    /// Drain-and-apply for one control directive. A volume change takes
    /// effect on the named speaker's channel; a capture-stop directive is
    /// not for the playback side and changes nothing here.
    pub fn apply_control(&mut self, signal: &ControlSignal) -> (applied: bool)
        requires
            (*signal) is SetVolume ==> old(self).has_speaker(signal->speaker_id),
        ensures
            final(self).channel_capacity() == old(self).channel_capacity(),
            final(self).entries().len() == old(self).entries().len(),
            forall|x: u64| final(self).has_speaker(x) <==> old(self).has_speaker(x),
            (*signal) is SetVolume ==> applied && final(self).channel(signal->speaker_id) == (
            SpeakerChannel {
                volume: signal->volume,
                ..old(self).channel(signal->speaker_id)
            }) && (forall|x: u64|
                x != signal->speaker_id && old(self).has_speaker(x) ==> final(self).channel(x)
                    == old(self).channel(x)),
            (*signal) is StopCapture ==> !applied && final(self).entries() == old(self).entries(),
    {
        match signal {
            ControlSignal::SetVolume { speaker_id, volume } => {
                self.set_volume(*speaker_id, *volume);
                true
            },
            ControlSignal::StopCapture {} => {
                proof {
                    use_type_invariant(&*self);
                }
                false
            },
        }
    }

    /// One speaker's current volume, for callers that must check the
    /// control contract before applying it.
    pub fn volume_of(&self, speaker_id: u64) -> (r: Option<u16>)
        ensures
            self.has_speaker(speaker_id) ==> r == Some(self.channel(speaker_id).volume),
            !self.has_speaker(speaker_id) ==> r is None,
    {
        proof {
            use_type_invariant(&*self);
        }
        let found = find_index(&self.speakers, speaker_id);
        match found {
            None => None,
            Some(i) => {
                proof {
                    lemma_lookup(self, i as int, speaker_id);
                }
                Some(self.speakers[i].channel.volume)
            },
        }
    }

    /// One speaker's last accepted sequence number.
    pub fn last_sequence_of(&self, speaker_id: u64) -> (r: Option<u64>)
        ensures
            self.has_speaker(speaker_id) ==> r == Some(
                self.channel(speaker_id).last_accepted_sequence,
            ),
            !self.has_speaker(speaker_id) ==> r is None,
    {
        proof {
            use_type_invariant(&*self);
        }
        let found = find_index(&self.speakers, speaker_id);
        match found {
            None => None,
            Some(i) => {
                proof {
                    lemma_lookup(self, i as int, speaker_id);
                }
                Some(self.speakers[i].channel.last_accepted_sequence)
            },
        }
    }

    /// How many samples one speaker has queued.
    pub fn queued_of(&self, speaker_id: u64) -> (r: Option<usize>)
        ensures
            self.has_speaker(speaker_id) ==> r == Some(
                self.channel(speaker_id).ring@.len() as usize,
            ),
            !self.has_speaker(speaker_id) ==> r is None,
    {
        proof {
            use_type_invariant(&*self);
        }
        let found = find_index(&self.speakers, speaker_id);
        match found {
            None => None,
            Some(i) => {
                proof {
                    lemma_lookup(self, i as int, speaker_id);
                }
                Some(self.speakers[i].channel.ring.len())
            },
        }
    }
}

/// The registry slot holding `id`, by linear scan.
fn find_index(spk: &Vec<SpeakerEntry>, id: u64) -> (r: Option<usize>)
    ensures
        r matches Some(i) ==> 0 <= i < spk@.len() && spk@[i as int].id == id,
        r is None ==> forall|i: int| 0 <= i < spk@.len() ==> spk@[i].id != id,
{
    let mut i: usize = 0;
    while i < spk.len()
        invariant
            i <= spk@.len(),
            forall|j: int| 0 <= j < i ==> spk@[j].id != id,
        decreases spk@.len() - i,
    {
        if spk[i].id == id {
            return Some(i);
        }
        i = i + 1;
    }
    None
}

/// With unique identities, any slot holding `id` is the slot `index_of`
/// picks, so `channel(id)` is that slot's channel.
proof fn lemma_lookup(o: &VoiceOutput, k: int, id: u64)
    requires
        unique_ids(o.entries()),
        0 <= k < o.entries().len(),
        o.entries()[k].id == id,
    ensures
        o.has_speaker(id),
        o.index_of(id) == k,
        o.channel(id) == o.entries()[k].channel,
{
    assert(o.has_speaker(id));
    let w = o.index_of(id);
    if w != k {
        if w < k {
            assert(o.entries()[w].id != o.entries()[k].id);
        } else {
            assert(o.entries()[k].id != o.entries()[w].id);
        }
    }
}

/// The sum of the contributions of `rings.len()` speakers to one slot lies
/// within `rings.len()` times the sample range.
pub proof fn lemma_slot_sum_bounds(rings: Seq<Seq<i16>>, j: int)
    ensures
        -0x8000 * rings.len() <= slot_sum(rings, j) <= 0x8000 * rings.len(),
    decreases rings.len(),
{
    if rings.len() > 0 {
        lemma_slot_sum_bounds(rings.drop_last(), j);
    }
}

/// Mixing additivity for two active speakers: the mixed output sample is
/// the clamped sum of the two speakers' samples for that slot.
pub proof fn lemma_mix_two_speakers(a: Seq<i16>, b: Seq<i16>, j: int)
    ensures
        mixed_slot(seq![a, b], j) == clamp_i16(sample_at(a, j) + sample_at(b, j)),
{
    let rings = seq![a, b];
    assert(rings.last() == b);
    assert(rings.drop_last() =~= seq![a]);
    assert(seq![a].last() == a);
    assert(seq![a].drop_last() =~= Seq::<Seq<i16>>::empty());
    assert(slot_sum(Seq::<Seq<i16>>::empty(), j) == 0);
    assert(slot_sum(seq![a], j) == sample_at(a, j));
    assert(slot_sum(rings, j) == sample_at(a, j) + sample_at(b, j));
}

/// How many new-speaker reports a run of inbound packets produces, given
/// the set of identities already seen: a packet from a seen identity
/// reports nothing, a packet from an unseen one reports once and marks the
/// identity seen. This is exactly what `accept_packet` ensures of
/// `is_new_speaker` and `has_speaker`, step by step.
pub open spec fn new_speaker_events(known: Set<u64>, arrivals: Seq<u64>) -> nat
    decreases arrivals.len(),
{
    if arrivals.len() == 0 {
        0
    } else {
        (if known.contains(arrivals[0]) {
            0nat
        } else {
            1nat
        }) + new_speaker_events(known.insert(arrivals[0]), arrivals.drop_first())
    }
}

/// Once an identity is seen, further packets from it report nothing.
proof fn lemma_no_event_when_known(known: Set<u64>, arrivals: Seq<u64>, id: u64)
    requires
        known.contains(id),
        forall|i: int| 0 <= i < arrivals.len() ==> arrivals[i] == id,
    ensures
        new_speaker_events(known, arrivals) == 0,
    decreases arrivals.len(),
{
    if arrivals.len() > 0 {
        assert(known.insert(id) =~= known);
        assert forall|i: int|
            0 <= i < arrivals.drop_first().len() implies arrivals.drop_first()[i] == id by {
            assert(arrivals[i + 1] == id);
        }
        lemma_no_event_when_known(known, arrivals.drop_first(), id);
    }
}

/// New-speaker report idempotence: a nonempty run of packets that all come
/// from one previously unseen identity produces exactly one new-speaker
/// report, no matter how many packets follow the first.
pub proof fn lemma_new_speaker_event_once(known: Set<u64>, arrivals: Seq<u64>, id: u64)
    requires
        !known.contains(id),
        arrivals.len() > 0,
        forall|i: int| 0 <= i < arrivals.len() ==> arrivals[i] == id,
    ensures
        new_speaker_events(known, arrivals) == 1,
{
    assert(arrivals[0] == id);
    assert forall|i: int|
        0 <= i < arrivals.drop_first().len() implies arrivals.drop_first()[i] == id by {
        assert(arrivals[i + 1] == id);
    }
    lemma_no_event_when_known(known.insert(id), arrivals.drop_first(), id);
}

} // verus!
