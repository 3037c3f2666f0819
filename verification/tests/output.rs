//! Receive side: speaker registry, stale-packet policy, volume scaling and
//! clamped additive mixing.

use yawper::mix::{mix_values, scale_sample, VOLUME_UNITY};
use yawper::output::VoiceOutput;

#[test]
fn new_speaker_reported_exactly_once() {
    let mut vo = VoiceOutput::new(64);
    let d1 = vo.accept_packet(5, 0);
    assert!(d1.is_new_speaker);
    assert!(d1.accepted);
    assert_eq!(vo.speaker_count(), 1);
    for seq in 1u64..10 {
        let d = vo.accept_packet(5, seq);
        assert!(!d.is_new_speaker);
        assert!(d.accepted);
    }
    assert_eq!(vo.speaker_count(), 1);
    let d2 = vo.accept_packet(6, 0);
    assert!(d2.is_new_speaker);
    assert_eq!(vo.speaker_count(), 2);
}

#[test]
fn fresh_channel_starts_at_unity_volume() {
    let mut vo = VoiceOutput::new(64);
    vo.accept_packet(9, 0);
    assert_eq!(vo.volume_of(9), Some(VOLUME_UNITY));
    assert_eq!(vo.queued_of(9), Some(0));
    assert_eq!(vo.volume_of(8), None);
}

#[test]
fn stale_packet_changes_nothing() {
    let mut vo = VoiceOutput::new(64);
    vo.accept_packet(5, 7);
    vo.deliver_decoded(5, &[100, 200]);
    assert_eq!(vo.last_sequence_of(5), Some(7));
    assert_eq!(vo.queued_of(5), Some(2));

    let d = vo.accept_packet(5, 3); // strictly below 7: stale
    assert!(!d.accepted);
    assert!(!d.is_new_speaker);
    assert_eq!(vo.last_sequence_of(5), Some(7));
    assert_eq!(vo.queued_of(5), Some(2));
    assert_eq!(vo.speaker_count(), 1);
}

#[test]
fn ahead_of_order_packet_is_accepted() {
    let mut vo = VoiceOutput::new(64);
    vo.accept_packet(5, 7);
    let d = vo.accept_packet(5, 100); // a gap, but newer: accepted
    assert!(d.accepted);
    assert_eq!(vo.last_sequence_of(5), Some(100));
    let d2 = vo.accept_packet(5, 100); // equal sequence: accepted again
    assert!(d2.accepted);
}

#[test]
fn delivered_samples_are_scaled_by_current_volume() {
    let mut vo = VoiceOutput::new(64);
    vo.accept_packet(5, 0);
    vo.deliver_decoded(5, &[100, -100]);
    // volume changes take effect from the next packet, never retroactively
    vo.set_volume(5, 128); // half of unity (256)
    vo.deliver_decoded(5, &[100, -100]);
    let out = vo.mix_frame(4);
    assert_eq!(out, vec![100, -100, 50, -50]);
}

#[test]
fn volume_can_amplify_fourfold_with_clamp() {
    let mut vo = VoiceOutput::new(64);
    vo.accept_packet(5, 0);
    vo.set_volume(5, 1024); // four-fold
    vo.deliver_decoded(5, &[1000, -1000, 20000]);
    let out = vo.mix_frame(3);
    assert_eq!(out, vec![4000, -4000, 32767]);
}

#[test]
fn mixing_sums_then_clamps() {
    let mut vo = VoiceOutput::new(64);
    vo.accept_packet(1, 0);
    vo.accept_packet(2, 0);
    vo.deliver_decoded(1, &[100, 30000, -30000, 5]);
    vo.deliver_decoded(2, &[-40, 10000, -10000, 0]);
    let out = vo.mix_frame(4);
    assert_eq!(out, vec![60, 32767, -32768, 5]);
}

#[test]
fn mixing_half_volume_speaker_against_full_one() {
    let mut vo = VoiceOutput::new(64);
    vo.accept_packet(1, 0);
    vo.accept_packet(2, 0);
    vo.set_volume(1, 128); // speaker A at half gain
    vo.deliver_decoded(1, &[200, 1000]);
    vo.deliver_decoded(2, &[7, -1000]);
    let out = vo.mix_frame(2);
    assert_eq!(out, vec![100 + 7, 500 - 1000]);
}

#[test]
fn dry_rings_mix_as_silence() {
    let mut vo = VoiceOutput::new(64);
    vo.accept_packet(1, 0);
    vo.accept_packet(2, 0);
    vo.deliver_decoded(1, &[11]);
    let out = vo.mix_frame(3); // speaker 2 never delivered; speaker 1 runs dry
    assert_eq!(out, vec![11, 0, 0]);
    let out2 = vo.mix_frame(2); // everything dry now
    assert_eq!(out2, vec![0, 0]);
}

#[test]
fn mixing_consumes_the_contributed_samples() {
    let mut vo = VoiceOutput::new(64);
    vo.accept_packet(1, 0);
    vo.deliver_decoded(1, &[1, 2, 3]);
    assert_eq!(vo.mix_frame(2), vec![1, 2]);
    assert_eq!(vo.queued_of(1), Some(1));
    assert_eq!(vo.mix_frame(2), vec![3, 0]);
    assert_eq!(vo.queued_of(1), Some(0));
}

#[test]
fn delivery_overflow_is_dropped() {
    let mut vo = VoiceOutput::new(3);
    vo.accept_packet(1, 0);
    let pushed = vo.deliver_decoded(1, &[1, 2, 3, 4, 5]);
    assert_eq!(pushed, 3);
    assert_eq!(vo.queued_of(1), Some(3));
    assert_eq!(vo.mix_frame(4), vec![1, 2, 3, 0]);
}

#[test]
fn scale_sample_exact_values() {
    assert_eq!(scale_sample(100, 256), 100); // unity
    assert_eq!(scale_sample(100, 128), 50); // half
    assert_eq!(scale_sample(-100, 128), -50);
    assert_eq!(scale_sample(100, 0), 0); // silence
    assert_eq!(scale_sample(101, 128), 50); // floor of 50.5
    assert_eq!(scale_sample(-101, 128), -51); // floor of -50.5
    assert_eq!(scale_sample(32767, 1024), 32767); // clamped four-fold
    assert_eq!(scale_sample(-32768, 1024), -32768);
    assert_eq!(scale_sample(8191, 1024), 32764); // in-range four-fold
}

#[test]
fn mix_values_sums_and_clamps_once() {
    assert_eq!(mix_values(&[]), 0);
    assert_eq!(mix_values(&[5]), 5);
    assert_eq!(mix_values(&[100, -40]), 60);
    assert_eq!(mix_values(&[30000, 10000]), 32767);
    assert_eq!(mix_values(&[-30000, -10000]), -32768);
    assert_eq!(mix_values(&[30000, 10000, -20000]), 20000);
}
