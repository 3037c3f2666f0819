//! End-to-end loopback through the library: capture-side frame assembly
//! and stamping, the wire codec, and the receive-side registry, scaling
//! and mixing. The opus codec sits between these stages in a live client;
//! here the "encoded" payload carries bytes straight through, and the
//! assembled frame itself plays the role of the decoder's output.

use yawper::capture::VoiceInput;
use yawper::config::FrameGeometry;
use yawper::messages::{ControlSignal, RoomMessage};
use yawper::output::VoiceOutput;
use yawper::wire::{decode_room_message, encode_room_message};

#[test]
fn loopback_one_frame() {
    let geometry = FrameGeometry::new(1000, 1, 4).unwrap(); // 4 samples per frame
    let mut vi = VoiceInput::new(geometry, 7);
    let mut vo = VoiceOutput::new(geometry.ring_capacity());

    vi.push_captured(&[10, -20, 30, -40, 99]);
    let frame = vi.try_assemble_frame().unwrap();
    assert_eq!(frame, vec![10, -20, 30, -40]);

    // a live client would hand `frame` to the opus encoder here
    let body: Vec<u8> = vec![0xDE, 0xAD];
    let packet = vi.stamp_packet(body.clone());
    let datagram = encode_room_message(&packet);

    let received = decode_room_message(&datagram).unwrap();
    let RoomMessage::VoicePacket { body: got_body, order_id, user_id } = received else {
        panic!("the datagram must decode as a voice packet");
    };
    assert_eq!(got_body, body);
    assert_eq!(order_id, 0);
    assert_eq!(user_id, 7);

    let decision = vo.accept_packet(user_id, order_id);
    assert!(decision.is_new_speaker);
    assert!(decision.accepted);

    // a live client would hand `got_body` to the opus decoder here
    let pushed = vo.deliver_decoded(user_id, &frame);
    assert_eq!(pushed, 4);
    assert_eq!(vo.mix_frame(4), vec![10, -20, 30, -40]);
}

#[test]
fn loopback_second_frame_respects_sequence() {
    let geometry = FrameGeometry::new(1000, 1, 2).unwrap();
    let mut vi = VoiceInput::new(geometry, 3);
    let first = vi.stamp_packet(vec![1]);
    let second = vi.stamp_packet(vec![2]);
    let mut vo = VoiceOutput::new(16);

    // packets may arrive reordered: the newer one first
    let RoomMessage::VoicePacket { order_id: seq2, user_id, .. } = second else {
        panic!("expected a voice packet");
    };
    let RoomMessage::VoicePacket { order_id: seq1, .. } = first else {
        panic!("expected a voice packet");
    };
    assert_eq!((seq1, seq2), (0, 1));

    assert!(vo.accept_packet(user_id, seq2).accepted);
    let late = vo.accept_packet(user_id, seq1); // now stale: arrived behind
    assert!(!late.accepted);
    assert!(!late.is_new_speaker);
}

#[test]
fn control_signal_sets_volume_and_ignores_capture_stop() {
    let mut vo = VoiceOutput::new(16);
    vo.accept_packet(1, 0);

    let applied = vo.apply_control(&ControlSignal::SetVolume { speaker_id: 1, volume: 512 });
    assert!(applied);
    assert_eq!(vo.volume_of(1), Some(512));

    let ignored = vo.apply_control(&ControlSignal::StopCapture {});
    assert!(!ignored);
    assert_eq!(vo.volume_of(1), Some(512));
}

#[test]
fn sequence_wraps_at_the_64_bit_boundary() {
    let geometry = <FrameGeometry as Default>::default();
    let mut vi = VoiceInput::new(geometry, 1);
    vi.next_sequence = u64::MAX;
    let p = vi.stamp_packet(vec![]);
    let RoomMessage::VoicePacket { order_id, .. } = p else {
        panic!("expected a voice packet");
    };
    assert_eq!(order_id, u64::MAX);
    assert_eq!(vi.next_sequence, 0);
}
