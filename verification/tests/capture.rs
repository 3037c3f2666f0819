//! Capture side: frame assembly and sequence stamping.

use yawper::capture::VoiceInput;
use yawper::config::FrameGeometry;
use yawper::messages::RoomMessage;

fn default_geometry() -> FrameGeometry {
    <FrameGeometry as Default>::default()
}

#[test]
fn geometry_defaults_to_48k_stereo_20ms() {
    let g = default_geometry();
    assert_eq!(g.sample_rate, 48000);
    assert_eq!(g.channels, 2);
    assert_eq!(g.frame_ms, 20);
    assert_eq!(g.samples_per_frame(), 1920);
    assert_eq!(g.ring_capacity(), 96000);
}

#[test]
fn geometry_is_configurable_within_bounds() {
    let g = FrameGeometry::new(16000, 1, 10).unwrap();
    assert_eq!(g.samples_per_frame(), 160);
    assert!(FrameGeometry::new(0, 2, 20).is_none());
    assert!(FrameGeometry::new(48000, 0, 20).is_none());
    assert!(FrameGeometry::new(48000, 2, 0).is_none());
    assert!(FrameGeometry::new(500000, 2, 20).is_none());
}

#[test]
fn frame_assembly_needs_exactly_one_frame() {
    let g = FrameGeometry::new(1000, 1, 4).unwrap(); // 4 samples per frame
    let mut vi = VoiceInput::new(g, 77);
    vi.push_captured(&[1, 2, 3]);
    assert!(vi.try_assemble_frame().is_none());
    vi.push_captured(&[4, 5]);
    let frame = vi.try_assemble_frame().unwrap();
    assert_eq!(frame, vec![1i16, 2, 3, 4]);
    // the remainder stays queued for the next frame
    assert!(vi.try_assemble_frame().is_none());
    vi.push_captured(&[6, 7, 8]);
    let frame2 = vi.try_assemble_frame().unwrap();
    assert_eq!(frame2, vec![5i16, 6, 7, 8]);
}

#[test]
fn capture_callback_drops_overflow_without_blocking() {
    let g = FrameGeometry::new(1000, 1, 2).unwrap(); // tiny ring: 1000 samples
    let mut vi = VoiceInput::new(g, 1);
    let big = vec![3i16; 1500];
    let taken = vi.push_captured(&big);
    assert_eq!(taken, 1000);
    let taken2 = vi.push_captured(&[9]);
    assert_eq!(taken2, 0);
}

#[test]
fn stamped_sequences_count_up_from_zero() {
    let g = default_geometry();
    let mut vi = VoiceInput::new(g, 42);
    for expected in 0u64..5 {
        let p = vi.stamp_packet(vec![1, 2, 3]);
        match p {
            RoomMessage::VoicePacket { body, order_id, user_id } => {
                assert_eq!(body, vec![1, 2, 3]);
                assert_eq!(order_id, expected);
                assert_eq!(user_id, 42);
            },
            _ => panic!("stamp_packet must produce a voice packet"),
        }
    }
}
