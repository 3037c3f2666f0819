//! Message types shared with the room server and the control plane.
//!
//! `RoomMessage` travels between client and server once a room is joined;
//! its `VoicePacket` variant is the one carried by unreliable datagrams and
//! is the wire entity of the voice pipeline. `LobbyMessage` is the room
//! listing / joining protocol. `ControlSignal` is the small closed set of
//! directives a running voice pipeline accepts from its owner.

use vstd::prelude::*;

verus! {

/// Lobby (room listing and membership) protocol messages.
#[derive(Debug, PartialEq, Eq)]
pub enum LobbyMessage {
    Empty {},
    CreateRoom { room_name: String, password: String },
    ListRooms {},
    ListRoomsResult { rooms: Vec<String> },
    JoinRoom { room_name: String, password: String },
    ExitRoom {},
}

/// In-room protocol messages. `VoicePacket` carries one encoded audio frame:
/// `body` is the opaque compressed payload, `order_id` the sender's strictly
/// increasing sequence number, and `user_id` the stable speaker identity.
#[derive(Debug, PartialEq, Eq)]
pub enum RoomMessage {
    Empty {},
    Connected {},
    NotConnected {},
    AcceptUser {},
    RemoveUser {},
    RoomEntered {},
    TxtMessage { body: String, user_id: u64 },
    VoicePacket { body: Vec<u8>, order_id: u64, user_id: u64 },
}

/// Spec-level shape of a `RoomMessage`, with mathematical sequences in place
/// of the executable containers.
pub enum RoomMessageView {
    Empty,
    Connected,
    NotConnected,
    AcceptUser,
    RemoveUser,
    RoomEntered,
    TxtMessage { body: Seq<char>, user_id: u64 },
    VoicePacket { body: Seq<u8>, order_id: u64, user_id: u64 },
}

impl View for RoomMessage {
    type V = RoomMessageView;

    open spec fn view(&self) -> RoomMessageView {
        match self {
            RoomMessage::Empty {} => RoomMessageView::Empty,
            RoomMessage::Connected {} => RoomMessageView::Connected,
            RoomMessage::NotConnected {} => RoomMessageView::NotConnected,
            RoomMessage::AcceptUser {} => RoomMessageView::AcceptUser,
            RoomMessage::RemoveUser {} => RoomMessageView::RemoveUser,
            RoomMessage::RoomEntered {} => RoomMessageView::RoomEntered,
            RoomMessage::TxtMessage { body, user_id } => RoomMessageView::TxtMessage {
                body: body@,
                user_id: *user_id,
            },
            RoomMessage::VoicePacket { body, order_id, user_id } => RoomMessageView::VoicePacket {
                body: body@,
                order_id: *order_id,
                user_id: *user_id,
            },
        }
    }
}

/// Directives delivered asynchronously into a running voice pipeline.
/// `StopCapture` asks the capture loop to end at the next frame boundary;
/// `SetVolume` changes one speaker's playback gain (fixed point, 256 is
/// unity, 1024 is the four-fold maximum the interface offers).
#[derive(Debug, Clone, Copy, PartialEq, Eq)]
pub enum ControlSignal {
    StopCapture {},
    SetVolume { speaker_id: u64, volume: u16 },
}

} // verus!
