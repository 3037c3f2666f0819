//! Binary wire format of room messages.
//!
//! A message is a 32-bit little-endian variant tag followed by the variant's
//! fields: unsigned 64-bit fields are 8 little-endian bytes, a byte blob is
//! an unsigned 64-bit length prefix followed by the raw bytes. A voice
//! packet therefore travels as `tag, body length, body, order_id, user_id`
//! in one unreliable datagram. The encoding is symmetric: what one peer
//! serializes, any peer (including this client itself) deserializes.
//!
//! Text messages travel on control streams, not on the datagram path, so
//! the datagram codec below does not handle them.

use vstd::prelude::*;

use vstd::bytes::{
    lemma_auto_spec_u32_to_from_le_bytes, lemma_auto_spec_u64_to_from_le_bytes,
    spec_u32_from_le_bytes, spec_u32_to_le_bytes, spec_u64_from_le_bytes, spec_u64_to_le_bytes,
    u32_from_le_bytes, u32_to_le_bytes, u64_from_le_bytes, u64_to_le_bytes,
};
use vstd::slice::{slice_subrange, slice_to_vec};

use crate::messages::{RoomMessage, RoomMessageView};

verus! {

pub const TAG_EMPTY: u32 = 0;

pub const TAG_CONNECTED: u32 = 1;

pub const TAG_NOT_CONNECTED: u32 = 2;

pub const TAG_ACCEPT_USER: u32 = 3;

pub const TAG_REMOVE_USER: u32 = 4;

pub const TAG_ROOM_ENTERED: u32 = 5;

pub const TAG_TXT_MESSAGE: u32 = 6;

pub const TAG_VOICE_PACKET: u32 = 7;

/// The bytes that encode a room message (except a text message, which the
/// datagram path never carries).
pub open spec fn spec_encode_room_message(m: RoomMessageView) -> Seq<u8>
    recommends
        !(m is TxtMessage),
{
    match m {
        RoomMessageView::Empty => spec_u32_to_le_bytes(TAG_EMPTY),
        RoomMessageView::Connected => spec_u32_to_le_bytes(TAG_CONNECTED),
        RoomMessageView::NotConnected => spec_u32_to_le_bytes(TAG_NOT_CONNECTED),
        RoomMessageView::AcceptUser => spec_u32_to_le_bytes(TAG_ACCEPT_USER),
        RoomMessageView::RemoveUser => spec_u32_to_le_bytes(TAG_REMOVE_USER),
        RoomMessageView::RoomEntered => spec_u32_to_le_bytes(TAG_ROOM_ENTERED),
        RoomMessageView::TxtMessage { .. } => Seq::empty(),
        RoomMessageView::VoicePacket { body, order_id, user_id } => spec_u32_to_le_bytes(
            TAG_VOICE_PACKET,
        ) + spec_u64_to_le_bytes(body.len() as u64) + body + spec_u64_to_le_bytes(order_id)
            + spec_u64_to_le_bytes(user_id),
    }
}

/// The message encoded by `b`, or `None` when `b` is not a well-formed
/// encoding of a variant the datagram path handles.
pub open spec fn spec_decode_room_message(b: Seq<u8>) -> Option<RoomMessageView> {
    if b.len() < 4 {
        None
    } else {
        let tag = spec_u32_from_le_bytes(b.subrange(0, 4));
        if tag == TAG_EMPTY && b.len() == 4 {
            Some(RoomMessageView::Empty)
        } else if tag == TAG_CONNECTED && b.len() == 4 {
            Some(RoomMessageView::Connected)
        } else if tag == TAG_NOT_CONNECTED && b.len() == 4 {
            Some(RoomMessageView::NotConnected)
        } else if tag == TAG_ACCEPT_USER && b.len() == 4 {
            Some(RoomMessageView::AcceptUser)
        } else if tag == TAG_REMOVE_USER && b.len() == 4 {
            Some(RoomMessageView::RemoveUser)
        } else if tag == TAG_ROOM_ENTERED && b.len() == 4 {
            Some(RoomMessageView::RoomEntered)
        } else if tag == TAG_VOICE_PACKET && b.len() >= 28 {
            let blen = spec_u64_from_le_bytes(b.subrange(4, 12)) as int;
            if b.len() == 28 + blen {
                Some(RoomMessageView::VoicePacket {
                    body: b.subrange(12, 12 + blen),
                    order_id: spec_u64_from_le_bytes(b.subrange(12 + blen, 20 + blen)),
                    user_id: spec_u64_from_le_bytes(b.subrange(20 + blen, 28 + blen)),
                })
            } else {
                None
            }
        } else {
            None
        }
    }
}

/// Whether `encode_room_message` accepts the message: everything except a
/// text message, which the datagram path never carries.
pub fn is_datagram_encodable(m: &RoomMessage) -> (b: bool)
    ensures
        b == !(m@ is TxtMessage),
{
    !(matches!(m, RoomMessage::TxtMessage { .. }))
}

/// Serialize a room message for one datagram.
pub fn encode_room_message(m: &RoomMessage) -> (r: Vec<u8>)
    requires
        !(m@ is TxtMessage),
    ensures
        r@ == spec_encode_room_message(m@),
{
    match m {
        RoomMessage::Empty {} => u32_to_le_bytes(TAG_EMPTY),
        RoomMessage::Connected {} => u32_to_le_bytes(TAG_CONNECTED),
        RoomMessage::NotConnected {} => u32_to_le_bytes(TAG_NOT_CONNECTED),
        RoomMessage::AcceptUser {} => u32_to_le_bytes(TAG_ACCEPT_USER),
        RoomMessage::RemoveUser {} => u32_to_le_bytes(TAG_REMOVE_USER),
        RoomMessage::RoomEntered {} => u32_to_le_bytes(TAG_ROOM_ENTERED),
        RoomMessage::TxtMessage { .. } => vstd::pervasive::unreached(),
        RoomMessage::VoicePacket { body, order_id, user_id } => {
            let mut out = u32_to_le_bytes(TAG_VOICE_PACKET);
            let mut piece = u64_to_le_bytes(body.len() as u64);
            out.append(&mut piece);
            let mut body_bytes = slice_to_vec(body.as_slice());
            out.append(&mut body_bytes);
            let mut piece = u64_to_le_bytes(*order_id);
            out.append(&mut piece);
            let mut piece = u64_to_le_bytes(*user_id);
            out.append(&mut piece);
            proof {
                assert(out@ =~= spec_encode_room_message(m@));
            }
            out
        },
    }
}

/// Deserialize one datagram. Returns `None` exactly when the bytes are not
/// a well-formed encoding of a variant the datagram path handles.
pub fn decode_room_message(b: &[u8]) -> (r: Option<RoomMessage>)
    ensures
        r matches Some(m) ==> spec_decode_room_message(b@) == Some(m@),
        r is None ==> spec_decode_room_message(b@) is None,
{
    if b.len() < 4 {
        return None;
    }
    let tag = u32_from_le_bytes(slice_subrange(b, 0, 4));
    if tag == TAG_EMPTY && b.len() == 4 {
        Some(RoomMessage::Empty {})
    } else if tag == TAG_CONNECTED && b.len() == 4 {
        Some(RoomMessage::Connected {})
    } else if tag == TAG_NOT_CONNECTED && b.len() == 4 {
        Some(RoomMessage::NotConnected {})
    } else if tag == TAG_ACCEPT_USER && b.len() == 4 {
        Some(RoomMessage::AcceptUser {})
    } else if tag == TAG_REMOVE_USER && b.len() == 4 {
        Some(RoomMessage::RemoveUser {})
    } else if tag == TAG_ROOM_ENTERED && b.len() == 4 {
        Some(RoomMessage::RoomEntered {})
    } else if tag == TAG_VOICE_PACKET && b.len() >= 28 {
        let blen_field = u64_from_le_bytes(slice_subrange(b, 4, 12));
        let avail: u64 = (b.len() - 28) as u64;
        if blen_field != avail {
            return None;
        }
        let blen: usize = b.len() - 28;
        let body = slice_to_vec(slice_subrange(b, 12, 12 + blen));
        let order_id = u64_from_le_bytes(slice_subrange(b, 12 + blen, 20 + blen));
        let user_id = u64_from_le_bytes(slice_subrange(b, 20 + blen, 28 + blen));
        Some(RoomMessage::VoicePacket { body, order_id, user_id })
    } else {
        None
    }
}

/// Round trip: deserializing a serialized message reproduces it, field for
/// field — same body bytes, same sequence number, same speaker identity.
pub proof fn lemma_room_message_round_trip(m: RoomMessageView)
    requires
        !(m is TxtMessage),
        m matches RoomMessageView::VoicePacket { body, .. } ==> body.len() <= u64::MAX,
    ensures
        spec_decode_room_message(spec_encode_room_message(m)) == Some(m),
{
    lemma_auto_spec_u32_to_from_le_bytes();
    lemma_auto_spec_u64_to_from_le_bytes();
    let e = spec_encode_room_message(m);
    match m {
        RoomMessageView::Empty => {
            assert(e.subrange(0, 4) =~= spec_u32_to_le_bytes(TAG_EMPTY));
        },
        RoomMessageView::Connected => {
            assert(e.subrange(0, 4) =~= spec_u32_to_le_bytes(TAG_CONNECTED));
        },
        RoomMessageView::NotConnected => {
            assert(e.subrange(0, 4) =~= spec_u32_to_le_bytes(TAG_NOT_CONNECTED));
        },
        RoomMessageView::AcceptUser => {
            assert(e.subrange(0, 4) =~= spec_u32_to_le_bytes(TAG_ACCEPT_USER));
        },
        RoomMessageView::RemoveUser => {
            assert(e.subrange(0, 4) =~= spec_u32_to_le_bytes(TAG_REMOVE_USER));
        },
        RoomMessageView::RoomEntered => {
            assert(e.subrange(0, 4) =~= spec_u32_to_le_bytes(TAG_ROOM_ENTERED));
        },
        RoomMessageView::TxtMessage { .. } => {
            assert(false);
        },
        RoomMessageView::VoicePacket { body, order_id, user_id } => {
            let n = body.len() as int;
            assert(e.len() == 28 + n);
            assert(e.subrange(0, 4) =~= spec_u32_to_le_bytes(TAG_VOICE_PACKET));
            assert(e.subrange(4, 12) =~= spec_u64_to_le_bytes(body.len() as u64));
            assert(spec_u64_from_le_bytes(e.subrange(4, 12)) == body.len());
            assert(e.subrange(12, 12 + n) =~= body);
            assert(e.subrange(12 + n, 20 + n) =~= spec_u64_to_le_bytes(order_id));
            assert(e.subrange(20 + n, 28 + n) =~= spec_u64_to_le_bytes(user_id));
        },
    }
}

/// The encoding is canonical: any datagram the decoder accepts is exactly
/// the encoding of the message it returns, byte for byte.
pub proof fn lemma_room_message_decode_canonical(b: Seq<u8>, m: RoomMessageView)
    requires
        spec_decode_room_message(b) == Some(m),
    ensures
        spec_encode_room_message(m) == b,
{
    lemma_auto_spec_u32_to_from_le_bytes();
    lemma_auto_spec_u64_to_from_le_bytes();
    let tag = spec_u32_from_le_bytes(b.subrange(0, 4));
    if b.len() == 4 {
        assert(spec_u32_to_le_bytes(tag) =~= b);
    } else {
        let blen = spec_u64_from_le_bytes(b.subrange(4, 12)) as int;
        let body = b.subrange(12, 12 + blen);
        assert(body.len() == blen);
        assert(spec_u64_to_le_bytes(body.len() as u64) == b.subrange(4, 12));
        assert(spec_u64_to_le_bytes(spec_u64_from_le_bytes(b.subrange(12 + blen, 20 + blen)))
            == b.subrange(12 + blen, 20 + blen));
        assert(spec_u64_to_le_bytes(spec_u64_from_le_bytes(b.subrange(20 + blen, 28 + blen)))
            == b.subrange(20 + blen, 28 + blen));
        assert(spec_encode_room_message(m) =~= b);
    }
}

} // verus!
