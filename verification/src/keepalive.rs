//! The keepalive handler: every liveness probe is answered at once, whatever
//! the phase of the handshake.

use crate::codec::{optional_text, Packet, PacketView};
use vstd::prelude::*;

verus! {

/// The text of the frame that answers a probe: code 3, no remainder.
pub open spec fn pong_text() -> Seq<char> {
    seq!['3']
}

/// The frame that a packet is owed by the keepalive rule: a pong for a
/// ping, nothing for any other packet.
pub open spec fn keepalive_answer(packet: PacketView) -> Option<Seq<char>> {
    match packet {
        PacketView::Ping => Some(pong_text()),
        _ => None,
    }
}

/// The pong frame.
pub fn pong_frame() -> (frame: String)
    ensures
        frame@ == pong_text(),
{
    proof {
        reveal_strlit("3");
    }
    "3".to_owned()
}

/// The frame to send in answer to `packet`, if it is a probe.
pub fn answer(packet: &Packet) -> (frame: Option<String>)
    ensures
        optional_text(frame) == keepalive_answer(packet@),
{
    match packet {
        Packet::Ping => Some(pong_frame()),
        _ => None,
    }
}

} // verus!
