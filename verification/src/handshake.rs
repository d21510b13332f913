//! The handshake that opens every connection.
//!
//! The server greets with the protocol version it speaks. The client checks
//! it, and answers with its own version and the name it asks to play under,
//! or says why it leaves. The server checks that answer and either admits
//! the client without a word or kicks it with the reason. Each end starts
//! out awaiting the other's handshake, validates what arrives first, and
//! ends up accepted or rejected; a first packet that is no handshake is
//! rejected as such.

use crate::protocol::{
    client, client_verdict, server, server_verdict, Packet, PacketValidator, PacketView,
};
use vstd::prelude::*;

verus! {

/// Where one end of a connection stands in the handshake.
#[derive(Clone, Copy, Debug, PartialEq, Eq, Structural)]
pub enum HandshakeState {
    /// Nothing has arrived from the other end yet.
    AwaitingPeerHandshake,
    /// The other end's handshake has arrived and is being checked.
    Validating,
    /// The handshake was found good. Only now are other packets processed.
    Accepted,
    /// The handshake was refused. Nothing leads out of this state.
    Rejected,
}

impl HandshakeState {
    /// The state after the first packet arrived, given whether it is the
    /// other end's handshake.
    pub open spec fn after_first_packet(self, is_handshake: bool) -> HandshakeState {
        match self {
            HandshakeState::AwaitingPeerHandshake => if is_handshake {
                HandshakeState::Validating
            } else {
                HandshakeState::Rejected
            },
            other => other,
        }
    }

    /// The state after validation ended, given whether it found the
    /// handshake good.
    pub open spec fn after_validation(self, good: bool) -> HandshakeState {
        match self {
            HandshakeState::Validating => if good {
                HandshakeState::Accepted
            } else {
                HandshakeState::Rejected
            },
            other => other,
        }
    }
}

/// Whether `packet` is the handshake of a client.
pub open spec fn is_client_handshake(packet: PacketView) -> bool {
    packet matches PacketView::Client(client::PacketView::Handshake { .. })
}

/// Whether `packet` is the handshake of the server.
pub open spec fn is_server_handshake(packet: PacketView) -> bool {
    packet matches PacketView::Server(server::PacketView::Handshake { .. })
}

/// How a server that speaks `version` judges the first packet of a client:
/// a handshake by its version and username, anything else as out of order.
pub open spec fn admission(version: Seq<char>, first: PacketView) -> Result<
    (),
    server::PacketError,
> {
    match first {
        PacketView::Client(packet) => if is_client_handshake(first) {
            client_verdict(version, packet)
        } else {
            Err(server::PacketError::Handshake)
        },
        PacketView::Server(_) => Err(server::PacketError::Handshake),
    }
}

/// How a client that speaks `version` judges the first packet of the server:
/// a handshake by its version, anything else as out of order.
pub open spec fn greeting(version: Seq<char>, first: PacketView) -> Result<
    (),
    client::PacketError,
> {
    match first {
        PacketView::Server(packet) => if is_server_handshake(first) {
            server_verdict(version, packet)
        } else {
            Err(client::PacketError::Handshake)
        },
        PacketView::Client(_) => Err(client::PacketError::Handshake),
    }
}

/// Judges the first packet that a client sent.
pub fn judge_client_hello(validator: &PacketValidator, first: &Packet) -> (verdict: Result<
    (),
    server::PacketError,
>)
    ensures
        verdict == admission(validator.version(), first@),
{
    match first {
        Packet::Client(packet) => match packet {
            client::Packet::Handshake { .. } => validator.check_client(packet),
            _ => Err(server::PacketError::Handshake),
        },
        Packet::Server(_) => Err(server::PacketError::Handshake),
    }
}

/// Judges the first packet that the server sent.
pub fn judge_server_hello(validator: &PacketValidator, first: &Packet) -> (verdict: Result<
    (),
    client::PacketError,
>)
    ensures
        verdict == greeting(validator.version(), first@),
{
    match first {
        Packet::Server(packet) => match packet {
            server::Packet::Handshake { .. } => validator.check_server(packet),
            _ => Err(client::PacketError::Handshake),
        },
        Packet::Client(_) => Err(client::PacketError::Handshake),
    }
}

/// Whatever arrives first and is not the other end's handshake is refused
/// as out of order, on either side and whatever version is spoken.
pub proof fn first_packet_must_be_a_handshake(version: Seq<char>, first: PacketView)
    ensures
        !is_server_handshake(first) ==> greeting(version, first) == Err::<
            (),
            client::PacketError,
        >(client::PacketError::Handshake),
        !is_client_handshake(first) ==> admission(version, first) == Err::<
            (),
            server::PacketError,
        >(server::PacketError::Handshake),
{
}

/// A handshake ends in acceptance exactly when the first packet is the
/// other end's handshake and validation finds it good, and in rejection
/// otherwise; where it ends, it stays.
pub proof fn handshake_ends_accepted_or_rejected(is_handshake: bool, good: bool)
    ensures
        ({
            let end = HandshakeState::AwaitingPeerHandshake.after_first_packet(
                is_handshake,
            ).after_validation(good);
            &&& end == if is_handshake && good {
                HandshakeState::Accepted
            } else {
                HandshakeState::Rejected
            }
            &&& forall|again: bool, verdict: bool|
                end.after_first_packet(again).after_validation(verdict) == end
        }),
{
}

} // verus!
