//! Packets that the server sends to a client.

use crate::world::{Chunk, ChunkView};
use vstd::prelude::*;

verus! {

/// Why the server refuses what a client sent.
#[derive(Clone, Copy, Debug, PartialEq, Eq, Structural)]
pub enum PacketError {
    /// A handshake was due and something else arrived.
    Handshake,
    /// The client was built from another protocol version.
    Version,
    /// The name is empty, too long, or holds a character outside
    /// `A-Z`, `a-z`, `0-9` and `_`.
    Username,
}

impl PacketError {
    pub open spec fn spec_message(self) -> Seq<char> {
        match self {
            PacketError::Handshake => "expected handshake"@,
            PacketError::Version => "client/server version mismatch"@,
            PacketError::Username => "invalid username"@,
        }
    }

    /// The text shown to the player for this error.
    pub fn message(&self) -> (text: &'static str)
        ensures
            text@ == self.spec_message(),
    {
        match self {
            PacketError::Handshake => "expected handshake",
            PacketError::Version => "client/server version mismatch",
            PacketError::Username => "invalid username",
        }
    }
}

/// Why the server ends a connection.
#[derive(Clone, Debug, PartialEq, Eq)]
pub enum KickReason {
    /// The client broke the protocol.
    Packet(PacketError),
    /// An operator removed the player, with a note.
    Operator(String),
}

/// The mathematical content of a [`KickReason`].
pub enum KickReasonView {
    Packet(PacketError),
    Operator(Seq<char>),
}

impl View for KickReason {
    type V = KickReasonView;

    open spec fn view(&self) -> KickReasonView {
        match self {
            KickReason::Packet(error) => KickReasonView::Packet(*error),
            KickReason::Operator(note) => KickReasonView::Operator(note@),
        }
    }
}

#[derive(Clone, Debug, PartialEq, Eq)]
pub enum Packet {
    /// First packet on every connection: the protocol version of the server.
    Handshake { version: String },
    Kick { reason: KickReason },
    /// Moves the player. Each field is the bit pattern of an IEEE 754
    /// single-precision number, as it travels on the wire.
    Teleport { x: u32, y: u32, z: u32, yaw: u32, pitch: u32 },
    Chunk(Box<Chunk>),
}

/// The mathematical content of a server [`Packet`].
pub enum PacketView {
    Handshake { version: Seq<char> },
    Kick { reason: KickReasonView },
    Teleport { x: u32, y: u32, z: u32, yaw: u32, pitch: u32 },
    Chunk(ChunkView),
}

impl View for Packet {
    type V = PacketView;

    open spec fn view(&self) -> PacketView {
        match self {
            Packet::Handshake { version } => PacketView::Handshake { version: version@ },
            Packet::Kick { reason } => PacketView::Kick { reason: reason@ },
            Packet::Teleport { x, y, z, yaw, pitch } => PacketView::Teleport {
                x: *x,
                y: *y,
                z: *z,
                yaw: *yaw,
                pitch: *pitch,
            },
            Packet::Chunk(chunk) => PacketView::Chunk(chunk@),
        }
    }
}

} // verus!
