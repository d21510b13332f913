//! Packets that a client sends to the server.

use vstd::prelude::*;

verus! {

/// Why a client refuses what the server sent.
#[derive(Clone, Copy, Debug, PartialEq, Eq, Structural)]
pub enum PacketError {
    /// A handshake was due and something else arrived.
    Handshake,
    /// The server was built from another protocol version.
    Version,
}

impl PacketError {
    pub open spec fn spec_message(self) -> Seq<char> {
        match self {
            PacketError::Handshake => "expected handshake"@,
            PacketError::Version => "client/server version mismatch"@,
        }
    }

    /// The text shown to the player for this error.
    pub fn message(&self) -> (text: &'static str)
        ensures
            text@ == self.spec_message(),
    {
        match self {
            PacketError::Handshake => "expected handshake",
            PacketError::Version => "client/server version mismatch",
        }
    }
}

/// Why a client ends the connection.
#[derive(Clone, Copy, Debug, PartialEq, Eq, Structural)]
pub enum DisconnectReason {
    /// The server broke the protocol.
    Packet(PacketError),
    /// The player left.
    Player,
}

#[derive(Clone, Debug, PartialEq, Eq)]
pub enum Packet {
    /// First packet of a client: the protocol version it speaks and the
    /// name it asks to play under.
    Handshake { version: String, username: String },
    Disconnect { reason: DisconnectReason },
    /// Periodic sign of life, stamped with milliseconds since the Unix epoch.
    KeepAlive { epoch: u64 },
}

/// The mathematical content of a client [`Packet`].
pub enum PacketView {
    Handshake { version: Seq<char>, username: Seq<char> },
    Disconnect { reason: DisconnectReason },
    KeepAlive { epoch: u64 },
}

impl View for Packet {
    type V = PacketView;

    open spec fn view(&self) -> PacketView {
        match self {
            Packet::Handshake { version, username } => PacketView::Handshake {
                version: version@,
                username: username@,
            },
            Packet::Disconnect { reason } => PacketView::Disconnect { reason: *reason },
            Packet::KeepAlive { epoch } => PacketView::KeepAlive { epoch: *epoch },
        }
    }
}

} // verus!
