//! The server's side of one connection.
//!
//! [`Client`] holds what the server knows of one connected client and
//! decides what to do with each packet that arrives from it. Whoever owns
//! the socket sends what these functions hand out and feeds them what it
//! reads. The server speaks first: the client's first packet is judged only
//! after the greeting was handed out for sending.

use crate::handshake::{admission, is_client_handshake, judge_client_hello, HandshakeState};
use crate::protocol::{server, Packet, PacketValidator, PacketView};
use std::sync::Arc;
use vstd::prelude::*;

verus! {

/// One connected client, as the server sees it.
pub struct Client {
    validator: Arc<PacketValidator>,
    state: HandshakeState,
    greeted: bool,
}

/// The mathematical content of a [`Client`].
pub struct ClientView {
    /// The protocol version that the server speaks.
    pub version: Seq<char>,
    pub state: HandshakeState,
    /// Whether the server's greeting was handed out for sending.
    pub greeted: bool,
}

impl View for Client {
    type V = ClientView;

    closed spec fn view(&self) -> ClientView {
        ClientView {
            version: self.validator.version(),
            state: self.state,
            greeted: self.greeted,
        }
    }
}

impl Client {
    /// Validation begins and ends within one call: between calls no client
    /// is found in the middle of it.
    #[verifier::type_invariant]
    spec fn settled(self) -> bool {
        self.state != HandshakeState::Validating
    }

    /// A client that has just connected and was not greeted yet.
    /// `validator` is shared by all connections of the server.
    pub fn new(validator: Arc<PacketValidator>) -> (client: Self)
        ensures
            client@ == (ClientView {
                version: validator.version(),
                state: HandshakeState::AwaitingPeerHandshake,
                greeted: false,
            }),
    {
        Self { validator, state: HandshakeState::AwaitingPeerHandshake, greeted: false }
    }

    /// Where the handshake with this client stands.
    pub fn state(&self) -> (state: HandshakeState)
        ensures
            state == self@.state,
            state != HandshakeState::Validating,
    {
        proof {
            use_type_invariant(self);
        }
        self.state
    }

    /// Whether the greeting was handed out for sending.
    pub fn greeted(&self) -> (greeted: bool)
        ensures
            greeted == self@.greeted,
    {
        self.greeted
    }

    /// The handshake that the server opens the connection with. It is to be
    /// sent before anything is read from the client, and the client counts
    /// as greeted from here on.
    pub fn hello(&mut self) -> (packet: server::Packet)
        ensures
            packet@ == (server::PacketView::Handshake { version: old(self)@.version }),
            final(self)@ == (ClientView { greeted: true, ..old(self)@ }),
    {
        proof {
            use_type_invariant(&*self);
        }
        self.greeted = true;
        server::Packet::Handshake { version: self.validator.version_string() }
    }

    /// Takes the first packet of the client and settles the handshake. The
    /// server must have greeted the client before: `hello` comes first.
    ///
    /// While the client's handshake is awaited, `first` is judged: a good
    /// handshake admits the client and nothing is to be sent; anything else
    /// rejects it, and the kick to send before closing is returned. Once the
    /// handshake is settled, nothing changes and nothing is to be sent.
    pub fn shake(&mut self, first: &Packet) -> (kick: Option<server::Packet>)
        requires
            old(self)@.greeted,
        ensures
            final(self)@.version == old(self)@.version,
            final(self)@.greeted,
            old(self)@.state != HandshakeState::AwaitingPeerHandshake ==> kick is None
                && final(self)@ == old(self)@,
            old(self)@.state == HandshakeState::AwaitingPeerHandshake ==> match admission(
                old(self)@.version,
                first@,
            ) {
                Ok(()) => kick is None && final(self)@.state == HandshakeState::Accepted,
                Err(error) => {
                    &&& final(self)@.state == HandshakeState::Rejected
                    &&& kick matches Some(packet)
                    &&& packet@ == (server::PacketView::Kick {
                        reason: server::KickReasonView::Packet(error),
                    })
                },
            },
            final(self)@.state == old(self)@.state.after_first_packet(
                is_client_handshake(first@),
            ).after_validation(admission(old(self)@.version, first@) is Ok),
    {
        proof {
            use_type_invariant(&*self);
        }
        match self.state {
            HandshakeState::AwaitingPeerHandshake => {},
            _ => {
                return None;
            },
        }
        match judge_client_hello(&self.validator, first) {
            Ok(()) => {
                self.state = HandshakeState::Accepted;
                None
            },
            Err(error) => Some(self.kick(server::KickReason::Packet(error))),
        }
    }

    /// Ends the connection: the client counts as rejected from now on, and
    /// the packet that tells it why is returned for sending.
    pub fn kick(&mut self, reason: server::KickReason) -> (packet: server::Packet)
        ensures
            packet@ == (server::PacketView::Kick { reason: reason@ }),
            final(self)@ == (ClientView { state: HandshakeState::Rejected, ..old(self)@ }),
    {
        self.state = HandshakeState::Rejected;
        server::Packet::Kick { reason }
    }

    /// Hands a packet that arrived on to the game, if the client has been
    /// admitted; packets of a client that has not are dropped.
    pub fn forward(&self, packet: Packet) -> (passed: Option<Packet>)
        ensures
            passed == if self@.state == HandshakeState::Accepted {
                Some(packet)
            } else {
                None
            },
    {
        match self.state {
            HandshakeState::Accepted => Some(packet),
            _ => None,
        }
    }
}

} // verus!
