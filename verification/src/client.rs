//! The client's side of the connection.
//!
//! A [`Connection`] is the state that a client's caller shares with the one
//! background task that owns the socket: a queue of packets waiting to be
//! sent, a queue of packets that arrived, and a signal that the caller
//! raises to pull the task out of a read. The task reads until the signal is
//! raised, then writes out everything queued, lowers the signal and reads
//! again. The functions here are the steps of both parties; whoever runs
//! them holds the connection locked for the length of one call.

use crate::handshake::{greeting, judge_server_hello, HandshakeState};
use crate::protocol::{client, Packet, PacketValidator, PacketView};
use std::collections::VecDeque;
use vstd::prelude::*;

verus! {

/// Whether the background task of a connection is at work.
#[derive(Clone, Copy, Debug, PartialEq, Eq, Structural)]
pub enum TaskState {
    /// No task was ever started.
    Idle,
    /// A task is reading and writing.
    Running,
    /// The last task was stopped, or gave up on an error.
    Finished,
}

/// What the background task does next.
#[derive(Clone, Copy, Debug, PartialEq, Eq, Structural)]
pub enum Step {
    /// Wait for a frame from the socket, or for the signal.
    Read,
    /// Write out the queued packets and lower the signal.
    Flush,
}

/// The state of a client's connection.
pub struct Connection {
    validator: PacketValidator,
    handshake: HandshakeState,
    outbound: Vec<Packet>,
    inbound: VecDeque<Packet>,
    cancelled: bool,
    task: TaskState,
}

/// The mathematical content of a [`Connection`].
pub struct ConnectionView {
    /// The protocol version that the client speaks.
    pub version: Seq<char>,
    pub handshake: HandshakeState,
    /// Packets waiting to be sent, oldest first.
    pub outbound: Seq<PacketView>,
    /// Packets that arrived and were not taken yet, oldest first.
    pub inbound: Seq<PacketView>,
    /// Whether the signal is raised.
    pub cancelled: bool,
    pub task: TaskState,
}

/// The contents of a queue of packets.
pub open spec fn packet_views(packets: Seq<Packet>) -> Seq<PacketView> {
    packets.map_values(|packet: Packet| packet@)
}

impl ConnectionView {
    /// No connection is found in the middle of validating, and none has
    /// packets queued for sending while its signal is down.
    pub open spec fn well_formed(self) -> bool {
        &&& self.handshake != HandshakeState::Validating
        &&& !self.cancelled ==> self.outbound.len() == 0
    }

    /// The connection after the caller queued `packet`.
    pub open spec fn after_send(self, packet: client::PacketView) -> ConnectionView {
        ConnectionView {
            outbound: self.outbound.push(PacketView::Client(packet)),
            cancelled: true,
            ..self
        }
    }

    /// The connection after the caller queued each of `packets` in turn.
    pub open spec fn after_sends(self, packets: Seq<client::PacketView>) -> ConnectionView
        decreases packets.len(),
    {
        if packets.len() == 0 {
            self
        } else {
            self.after_sends(packets.drop_last()).after_send(packets.last())
        }
    }

    /// The connection after the task took the queued packets for writing.
    pub open spec fn after_flush(self) -> ConnectionView {
        ConnectionView { outbound: Seq::empty(), cancelled: false, ..self }
    }

    /// The connection after the task read `packet` from the socket.
    pub open spec fn after_deliver(self, packet: PacketView) -> ConnectionView {
        ConnectionView { inbound: self.inbound.push(packet), ..self }
    }

    /// What the task does next.
    pub open spec fn next_step(self) -> Step {
        if self.cancelled {
            Step::Flush
        } else {
            Step::Read
        }
    }

    /// Whether a call of `start` starts a task: not while one is running
    /// with the signal down.
    pub open spec fn may_start(self) -> bool {
        !(self.task == TaskState::Running && !self.cancelled)
    }
}

impl View for Connection {
    type V = ConnectionView;

    closed spec fn view(&self) -> ConnectionView {
        ConnectionView {
            version: self.validator.version(),
            handshake: self.handshake,
            outbound: packet_views(self.outbound@),
            inbound: packet_views(self.inbound@),
            cancelled: self.cancelled,
            task: self.task,
        }
    }
}

impl Connection {
    #[verifier::type_invariant]
    spec fn sound(self) -> bool {
        self@.well_formed()
    }

    /// A connection on which nothing has happened yet.
    pub fn new(validator: PacketValidator) -> (connection: Self)
        ensures
            connection@ == (ConnectionView {
                version: validator.version(),
                handshake: HandshakeState::AwaitingPeerHandshake,
                outbound: Seq::empty(),
                inbound: Seq::empty(),
                cancelled: false,
                task: TaskState::Idle,
            }),
    {
        let connection = Self {
            validator,
            handshake: HandshakeState::AwaitingPeerHandshake,
            outbound: Vec::new(),
            inbound: VecDeque::new(),
            cancelled: false,
            task: TaskState::Idle,
        };
        proof {
            assert(connection@.outbound =~= Seq::empty());
            assert(connection@.inbound =~= Seq::empty());
        }
        connection
    }

    /// Where the handshake with the server stands.
    pub fn handshake(&self) -> (state: HandshakeState)
        ensures
            state == self@.handshake,
            state != HandshakeState::Validating,
    {
        proof {
            use_type_invariant(self);
        }
        self.handshake
    }

    /// Whether a background task is at work.
    pub fn task(&self) -> (task: TaskState)
        ensures
            task == self@.task,
    {
        self.task
    }

    /// Queues `packet` for sending and raises the signal, so that a task
    /// that waits for the socket turns to writing at once. Never waits.
    ///
    /// The packet is queued whether or not a task is running; without one it
    /// stays queued until the next task flushes. The queue has no bound of
    /// its own: it grows until the task flushes, and only memory limits it.
    pub fn send(&mut self, packet: client::Packet)
        ensures
            final(self)@ == old(self)@.after_send(packet@),
    {
        proof {
            use_type_invariant(&*self);
        }
        let mut queue: Vec<Packet> = Vec::new();
        core::mem::swap(&mut self.outbound, &mut queue);
        let ghost before = queue@;
        queue.push(Packet::Client(packet));
        self.cancelled = true;
        core::mem::swap(&mut self.outbound, &mut queue);
        proof {
            assert(packet_views(before.push(Packet::Client(packet))) =~= packet_views(before).push(
                PacketView::Client(packet@),
            ));
        }
    }

    /// Takes the oldest packet that arrived, if there is one. Never waits.
    ///
    /// This is a plain pop: it does not ask how the handshake stands. The
    /// handshake takes its packet from the same queue, so a caller that has
    /// yet to shake hands leaves the first packet to `shake`.
    pub fn poll(&mut self) -> (taken: Option<Packet>)
        ensures
            match taken {
                Some(packet) => {
                    &&& old(self)@.inbound.len() > 0
                    &&& packet@ == old(self)@.inbound[0]
                    &&& final(self)@ == (ConnectionView {
                        inbound: old(self)@.inbound.skip(1),
                        ..old(self)@
                    })
                },
                None => old(self)@.inbound.len() == 0 && final(self)@ == old(self)@,
            },
    {
        proof {
            use_type_invariant(&*self);
        }
        let mut queue: VecDeque<Packet> = VecDeque::new();
        core::mem::swap(&mut self.inbound, &mut queue);
        let ghost before = queue@;
        let taken = queue.pop_front();
        core::mem::swap(&mut self.inbound, &mut queue);
        proof {
            if taken is Some {
                assert(packet_views(before.skip(1)) =~= packet_views(before).skip(1));
            }
        }
        taken
    }

    /// Carries out the client's part of the handshake on the first packet
    /// that arrived.
    ///
    /// While the server's handshake is awaited: with nothing arrived yet,
    /// `None` says so and nothing changes. Otherwise the first packet is
    /// taken and judged. If it is a handshake of this client's version, the
    /// client's own handshake with `username` is queued for sending and
    /// `Some(true)` returned; if not, a disconnect with the reason is queued
    /// and `Some(false)` returned. Once the handshake is settled, nothing
    /// changes and the result says whether it was accepted.
    pub fn shake(&mut self, username: &str) -> (accepted: Option<bool>)
        ensures
            old(self)@.handshake != HandshakeState::AwaitingPeerHandshake ==> {
                &&& accepted == Some(old(self)@.handshake == HandshakeState::Accepted)
                &&& final(self)@ == old(self)@
            },
            old(self)@.handshake == HandshakeState::AwaitingPeerHandshake
                && old(self)@.inbound.len() == 0 ==> accepted is None && final(self)@ == old(self)@,
            old(self)@.handshake == HandshakeState::AwaitingPeerHandshake
                && old(self)@.inbound.len() > 0 ==> match greeting(old(self)@.version, old(self)@.inbound[0]) {
                Ok(()) => {
                    &&& accepted == Some(true)
                    &&& final(self)@ == (ConnectionView {
                        handshake: HandshakeState::Accepted,
                        inbound: old(self)@.inbound.skip(1),
                        ..old(self)@.after_send(
                            client::PacketView::Handshake {
                                version: old(self)@.version,
                                username: username@,
                            },
                        )
                    })
                },
                Err(error) => {
                    &&& accepted == Some(false)
                    &&& final(self)@ == (ConnectionView {
                        handshake: HandshakeState::Rejected,
                        inbound: old(self)@.inbound.skip(1),
                        ..old(self)@.after_send(
                            client::PacketView::Disconnect {
                                reason: client::DisconnectReason::Packet(error),
                            },
                        )
                    })
                },
            },
    {
        proof {
            use_type_invariant(&*self);
        }
        match self.handshake {
            HandshakeState::AwaitingPeerHandshake => {},
            HandshakeState::Accepted => {
                return Some(true);
            },
            _ => {
                return Some(false);
            },
        }
        let mut queue: VecDeque<Packet> = VecDeque::new();
        core::mem::swap(&mut self.inbound, &mut queue);
        let ghost before = queue@;
        let first = queue.pop_front();
        core::mem::swap(&mut self.inbound, &mut queue);
        let first = match first {
            Some(first) => first,
            None => {
                return None;
            },
        };
        proof {
            assert(packet_views(before.skip(1)) =~= packet_views(before).skip(1));
        }
        match judge_server_hello(&self.validator, &first) {
            Ok(()) => {
                self.handshake = HandshakeState::Accepted;
                self.send(
                    client::Packet::Handshake {
                        version: self.validator.version_string(),
                        username: username.to_owned(),
                    },
                );
                Some(true)
            },
            Err(error) => {
                self.handshake = HandshakeState::Rejected;
                self.disconnect(client::DisconnectReason::Packet(error));
                Some(false)
            },
        }
    }

    /// Queues the packet that tells the server why the client leaves.
    pub fn disconnect(&mut self, reason: client::DisconnectReason)
        ensures
            final(self)@ == old(self)@.after_send(client::PacketView::Disconnect { reason }),
    {
        self.send(client::Packet::Disconnect { reason });
    }

    /// Decides whether a background task is to be started now.
    ///
    /// Returns `true`, and counts the task as running, unless a task is
    /// running with the signal down: a second task on the same socket would
    /// race the first. After `true` the caller ends the former task, if any,
    /// and starts a new one.
    pub fn start(&mut self) -> (started: bool)
        ensures
            started == old(self)@.may_start(),
            final(self)@ == if started {
                ConnectionView { task: TaskState::Running, ..old(self)@ }
            } else {
                old(self)@
            },
    {
        proof {
            use_type_invariant(&*self);
        }
        let running = match self.task {
            TaskState::Running => true,
            _ => false,
        };
        if running && !self.cancelled {
            return false;
        }
        self.task = TaskState::Running;
        true
    }

    /// Counts the background task as ended, and says whether there was one
    /// for the caller to end. Calling it again changes nothing more.
    pub fn stop(&mut self) -> (stopped: bool)
        ensures
            stopped == (old(self)@.task != TaskState::Idle),
            final(self)@ == if stopped {
                ConnectionView { task: TaskState::Finished, ..old(self)@ }
            } else {
                old(self)@
            },
    {
        proof {
            use_type_invariant(&*self);
        }
        match self.task {
            TaskState::Idle => false,
            _ => {
                self.task = TaskState::Finished;
                true
            },
        }
    }

    /// What the task does next: it flushes when the signal is raised, and
    /// reads otherwise. With a packet queued the signal is raised, so a
    /// queued packet never waits for the socket.
    pub fn next_step(&self) -> (step: Step)
        ensures
            step == self@.next_step(),
            self@.well_formed(),
            self@.outbound.len() > 0 ==> step == Step::Flush,
    {
        proof {
            use_type_invariant(self);
        }
        if self.cancelled {
            Step::Flush
        } else {
            Step::Read
        }
    }

    /// Appends a packet that the task read from the socket to the packets
    /// that arrived. This queue, too, has no bound of its own: it grows
    /// until the caller polls.
    pub fn deliver(&mut self, packet: Packet)
        ensures
            final(self)@ == old(self)@.after_deliver(packet@),
    {
        proof {
            use_type_invariant(&*self);
        }
        let mut queue: VecDeque<Packet> = VecDeque::new();
        core::mem::swap(&mut self.inbound, &mut queue);
        let ghost before = queue@;
        queue.push_back(packet);
        core::mem::swap(&mut self.inbound, &mut queue);
        proof {
            assert(packet_views(before.push(packet)) =~= packet_views(before).push(packet@));
        }
    }

    /// Takes every queued packet for writing, oldest first, and lowers the
    /// signal. The task writes them in this order, one frame each.
    pub fn flush(&mut self) -> (packets: Vec<Packet>)
        ensures
            packet_views(packets@) == old(self)@.outbound,
            packets@.len() == old(self)@.outbound.len(),
            forall|i: int|
                0 <= i < packets@.len() ==> (#[trigger] packets@[i])@ == old(self)@.outbound[i],
            final(self)@ == old(self)@.after_flush(),
    {
        proof {
            use_type_invariant(&*self);
        }
        let mut packets: Vec<Packet> = Vec::new();
        core::mem::swap(&mut self.outbound, &mut packets);
        self.cancelled = false;
        proof {
            assert(packet_views(self.outbound@) =~= Seq::empty());
        }
        packets
    }

    /// Records that the task gave up: a read or a write failed, or a frame
    /// was corrupt. Nothing reconnects; the next `start` may try again.
    pub fn fail(&mut self)
        ensures
            final(self)@ == (ConnectionView { task: TaskState::Finished, ..old(self)@ }),
    {
        proof {
            use_type_invariant(&*self);
        }
        self.task = TaskState::Finished;
    }
}

/// Packets are flushed in the order in which they were sent: after any run
/// of sends, the queue holds what it held before, then the packets sent, in
/// that order, and the signal is raised if anything was sent.
pub proof fn sends_keep_their_order(start: ConnectionView, packets: Seq<client::PacketView>)
    ensures
        start.after_sends(packets).outbound == start.outbound + packets.map_values(
            |packet: client::PacketView| PacketView::Client(packet),
        ),
        start.after_sends(packets).inbound == start.inbound,
        packets.len() > 0 ==> start.after_sends(packets).next_step() == Step::Flush,
        start.well_formed() ==> start.after_sends(packets).well_formed(),
    decreases packets.len(),
{
    let wrap = |packet: client::PacketView| PacketView::Client(packet);
    if packets.len() == 0 {
        assert(start.outbound + packets.map_values(wrap) =~= start.outbound);
    } else {
        sends_keep_their_order(start, packets.drop_last());
        assert(start.outbound + packets.map_values(wrap) =~= (start.outbound
            + packets.drop_last().map_values(wrap)).push(PacketView::Client(packets.last())));
    }
}

/// A send is flushed without anything arriving: whatever the connection
/// held, after a send the task's next step is a flush, the flush takes the
/// packet sent as its last, and after it the signal is down again and the
/// task reads.
pub proof fn send_forces_flush(before: ConnectionView, packet: client::PacketView)
    ensures
        before.after_send(packet).next_step() == Step::Flush,
        before.after_send(packet).outbound.last() == PacketView::Client(packet),
        before.after_send(packet).after_flush().next_step() == Step::Read,
        before.after_send(packet).after_flush().well_formed() == (before.handshake
            != HandshakeState::Validating),
{
}

} // verus!
