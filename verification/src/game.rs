//! What the client's game loop decides from what the connection and the
//! clock bring: how to react to a packet, when a tick and a keep-alive are
//! due, and the name a fresh player goes by.

use crate::protocol::{
    client, is_username_char, server, valid_username, Packet, PacketView,
};
use crate::{KEEP_ALIVE_INTERVAL, TICK_RATE};
use vstd::prelude::*;

verus! {

/// What the game does about a packet it took from the connection.
#[derive(Clone, Debug, PartialEq, Eq)]
pub enum Reaction {
    /// The server ended the connection: stop the client and drop it.
    Kicked { reason: server::KickReason },
    /// Move the player. The fields are bit patterns, as in the packet.
    Teleported { x: u32, y: u32, z: u32, yaw: u32, pitch: u32 },
    /// Nothing to do.
    Ignored,
}

/// The mathematical content of a [`Reaction`].
pub enum ReactionView {
    Kicked { reason: server::KickReasonView },
    Teleported { x: u32, y: u32, z: u32, yaw: u32, pitch: u32 },
    Ignored,
}

impl View for Reaction {
    type V = ReactionView;

    open spec fn view(&self) -> ReactionView {
        match self {
            Reaction::Kicked { reason } => ReactionView::Kicked { reason: reason@ },
            Reaction::Teleported { x, y, z, yaw, pitch } => ReactionView::Teleported {
                x: *x,
                y: *y,
                z: *z,
                yaw: *yaw,
                pitch: *pitch,
            },
            Reaction::Ignored => ReactionView::Ignored,
        }
    }
}

/// The reaction that a polled packet calls for: a kick and a teleport are
/// acted on, everything else and nothing at all are passed over.
pub open spec fn reaction_to(polled: Option<PacketView>) -> ReactionView {
    match polled {
        Some(PacketView::Server(server::PacketView::Kick { reason })) => ReactionView::Kicked {
            reason,
        },
        Some(PacketView::Server(server::PacketView::Teleport { x, y, z, yaw, pitch })) => {
            ReactionView::Teleported { x, y, z, yaw, pitch }
        },
        _ => ReactionView::Ignored,
    }
}

/// Decides what to do about what a poll of the connection returned.
pub fn react(polled: Option<Packet>) -> (reaction: Reaction)
    ensures
        reaction@ == reaction_to(
            match polled {
                Some(packet) => Some(packet@),
                None => None,
            },
        ),
{
    match polled {
        Some(Packet::Server(server::Packet::Kick { reason })) => Reaction::Kicked { reason },
        Some(Packet::Server(server::Packet::Teleport { x, y, z, yaw, pitch })) => {
            Reaction::Teleported { x, y, z, yaw, pitch }
        },
        _ => Reaction::Ignored,
    }
}

/// Nanoseconds from one tick to the next.
pub const TICK_NANOS: u64 = 1_000_000_000 / (TICK_RATE as u64);

/// Whether a tick is due, `elapsed_nanos` after the last one. Only the low
/// 64 bits of the time count.
pub fn tick_due(elapsed_nanos: u128) -> (due: bool)
    ensures
        due == (elapsed_nanos % 0x1_0000_0000_0000_0000 >= TICK_NANOS),
{
    let low: u64 = #[verifier::truncate]
    (elapsed_nanos as u64);
    proof {
        assert(low == elapsed_nanos % 0x1_0000_0000_0000_0000) by (bit_vector)
            requires
                low == elapsed_nanos as u64,
        ;
    }
    low >= TICK_NANOS
}

/// Whether a keep-alive is due, `elapsed_millis` after the last one. Only
/// the low 32 bits of the time count.
pub fn keep_alive_due(elapsed_millis: u128) -> (due: bool)
    ensures
        due == (elapsed_millis % 0x1_0000_0000 >= KEEP_ALIVE_INTERVAL),
{
    let low: u32 = #[verifier::truncate]
    (elapsed_millis as u32);
    proof {
        assert(low == elapsed_millis % 0x1_0000_0000) by (bit_vector)
            requires
                low == elapsed_millis as u32,
        ;
    }
    low >= KEEP_ALIVE_INTERVAL
}

/// The keep-alive to send at `epoch_millis` milliseconds since the Unix
/// epoch. Only the low 64 bits of the time are sent.
pub fn keep_alive(epoch_millis: u128) -> (packet: client::Packet)
    ensures
        packet@ == (client::PacketView::KeepAlive {
            epoch: (epoch_millis % 0x1_0000_0000_0000_0000) as u64,
        }),
{
    let low: u64 = #[verifier::truncate]
    (epoch_millis as u64);
    proof {
        assert(low == epoch_millis % 0x1_0000_0000_0000_0000) by (bit_vector)
            requires
                low == epoch_millis as u64,
        ;
    }
    client::Packet::KeepAlive { epoch: low }
}

/// The character for one decimal digit.
pub open spec fn digit_char(digit: nat) -> char {
    if digit == 0 {
        '0'
    } else if digit == 1 {
        '1'
    } else if digit == 2 {
        '2'
    } else if digit == 3 {
        '3'
    } else if digit == 4 {
        '4'
    } else if digit == 5 {
        '5'
    } else if digit == 6 {
        '6'
    } else if digit == 7 {
        '7'
    } else if digit == 8 {
        '8'
    } else {
        '9'
    }
}

/// `number` in decimal, without leading zeros.
pub open spec fn decimal(number: nat) -> Seq<char>
    decreases number,
{
    if number < 10 {
        seq![digit_char(number)]
    } else {
        decimal(number / 10).push(digit_char(number % 10))
    }
}

/// `number` in decimal, with zeros in front of fewer than four digits.
pub open spec fn padded_decimal(number: nat) -> Seq<char> {
    if number < 10 {
        seq!['0', '0', '0'] + decimal(number)
    } else if number < 100 {
        seq!['0', '0'] + decimal(number)
    } else if number < 1000 {
        seq!['0'] + decimal(number)
    } else {
        decimal(number)
    }
}

/// The name of the player with the number `number`.
pub open spec fn guest_name_of(number: nat) -> Seq<char> {
    seq!['P', 'l', 'a', 'y', 'e', 'r'] + padded_decimal(number)
}

/// The text of one decimal digit.
fn digit_text(digit: u32) -> (text: &'static str)
    requires
        digit < 10,
    ensures
        text@ == seq![digit_char(digit as nat)],
{
    proof {
        reveal_strlit("0");
        reveal_strlit("1");
        reveal_strlit("2");
        reveal_strlit("3");
        reveal_strlit("4");
        reveal_strlit("5");
        reveal_strlit("6");
        reveal_strlit("7");
        reveal_strlit("8");
        reveal_strlit("9");
    }
    let text = if digit == 0 {
        "0"
    } else if digit == 1 {
        "1"
    } else if digit == 2 {
        "2"
    } else if digit == 3 {
        "3"
    } else if digit == 4 {
        "4"
    } else if digit == 5 {
        "5"
    } else if digit == 6 {
        "6"
    } else if digit == 7 {
        "7"
    } else if digit == 8 {
        "8"
    } else {
        "9"
    };
    proof {
        assert(text@ =~= seq![digit_char(digit as nat)]);
    }
    text
}

/// Appends `number` in decimal to `out`.
fn push_decimal(number: u32, out: &mut String)
    ensures
        final(out)@ == old(out)@ + decimal(number as nat),
    decreases number,
{
    if number >= 10 {
        push_decimal(number / 10, out);
    }
    let ghost before = out@;
    out.append(digit_text(number % 10));
    proof {
        if number >= 10 {
            assert(old(out)@ + decimal(number as nat) =~= before + seq![
                digit_char((number % 10) as nat),
            ]);
        }
    }
}

/// The name that a player without one goes by: `Player`, then `number` in
/// decimal, filled up with zeros to four digits.
pub fn guest_name(number: u32) -> (name: String)
    ensures
        name@ == guest_name_of(number as nat),
{
    proof {
        reveal_strlit("Player");
        reveal_strlit("000");
        reveal_strlit("00");
        reveal_strlit("0");
    }
    let mut name = String::from_str("Player");
    proof {
        assert(name@ =~= seq!['P', 'l', 'a', 'y', 'e', 'r']);
    }
    if number < 10 {
        name.append("000");
        proof {
            assert(name@ =~= seq!['P', 'l', 'a', 'y', 'e', 'r'] + seq!['0', '0', '0']);
        }
    } else if number < 100 {
        name.append("00");
        proof {
            assert(name@ =~= seq!['P', 'l', 'a', 'y', 'e', 'r'] + seq!['0', '0']);
        }
    } else if number < 1000 {
        name.append("0");
        proof {
            assert(name@ =~= seq!['P', 'l', 'a', 'y', 'e', 'r'] + seq!['0']);
        }
    }
    push_decimal(number, &mut name);
    proof {
        assert(name@ =~= guest_name_of(number as nat));
    }
    name
}

/// A number below ten thousand to the power of `digits` over four takes no
/// more than `digits` decimal digits, each of them a username character.
proof fn lemma_decimal_is_short(number: nat, digits: nat)
    requires
        digits >= 1,
        number < pow10(digits),
    ensures
        1 <= decimal(number).len() <= digits,
        forall|i: int|
            0 <= i < decimal(number).len() ==> is_username_char(#[trigger] decimal(number)[i]),
    decreases number,
{
    if number >= 10 {
        assert(digits >= 2) by {
            if digits == 1 {
                assert(pow10(1) == 10) by {
                    reveal_with_fuel(pow10, 2);
                }
            }
        }
        assert(pow10(digits) == 10 * pow10((digits - 1) as nat));
        lemma_decimal_is_short(number / 10, (digits - 1) as nat);
    }
}

spec fn pow10(digits: nat) -> nat
    decreases digits,
{
    if digits == 0 {
        1
    } else {
        10 * pow10((digits - 1) as nat)
    }
}

/// Every guest name is a valid username, and the name of a number below
/// ten thousand is ten characters long.
pub proof fn guest_names_are_valid(number: nat)
    requires
        number <= u32::MAX,
    ensures
        valid_username(guest_name_of(number)),
        number < 10000 ==> guest_name_of(number).len() == 10,
{
    assert(pow10(10) == 10_000_000_000) by {
        reveal_with_fuel(pow10, 11);
    }
    assert(pow10(1) == 10 && pow10(2) == 100 && pow10(3) == 1000 && pow10(4) == 10000) by {
        reveal_with_fuel(pow10, 5);
    }
    lemma_decimal_is_short(number, 10);
    if number < 10 {
        lemma_decimal_is_short(number, 1);
    } else if number < 100 {
        lemma_decimal_is_short(number, 2);
        assert(decimal(number).len() == decimal(number / 10).len() + 1);
        lemma_decimal_is_short(number / 10, 1);
    } else if number < 1000 {
        lemma_decimal_is_short(number, 3);
        lemma_decimal_exact(number, 3);
    } else if number < 10000 {
        lemma_decimal_is_short(number, 4);
        lemma_decimal_exact(number, 4);
    }
    let name = guest_name_of(number);
    let head = seq!['P', 'l', 'a', 'y', 'e', 'r'];
    let tail = padded_decimal(number);
    assert forall|i: int| 0 <= i < name.len() implies is_username_char(#[trigger] name[i]) by {
        if i >= 6 {
            assert(name[i] == tail[i - 6]);
            let shift = tail.len() - decimal(number).len();
            if i - 6 >= shift {
                assert(tail[i - 6] == decimal(number)[i - 6 - shift]);
            }
        }
    }
}

/// A number of exactly `digits` decimal digits is written with as many.
proof fn lemma_decimal_exact(number: nat, digits: nat)
    requires
        digits >= 1,
        pow10((digits - 1) as nat) <= number < pow10(digits),
        digits > 1 || number < 10,
    ensures
        decimal(number).len() == digits,
    decreases digits,
{
    if digits > 1 {
        assert(pow10(digits) == 10 * pow10((digits - 1) as nat));
        assert(pow10(1) == 10) by {
            reveal_with_fuel(pow10, 2);
        }
        if digits == 2 {
            assert(pow10(1) == 10);
        } else {
            assert(pow10((digits - 1) as nat) == 10 * pow10((digits - 2) as nat));
        }
        assert(number >= 10);
        lemma_decimal_exact(number / 10, (digits - 1) as nat);
    }
}

} // verus!
