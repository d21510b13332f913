//! Verified core of a voxel game's client/server link: the packet model, the
//! frame codec, the handshake rules and the connection actor's bookkeeping.

pub mod client;
pub mod codec;
pub mod game;
pub mod handshake;
pub mod math;
pub mod protocol;
pub mod render;
pub mod server;
pub mod world;

use std::time::{Duration, SystemTime, UNIX_EPOCH};
use vstd::prelude::*;

verus! {

/// Game ticks per second.
pub const TICK_RATE: u32 = 60;

/// Milliseconds between two keep-alive packets of a client.
pub const KEEP_ALIVE_INTERVAL: u32 = 5000;

/// `std::time::SystemTime`: a reading of the system clock. Nothing inside
/// it is visible here.
#[verifier::external_type_specification]
#[verifier::external_body]
pub struct ExSystemTime(std::time::SystemTime);

/// `SystemTime::now`: the reading of the system clock. Nothing is claimed
/// of it.
#[verifier::external_body]
fn now() -> SystemTime {
    SystemTime::now()
}

/// `SystemTime::duration_since`, counted from the Unix epoch: the time from
/// the epoch to `at`, or nothing if `at` lies before it. Nothing more is
/// claimed of it.
#[verifier::external_body]
fn since_unix_epoch(at: &SystemTime) -> Option<Duration> {
    at.duration_since(UNIX_EPOCH).ok()
}

/// The time since the Unix epoch by the system clock, or nothing if the
/// clock is set before it. The value is the clock's: nothing is promised of
/// it.
pub fn epoch() -> Option<Duration> {
    let at = now();
    since_unix_epoch(&at)
}

/// A source of values that never runs dry.
pub trait InfiniteIterator {
    type Item;

    /// The next value.
    fn next(&mut self) -> Self::Item;
}

/// A source of values that can be asked for one out of a range.
pub trait RangeIterator<T> {
    type Item;

    /// Whether `range` can be drawn from in this state.
    spec fn admits(&self, range: T) -> bool;

    /// The next value, scaled into `range`.
    fn next_in(&mut self, range: T) -> Self::Item
        requires
            old(self).admits(range),
    ;
}

} // verus!
