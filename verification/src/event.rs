//! The events of a track.

use vstd::prelude::*;

verus! {

/// What an event says. Only the two note messages matter to the pairer;
/// every other message of a track is `Other`.
#[derive(Clone, Copy, Debug, PartialEq, Eq, Structural)]
pub enum Message {
    /// A key goes down.
    NoteBegin { pitch: u8, velocity: u8 },
    /// A key comes up.
    NoteEnd { pitch: u8, velocity: u8 },
    /// Anything else: controllers, meta messages, system messages.
    Other,
}

/// One entry of a track: a message and the ticks that passed since the
/// entry before it.
#[derive(Clone, Copy, Debug, PartialEq, Eq, Structural)]
pub struct TimedEvent {
    pub delta_ticks: u32,
    pub message: Message,
}

/// Ticks from the start of the track to the `n`-th event inclusive, counting
/// events from one: the sum of the first `n` deltas.
pub open spec fn elapsed_ticks(events: Seq<TimedEvent>, n: int) -> nat
    decreases n,
{
    if n <= 0 {
        0
    } else {
        elapsed_ticks(events, n - 1) + events[n - 1].delta_ticks as nat
    }
}

/// Each event adds less than 2^32 ticks.
pub proof fn lemma_elapsed_bound(events: Seq<TimedEvent>, n: int)
    requires
        0 <= n,
    ensures
        elapsed_ticks(events, n) <= n * 0xFFFF_FFFF,
    decreases n,
{
    if n > 0 {
        lemma_elapsed_bound(events, n - 1);
    }
}

} // verus!
