//! From ticks to seconds.
//!
//! A tick lasts `1 / (bpm * 1.6)` seconds: the scale of a file with 96 ticks
//! to the quarter note, whatever the file's own header says. Seconds are kept
//! exact here, as a quotient of two whole numbers.

use vstd::prelude::*;
use crate::note::Note;

verus! {

/// A quotient of two natural numbers, as the contracts speak of it.
pub struct Ratio {
    pub num: nat,
    pub den: nat,
}

impl Ratio {
    /// `self <= other` as quotients, for positive denominators.
    pub open spec fn at_most(self, other: Ratio) -> bool {
        self.num * other.den <= other.num * self.den
    }
}

/// A tempo: `beats` beats in `minutes` minutes. Both must be positive.
#[derive(Clone, Copy, Debug, PartialEq, Eq, Structural)]
pub struct Tempo {
    pub beats: u32,
    pub minutes: u32,
}

impl Tempo {
    /// Neither part is zero.
    pub open spec fn wf(self) -> bool {
        self.beats > 0 && self.minutes > 0
    }

    /// `self` is no faster than `other`.
    pub open spec fn no_faster_than(self, other: Tempo) -> bool {
        self.beats * other.minutes <= other.beats * self.minutes
    }

    /// The tempo of `beats` beats in `minutes` minutes, if neither is zero.
    pub fn new(beats: u32, minutes: u32) -> (tempo: Option<Tempo>)
        ensures
            tempo is Some <==> beats > 0 && minutes > 0,
            tempo is Some ==> tempo->0 == (Tempo { beats, minutes }),
    {
        if beats > 0 && minutes > 0 {
            Some(Tempo { beats, minutes })
        } else {
            None
        }
    }
}

/// A time in seconds: `num / den`, with `den` positive.
#[derive(Clone, Copy, Debug, PartialEq, Eq, Structural)]
pub struct Seconds {
    pub num: u128,
    pub den: u64,
}

impl View for Seconds {
    type V = Ratio;

    open spec fn view(&self) -> Ratio {
        Ratio { num: self.num as nat, den: self.den as nat }
    }
}

/// The seconds that `ticks` ticks take at `tempo`:
/// `ticks / (bpm * 1.6)` with `bpm = beats / minutes`, which is
/// `5 * ticks * minutes / (8 * beats)`.
pub open spec fn seconds(ticks: nat, tempo: Tempo) -> Ratio {
    Ratio { num: 5 * ticks * tempo.minutes as nat, den: 8 * tempo.beats as nat }
}

/// The time in seconds at which a tick count is reached at a tempo.
pub fn get_time_seconds(ticks: u64, tempo: Tempo) -> (time: Seconds)
    requires
        tempo.wf(),
    ensures
        time@ == seconds(ticks as nat, tempo),
        time.den > 0,
        ticks == 0 ==> time.num == 0,
{
    assert(5 * ticks * tempo.minutes <= 5 * 0xFFFF_FFFF_FFFF_FFFF * 0xFFFF_FFFF) by (nonlinear_arith)
        requires
            0 <= ticks <= 0xFFFF_FFFF_FFFF_FFFF,
            0 <= tempo.minutes <= 0xFFFF_FFFF,
    ;
    assert(5 * 0 * tempo.minutes == 0) by (nonlinear_arith);
    Seconds { num: 5 * (ticks as u128) * (tempo.minutes as u128), den: 8 * (tempo.beats as u64) }
}

/// A finished note with its times in seconds.
#[derive(Clone, Copy, Debug, PartialEq, Eq, Structural)]
pub struct NoteSeconds {
    pub pitch_value: u32,
    pub time_start: Seconds,
    pub time_end: Seconds,
}

/// Stamps a note with the seconds of its two tick counts at a tempo.
///
/// `None` for a note whose tick counts do not fit 64 bits, the range in
/// which seconds are kept exact.
pub fn note_seconds(note: &Note, tempo: Tempo) -> (timed: Option<NoteSeconds>)
    requires
        tempo.wf(),
    ensures
        timed is Some <==> note.start_ticks <= u64::MAX && note.end_ticks <= u64::MAX,
        timed is Some ==> {
            &&& timed->0.pitch_value == note.pitch_value
            &&& timed->0.time_start@ == seconds(note@.start, tempo)
            &&& timed->0.time_end@ == seconds(note@.end, tempo)
            &&& note.start_ticks <= note.end_ticks ==> timed->0.time_start@.at_most(
                timed->0.time_end@,
            )
        },
{
    if note.start_ticks > u64::MAX as u128 || note.end_ticks > u64::MAX as u128 {
        return None;
    }
    proof {
        if note.start_ticks <= note.end_ticks {
            law_monotone_in_ticks(note@.start, note@.end, tempo);
        }
    }
    Some(
        NoteSeconds {
            pitch_value: note.pitch_value,
            time_start: get_time_seconds(note.start_ticks as u64, tempo),
            time_end: get_time_seconds(note.end_ticks as u64, tempo),
        },
    )
}

/// At any tempo, no time has passed at tick zero.
pub proof fn law_zero_ticks(tempo: Tempo)
    requires
        tempo.wf(),
    ensures
        seconds(0, tempo).num == 0,
        seconds(0, tempo).den > 0,
{
    assert(5 * 0 * tempo.minutes as nat == 0) by (nonlinear_arith);
}

/// At one tempo, more ticks never take less time.
pub proof fn law_monotone_in_ticks(earlier: nat, later: nat, tempo: Tempo)
    requires
        tempo.wf(),
        earlier <= later,
    ensures
        seconds(earlier, tempo).at_most(seconds(later, tempo)),
{
    let m = tempo.minutes as nat;
    let d = 8 * tempo.beats as nat;
    assert((5 * earlier * m) * d <= (5 * later * m) * d) by (nonlinear_arith)
        requires
            earlier <= later,
    ;
}

/// At a faster tempo, the same ticks never take more time.
pub proof fn law_antitone_in_tempo(ticks: nat, slow: Tempo, fast: Tempo)
    requires
        slow.wf(),
        fast.wf(),
        slow.no_faster_than(fast),
    ensures
        seconds(ticks, fast).at_most(seconds(ticks, slow)),
{
    let sb = slow.beats as nat;
    let sm = slow.minutes as nat;
    let fb = fast.beats as nat;
    let fm = fast.minutes as nat;
    assert((5 * ticks * fm) * (8 * sb) <= (5 * ticks * sm) * (8 * fb)) by (nonlinear_arith)
        requires
            sb * fm <= fb * sm,
    ;
}

/// Time is inversely proportional to the tempo: at `factor` times the beats
/// in the same minutes, the same ticks take one `factor`-th of the time.
pub proof fn law_inverse_in_tempo(ticks: nat, tempo: Tempo, factor: nat, faster: Tempo)
    requires
        tempo.wf(),
        factor > 0,
        faster.beats == factor * tempo.beats,
        faster.minutes == tempo.minutes,
    ensures
        seconds(ticks, faster).num == seconds(ticks, tempo).num,
        seconds(ticks, faster).den == factor * seconds(ticks, tempo).den,
{
    assert(8 * (factor * tempo.beats) == factor * (8 * tempo.beats)) by (nonlinear_arith);
}

/// Time is linear in ticks: the time of a sum is the sum of the times.
pub proof fn law_linear_in_ticks(a: nat, b: nat, tempo: Tempo)
    requires
        tempo.wf(),
    ensures
        seconds(a + b, tempo).den == seconds(a, tempo).den,
        seconds(a + b, tempo).den == seconds(b, tempo).den,
        seconds(a + b, tempo).num == seconds(a, tempo).num + seconds(b, tempo).num,
{
    let m = tempo.minutes as nat;
    assert(5 * (a + b) * m == 5 * a * m + 5 * b * m) by (nonlinear_arith);
}

} // verus!
