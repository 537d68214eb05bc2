//! Pairing note-begins with note-ends.
//!
//! The pairer is a state machine with one slot. A note-begin fills the slot
//! with its pitch and the current tick count, replacing whatever was there. A
//! note-end empties the slot and emits the finished note; with the slot empty
//! it has nothing to close, and the track is rejected. Every event advances
//! the clock by its delta first, whatever its message.

use vstd::prelude::*;
use crate::event::{elapsed_ticks, lemma_elapsed_bound, Message, TimedEvent};
use crate::note::{spans, Note, NoteSpan};

verus! {

/// A note that has begun and not yet ended, as the contracts speak of it.
pub struct Pending {
    pub pitch: nat,
    pub start: nat,
}

/// The state of the pairer as the contracts speak of it: the clock in ticks
/// and the one slot.
pub struct PairerModel {
    pub elapsed: nat,
    pub pending: Option<Pending>,
}

/// What one event produced, as the contracts speak of it.
pub enum StepModel {
    /// No note was finished.
    Quiet,
    /// A note-end closed the pending note.
    Emitted(NoteSpan),
    /// A note-end arrived with nothing pending.
    Unmatched,
}

/// The state before any event: clock at zero, slot empty.
pub open spec fn initial() -> PairerModel {
    PairerModel { elapsed: 0, pending: None }
}

/// The state after `e` is consumed in state `s`.
pub open spec fn advance(s: PairerModel, e: TimedEvent) -> PairerModel {
    let now = s.elapsed + e.delta_ticks as nat;
    PairerModel {
        elapsed: now,
        pending: match e.message {
            Message::NoteBegin { pitch, .. } => Some(Pending { pitch: pitch as nat, start: now }),
            Message::NoteEnd { .. } => None,
            Message::Other => s.pending,
        },
    }
}

/// What consuming `e` in state `s` produces.
pub open spec fn emission(s: PairerModel, e: TimedEvent) -> StepModel {
    match e.message {
        Message::NoteEnd { .. } => match s.pending {
            Some(p) => StepModel::Emitted(
                NoteSpan { pitch: p.pitch, start: p.start, end: s.elapsed + e.delta_ticks as nat },
            ),
            None => StepModel::Unmatched,
        },
        _ => StepModel::Quiet,
    }
}

/// The state after the first `n` events of a track.
pub open spec fn state_after(events: Seq<TimedEvent>, n: int) -> PairerModel
    decreases n,
{
    if n <= 0 {
        initial()
    } else {
        advance(state_after(events, n - 1), events[n - 1])
    }
}

/// The result of pairing the first `n` events: the notes finished so far in
/// the order of their note-ends, or the position of the first note-end that
/// found nothing pending.
pub open spec fn pairing_prefix(events: Seq<TimedEvent>, n: int) -> Result<Seq<NoteSpan>, int>
    decreases n,
{
    if n <= 0 {
        Ok(Seq::empty())
    } else {
        match pairing_prefix(events, n - 1) {
            Err(at) => Err(at),
            Ok(notes) => match emission(state_after(events, n - 1), events[n - 1]) {
                StepModel::Quiet => Ok(notes),
                StepModel::Emitted(note) => Ok(notes.push(note)),
                StepModel::Unmatched => Err(n - 1),
            },
        }
    }
}

/// The result of pairing a whole track.
pub open spec fn pairing(events: Seq<TimedEvent>) -> Result<Seq<NoteSpan>, int> {
    pairing_prefix(events, events.len() as int)
}

/// The clock of the state machine is the sum of the deltas consumed.
pub proof fn lemma_state_clock(events: Seq<TimedEvent>, n: int)
    ensures
        state_after(events, n).elapsed == elapsed_ticks(events, n),
    decreases n,
{
    if n > 0 {
        lemma_state_clock(events, n - 1);
    }
}

/// Once a prefix is rejected, every longer prefix is rejected at the same
/// position.
pub proof fn lemma_rejection_is_final(events: Seq<TimedEvent>, m: int, n: int)
    requires
        m <= n,
        pairing_prefix(events, m) is Err,
    ensures
        pairing_prefix(events, n) == pairing_prefix(events, m),
    decreases n,
{
    if m < n {
        lemma_rejection_is_final(events, m, n - 1);
    }
}

/// Why a track could not be paired.
#[derive(Clone, Copy, Debug, PartialEq, Eq, Structural)]
pub enum PairError {
    /// The event at `index` is a note-end, and no note was pending.
    UnmatchedNoteEnd { index: usize },
}

/// A note that has begun and not yet ended.
#[derive(Clone, Copy, Debug, PartialEq, Eq, Structural)]
pub struct PendingNote {
    pub pitch_value: u32,
    pub start_ticks: u128,
}

impl View for PendingNote {
    type V = Pending;

    open spec fn view(&self) -> Pending {
        Pending { pitch: self.pitch_value as nat, start: self.start_ticks as nat }
    }
}

/// What one event produced.
#[derive(Clone, Copy, Debug, PartialEq, Eq, Structural)]
pub enum Step {
    /// No note was finished.
    Quiet,
    /// A note-end closed the pending note.
    Emitted(Note),
    /// A note-end arrived with nothing pending.
    Unmatched,
}

impl View for Step {
    type V = StepModel;

    open spec fn view(&self) -> StepModel {
        match *self {
            Step::Quiet => StepModel::Quiet,
            Step::Emitted(note) => StepModel::Emitted(note@),
            Step::Unmatched => StepModel::Unmatched,
        }
    }
}

/// The pairing state machine.
pub struct NotePairer {
    elapsed_ticks: u128,
    pending: Option<PendingNote>,
}

impl View for NotePairer {
    type V = PairerModel;

    closed spec fn view(&self) -> PairerModel {
        PairerModel {
            elapsed: self.elapsed_ticks as nat,
            pending: match self.pending {
                Some(p) => Some(p@),
                None => None,
            },
        }
    }
}

impl NotePairer {
    /// A pairer that has seen no event.
    pub fn new() -> (pairer: NotePairer)
        ensures
            pairer@ == initial(),
    {
        NotePairer { elapsed_ticks: 0, pending: None }
    }

    /// The clock: the sum of the deltas of all events fed so far.
    pub fn elapsed_ticks(&self) -> (ticks: u128)
        ensures
            ticks == self@.elapsed,
    {
        self.elapsed_ticks
    }

    /// The note in the slot, if any.
    pub fn pending(&self) -> (slot: Option<PendingNote>)
        ensures
            slot is Some == self@.pending is Some,
            slot is Some ==> slot->0@ == self@.pending->0,
    {
        self.pending
    }

    /// Consumes one event: advances the clock by its delta, then acts on its
    /// message. The clock must have room for the delta. After a note-end that
    /// found nothing pending the pairer goes on with the slot empty.
    pub fn feed(&mut self, event: &TimedEvent) -> (step: Step)
        requires
            old(self)@.elapsed + event.delta_ticks <= u128::MAX,
        ensures
            final(self)@ == advance(old(self)@, *event),
            step@ == emission(old(self)@, *event),
    {
        self.elapsed_ticks = self.elapsed_ticks + event.delta_ticks as u128;
        match event.message {
            Message::NoteBegin { pitch, .. } => {
                self.pending = Some(
                    PendingNote { pitch_value: pitch as u32, start_ticks: self.elapsed_ticks },
                );
                Step::Quiet
            },
            Message::NoteEnd { .. } => {
                let slot = self.pending;
                self.pending = None;
                match slot {
                    Some(p) => Step::Emitted(
                        Note {
                            pitch_value: p.pitch_value,
                            start_ticks: p.start_ticks,
                            end_ticks: self.elapsed_ticks,
                        },
                    ),
                    None => Step::Unmatched,
                }
            },
            Message::Other => Step::Quiet,
        }
    }
}

/// Pairs the note-begins and note-ends of one track.
///
/// Returns the finished notes in the order of their note-ends. A note-begin
/// that is followed by another note-begin is dropped, and so is one that is
/// still pending when the track ends. The first note-end that finds nothing
/// pending rejects the whole track; no note is returned then.
pub fn get_notes(track: &[TimedEvent]) -> (result: Result<Vec<Note>, PairError>)
    ensures
        match result {
            Ok(notes) => pairing(track@) == Ok::<Seq<NoteSpan>, int>(spans(notes@)),
            Err(PairError::UnmatchedNoteEnd { index }) => pairing(track@) == Err::<
                Seq<NoteSpan>,
                int,
            >(index as int),
        },
{
    let mut pairer = NotePairer::new();
    let mut notes: Vec<Note> = Vec::new();
    let mut i: usize = 0;
    assert(spans(notes@) =~= Seq::<NoteSpan>::empty());
    while i < track.len()
        invariant
            i <= track.len(),
            pairer@ == state_after(track@, i as int),
            pairing_prefix(track@, i as int) == Ok::<Seq<NoteSpan>, int>(spans(notes@)),
        decreases track.len() - i,
    {
        proof {
            lemma_state_clock(track@, i as int);
            lemma_elapsed_bound(track@, i as int);
            assert(i * 0xFFFF_FFFF <= 0xFFFF_FFFF_FFFF_FFFF * 0xFFFF_FFFF) by (nonlinear_arith)
                requires
                    0 <= i <= 0xFFFF_FFFF_FFFF_FFFF,
            ;
        }
        let ghost before = notes@;
        match pairer.feed(&track[i]) {
            Step::Quiet => {},
            Step::Emitted(note) => {
                notes.push(note);
                assert(spans(notes@) =~= spans(before).push(note@));
            },
            Step::Unmatched => {
                proof {
                    lemma_rejection_is_final(track@, i + 1, track@.len() as int);
                }
                return Err(PairError::UnmatchedNoteEnd { index: i });
            },
        }
        i = i + 1;
    }
    Ok(notes)
}

} // verus!
