//! Finished notes.

use vstd::prelude::*;

verus! {

/// A note as the contracts speak of it: a pitch and the tick counts at which
/// it began and ended.
pub struct NoteSpan {
    pub pitch: nat,
    pub start: nat,
    pub end: nat,
}

/// A finished note. Both times are ticks since the start of the track.
#[derive(Clone, Copy, Debug, PartialEq, Eq, Structural)]
pub struct Note {
    pub pitch_value: u32,
    pub start_ticks: u128,
    pub end_ticks: u128,
}

impl View for Note {
    type V = NoteSpan;

    open spec fn view(&self) -> NoteSpan {
        NoteSpan {
            pitch: self.pitch_value as nat,
            start: self.start_ticks as nat,
            end: self.end_ticks as nat,
        }
    }
}

/// The spans of a sequence of notes, in order.
pub open spec fn spans(notes: Seq<Note>) -> Seq<NoteSpan> {
    Seq::new(notes.len(), |i: int| notes[i]@)
}

} // verus!
