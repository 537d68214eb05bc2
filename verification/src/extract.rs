//! From a file's bytes to the notes of its first track.

use vstd::prelude::*;
use crate::decode::{decode_tracks, decoding, track_views, DecodeError};
use crate::event::TimedEvent;
use crate::note::{spans, Note, NoteSpan};
use crate::pairer::{get_notes, pairing, PairError};

verus! {

/// Why no notes were extracted, as the contracts speak of it.
pub enum Fault {
    /// The bytes could not be decoded.
    Decode(DecodeError),
    /// The file holds no track.
    NoTracks,
    /// The event at this position of the first track is a note-end, and no
    /// note was pending.
    UnmatchedNoteEnd(int),
}

/// Why no notes were extracted.
#[derive(Clone, Copy, Debug, PartialEq, Eq, Structural)]
pub enum ExtractError {
    /// The bytes could not be decoded.
    Decode(DecodeError),
    /// The file holds no track.
    NoTracks,
    /// The first track could not be paired.
    Pair(PairError),
}

impl View for ExtractError {
    type V = Fault;

    open spec fn view(&self) -> Fault {
        match *self {
            ExtractError::Decode(e) => Fault::Decode(e),
            ExtractError::NoTracks => Fault::NoTracks,
            ExtractError::Pair(PairError::UnmatchedNoteEnd { index }) => Fault::UnmatchedNoteEnd(
                index as int,
            ),
        }
    }
}

/// The notes of the first of some tracks. Later tracks are not looked at.
pub open spec fn first_track_notes(tracks: Seq<Seq<TimedEvent>>) -> Result<Seq<NoteSpan>, Fault> {
    if tracks.len() == 0 {
        Err(Fault::NoTracks)
    } else {
        match pairing(tracks[0]) {
            Ok(notes) => Ok(notes),
            Err(at) => Err(Fault::UnmatchedNoteEnd(at)),
        }
    }
}

/// The notes of the first track of a file.
pub open spec fn extraction(bytes: Seq<u8>) -> Result<Seq<NoteSpan>, Fault> {
    match decoding(bytes) {
        Ok(tracks) => first_track_notes(tracks),
        Err(e) => Err(Fault::Decode(e)),
    }
}

/// An executable result as the contracts speak of it.
pub open spec fn outcome(result: Result<Vec<Note>, ExtractError>) -> Result<Seq<NoteSpan>, Fault> {
    match result {
        Ok(notes) => Ok(spans(notes@)),
        Err(e) => Err(e@),
    }
}

/// Pairs the notes of the first of some decoded tracks.
pub fn notes_of_first_track(tracks: &Vec<Vec<TimedEvent>>) -> (result: Result<
    Vec<Note>,
    ExtractError,
>)
    ensures
        outcome(result) == first_track_notes(track_views(tracks@)),
{
    if tracks.len() == 0 {
        return Err(ExtractError::NoTracks);
    }
    match get_notes(tracks[0].as_slice()) {
        Ok(notes) => Ok(notes),
        Err(e) => Err(ExtractError::Pair(e)),
    }
}

/// Decodes a Standard MIDI File and pairs the notes of its first track.
///
/// Fails where the bytes cannot be decoded, where the file holds no track,
/// and where the first track has a note-end with nothing pending.
pub fn extract_notes(bytes: &[u8]) -> (result: Result<Vec<Note>, ExtractError>)
    ensures
        outcome(result) == extraction(bytes@),
{
    match decode_tracks(bytes) {
        Ok(tracks) => notes_of_first_track(&tracks),
        Err(e) => Err(ExtractError::Decode(e)),
    }
}

} // verus!
