//! Note extraction from a track of timed MIDI events.
//!
//! A track is a sequence of events, each a number of ticks after the one
//! before it. The pairer walks a track once, keeps the running tick count, and
//! joins every note-begin to the note-end that follows it. The decoder turns
//! the bytes of a Standard MIDI File into such tracks.
//!
//! Notes carry their times in whole ticks. The `time` module scales ticks to
//! seconds for a tempo, exactly, and stamps a note with its seconds.

pub mod event;
pub mod note;
pub mod pairer;
pub mod laws;
pub mod decode;
pub mod extract;
pub mod time;

pub use decode::{decode_tracks, DecodeError};
pub use event::{Message, TimedEvent};
pub use extract::{extract_notes, notes_of_first_track, ExtractError};
pub use note::{Note, NoteSpan};
pub use pairer::{get_notes, NotePairer, PairError, PendingNote, Step};
pub use time::{get_time_seconds, note_seconds, NoteSeconds, Seconds, Tempo};
