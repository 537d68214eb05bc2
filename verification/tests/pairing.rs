use midi2json::pairer::PendingNote;
use midi2json::{get_notes, Message, Note, NotePairer, PairError, Step, TimedEvent};

fn begin(delta_ticks: u32, pitch: u8) -> TimedEvent {
    TimedEvent { delta_ticks, message: Message::NoteBegin { pitch, velocity: 64 } }
}

fn end(delta_ticks: u32, pitch: u8) -> TimedEvent {
    TimedEvent { delta_ticks, message: Message::NoteEnd { pitch, velocity: 0 } }
}

fn other(delta_ticks: u32) -> TimedEvent {
    TimedEvent { delta_ticks, message: Message::Other }
}

fn note(pitch_value: u32, start_ticks: u128, end_ticks: u128) -> Note {
    Note { pitch_value, start_ticks, end_ticks }
}

#[test]
fn empty_track_has_no_notes() {
    assert_eq!(get_notes(&[]), Ok(vec![]));
}

#[test]
fn one_pair_is_one_note() {
    let track = [begin(0, 60), end(48, 60)];
    assert_eq!(get_notes(&track), Ok(vec![note(60, 0, 48)]));
}

#[test]
fn alternating_pairs_give_one_note_per_note_end() {
    let track = [begin(0, 60), end(48, 60), begin(0, 62), end(48, 62), begin(96, 64), end(24, 64)];
    assert_eq!(
        get_notes(&track),
        Ok(vec![note(60, 0, 48), note(62, 48, 96), note(64, 192, 216)])
    );
}

#[test]
fn pitch_comes_from_the_note_begin() {
    let track = [begin(0, 60), end(10, 72)];
    assert_eq!(get_notes(&track), Ok(vec![note(60, 0, 10)]));
}

#[test]
fn note_end_without_note_begin_is_rejected() {
    assert_eq!(get_notes(&[end(0, 60)]), Err(PairError::UnmatchedNoteEnd { index: 0 }));
    let track = [other(5), other(7), end(3, 60), begin(0, 61), end(4, 61)];
    assert_eq!(get_notes(&track), Err(PairError::UnmatchedNoteEnd { index: 2 }));
}

#[test]
fn second_note_end_in_a_row_is_rejected() {
    let track = [begin(0, 60), end(48, 60), end(48, 60)];
    assert_eq!(get_notes(&track), Err(PairError::UnmatchedNoteEnd { index: 2 }));
}

#[test]
fn rejection_keeps_no_earlier_note() {
    let track = [begin(0, 60), end(48, 60), begin(0, 62), end(48, 62), other(1), end(1, 62)];
    assert_eq!(get_notes(&track), Err(PairError::UnmatchedNoteEnd { index: 5 }));
}

#[test]
fn second_note_begin_replaces_the_first() {
    let track = [begin(10, 60), begin(20, 67), end(30, 67)];
    assert_eq!(get_notes(&track), Ok(vec![note(67, 30, 60)]));
}

#[test]
fn trailing_note_begin_is_dropped() {
    let track = [begin(0, 60), end(48, 60), begin(12, 62)];
    assert_eq!(get_notes(&track), Ok(vec![note(60, 0, 48)]));
    assert_eq!(get_notes(&[begin(12, 62)]), Ok(vec![]));
}

#[test]
fn other_messages_advance_the_clock_only() {
    let track = [other(100), begin(1, 60), other(10), other(20), end(5, 60), other(1000)];
    assert_eq!(get_notes(&track), Ok(vec![note(60, 101, 136)]));
}

#[test]
fn pitch_is_not_validated() {
    let track = [begin(0, 255), end(1, 0)];
    assert_eq!(get_notes(&track), Ok(vec![note(255, 0, 1)]));
}

#[test]
fn clock_passes_the_range_of_a_delta() {
    let track = [other(u32::MAX), other(u32::MAX), begin(u32::MAX, 1), end(u32::MAX, 1)];
    let d = u32::MAX as u128;
    assert_eq!(get_notes(&track), Ok(vec![note(1, 3 * d, 4 * d)]));
}

#[test]
fn notes_are_in_time_order() {
    let mut track = Vec::new();
    for k in 0..50u32 {
        track.push(begin(k % 7, (k % 128) as u8));
        track.push(other(k % 3));
        track.push(end(k % 5, (k % 128) as u8));
    }
    let notes = get_notes(&track).unwrap();
    assert_eq!(notes.len(), 50);
    for k in 0..notes.len() {
        assert!(notes[k].start_ticks <= notes[k].end_ticks);
        assert_eq!(notes[k].pitch_value, (k % 128) as u32);
        if k > 0 {
            assert!(notes[k - 1].end_ticks <= notes[k].start_ticks);
        }
    }
}

#[test]
fn new_pairer_is_at_zero() {
    let pairer = NotePairer::new();
    assert_eq!(pairer.elapsed_ticks(), 0);
    assert_eq!(pairer.pending(), None);
}

#[test]
fn pairer_steps() {
    let mut pairer = NotePairer::new();
    assert_eq!(pairer.feed(&other(3)), Step::Quiet);
    assert_eq!(pairer.elapsed_ticks(), 3);
    assert_eq!(pairer.pending(), None);

    assert_eq!(pairer.feed(&begin(4, 60)), Step::Quiet);
    assert_eq!(pairer.elapsed_ticks(), 7);
    assert_eq!(pairer.pending(), Some(PendingNote { pitch_value: 60, start_ticks: 7 }));

    assert_eq!(pairer.feed(&other(1)), Step::Quiet);
    assert_eq!(pairer.pending(), Some(PendingNote { pitch_value: 60, start_ticks: 7 }));

    assert_eq!(pairer.feed(&begin(2, 61)), Step::Quiet);
    assert_eq!(pairer.pending(), Some(PendingNote { pitch_value: 61, start_ticks: 10 }));

    assert_eq!(pairer.feed(&end(5, 99)), Step::Emitted(note(61, 10, 15)));
    assert_eq!(pairer.elapsed_ticks(), 15);
    assert_eq!(pairer.pending(), None);

    assert_eq!(pairer.feed(&end(5, 99)), Step::Unmatched);
    assert_eq!(pairer.elapsed_ticks(), 20);
    assert_eq!(pairer.pending(), None);
}
