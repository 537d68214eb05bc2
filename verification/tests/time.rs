use midi2json::time::{get_time_seconds, note_seconds, NoteSeconds, Seconds, Tempo};
use midi2json::{get_notes, Message, Note, TimedEvent};

fn bpm(beats: u32) -> Tempo {
    Tempo::new(beats, 1).unwrap()
}

fn as_float(time: Seconds) -> f64 {
    time.num as f64 / time.den as f64
}

#[test]
fn test_get_time_seconds_120() {
    assert_eq!(as_float(get_time_seconds(0, bpm(120))), 0.0);
    assert_eq!(as_float(get_time_seconds(48, bpm(120))), 0.25);
    assert_eq!(as_float(get_time_seconds(192, bpm(120))), 1.0);
}

#[test]
fn test_get_time_seconds_60() {
    assert_eq!(as_float(get_time_seconds(0, bpm(60))), 0.0);
    assert_eq!(as_float(get_time_seconds(48, bpm(60))), 0.5);
    assert_eq!(as_float(get_time_seconds(96, bpm(60))), 1.0);
}

#[test]
fn seconds_are_the_exact_quotient() {
    assert_eq!(get_time_seconds(48, bpm(120)), Seconds { num: 240, den: 960 });
    assert_eq!(get_time_seconds(96, bpm(60)), Seconds { num: 480, den: 480 });
    assert_eq!(get_time_seconds(0, bpm(7)), Seconds { num: 0, den: 56 });
}

#[test]
fn fractional_tempo() {
    // 92.5 beats per minute are 185 beats in two minutes: 148 ticks a second.
    let tempo = Tempo::new(185, 2).unwrap();
    assert_eq!(get_time_seconds(148, tempo), Seconds { num: 1480, den: 1480 });
    assert_eq!(as_float(get_time_seconds(37, tempo)), 0.25);
}

#[test]
fn largest_arguments_do_not_overflow() {
    let tempo = Tempo::new(u32::MAX, u32::MAX).unwrap();
    let time = get_time_seconds(u64::MAX, tempo);
    assert_eq!(time.num, 5 * (u64::MAX as u128) * (u32::MAX as u128));
    assert_eq!(time.den, 8 * (u32::MAX as u64));
}

#[test]
fn tempo_needs_positive_parts() {
    assert_eq!(Tempo::new(0, 1), None);
    assert_eq!(Tempo::new(120, 0), None);
    assert_eq!(Tempo::new(0, 0), None);
    assert_eq!(Tempo::new(120, 1), Some(Tempo { beats: 120, minutes: 1 }));
}

#[test]
fn seconds_grow_with_ticks() {
    let tempo = bpm(90);
    let mut last = get_time_seconds(0, tempo);
    for ticks in 1..500u64 {
        let next = get_time_seconds(ticks, tempo);
        assert!(last.num * (next.den as u128) <= next.num * (last.den as u128));
        last = next;
    }
}

#[test]
fn seconds_shrink_with_tempo() {
    let mut last = get_time_seconds(480, bpm(1));
    for beats in 2..300u32 {
        let next = get_time_seconds(480, bpm(beats));
        assert!(next.num * (last.den as u128) <= last.num * (next.den as u128));
        last = next;
    }
}

#[test]
fn zero_ticks_are_zero_seconds() {
    for beats in 1..300u32 {
        let time = get_time_seconds(0, bpm(beats));
        assert_eq!(time.num, 0);
        assert!(time.den > 0);
        assert_eq!(as_float(time), 0.0);
    }
}

#[test]
fn note_gets_its_seconds() {
    let note = Note { pitch_value: 60, start_ticks: 48, end_ticks: 192 };
    assert_eq!(
        note_seconds(&note, bpm(120)),
        Some(NoteSeconds {
            pitch_value: 60,
            time_start: Seconds { num: 240, den: 960 },
            time_end: Seconds { num: 960, den: 960 },
        })
    );
    let timed = note_seconds(&note, bpm(120)).unwrap();
    assert_eq!(as_float(timed.time_start), 0.25);
    assert_eq!(as_float(timed.time_end), 1.0);
}

#[test]
fn note_seconds_agree_with_get_time_seconds() {
    let tempo = Tempo::new(185, 2).unwrap();
    let note = Note { pitch_value: 7, start_ticks: 37, end_ticks: u64::MAX as u128 };
    let timed = note_seconds(&note, tempo).unwrap();
    assert_eq!(timed.pitch_value, 7);
    assert_eq!(timed.time_start, get_time_seconds(37, tempo));
    assert_eq!(timed.time_end, get_time_seconds(u64::MAX, tempo));
}

#[test]
fn note_beyond_64_bits_has_no_seconds() {
    let tempo = bpm(120);
    let edge = u64::MAX as u128 + 1;
    assert_eq!(note_seconds(&Note { pitch_value: 1, start_ticks: 0, end_ticks: edge }, tempo), None);
    assert_eq!(note_seconds(&Note { pitch_value: 1, start_ticks: edge, end_ticks: 0 }, tempo), None);
    assert_eq!(
        note_seconds(&Note { pitch_value: 1, start_ticks: edge, end_ticks: u128::MAX }, tempo),
        None
    );
}

#[test]
fn seconds_of_the_notes_of_a_track() {
    let track = [
        TimedEvent { delta_ticks: 96, message: Message::NoteBegin { pitch: 60, velocity: 64 } },
        TimedEvent { delta_ticks: 48, message: Message::Other },
        TimedEvent { delta_ticks: 48, message: Message::NoteEnd { pitch: 60, velocity: 0 } },
    ];
    let notes = get_notes(&track).unwrap();
    assert_eq!(notes.len(), 1);
    let timed = note_seconds(&notes[0], bpm(60)).unwrap();
    assert_eq!(as_float(timed.time_start), 1.0);
    assert_eq!(as_float(timed.time_end), 2.0);
    assert!(
        timed.time_start.num * (timed.time_end.den as u128)
            <= timed.time_end.num * (timed.time_start.den as u128)
    );
}
