//! What holds of every track.
//!
//! Each statement here is about `pairing`, the result that `get_notes`
//! returns, and is proved for all tracks.

use vstd::prelude::*;
use crate::event::{elapsed_ticks, TimedEvent};
use crate::note::NoteSpan;
use crate::pairer::{
    emission, lemma_rejection_is_final, lemma_state_clock, pairing, pairing_prefix, state_after,
    Pending, StepModel,
};

verus! {

/// How many of the first `n` events are note-ends.
pub open spec fn count_note_ends(events: Seq<TimedEvent>, n: int) -> nat
    decreases n,
{
    if n <= 0 {
        0
    } else if events[n - 1].message is NoteEnd {
        count_note_ends(events, n - 1) + 1
    } else {
        count_note_ends(events, n - 1)
    }
}

/// Note-begin and note-end take turns, starting with a note-begin.
pub open spec fn alternating(events: Seq<TimedEvent>) -> bool {
    forall|i: int|
        0 <= i < events.len() ==> if i % 2 == 0 {
            (#[trigger] events[i]).message is NoteBegin
        } else {
            events[i].message is NoteEnd
        }
}

/// The clock never runs backwards.
pub proof fn law_clock_never_runs_backwards(events: Seq<TimedEvent>, m: int, n: int)
    requires
        m <= n,
    ensures
        elapsed_ticks(events, m) <= elapsed_ticks(events, n),
    decreases n,
{
    if m < n && n > 0 {
        law_clock_never_runs_backwards(events, m, n - 1);
    }
}

/// The state and the result after `n` events depend on those events only.
pub proof fn lemma_prefix_only(a: Seq<TimedEvent>, b: Seq<TimedEvent>, n: int)
    requires
        0 <= n <= a.len(),
        n <= b.len(),
        forall|i: int| 0 <= i < n ==> a[i] == b[i],
    ensures
        state_after(a, n) == state_after(b, n),
        pairing_prefix(a, n) == pairing_prefix(b, n),
    decreases n,
{
    if n > 0 {
        lemma_prefix_only(a, b, n - 1);
    }
}

/// A prefix of an accepted prefix is accepted, its notes are the first notes
/// of the longer one, and there is one note for each note-end.
pub proof fn lemma_accepted_prefix(events: Seq<TimedEvent>, m: int, n: int)
    requires
        0 <= m <= n,
        pairing_prefix(events, n) is Ok,
    ensures
        pairing_prefix(events, m) is Ok,
        pairing_prefix(events, m)->Ok_0.len() == count_note_ends(events, m),
        pairing_prefix(events, n)->Ok_0.len() == count_note_ends(events, n),
        count_note_ends(events, m) <= count_note_ends(events, n),
        forall|k: int|
            0 <= k < count_note_ends(events, m) ==> pairing_prefix(events, m)->Ok_0[k]
                == #[trigger] pairing_prefix(events, n)->Ok_0[k],
    decreases n,
{
    if n > 0 {
        lemma_accepted_prefix(events, 0, n - 1);
        if m < n {
            lemma_accepted_prefix(events, m, n - 1);
        }
    }
}

/// After a note-begin, and until the next note message, the slot holds that
/// note-begin's pitch and time.
pub proof fn lemma_slot_holds_latest_begin(events: Seq<TimedEvent>, begin: int, n: int)
    requires
        0 <= begin < n <= events.len(),
        events[begin].message is NoteBegin,
        forall|m: int| begin < m < n ==> (#[trigger] events[m]).message is Other,
    ensures
        state_after(events, n).pending == Some(
            Pending {
                pitch: events[begin].message->NoteBegin_pitch as nat,
                start: elapsed_ticks(events, begin + 1),
            },
        ),
    decreases n,
{
    if n == begin + 1 {
        lemma_state_clock(events, n);
    } else {
        lemma_slot_holds_latest_begin(events, begin, n - 1);
        assert(events[n - 1].message is Other);
    }
}

/// With no note-begin so far, the slot is empty.
pub proof fn lemma_slot_empty_without_begin(events: Seq<TimedEvent>, n: int)
    requires
        0 <= n <= events.len(),
        forall|j: int| 0 <= j < n ==> !((#[trigger] events[j]).message is NoteBegin),
    ensures
        state_after(events, n).pending is None,
    decreases n,
{
    if n > 0 {
        lemma_slot_empty_without_begin(events, n - 1);
        assert(!(events[n - 1].message is NoteBegin));
    }
}

/// A rejection names an event of the prefix, and that event is a note-end
/// that found the slot empty.
pub proof fn lemma_rejection_position(events: Seq<TimedEvent>, n: int)
    requires
        pairing_prefix(events, n) is Err,
    ensures
        0 <= pairing_prefix(events, n)->Err_0 < n,
        events[pairing_prefix(events, n)->Err_0].message is NoteEnd,
        state_after(events, pairing_prefix(events, n)->Err_0).pending is None,
    decreases n,
{
    if n > 0 && pairing_prefix(events, n - 1) is Err {
        lemma_rejection_position(events, n - 1);
    }
}

/// An accepted track yields exactly one note for each of its note-ends.
pub proof fn law_one_note_per_note_end(events: Seq<TimedEvent>)
    requires
        pairing(events) is Ok,
    ensures
        pairing(events)->Ok_0.len() == count_note_ends(events, events.len() as int),
{
    lemma_accepted_prefix(events, 0, events.len() as int);
}

/// The note that a note-end emits carries the pitch and the time of the
/// latest note-begin before it, and ends at the note-end's own time. It
/// stands in the result at the number of note-ends that came earlier.
pub proof fn law_note_of_note_end(events: Seq<TimedEvent>, begin: int, end: int)
    requires
        pairing(events) is Ok,
        0 <= begin < end < events.len(),
        events[begin].message is NoteBegin,
        events[end].message is NoteEnd,
        forall|m: int| begin < m < end ==> (#[trigger] events[m]).message is Other,
    ensures
        count_note_ends(events, end) < pairing(events)->Ok_0.len(),
        pairing(events)->Ok_0[count_note_ends(events, end) as int] == (NoteSpan {
            pitch: events[begin].message->NoteBegin_pitch as nat,
            start: elapsed_ticks(events, begin + 1),
            end: elapsed_ticks(events, end + 1),
        }),
{
    let len = events.len() as int;
    lemma_accepted_prefix(events, end + 1, len);
    lemma_accepted_prefix(events, end, end + 1);
    lemma_slot_holds_latest_begin(events, begin, end);
    lemma_state_clock(events, end);
    let k = count_note_ends(events, end) as int;
    assert(pairing_prefix(events, end + 1)->Ok_0[k] == pairing_prefix(events, len)->Ok_0[k]);
}

/// On a track in which note-begin and note-end take turns, every note-end
/// yields a note, and the note has the pitch of the note-begin just before
/// it.
pub proof fn law_alternating_pairs(events: Seq<TimedEvent>)
    requires
        alternating(events),
    ensures
        pairing(events) is Ok,
        pairing(events)->Ok_0.len() == count_note_ends(events, events.len() as int),
        pairing(events)->Ok_0.len() == events.len() / 2,
        forall|k: int|
            0 <= k < events.len() / 2 ==> #[trigger] pairing(events)->Ok_0[k] == (NoteSpan {
                pitch: events[2 * k].message->NoteBegin_pitch as nat,
                start: elapsed_ticks(events, 2 * k + 1),
                end: elapsed_ticks(events, 2 * k + 2),
            }),
{
    let len = events.len() as int;
    lemma_alternating_accepted(events, len);
    lemma_accepted_prefix(events, 0, len);
    assert forall|k: int| 0 <= k < events.len() / 2 implies #[trigger] pairing(events)->Ok_0[k]
        == (NoteSpan {
        pitch: events[2 * k].message->NoteBegin_pitch as nat,
        start: elapsed_ticks(events, 2 * k + 1),
        end: elapsed_ticks(events, 2 * k + 2),
    }) by {
        assert(events[2 * k].message is NoteBegin);
        assert(events[2 * k + 1].message is NoteEnd);
        lemma_alternating_accepted(events, 2 * k + 1);
        law_note_of_note_end(events, 2 * k, 2 * k + 1);
    }
}

/// On an alternating track no prefix is rejected, and the slot is full
/// exactly after an odd number of events.
proof fn lemma_alternating_accepted(events: Seq<TimedEvent>, n: int)
    requires
        alternating(events),
        0 <= n <= events.len(),
    ensures
        pairing_prefix(events, n) is Ok,
        state_after(events, n).pending is Some <==> n % 2 == 1,
        count_note_ends(events, n) == n / 2,
    decreases n,
{
    if n > 0 {
        lemma_alternating_accepted(events, n - 1);
        let e = events[n - 1];
        assert(if (n - 1) % 2 == 0 {
            e.message is NoteBegin
        } else {
            e.message is NoteEnd
        });
    }
}

/// A note-end that no note-begin precedes rejects the track, at that
/// note-end or before it.
pub proof fn law_note_end_without_begin(events: Seq<TimedEvent>, at: int)
    requires
        0 <= at < events.len(),
        events[at].message is NoteEnd,
        forall|j: int| 0 <= j < at ==> !((#[trigger] events[j]).message is NoteBegin),
    ensures
        pairing(events) is Err,
        0 <= pairing(events)->Err_0 <= at,
{
    lemma_slot_empty_without_begin(events, at);
    assert(pairing_prefix(events, at + 1) is Err);
    lemma_rejection_position(events, at + 1);
    lemma_rejection_is_final(events, at + 1, events.len() as int);
}

/// A track is rejected exactly when some note-end finds the slot empty, and
/// the position reported is the first such note-end.
pub proof fn law_rejection(events: Seq<TimedEvent>)
    ensures
        pairing(events) is Err <==> exists|i: int|
            0 <= i < events.len() && (#[trigger] events[i]).message is NoteEnd && state_after(
                events,
                i,
            ).pending is None,
        pairing(events) is Err ==> {
            let at = pairing(events)->Err_0;
            &&& 0 <= at < events.len()
            &&& events[at].message is NoteEnd
            &&& state_after(events, at).pending is None
            &&& forall|i: int|
                0 <= i < at && (#[trigger] events[i]).message is NoteEnd ==> state_after(
                    events,
                    i,
                ).pending is Some
        },
{
    let len = events.len() as int;
    assert forall|i: int|
        0 <= i < len && (#[trigger] events[i]).message is NoteEnd && state_after(
            events,
            i,
        ).pending is None implies pairing(events) is Err && pairing(events)->Err_0 <= i by {
        lemma_first_rejection(events, i, len);
    }
    if pairing(events) is Err {
        lemma_rejection_position(events, len);
    }
}

/// A note-end at `i` that finds the slot empty rejects every prefix that
/// holds it, at `i` or earlier.
proof fn lemma_first_rejection(events: Seq<TimedEvent>, i: int, n: int)
    requires
        0 <= i < n,
        events[i].message is NoteEnd,
        state_after(events, i).pending is None,
    ensures
        pairing_prefix(events, n) is Err,
        pairing_prefix(events, n)->Err_0 <= i,
{
    assert(pairing_prefix(events, i + 1) is Err);
    lemma_rejection_position(events, i + 1);
    lemma_rejection_is_final(events, i + 1, n);
}

/// A note-begin at the very end of a track changes nothing: the notes are
/// those of the track without it, and so is a rejection.
pub proof fn law_trailing_note_begin(events: Seq<TimedEvent>, last: TimedEvent)
    requires
        last.message is NoteBegin,
    ensures
        pairing(events.push(last)) == pairing(events),
{
    let longer = events.push(last);
    let len = events.len() as int;
    lemma_prefix_only(longer, events, len);
    assert(longer[len] == last);
}

/// A message at the very end of a track that is no note message changes
/// nothing either.
pub proof fn law_trailing_other(events: Seq<TimedEvent>, last: TimedEvent)
    requires
        last.message is Other,
    ensures
        pairing(events.push(last)) == pairing(events),
{
    let longer = events.push(last);
    let len = events.len() as int;
    lemma_prefix_only(longer, events, len);
    assert(longer[len] == last);
}

/// The notes found so far all end by the current time, each starts no later
/// than it ends and no earlier than the note before it ended, and a pending
/// note started after all of them ended.
pub open spec fn in_order(notes: Seq<NoteSpan>, now: nat, pending: Option<Pending>) -> bool {
    &&& forall|k: int| 0 <= k < notes.len() ==> (#[trigger] notes[k]).start <= notes[k].end
    &&& forall|k: int| 0 <= k < notes.len() ==> (#[trigger] notes[k]).end <= now
    &&& forall|j: int, k: int|
        0 <= j < k < notes.len() ==> (#[trigger] notes[j]).end <= (#[trigger] notes[k]).start
    &&& pending is Some ==> {
        &&& pending->0.start <= now
        &&& forall|k: int| 0 <= k < notes.len() ==> (#[trigger] notes[k]).end <= pending->0.start
    }
}

proof fn lemma_in_order(events: Seq<TimedEvent>, n: int)
    requires
        0 <= n <= events.len(),
        pairing_prefix(events, n) is Ok,
    ensures
        in_order(
            pairing_prefix(events, n)->Ok_0,
            elapsed_ticks(events, n),
            state_after(events, n).pending,
        ),
    decreases n,
{
    lemma_state_clock(events, n);
    if n > 0 {
        lemma_in_order(events, n - 1);
        lemma_state_clock(events, n - 1);
        let before = pairing_prefix(events, n - 1)->Ok_0;
        let after = pairing_prefix(events, n)->Ok_0;
        let s = state_after(events, n - 1);
        let e = events[n - 1];
        match emission(s, e) {
            StepModel::Emitted(note) => {
                assert(after == before.push(note));
                assert forall|j: int, k: int| 0 <= j < k < after.len() implies (#[trigger] after[j]).end
                    <= (#[trigger] after[k]).start by {
                    if k < before.len() {
                        assert(after[j] == before[j] && after[k] == before[k]);
                    } else {
                        assert(after[j] == before[j]);
                    }
                }
                assert forall|k: int| 0 <= k < after.len() implies (#[trigger] after[k]).end
                    <= elapsed_ticks(events, n) by {
                    if k < before.len() {
                        assert(after[k] == before[k]);
                    }
                }
                assert forall|k: int| 0 <= k < after.len() implies (#[trigger] after[k]).start
                    <= after[k].end by {
                    if k < before.len() {
                        assert(after[k] == before[k]);
                    }
                }
            },
            _ => {
                assert(after == before);
            },
        }
    }
}

/// The notes of an accepted track are in time order and do not overlap: each
/// starts no later than it ends, and no earlier than the note before it
/// ended. None ends after the last event of the track.
pub proof fn law_notes_in_time_order(events: Seq<TimedEvent>)
    requires
        pairing(events) is Ok,
    ensures
        forall|k: int|
            0 <= k < pairing(events)->Ok_0.len() ==> (#[trigger] pairing(events)->Ok_0[k]).start
                <= pairing(events)->Ok_0[k].end,
        forall|k: int|
            0 <= k < pairing(events)->Ok_0.len() ==> (#[trigger] pairing(events)->Ok_0[k]).end
                <= elapsed_ticks(events, events.len() as int),
        forall|j: int, k: int|
            0 <= j < k < pairing(events)->Ok_0.len() ==> (#[trigger] pairing(events)->Ok_0[j]).end
                <= (#[trigger] pairing(events)->Ok_0[k]).start,
{
    lemma_in_order(events, events.len() as int);
}

} // verus!
