//! From the bytes of a Standard MIDI File to tracks of events.
//!
//! The file format is read by `midly`. This module walks the chunks of the
//! file first, as far as their lengths lead: it turns away a header that the
//! decoder cannot read, leaves out the chunks that the decoder would skip,
//! hands it the rest, and keeps of every event its delta and its note
//! message.

use vstd::prelude::*;
use crate::event::{Message, TimedEvent};

verus! {

/// `midly::Error`, the decoder's error. Nothing is read from it.
#[verifier::external_type_specification]
#[verifier::external_body]
pub struct ExMidlyError(midly::Error);

/// The tracks that `midly` reads from a file's bytes, each event reduced to
/// its delta and its note message; `None` where it rejects the bytes.
pub uninterp spec fn smf_tracks(bytes: Seq<u8>) -> Option<Seq<Seq<TimedEvent>>>;

/// The events of each track, in order.
pub open spec fn track_views(tracks: Seq<Vec<TimedEvent>>) -> Seq<Seq<TimedEvent>> {
    Seq::new(tracks.len(), |i: int| tracks[i]@)
}

/// The four bytes from `at` on, read as one number, first byte highest.
pub open spec fn be_u32(bytes: Seq<u8>, at: int) -> int {
    bytes[at] as int * 0x100_0000 + bytes[at + 1] as int * 0x1_0000 + bytes[at + 2] as int * 0x100
        + bytes[at + 3] as int
}

/// A whole chunk stands at `at`: four bytes of tag, four of length, and as
/// many bytes of data as the length says.
pub open spec fn chunk_at(bytes: Seq<u8>, at: int) -> bool {
    &&& 0 <= at
    &&& at + 8 <= bytes.len()
    &&& at + 8 + be_u32(bytes, at + 4) <= bytes.len()
}

/// Where the chunk at `at` ends and the next one starts.
pub open spec fn chunk_end(bytes: Seq<u8>, at: int) -> int {
    at + 8 + be_u32(bytes, at + 4)
}

/// The tag at `at` is that of a header chunk, `MThd`.
pub open spec fn header_tag_at(bytes: Seq<u8>, at: int) -> bool {
    bytes[at] == 0x4D && bytes[at + 1] == 0x54 && bytes[at + 2] == 0x68 && bytes[at + 3] == 0x64
}

/// The tag at `at` is that of a track chunk, `MTrk`.
pub open spec fn track_tag_at(bytes: Seq<u8>, at: int) -> bool {
    bytes[at] == 0x4D && bytes[at + 1] == 0x54 && bytes[at + 2] == 0x72 && bytes[at + 3] == 0x6B
}

/// The chunk at `at` is a header of six data bytes or more, and the byte
/// where a header keeps its frame rate is 0x80.
///
/// A header stores a frame rate as a negative signed byte, and the decoder
/// negates it. 0x80 is -128, which has no negation in a signed byte.
pub open spec fn bad_frame_rate_at(bytes: Seq<u8>, at: int) -> bool {
    header_tag_at(bytes, at) && be_u32(bytes, at + 4) >= 6 && bytes[at + 12] == 0x80
}

/// One of the chunks from `at` on is a header with the frame rate 0x80.
pub open spec fn bad_frame_rate_from(bytes: Seq<u8>, at: int) -> bool
    decreases bytes.len() - at,
{
    if chunk_at(bytes, at) {
        bad_frame_rate_at(bytes, at) || bad_frame_rate_from(bytes, chunk_end(bytes, at))
    } else {
        false
    }
}

/// How many of the chunks from `at` on are neither header nor track.
pub open spec fn unknown_chunks_from(bytes: Seq<u8>, at: int) -> nat
    decreases bytes.len() - at,
{
    if chunk_at(bytes, at) {
        let rest = unknown_chunks_from(bytes, chunk_end(bytes, at));
        if header_tag_at(bytes, at) || track_tag_at(bytes, at) {
            rest
        } else {
            rest + 1
        }
    } else {
        0
    }
}

/// The bytes from `at` on without the chunks that are neither header nor
/// track. What follows the last whole chunk is kept as it is.
pub open spec fn known_chunks_from(bytes: Seq<u8>, at: int) -> Seq<u8>
    decreases bytes.len() - at,
{
    if chunk_at(bytes, at) {
        let rest = known_chunks_from(bytes, chunk_end(bytes, at));
        if header_tag_at(bytes, at) || track_tag_at(bytes, at) {
            bytes.subrange(at, chunk_end(bytes, at)) + rest
        } else {
            rest
        }
    } else {
        bytes.subrange(at, bytes.len() as int)
    }
}

/// One of the chunks of a file is a header with the frame rate 0x80.
pub open spec fn has_bad_frame_rate(bytes: Seq<u8>) -> bool {
    bad_frame_rate_from(bytes, 0)
}

/// How many chunks of a file are neither header nor track.
pub open spec fn unknown_chunks(bytes: Seq<u8>) -> nat {
    unknown_chunks_from(bytes, 0)
}

/// A file without its chunks that are neither header nor track.
pub open spec fn known_chunks(bytes: Seq<u8>) -> Seq<u8> {
    known_chunks_from(bytes, 0)
}

/// The chunks of `longer` from `shift + at` on are those of `bytes` from
/// `at` on, where `bytes` is what follows the first `shift` bytes of
/// `longer`.
proof fn lemma_chunks_shift(longer: Seq<u8>, bytes: Seq<u8>, shift: int, at: int)
    requires
        0 <= shift,
        0 <= at,
        longer.len() == shift + bytes.len(),
        forall|i: int| 0 <= i < bytes.len() ==> longer[shift + i] == bytes[i],
    ensures
        bad_frame_rate_from(longer, shift + at) == bad_frame_rate_from(bytes, at),
        unknown_chunks_from(longer, shift + at) == unknown_chunks_from(bytes, at),
    decreases bytes.len() - at,
{
    if at + 8 <= bytes.len() {
        assert(longer[shift + at] == bytes[at]);
        assert(longer[shift + at + 1] == bytes[at + 1]);
        assert(longer[shift + at + 2] == bytes[at + 2]);
        assert(longer[shift + at + 3] == bytes[at + 3]);
        assert(longer[shift + at + 4] == bytes[at + 4]);
        assert(longer[shift + at + 5] == bytes[at + 5]);
        assert(longer[shift + at + 6] == bytes[at + 6]);
        assert(longer[shift + at + 7] == bytes[at + 7]);
        if chunk_at(bytes, at) {
            if be_u32(bytes, at + 4) >= 6 {
                assert(longer[shift + at + 12] == bytes[at + 12]);
            }
            lemma_chunks_shift(longer, bytes, shift, chunk_end(bytes, at));
        }
    }
}

/// Without its unknown chunks a file has no unknown chunk, and a header with
/// the frame rate 0x80 exactly if it had one before.
pub proof fn lemma_known_chunks(bytes: Seq<u8>, at: int)
    requires
        0 <= at <= bytes.len(),
    ensures
        unknown_chunks(known_chunks_from(bytes, at)) == 0,
        has_bad_frame_rate(known_chunks_from(bytes, at)) == bad_frame_rate_from(bytes, at),
    decreases bytes.len() - at,
{
    let kept = known_chunks_from(bytes, at);
    if chunk_at(bytes, at) {
        let end = chunk_end(bytes, at);
        let rest = known_chunks_from(bytes, end);
        lemma_known_chunks(bytes, end);
        if header_tag_at(bytes, at) || track_tag_at(bytes, at) {
            let chunk = bytes.subrange(at, end);
            assert(kept == chunk + rest);
            assert(kept[0] == bytes[at]);
            assert(kept[1] == bytes[at + 1]);
            assert(kept[2] == bytes[at + 2]);
            assert(kept[3] == bytes[at + 3]);
            assert(kept[4] == bytes[at + 4]);
            assert(kept[5] == bytes[at + 5]);
            assert(kept[6] == bytes[at + 6]);
            assert(kept[7] == bytes[at + 7]);
            assert(chunk_at(kept, 0));
            assert(chunk_end(kept, 0) == chunk.len());
            if be_u32(bytes, at + 4) >= 6 {
                assert(kept[12] == bytes[at + 12]);
            }
            lemma_chunks_shift(kept, rest, chunk.len() as int, 0);
        }
    } else {
        if at + 8 <= bytes.len() {
            assert(kept[4] == bytes[at + 4]);
            assert(kept[5] == bytes[at + 5]);
            assert(kept[6] == bytes[at + 6]);
            assert(kept[7] == bytes[at + 7]);
        }
        assert(!chunk_at(kept, 0));
    }
}

/// Why bytes could not be decoded.
#[derive(Clone, Copy, Debug, PartialEq, Eq, Structural)]
pub enum DecodeError {
    /// A header chunk holds a frame rate that cannot be negated.
    BadFrameRate,
    /// The decoder rejected the bytes.
    Malformed,
}

/// What decoding a file's bytes gives.
pub open spec fn decoding(bytes: Seq<u8>) -> Result<Seq<Seq<TimedEvent>>, DecodeError> {
    if has_bad_frame_rate(bytes) {
        Err(DecodeError::BadFrameRate)
    } else {
        match smf_tracks(known_chunks(bytes)) {
            Some(tracks) => Ok(tracks),
            None => Err(DecodeError::Malformed),
        }
    }
}

/// Calls `midly::SmfBuffer::parse_collect` on the bytes and keeps of each
/// event its delta, and its key and velocity where it is a note-on or a
/// note-off.
///
/// Trusted: that the decoder's result is a function of the bytes alone, which
/// `smf_tracks` names. Left out are the bytes on which the decoder may not
/// return: a header chunk with the frame rate 0x80, whose negation
/// overflows, and a chunk of unknown kind, which the decoder skips by
/// calling itself.
#[verifier::external_body]
fn parse_collect(bytes: Vec<u8>) -> (parsed: Result<Vec<Vec<TimedEvent>>, midly::Error>)
    requires
        !has_bad_frame_rate(bytes@),
        unknown_chunks(bytes@) == 0,
    ensures
        parsed is Ok == smf_tracks(bytes@) is Some,
        parsed is Ok ==> track_views(parsed->Ok_0@) == smf_tracks(bytes@)->0,
{
    let buffer = midly::SmfBuffer::new(bytes);
    let smf = buffer.parse_collect()?;
    Ok(smf.tracks.iter().map(|track| track.iter().map(|event| TimedEvent {
        delta_ticks: event.delta.as_int(),
        message: match event.kind {
            midly::EventKind::Midi { message: midly::MidiMessage::NoteOn(key, vel), .. } =>
                Message::NoteBegin { pitch: key.as_int(), velocity: vel.as_int() },
            midly::EventKind::Midi { message: midly::MidiMessage::NoteOff(key, vel), .. } =>
                Message::NoteEnd { pitch: key.as_int(), velocity: vel.as_int() },
            _ => Message::Other,
        },
    }).collect()).collect())
}

/// Where the chunk at `at` ends, if a whole chunk stands there.
pub fn chunk_end_at(bytes: &[u8], at: usize) -> (end: Option<usize>)
    ensures
        end is Some == chunk_at(bytes@, at as int),
        end is Some ==> end->0 == chunk_end(bytes@, at as int),
{
    if at > bytes.len() {
        return None;
    }
    let room: usize = bytes.len() - at;
    if room < 8 {
        return None;
    }
    let length: u64 = (bytes[at + 4] as u64) * 0x100_0000 + (bytes[at + 5] as u64) * 0x1_0000 + (
    bytes[at + 6] as u64) * 0x100 + (bytes[at + 7] as u64);
    if length > (room - 8) as u64 {
        return None;
    }
    Some(at + 8 + length as usize)
}

/// Whether the tag at `at` is that of a header chunk.
fn is_header_tag(bytes: &[u8], at: usize) -> (yes: bool)
    requires
        at + 4 <= bytes.len(),
    ensures
        yes == header_tag_at(bytes@, at as int),
{
    bytes[at] == 0x4D && bytes[at + 1] == 0x54 && bytes[at + 2] == 0x68 && bytes[at + 3] == 0x64
}

/// Whether the tag at `at` is that of a track chunk.
fn is_track_tag(bytes: &[u8], at: usize) -> (yes: bool)
    requires
        at + 4 <= bytes.len(),
    ensures
        yes == track_tag_at(bytes@, at as int),
{
    bytes[at] == 0x4D && bytes[at + 1] == 0x54 && bytes[at + 2] == 0x72 && bytes[at + 3] == 0x6B
}

/// What a walk over the chunks of a file found.
#[derive(Clone, Copy, Debug, PartialEq, Eq, Structural)]
pub struct ChunkScan {
    /// A header chunk holds the frame rate 0x80.
    pub bad_frame_rate: bool,
    /// The number of chunks that are neither header nor track.
    pub unknown_chunks: usize,
}

/// Walks the chunks of a file from its first byte, each chunk's length
/// leading to the next, as far as whole chunks stand there.
pub fn scan_chunks(bytes: &[u8]) -> (found: ChunkScan)
    ensures
        found.bad_frame_rate == has_bad_frame_rate(bytes@),
        found.unknown_chunks == unknown_chunks(bytes@),
{
    let mut at: usize = 0;
    let mut bad: bool = false;
    let mut unknown: usize = 0;
    loop
        invariant
            at <= bytes.len(),
            unknown * 8 <= at,
            has_bad_frame_rate(bytes@) == (bad || bad_frame_rate_from(bytes@, at as int)),
            unknown_chunks(bytes@) == unknown + unknown_chunks_from(bytes@, at as int),
        ensures
            !chunk_at(bytes@, at as int),
        decreases bytes.len() - at,
    {
        let next = chunk_end_at(bytes, at);
        if next.is_none() {
            break ;
        }
        let end: usize = next.unwrap();
        if is_header_tag(bytes, at) {
            if end - at >= 14 && bytes[at + 12] == 0x80 {
                bad = true;
            }
        } else if !is_track_tag(bytes, at) {
            unknown = unknown + 1;
        }
        at = end;
    }
    ChunkScan { bad_frame_rate: bad, unknown_chunks: unknown }
}

/// Appends the bytes from `from` up to `to`.
fn append_range(kept: &mut Vec<u8>, bytes: &[u8], from: usize, to: usize)
    requires
        from <= to <= bytes.len(),
    ensures
        final(kept)@ == old(kept)@ + bytes@.subrange(from as int, to as int),
{
    let mut at: usize = from;
    while at < to
        invariant
            from <= at <= to,
            to <= bytes.len(),
            kept@ == old(kept)@ + bytes@.subrange(from as int, at as int),
        decreases to - at,
    {
        kept.push(bytes[at]);
        at = at + 1;
        assert(kept@ =~= old(kept)@ + bytes@.subrange(from as int, at as int));
    }
}

/// Copies a file without its chunks that are neither header nor track.
pub fn keep_known_chunks(bytes: &[u8]) -> (kept: Vec<u8>)
    ensures
        kept@ == known_chunks(bytes@),
{
    let mut kept: Vec<u8> = Vec::new();
    let mut at: usize = 0;
    assert(kept@ + known_chunks_from(bytes@, 0) =~= known_chunks(bytes@));
    loop
        invariant
            at <= bytes.len(),
            known_chunks(bytes@) == kept@ + known_chunks_from(bytes@, at as int),
        ensures
            !chunk_at(bytes@, at as int),
        decreases bytes.len() - at,
    {
        let next = chunk_end_at(bytes, at);
        if next.is_none() {
            break ;
        }
        let end: usize = next.unwrap();
        let ghost before = kept@;
        if is_header_tag(bytes, at) || is_track_tag(bytes, at) {
            append_range(&mut kept, bytes, at, end);
            assert(kept@ + known_chunks_from(bytes@, end as int) =~= before + known_chunks_from(
                bytes@,
                at as int,
            ));
        }
        at = end;
    }
    append_range(&mut kept, bytes, at, bytes.len());
    kept
}

/// Decodes the bytes of a Standard MIDI File into its tracks.
///
/// A file of which one chunk is a header with the frame rate 0x80 is turned
/// away unread. Of every other file the header and track chunks go to the
/// decoder, and its tracks or its rejection come back.
pub fn decode_tracks(bytes: &[u8]) -> (result: Result<Vec<Vec<TimedEvent>>, DecodeError>)
    ensures
        match result {
            Ok(tracks) => decoding(bytes@) == Ok::<Seq<Seq<TimedEvent>>, DecodeError>(
                track_views(tracks@),
            ),
            Err(e) => decoding(bytes@) == Err::<Seq<Seq<TimedEvent>>, DecodeError>(e),
        },
{
    if scan_chunks(bytes).bad_frame_rate {
        return Err(DecodeError::BadFrameRate);
    }
    let kept = keep_known_chunks(bytes);
    proof {
        lemma_known_chunks(bytes@, 0);
    }
    match parse_collect(kept) {
        Ok(tracks) => Ok(tracks),
        Err(_) => Err(DecodeError::Malformed),
    }
}

} // verus!
