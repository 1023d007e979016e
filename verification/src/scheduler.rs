//! From a score to its timed note events: every track's measures laid out in
//! absolute time, merged and put in order.

use vstd::prelude::*;
use crate::chord::{Chord, ChordView};
use crate::duration::Duration;
use crate::errors::MusicError;
use crate::measure::Measure;
use crate::note::Note;
use crate::score::{Score, ScoreView};
use crate::track::Track;
use crate::tuning::Tuning;

verus! {

/// Nanoseconds in a minute.
pub const NANOS_PER_MINUTE: u64 = 60_000_000_000;

/// The channels that a player has: no more tracks than these are played.
pub const CHANNEL_COUNT: usize = 16;

/// Notes that start or stop sounding on a track at a time.
#[derive(Debug, Clone, PartialEq, Eq)]
pub struct TimedEvent {
    /// Nanoseconds after the launch of the playback.
    pub trigger_time: u128,
    /// The track, which is also the channel.
    pub track_idx: usize,
    /// MIDI note numbers.
    pub notes: Vec<u8>,
    /// Whether the notes start (note-on) or stop (note-off).
    pub is_start: bool,
}

/// A timed event as plain values.
pub struct EventView {
    pub trigger_time: nat,
    pub track_idx: usize,
    pub notes: Seq<u8>,
    pub is_start: bool,
}

impl View for TimedEvent {
    type V = EventView;

    open spec fn view(&self) -> EventView {
        EventView {
            trigger_time: self.trigger_time as nat,
            track_idx: self.track_idx,
            notes: self.notes@,
            is_start: self.is_start,
        }
    }
}

/// The events of a vector, as plain values.
pub open spec fn event_views(events: Seq<TimedEvent>) -> Seq<EventView> {
    Seq::new(events.len(), |i: int| events[i]@)
}

/// Length of one beat in nanoseconds at a tempo in beats per minute,
/// rounded down.
pub open spec fn beat_nanos(tempo: u32) -> nat {
    (NANOS_PER_MINUTE as nat) / (tempo as nat)
}

/// Length of a note value in nanoseconds: the beat times the note's length
/// in quarter notes, rounded down.
pub open spec fn note_nanos(beat: nat, duration: Duration) -> nat {
    beat * duration.quarters_num() / duration.quarters_den()
}

/// Summed length of a run of notes in nanoseconds.
pub open spec fn notes_span(notes: Seq<Note>, beat: nat) -> nat
    decreases notes.len(),
{
    if notes.len() == 0 {
        0
    } else {
        notes_span(notes.drop_last(), beat) + note_nanos(beat, notes.last().duration)
    }
}

/// The MIDI note numbers of pitches, or an invalid pitch if one of them has
/// none.
pub open spec fn pitches_of(tones: Seq<Tuning>) -> Result<Seq<u8>, MusicError> {
    if exists|i: int| 0 <= i < tones.len() && !(0 <= (#[trigger] tones[i]).spec_midi_number() <= 127) {
        Err(MusicError::InvalidPitch)
    } else {
        Ok(Seq::new(tones.len(), |i: int| tones[i].spec_midi_number() as u8))
    }
}

/// The MIDI note numbers of a chord's tones.
pub open spec fn chord_pitches(chord: ChordView) -> Result<Seq<u8>, MusicError> {
    match chord.components() {
        Ok(tones) => pitches_of(tones),
        Err(e) => Err(e),
    }
}

/// The MIDI note number of a note whose note value is sound; the note value
/// is looked at first.
pub open spec fn note_pitch(note: Note) -> Result<u8, MusicError> {
    if !note.duration.tuplet_matches() {
        Err(MusicError::TupletDurationMismatch)
    } else if !(0 <= note.spec_tuning().spec_midi_number() <= 127) {
        Err(MusicError::InvalidPitch)
    } else {
        Ok(note.spec_tuning().spec_midi_number() as u8)
    }
}

pub open spec fn note_on(track: usize, time: nat, notes: Seq<u8>) -> EventView {
    EventView { trigger_time: time, track_idx: track, notes, is_start: true }
}

pub open spec fn note_off(track: usize, time: nat, notes: Seq<u8>) -> EventView {
    EventView { trigger_time: time, track_idx: track, notes, is_start: false }
}

/// The events of a run of notes laid end to end from `start`: for each
/// note in turn a note-on where the note before it ended and a note-off
/// one note length later. The first note that cannot be played fails the
/// whole run.
pub open spec fn note_events(notes: Seq<Note>, track: usize, start: nat, beat: nat) -> Result<
    Seq<EventView>,
    MusicError,
>
    decreases notes.len(),
{
    if notes.len() == 0 {
        Ok(Seq::empty())
    } else {
        match note_events(notes.drop_last(), track, start, beat) {
            Ok(front) => match note_pitch(notes.last()) {
                Ok(pitch) => {
                    let begin = start + notes_span(notes.drop_last(), beat);
                    let end = begin + note_nanos(beat, notes.last().duration);
                    Ok(
                        front.push(note_on(track, begin, seq![pitch])).push(
                            note_off(track, end, seq![pitch]),
                        ),
                    )
                },
                Err(e) => Err(e),
            },
            Err(e) => Err(e),
        }
    }
}

/// The events of one measure that starts at `start` and lasts `length`: a
/// rest gives none; a chord gives a note-on with all its tones at the start
/// and a note-off with the same tones at the end; notes give theirs.
pub open spec fn measure_events(
    measure: Measure,
    track: usize,
    start: nat,
    beat: nat,
    length: nat,
) -> Result<Seq<EventView>, MusicError> {
    match measure {
        Measure::Rest => Ok(Seq::empty()),
        Measure::Chord(chord) => match chord_pitches(chord@) {
            Ok(pitches) => Ok(
                seq![note_on(track, start, pitches), note_off(track, start + length, pitches)],
            ),
            Err(e) => Err(e),
        },
        Measure::Note(notes) => note_events(notes@, track, start, beat),
    }
}

/// The events of a track: those of its measures in order, the measure at
/// place `i` starting at `i` measure lengths.
pub open spec fn track_events(measures: Seq<Measure>, track: usize, beat: nat, length: nat) -> Result<
    Seq<EventView>,
    MusicError,
>
    decreases measures.len(),
{
    if measures.len() == 0 {
        Ok(Seq::empty())
    } else {
        match track_events(measures.drop_last(), track, beat, length) {
            Ok(front) => match measure_events(
                measures.last(),
                track,
                ((measures.len() - 1) * length) as nat,
                beat,
                length,
            ) {
                Ok(events) => Ok(front + events),
                Err(e) => Err(e),
            },
            Err(e) => Err(e),
        }
    }
}

/// The events of the first `count` tracks, track after track.
pub open spec fn tracks_events(tracks: Seq<Seq<Measure>>, count: nat, beat: nat, length: nat) -> Result<
    Seq<EventView>,
    MusicError,
>
    decreases count,
{
    if count == 0 {
        Ok(Seq::empty())
    } else {
        match tracks_events(tracks, (count - 1) as nat, beat, length) {
            Ok(front) => match track_events(
                tracks[count - 1],
                (count - 1) as usize,
                beat,
                length,
            ) {
                Ok(events) => Ok(front + events),
                Err(e) => Err(e),
            },
            Err(e) => Err(e),
        }
    }
}

/// The tracks that are played: all of them, up to the number of channels.
pub open spec fn played_tracks(track_count: nat) -> nat {
    if track_count < CHANNEL_COUNT {
        track_count
    } else {
        CHANNEL_COUNT as nat
    }
}

/// The events that a score emits, before they are put in order. A measure
/// lasts its beats times the length of a beat. The first measure that holds
/// what cannot be played fails the whole.
pub open spec fn emitted_events(score: ScoreView) -> Result<Seq<EventView>, MusicError> {
    tracks_events(
        score.tracks,
        played_tracks(score.tracks.len()),
        beat_nanos(score.tempo),
        (score.beats * beat_nanos(score.tempo)) as nat,
    )
}

/// The order of events: earlier first; at the same time note-off before
/// note-on; then the lower track first.
pub open spec fn goes_before(a: EventView, b: EventView) -> bool {
    a.trigger_time < b.trigger_time || (a.trigger_time == b.trigger_time && ((!a.is_start
        && b.is_start) || (a.is_start == b.is_start && a.track_idx < b.track_idx)))
}

/// Neither event goes before the other.
pub open spec fn same_rank(a: EventView, b: EventView) -> bool {
    a.trigger_time == b.trigger_time && a.is_start == b.is_start && a.track_idx == b.track_idx
}

/// `ordered` holds the events of `emitted`, each once, where `places[k]`
/// says which of them stands at place `k`; they stand in the order of
/// `goes_before`, and events of the same rank in the order they were
/// emitted in.
pub open spec fn is_stable_ordering(
    ordered: Seq<EventView>,
    emitted: Seq<EventView>,
    places: Seq<int>,
) -> bool {
    &&& places.len() == ordered.len()
    &&& emitted.len() == ordered.len()
    &&& forall|k: int|
        0 <= k < places.len() ==> 0 <= #[trigger] places[k] < emitted.len() && ordered[k]
            == emitted[places[k]]
    &&& forall|a: int, b: int|
        0 <= a < b < places.len() ==> #[trigger] places[a] != #[trigger] places[b]
    &&& forall|a: int, b: int|
        0 <= a < b < ordered.len() ==> goes_before(#[trigger] ordered[a], #[trigger] ordered[b])
            || (same_rank(ordered[a], ordered[b]) && places[a] < places[b])
}

/// `ordered` is `emitted` put in order, stably.
pub open spec fn stably_ordered(ordered: Seq<EventView>, emitted: Seq<EventView>) -> bool {
    exists|places: Seq<int>| is_stable_ordering(ordered, emitted, places)
}

/// Events in stable order never go back in time, and at one instant every
/// note-off stands before every note-on.
pub proof fn lemma_ordered_in_time(ordered: Seq<EventView>, emitted: Seq<EventView>, a: int, b: int)
    requires
        stably_ordered(ordered, emitted),
        0 <= a < b < ordered.len(),
    ensures
        ordered[a].trigger_time <= ordered[b].trigger_time,
        ordered[a].trigger_time == ordered[b].trigger_time && ordered[a].is_start ==> ordered[b].is_start,
{
}

/// Whether one event goes before another.
pub fn event_goes_before(a: &TimedEvent, b: &TimedEvent) -> (r: bool)
    ensures
        r == goes_before(a@, b@),
{
    if a.trigger_time != b.trigger_time {
        a.trigger_time < b.trigger_time
    } else if a.is_start != b.is_start {
        !a.is_start
    } else {
        a.track_idx < b.track_idx
    }
}

/// Puts events in order: by time, note-off before note-on at the same
/// time, then by track; events that agree in all three keep the order
/// they came in.
#[verifier::rlimit(40)]
pub fn sort_events(events: Vec<TimedEvent>) -> (r: Vec<TimedEvent>)
    ensures
        stably_ordered(event_views(r@), event_views(events@)),
{
    let mut rest = events;
    let mut out: Vec<TimedEvent> = Vec::new();
    let ghost emitted = event_views(events@);
    let ghost mut places: Seq<int> = Seq::empty();
    // The events are taken from the back, so each one taken was emitted
    // before all that are placed already.
    while rest.len() > 0
        invariant
            emitted == event_views(events@),
            rest@ == events@.subrange(0, rest@.len() as int),
            rest@.len() <= events@.len(),
            places.len() == out@.len(),
            out@.len() + rest@.len() == events@.len(),
            forall|k: int|
                0 <= k < places.len() ==> rest@.len() <= #[trigger] places[k] < emitted.len()
                    && out@[k]@ == emitted[places[k]],
            forall|a: int, b: int|
                0 <= a < b < places.len() ==> #[trigger] places[a] != #[trigger] places[b],
            forall|a: int, b: int|
                0 <= a < b < out@.len() ==> goes_before(#[trigger] out@[a]@, #[trigger] out@[b]@)
                    || (same_rank(out@[a]@, out@[b]@) && places[a] < places[b]),
        decreases rest@.len(),
    {
        let ghost index = rest@.len() - 1;
        let event = rest.pop().unwrap();
        assert(event@ == emitted[index]);
        let mut p: usize = 0;
        while p < out.len() && event_goes_before(&out[p], &event)
            invariant
                p <= out@.len(),
                forall|k: int| 0 <= k < p ==> goes_before(#[trigger] out@[k]@, event@),
            decreases out@.len() - p,
        {
            p = p + 1;
        }
        let ghost old_out = out@;
        let ghost old_places = places;
        out.insert(p, event);
        proof {
            places = old_places.insert(p as int, index);
            assert forall|k: int| 0 <= k < places.len() implies index <= #[trigger] places[k]
                < emitted.len() && out@[k]@ == emitted[places[k]] by {
                if k < p {
                    assert(places[k] == old_places[k]);
                    assert(out@[k] == old_out[k]);
                } else if k > p {
                    assert(places[k] == old_places[k - 1]);
                    assert(out@[k] == old_out[k - 1]);
                }
            }
            assert forall|a: int, b: int| 0 <= a < b < places.len() implies #[trigger] places[a]
                != #[trigger] places[b] by {
                let pa = if a < p { a } else { a - 1 };
                let pb = if b < p { b } else { b - 1 };
                if a != p && b != p {
                    assert(places[a] == old_places[pa]);
                    assert(places[b] == old_places[pb]);
                } else if a == p {
                    assert(places[b] == old_places[pb]);
                } else {
                    assert(places[a] == old_places[pa]);
                }
            }
            assert forall|a: int, b: int| 0 <= a < b < out@.len() implies goes_before(
                #[trigger] out@[a]@,
                #[trigger] out@[b]@,
            ) || (same_rank(out@[a]@, out@[b]@) && places[a] < places[b]) by {
                let pa = if a < p { a } else { a - 1 };
                let pb = if b < p { b } else { b - 1 };
                if a != p && b != p {
                    assert(out@[a] == old_out[pa] && places[a] == old_places[pa]);
                    assert(out@[b] == old_out[pb] && places[b] == old_places[pb]);
                } else if a == p {
                    // The event that stood at `p` does not go before the new
                    // one, and those behind it come no earlier than it.
                    assert(out@[b] == old_out[pb] && places[b] == old_places[pb]);
                    assert(!goes_before(old_out[p as int]@, event@));
                    if pb > p {
                        assert(goes_before(old_out[p as int]@, old_out[pb]@) || same_rank(
                            old_out[p as int]@,
                            old_out[pb]@,
                        ));
                    }
                } else {
                    assert(out@[a] == old_out[pa]);
                    assert(goes_before(old_out[pa]@, event@));
                }
            }
        }
    }
    assert(is_stable_ordering(event_views(out@), emitted, places));
    out
}

/// The longest that one note can last, in nanoseconds: no note value is
/// longer than `7680 · 255 / 16` quarter notes.
pub open spec fn note_nanos_limit() -> nat {
    NANOS_PER_MINUTE as nat * (7680 * 255)
}

/// The latest that a measure can start, in nanoseconds.
pub open spec fn start_limit() -> nat {
    usize::MAX as nat * (255 * NANOS_PER_MINUTE as nat)
}

/// All times of a schedule fit 128 bits with room to spare.
proof fn lemma_time_limits()
    ensures
        start_limit() <= 300_000_000_000_000_000_000_000_000_000_000,
        usize::MAX * note_nanos_limit() <= 2_200_000_000_000_000_000_000_000_000_000_000_000,
        note_nanos_limit() <= 200_000_000_000_000_000,
{
    assert(usize::MAX as nat * (255 * NANOS_PER_MINUTE as nat) <= 0xffff_ffff_ffff_ffff
        * 15_300_000_000_000) by (nonlinear_arith)
        requires
            usize::MAX <= 0xffff_ffff_ffff_ffff,
            NANOS_PER_MINUTE == 60_000_000_000,
    ;
    assert(usize::MAX * (NANOS_PER_MINUTE as nat * (7680 * 255)) <= 0xffff_ffff_ffff_ffff
        * 117_504_000_000_000_000) by (nonlinear_arith)
        requires
            usize::MAX <= 0xffff_ffff_ffff_ffff,
            NANOS_PER_MINUTE == 60_000_000_000,
    ;
}

/// Length of one beat in nanoseconds.
pub fn beat_length(tempo: u32) -> (r: u64)
    requires
        tempo > 0,
    ensures
        r == beat_nanos(tempo),
        r <= NANOS_PER_MINUTE,
{
    assert(NANOS_PER_MINUTE as nat / tempo as nat <= NANOS_PER_MINUTE) by (nonlinear_arith)
        requires
            tempo > 0,
    ;
    NANOS_PER_MINUTE / (tempo as u64)
}

/// Length of a note value in nanoseconds, or the mismatch of its tuplet.
pub fn note_length(beat: u64, duration: &Duration) -> (r: Result<u128, MusicError>)
    ensures
        !duration.tuplet_matches() ==> r == Err::<u128, MusicError>(
            MusicError::TupletDurationMismatch,
        ),
        duration.tuplet_matches() ==> r == Ok::<u128, MusicError>(
            note_nanos(beat as nat, *duration) as u128,
        ),
        duration.tuplet_matches() && beat <= NANOS_PER_MINUTE ==> note_nanos(
            beat as nat,
            *duration,
        ) <= note_nanos_limit(),
{
    let q = duration.in_quarters()?;
    let num = q.num();
    let den = q.den();
    assert(beat * num <= 0xffff_ffff_ffff_ffff * (7680 * 255)) by (nonlinear_arith)
        requires
            beat <= 0xffff_ffff_ffff_ffff,
            num <= 7680 * 255,
    ;
    assert(beat <= NANOS_PER_MINUTE ==> beat * num <= NANOS_PER_MINUTE * (7680 * 255))
        by (nonlinear_arith)
        requires
            num <= 7680 * 255,
    ;
    let product: u128 = (beat as u128) * (num as u128);
    assert(product as nat / den as nat <= product) by (nonlinear_arith)
        requires
            den > 0,
    ;
    Ok(product / (den as u128))
}

/// The MIDI note numbers of a chord's tones.
pub fn chord_notes(chord: &Chord) -> (r: Result<Vec<u8>, MusicError>)
    ensures
        match chord_pitches(chord@) {
            Ok(pitches) => r matches Ok(v) && v@ == pitches,
            Err(e) => r == Err::<Vec<u8>, MusicError>(e),
        },
{
    let tones = chord.components()?;
    let mut out: Vec<u8> = Vec::new();
    let mut i: usize = 0;
    while i < tones.len()
        invariant
            chord@.components() == Ok::<Seq<Tuning>, MusicError>(tones@),
            i <= tones@.len(),
            out@.len() == i,
            forall|k: int|
                0 <= k < i ==> 0 <= (#[trigger] tones@[k]).spec_midi_number() <= 127 && out@[k]
                    == tones@[k].spec_midi_number() as u8,
        decreases tones@.len() - i,
    {
        match tones[i].midi_number() {
            Ok(number) => {
                out.push(number);
            },
            Err(e) => {
                return Err(e);
            },
        }
        i = i + 1;
    }
    Ok(out)
}

/// A vector of one note number.
fn single(pitch: u8) -> (r: Vec<u8>)
    ensures
        r@ == seq![pitch],
{
    let mut v: Vec<u8> = Vec::new();
    v.push(pitch);
    v
}

/// An error among the first `k` notes is the error of the whole run.
proof fn lemma_note_error_stays(notes: Seq<Note>, track: usize, start: nat, beat: nat, k: int)
    requires
        0 <= k <= notes.len(),
        note_events(notes.subrange(0, k), track, start, beat) is Err,
    ensures
        note_events(notes, track, start, beat) == note_events(
            notes.subrange(0, k),
            track,
            start,
            beat,
        ),
    decreases notes.len() - k,
{
    if k == notes.len() {
        assert(notes.subrange(0, k) =~= notes);
    } else {
        assert(notes.subrange(0, k + 1).drop_last() =~= notes.subrange(0, k));
        lemma_note_error_stays(notes, track, start, beat, k + 1);
    }
}

/// An error among the first `k` measures is the error of the whole track.
proof fn lemma_track_error_stays(
    measures: Seq<Measure>,
    track: usize,
    beat: nat,
    length: nat,
    k: int,
)
    requires
        0 <= k <= measures.len(),
        track_events(measures.subrange(0, k), track, beat, length) is Err,
    ensures
        track_events(measures, track, beat, length) == track_events(
            measures.subrange(0, k),
            track,
            beat,
            length,
        ),
    decreases measures.len() - k,
{
    if k == measures.len() {
        assert(measures.subrange(0, k) =~= measures);
    } else {
        assert(measures.subrange(0, k + 1).drop_last() =~= measures.subrange(0, k));
        lemma_track_error_stays(measures, track, beat, length, k + 1);
    }
}

/// An error among the first `k` tracks is the error of any more of them.
proof fn lemma_tracks_error_stays(
    tracks: Seq<Seq<Measure>>,
    k: nat,
    count: nat,
    beat: nat,
    length: nat,
)
    requires
        k <= count,
        tracks_events(tracks, k, beat, length) is Err,
    ensures
        tracks_events(tracks, count, beat, length) == tracks_events(tracks, k, beat, length),
    decreases count - k,
{
    if k < count {
        lemma_tracks_error_stays(tracks, k, (count - 1) as nat, beat, length);
    }
}

/// Appends the events of a run of notes that starts at `start`.
#[verifier::rlimit(40)]
fn emit_notes(
    events: &mut Vec<TimedEvent>,
    notes: &Vec<Note>,
    track: usize,
    start: u128,
    beat: u64,
) -> (r: Result<(), MusicError>)
    requires
        beat <= NANOS_PER_MINUTE,
        start <= start_limit(),
    ensures
        match note_events(notes@, track, start as nat, beat as nat) {
            Ok(added) => r is Ok && event_views(final(events)@) == event_views(old(events)@)
                + added,
            Err(e) => r == Err::<(), MusicError>(e),
        },
{
    let ghost before = event_views(events@);
    let mut offset: u128 = 0;
    let mut i: usize = 0;
    while i < notes.len()
        invariant
            beat <= NANOS_PER_MINUTE,
            start <= start_limit(),
            i <= notes@.len(),
            offset == notes_span(notes@.subrange(0, i as int), beat as nat),
            offset <= i * note_nanos_limit(),
            note_events(notes@.subrange(0, i as int), track, start as nat, beat as nat) is Ok,
            event_views(events@) == before + note_events(
                notes@.subrange(0, i as int),
                track,
                start as nat,
                beat as nat,
            )->Ok_0,
        decreases notes@.len() - i,
    {
        let note = notes[i];
        let ghost front = notes@.subrange(0, i as int);
        let ghost upto = notes@.subrange(0, i + 1);
        assert(upto.drop_last() =~= front);
        let length = match note_length(beat, &note.duration) {
            Ok(l) => l,
            Err(e) => {
                proof {
                    lemma_note_error_stays(notes@, track, start as nat, beat as nat, i + 1);
                }
                return Err(e);
            },
        };
        let pitch = match note.tuning().midi_number() {
            Ok(p) => p,
            Err(e) => {
                proof {
                    lemma_note_error_stays(notes@, track, start as nat, beat as nat, i + 1);
                }
                return Err(e);
            },
        };
        assert((i + 1) * note_nanos_limit() <= usize::MAX * note_nanos_limit()
            && i * note_nanos_limit() + note_nanos_limit() == (i + 1) * note_nanos_limit())
            by (nonlinear_arith)
            requires
                i + 1 <= usize::MAX,
        ;
        proof {
            lemma_time_limits();
        }
        let begin: u128 = start + offset;
        let end: u128 = begin + length;
        events.push(TimedEvent { trigger_time: begin, track_idx: track, notes: single(pitch), is_start: true });
        events.push(TimedEvent { trigger_time: end, track_idx: track, notes: single(pitch), is_start: false });
        proof {
            let front_events = note_events(front, track, start as nat, beat as nat)->Ok_0;
            let on = note_on(track, begin as nat, seq![pitch]);
            let off = note_off(track, end as nat, seq![pitch]);
            assert(note_events(upto, track, start as nat, beat as nat) == Ok::<
                Seq<EventView>,
                MusicError,
            >(front_events.push(on).push(off)));
            assert(before + front_events.push(on).push(off) =~= (before + front_events).push(
                on,
            ).push(off));
        }
        offset = offset + length;
        i = i + 1;
    }
    assert(notes@.subrange(0, i as int) =~= notes@);
    Ok(())
}

/// Appends the events of one measure that starts at `start`.
fn emit_measure(
    events: &mut Vec<TimedEvent>,
    measure: &Measure,
    track: usize,
    start: u128,
    beat: u64,
    length: u64,
) -> (r: Result<(), MusicError>)
    requires
        beat <= NANOS_PER_MINUTE,
        length <= 255 * NANOS_PER_MINUTE,
        start <= start_limit(),
    ensures
        match measure_events(*measure, track, start as nat, beat as nat, length as nat) {
            Ok(added) => r is Ok && event_views(final(events)@) == event_views(old(events)@)
                + added,
            Err(e) => r == Err::<(), MusicError>(e),
        },
{
    match measure {
        Measure::Rest => Ok(()),
        Measure::Chord(chord) => {
            let pitches = chord_notes(chord)?;
            let again = crate::vec_util::copy_vec(&pitches);
            proof {
                lemma_time_limits();
            }
            let end: u128 = start + length as u128;
            events.push(TimedEvent { trigger_time: start, track_idx: track, notes: again, is_start: true });
            events.push(TimedEvent { trigger_time: end, track_idx: track, notes: pitches, is_start: false });
            Ok(())
        },
        Measure::Note(notes) => emit_notes(events, notes, track, start, beat),
    }
}

/// Appends the events of a track.
fn emit_track(
    events: &mut Vec<TimedEvent>,
    track: &Track,
    index: usize,
    beat: u64,
    length: u64,
) -> (r: Result<(), MusicError>)
    requires
        beat <= NANOS_PER_MINUTE,
        length <= 255 * NANOS_PER_MINUTE,
    ensures
        match track_events(track@, index, beat as nat, length as nat) {
            Ok(added) => r is Ok && event_views(final(events)@) == event_views(old(events)@)
                + added,
            Err(e) => r == Err::<(), MusicError>(e),
        },
{
    let ghost before = event_views(events@);
    let measures = track.get_measures();
    let mut i: usize = 0;
    while i < measures.len()
        invariant
            beat <= NANOS_PER_MINUTE,
            length <= 255 * NANOS_PER_MINUTE,
            measures@ == track@,
            i <= measures@.len(),
            track_events(measures@.subrange(0, i as int), index, beat as nat, length as nat) is Ok,
            event_views(events@) == before + track_events(
                measures@.subrange(0, i as int),
                index,
                beat as nat,
                length as nat,
            )->Ok_0,
        decreases measures@.len() - i,
    {
        let ghost front = measures@.subrange(0, i as int);
        let ghost upto = measures@.subrange(0, i + 1);
        assert(upto.drop_last() =~= front);
        assert(i * length <= usize::MAX * (255 * NANOS_PER_MINUTE)) by (nonlinear_arith)
            requires
                i <= usize::MAX,
                length <= 255 * NANOS_PER_MINUTE,
        ;
        proof {
            lemma_time_limits();
        }
        let start: u128 = (i as u128) * (length as u128);
        match emit_measure(events, &measures[i], index, start, beat, length) {
            Ok(()) => {},
            Err(e) => {
                proof {
                    lemma_track_error_stays(track@, index, beat as nat, length as nat, i + 1);
                }
                return Err(e);
            },
        }
        i = i + 1;
    }
    assert(measures@.subrange(0, i as int) =~= measures@);
    Ok(())
}

/// The events of a score in the order they are emitted in: track after
/// track, measure after measure.
pub fn emit_events<const TRACK_COUNT: usize>(score: &Score<TRACK_COUNT>) -> (r: Result<
    Vec<TimedEvent>,
    MusicError,
>)
    requires
        score.wf(),
    ensures
        match emitted_events(score@) {
            Ok(emitted) => r matches Ok(v) && event_views(v@) == emitted,
            Err(e) => r == Err::<Vec<TimedEvent>, MusicError>(e),
        },
{
    let tracks = score.get_tracks();
    let limit: usize = if tracks.len() < CHANNEL_COUNT {
        tracks.len()
    } else {
        CHANNEL_COUNT
    };
    let beat = beat_length(score.tempo());
    let beats = score.time_signature().0;
    assert(beats * beat <= 255 * NANOS_PER_MINUTE) by (nonlinear_arith)
        requires
            beats <= 255,
            beat <= NANOS_PER_MINUTE,
    ;
    let length: u64 = beats as u64 * beat;
    let mut events: Vec<TimedEvent> = Vec::new();
    let mut t: usize = 0;
    assert(event_views(events@) =~= Seq::<EventView>::empty());
    while t < limit
        invariant
            score.wf(),
            beat <= NANOS_PER_MINUTE,
            length <= 255 * NANOS_PER_MINUTE,
            beat == beat_nanos(score@.tempo),
            length == score@.beats * beat_nanos(score@.tempo),
            limit == played_tracks(score@.tracks.len()),
            tracks@.len() == score@.tracks.len(),
            forall|i: int| 0 <= i < tracks@.len() ==> (#[trigger] tracks@[i])@ == score@.tracks[i],
            t <= limit,
            tracks_events(score@.tracks, t as nat, beat as nat, length as nat) == Ok::<
                Seq<EventView>,
                MusicError,
            >(event_views(events@)),
        decreases limit - t,
    {
        match emit_track(&mut events, &tracks[t], t, beat, length) {
            Ok(()) => {},
            Err(e) => {
                proof {
                    assert(tracks_events(score@.tracks, (t + 1) as nat, beat as nat, length as nat)
                        == Err::<Seq<EventView>, MusicError>(e));
                    lemma_tracks_error_stays(
                        score@.tracks,
                        (t + 1) as nat,
                        limit as nat,
                        beat as nat,
                        length as nat,
                    );
                }
                return Err(e);
            },
        }
        t = t + 1;
    }
    Ok(events)
}

/// Every event of a run of notes lies on the run's track.
proof fn lemma_note_events_track(notes: Seq<Note>, track: usize, start: nat, beat: nat)
    ensures
        note_events(notes, track, start, beat) matches Ok(events) ==> forall|i: int|
            0 <= i < events.len() ==> (#[trigger] events[i]).track_idx == track,
    decreases notes.len(),
{
    if notes.len() > 0 {
        lemma_note_events_track(notes.drop_last(), track, start, beat);
    }
}

/// Every event of a track lies on that track.
proof fn lemma_track_events_track(measures: Seq<Measure>, track: usize, beat: nat, length: nat)
    ensures
        track_events(measures, track, beat, length) matches Ok(events) ==> forall|i: int|
            0 <= i < events.len() ==> (#[trigger] events[i]).track_idx == track,
    decreases measures.len(),
{
    if measures.len() > 0 {
        lemma_track_events_track(measures.drop_last(), track, beat, length);
        if let Measure::Note(notes) = measures.last() {
            lemma_note_events_track(
                notes@,
                track,
                ((measures.len() - 1) * length) as nat,
                beat,
            );
        }
    }
}

/// Every event of the first `count` tracks lies on one of them.
proof fn lemma_tracks_events_below(tracks: Seq<Seq<Measure>>, count: nat, beat: nat, length: nat)
    requires
        count <= usize::MAX,
    ensures
        tracks_events(tracks, count, beat, length) matches Ok(events) ==> forall|i: int|
            0 <= i < events.len() ==> (#[trigger] events[i]).track_idx < count,
    decreases count,
{
    if count > 0 {
        lemma_tracks_events_below(tracks, (count - 1) as nat, beat, length);
        lemma_track_events_track(tracks[count - 1], (count - 1) as usize, beat, length);
    }
}

/// The events that a score emits lie on the tracks that are played, which
/// are no more than the channels.
pub proof fn lemma_emitted_on_played_tracks(score: ScoreView)
    ensures
        emitted_events(score) matches Ok(events) ==> forall|i: int|
            0 <= i < events.len() ==> (#[trigger] events[i]).track_idx < played_tracks(
                score.tracks.len(),
            ) <= CHANNEL_COUNT,
{
    lemma_tracks_events_below(
        score.tracks,
        played_tracks(score.tracks.len()),
        beat_nanos(score.tempo),
        (score.beats * beat_nanos(score.tempo)) as nat,
    );
}

/// The timed events of a score, in the order they are to be sent in.
/// Every played track's measures are laid out in time, a measure lasting
/// its beats times `60 / tempo` seconds; the events of all tracks are then
/// merged by time, note-off before note-on at the same time, the lower
/// track first, and otherwise in the order of the tracks' measures.
pub fn schedule<const TRACK_COUNT: usize>(score: &Score<TRACK_COUNT>) -> (r: Result<
    Vec<TimedEvent>,
    MusicError,
>)
    requires
        score.wf(),
    ensures
        match emitted_events(score@) {
            Ok(emitted) => r matches Ok(v) && stably_ordered(event_views(v@), emitted),
            Err(e) => r == Err::<Vec<TimedEvent>, MusicError>(e),
        },
        r matches Ok(v) ==> forall|i: int|
            0 <= i < v@.len() ==> (#[trigger] v@[i]).track_idx < CHANNEL_COUNT,
{
    match emit_events(score) {
        Ok(events) => {
            let sorted = sort_events(events);
            proof {
                lemma_emitted_on_played_tracks(score@);
                let emitted = event_views(events@);
                let places = choose|places: Seq<int>|
                    is_stable_ordering(event_views(sorted@), emitted, places);
                assert forall|i: int| 0 <= i < sorted@.len() implies (#[trigger] sorted@[i]).track_idx
                    < CHANNEL_COUNT by {
                    assert(event_views(sorted@)[i] == emitted[places[i]]);
                }
            }
            Ok(sorted)
        },
        Err(e) => Err(e),
    }
}

} // verus!
