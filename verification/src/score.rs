//! A score: a fixed number of parallel tracks, a tempo and a time signature.

use vstd::prelude::*;
use crate::duration::DurationBase;
use crate::measure::Measure;
use crate::track::Track;

verus! {

/// A score of `TRACK_COUNT` tracks. All its tracks grow together, by one
/// measure each.
pub struct Score<const TRACK_COUNT: usize> {
    tracks: Vec<Track>,
    tempo: u32,
    time_signature: (u8, DurationBase),
}

/// What a score holds, as plain values.
pub struct ScoreView {
    /// The measures of each track.
    pub tracks: Seq<Seq<Measure>>,
    /// Beats per minute.
    pub tempo: u32,
    /// Beats per measure.
    pub beats: u8,
    /// The note value of one beat.
    pub beat_type: DurationBase,
}

impl<const TRACK_COUNT: usize> View for Score<TRACK_COUNT> {
    type V = ScoreView;

    closed spec fn view(&self) -> ScoreView {
        ScoreView {
            tracks: Seq::new(self.tracks@.len(), |i: int| self.tracks@[i]@),
            tempo: self.tempo,
            beats: self.time_signature.0,
            beat_type: self.time_signature.1,
        }
    }
}

impl<const TRACK_COUNT: usize> Score<TRACK_COUNT> {
    /// A score has its `TRACK_COUNT` tracks and a tempo above zero.
    pub open spec fn wf(&self) -> bool {
        &&& self@.tracks.len() == TRACK_COUNT
        &&& self@.tempo > 0
    }

    /// An empty score at 120 beats per minute in 4/4.
    pub fn new() -> (r: Score<TRACK_COUNT>)
        ensures
            r.wf(),
            r@ == (ScoreView {
                tracks: Seq::new(TRACK_COUNT as nat, |i: int| Seq::<Measure>::empty()),
                tempo: 120,
                beats: 4,
                beat_type: DurationBase::Quarter,
            }),
    {
        let mut tracks: Vec<Track> = Vec::new();
        let mut i: usize = 0;
        while i < TRACK_COUNT
            invariant
                i <= TRACK_COUNT,
                tracks@.len() == i,
                forall|k: int| 0 <= k < i ==> (#[trigger] tracks@[k])@ == Seq::<Measure>::empty(),
            decreases TRACK_COUNT - i,
        {
            tracks.push(Track::new());
            i = i + 1;
        }
        let r = Score { tracks, tempo: 120, time_signature: (4, DurationBase::Quarter) };
        assert(r@.tracks =~= Seq::new(TRACK_COUNT as nat, |i: int| Seq::<Measure>::empty()));
        r
    }

    /// The same score at another tempo, in beats per minute.
    pub fn with_tempo(self, tempo: u32) -> (r: Score<TRACK_COUNT>)
        requires
            self.wf(),
            tempo > 0,
        ensures
            r.wf(),
            r@ == (ScoreView { tempo, ..self@ }),
    {
        Score { tracks: self.tracks, tempo, time_signature: self.time_signature }
    }

    /// The same score in another time signature: so many beats to the
    /// measure, each of the given note value.
    pub fn with_time_signature(self, beats: u8, beat_type: DurationBase) -> (r: Score<TRACK_COUNT>)
        requires
            self.wf(),
        ensures
            r.wf(),
            r@ == (ScoreView { beats, beat_type, ..self@ }),
    {
        Score { tracks: self.tracks, tempo: self.tempo, time_signature: (beats, beat_type) }
    }

    /// A row of silent measures, one for each track.
    pub fn new_row() -> (r: Vec<Measure>)
        ensures
            r@ == Seq::new(TRACK_COUNT as nat, |i: int| Measure::Rest),
    {
        let mut row: Vec<Measure> = Vec::new();
        let mut i: usize = 0;
        while i < TRACK_COUNT
            invariant
                i <= TRACK_COUNT,
                row@ == Seq::new(i as nat, |k: int| Measure::Rest),
            decreases TRACK_COUNT - i,
        {
            row.push(Measure::new());
            i = i + 1;
        }
        row
    }

    /// Appends one measure to every track at once: the `i`-th measure of the
    /// row to the `i`-th track.
    pub fn push_measures(&mut self, measures: Vec<Measure>)
        requires
            old(self).wf(),
            measures@.len() == TRACK_COUNT,
        ensures
            final(self).wf(),
            final(self)@ == (ScoreView {
                tracks: Seq::new(
                    TRACK_COUNT as nat,
                    |i: int| old(self)@.tracks[i].push(measures@[i]),
                ),
                ..old(self)@
            }),
    {
        let mut measures = measures;
        let ghost row = measures@;
        let ghost before = self@;
        let mut i: usize = TRACK_COUNT;
        while i > 0
            invariant
                i <= TRACK_COUNT,
                row.len() == TRACK_COUNT,
                measures@ == row.subrange(0, i as int),
                self.tracks@.len() == TRACK_COUNT,
                self.tempo == before.tempo,
                self.time_signature.0 == before.beats,
                self.time_signature.1 == before.beat_type,
                before.tracks.len() == TRACK_COUNT,
                forall|k: int| 0 <= k < i ==> (#[trigger] self.tracks@[k])@ == before.tracks[k],
                forall|k: int|
                    i <= k < TRACK_COUNT ==> (#[trigger] self.tracks@[k])@ == before.tracks[k].push(
                        row[k],
                    ),
            decreases i,
        {
            i = i - 1;
            let measure = measures.pop().unwrap();
            self.tracks[i].push(measure);
        }
        assert(self@.tracks =~= Seq::new(
            TRACK_COUNT as nat,
            |i: int| before.tracks[i].push(row[i]),
        ));
    }

    /// Appends one measure to every track, as the caller fills them in: the
    /// closure is handed a row of silent measures, one for each track, and
    /// what it leaves in the row is appended as `push_measures` appends it.
    /// A row that comes back with another number of measures is dropped and
    /// the score stays as it is; the result says whether the row went in.
    pub fn new_measures<F>(&mut self, f: F) -> (appended: bool) where F: FnOnce(&mut Vec<Measure>)
        requires
            old(self).wf(),
            forall|row: &mut Vec<Measure>|
                row@ == Seq::new(TRACK_COUNT as nat, |i: int| Measure::Rest) ==> call_requires(
                    f,
                    (row,),
                ),
        ensures
            final(self).wf(),
            exists|row: &mut Vec<Measure>|
                {
                    &&& row@ == Seq::new(TRACK_COUNT as nat, |i: int| Measure::Rest)
                    &&& #[trigger] call_ensures(f, (row,), ())
                    &&& appended == (final(row)@.len() == TRACK_COUNT)
                    &&& appended ==> final(self)@ == (ScoreView {
                        tracks: Seq::new(
                            TRACK_COUNT as nat,
                            |i: int| old(self)@.tracks[i].push(final(row)@[i]),
                        ),
                        ..old(self)@
                    })
                    &&& !appended ==> final(self)@ == old(self)@
                },
    {
        let mut row = Self::new_row();
        f(&mut row);
        if row.len() == TRACK_COUNT {
            self.push_measures(row);
            true
        } else {
            false
        }
    }

    /// The tracks in order.
    pub fn get_tracks(&self) -> (r: &[Track])
        ensures
            r@.len() == self@.tracks.len(),
            forall|i: int| 0 <= i < r@.len() ==> (#[trigger] r@[i])@ == self@.tracks[i],
    {
        self.tracks.as_slice()
    }

    /// Beats per minute.
    pub fn tempo(&self) -> (r: u32)
        ensures
            r == self@.tempo,
    {
        self.tempo
    }

    /// Beats per measure and the note value of a beat.
    pub fn time_signature(&self) -> (r: (u8, DurationBase))
        ensures
            r == (self@.beats, self@.beat_type),
    {
        self.time_signature
    }
}

} // verus!
