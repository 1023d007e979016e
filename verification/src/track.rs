//! One voice of a score: its measures in order.

use vstd::prelude::*;
use crate::measure::Measure;

verus! {

/// An append-only run of measures.
#[derive(Clone, Debug, PartialEq)]
pub struct Track {
    measures: Vec<Measure>,
}

impl View for Track {
    type V = Seq<Measure>;

    closed spec fn view(&self) -> Seq<Measure> {
        self.measures@
    }
}

impl Track {
    /// A track without measures.
    pub fn new() -> (r: Track)
        ensures
            r@ == Seq::<Measure>::empty(),
    {
        Track { measures: Vec::new() }
    }

    /// Appends a measure.
    pub fn push(&mut self, measure: Measure)
        ensures
            final(self)@ == old(self)@.push(measure),
    {
        self.measures.push(measure);
    }

    /// The measures in order.
    pub fn get_measures(&self) -> (r: &[Measure])
        ensures
            r@ == self@,
    {
        self.measures.as_slice()
    }
}

} // verus!
