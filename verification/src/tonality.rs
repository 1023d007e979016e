//! The tonal colour of a key or chord.

use vstd::prelude::*;

verus! {

#[derive(Copy, Clone, Debug, PartialEq, Eq, Structural)]
pub enum Tonality {
    Major,
    Minor,
    Diminished,
    Augmented,
    Perfect,
}

} // verus!
