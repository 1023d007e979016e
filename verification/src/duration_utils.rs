//! Filling a measure with note values drawn at random.

use vstd::prelude::*;
use rand::seq::SliceRandom;
use crate::duration::{dot_eighths, dots_needed, largest_base_within, Duration, DurationBase};
use crate::note::Note;
use crate::ratio::Ratio;
use crate::tuning::Tuning;

verus! {

/// A note value without tuplet: its base and its dots.
pub type PlainValue = (DurationBase, nat);

/// Length of a plain note value in 128ths of a quarter note.
pub open spec fn ticks_of(value: PlainValue) -> nat {
    value.0.spec_sixteenths() * dot_eighths(value.1)
}

/// Summed length of plain note values in 128ths of a quarter note.
pub open spec fn plan_ticks(plan: Seq<PlainValue>) -> nat
    decreases plan.len(),
{
    if plan.len() == 0 {
        0
    } else {
        ticks_of(plan[0]) + plan_ticks(plan.skip(1))
    }
}

/// Summed length of notes in 128ths of a quarter note, each taken without
/// its tuplet.
pub open spec fn measure_ticks(notes: Seq<Duration>) -> nat
    decreases notes.len(),
{
    if notes.len() == 0 {
        0
    } else {
        notes[0].plain_ticks() + measure_ticks(notes.skip(1))
    }
}

/// The notes are, one by one, the plain values of the plan.
pub open spec fn spells(notes: Seq<Duration>, plan: Seq<PlainValue>) -> bool {
    &&& notes.len() == plan.len()
    &&& forall|i: int|
        0 <= i < notes.len() ==> {
            &&& (#[trigger] notes[i]).spec_base() == plan[i].0
            &&& notes[i].spec_dots() == plan[i].1
            &&& notes[i].spec_tuplet() is None
        }
}

/// The bases that a measure is filled from.
pub open spec fn is_candidate(b: DurationBase) -> bool {
    b == DurationBase::Half || b == DurationBase::Whole || b == DurationBase::Quarter
}

/// The one note value that stands for what is left of a measure:
/// `from_quarters` of `remaining` sixteenths of a quarter note.
pub open spec fn corrective(remaining: nat) -> PlainValue {
    let b = largest_base_within(remaining, 16, 16);
    (b, dots_needed(b, remaining, 16, 16))
}

/// How a budget of `remaining` sixteenths of a quarter note is filled from
/// a run of draws: each draw that fits is taken undotted; the first draw
/// that would overshoot ends the run, as does the end of the draws, and
/// what is then left of the budget gets one corrective note value.
pub open spec fn fill_plan(remaining: nat, draws: Seq<DurationBase>) -> Seq<PlainValue>
    decreases draws.len(),
{
    if remaining == 0 {
        Seq::<PlainValue>::empty()
    } else if draws.len() == 0 || draws[0].spec_sixteenths() > remaining {
        seq![corrective(remaining)]
    } else {
        seq![(draws[0], 0nat)] + fill_plan(
            (remaining - draws[0].spec_sixteenths()) as nat,
            draws.skip(1),
        )
    }
}

/// Fills a measure of `beat` quarter notes from the given draws, as
/// `fill_plan` says.
pub fn fill_measure(beat: u8, draws: &Vec<DurationBase>) -> (r: Vec<Duration>)
    ensures
        spells(r@, fill_plan(beat as nat * 16, draws@)),
{
    let mut out: Vec<Duration> = Vec::new();
    let mut remaining: u64 = beat as u64 * 16;
    let ghost mut done: Seq<PlainValue> = Seq::empty();
    let mut i: usize = 0;
    assert(draws@.skip(0) =~= draws@);
    while remaining > 0 && i < draws.len() && draws[i].sixteenths() <= remaining
        invariant
            i <= draws@.len(),
            remaining <= 255 * 16,
            spells(out@, done),
            fill_plan(beat as nat * 16, draws@) == done + fill_plan(
                remaining as nat,
                draws@.skip(i as int),
            ),
        decreases draws@.len() - i,
    {
        let base = draws[i];
        proof {
            let rest = draws@.skip(i as int);
            let tail = fill_plan((remaining - base.spec_sixteenths()) as nat, rest.skip(1));
            assert(rest.skip(1) =~= draws@.skip(i + 1));
            assert(done + (seq![(base, 0nat)] + tail) =~= done.push((base, 0nat)) + tail);
            done = done.push((base, 0nat));
        }
        out.push(Duration::new(base));
        remaining = remaining - base.sixteenths();
        i = i + 1;
    }
    if remaining > 0 {
        // The draws are used up or the next one overshoots: what is left
        // gets its one corrective note value.
        out.push(Duration::from_quarters(Ratio::new(remaining, 16).unwrap()));
        proof {
            done = done.push(corrective(remaining as nat));
        }
    }
    assert(fill_plan(beat as nat * 16, draws@) =~= done);
    out
}

/// One of the candidates, picked at random: `SliceRandom::choose` of rand
/// on the slice of the candidates with the thread's generator. It gives
/// nothing exactly when there is no candidate, and else an element of the
/// slice; which element is left open.
#[verifier::external_body]
fn choose_base(candidates: &Vec<DurationBase>) -> (r: Option<DurationBase>)
    ensures
        candidates@.len() == 0 <==> r is None,
        r matches Some(b) ==> candidates@.contains(b),
{
    candidates.as_slice().choose(&mut rand::thread_rng()).copied()
}

/// Fills a measure of `beat` quarter notes with half, whole and quarter
/// notes drawn at random, closing with one corrective note value where a
/// draw would overshoot. Whatever is drawn, the notes carry no tuplet and
/// their lengths add up to exactly `beat` quarter notes.
pub fn generate_one_measure(beat: u8) -> (r: Vec<Duration>)
    ensures
        exists|draws: Seq<DurationBase>|
            {
                &&& draws.len() == beat
                &&& forall|k: int| 0 <= k < draws.len() ==> is_candidate(#[trigger] draws[k])
                &&& spells(r@, #[trigger] fill_plan(beat as nat * 16, draws))
            },
        forall|i: int| 0 <= i < r@.len() ==> (#[trigger] r@[i]).spec_tuplet() is None,
        measure_ticks(r@) == beat as nat * 128,
{
    let mut candidates: Vec<DurationBase> = Vec::new();
    candidates.push(DurationBase::Half);
    candidates.push(DurationBase::Whole);
    candidates.push(DurationBase::Quarter);
    let mut draws: Vec<DurationBase> = Vec::new();
    let mut i: u8 = 0;
    while i < beat
        invariant
            i <= beat,
            draws@.len() == i,
            candidates@ == seq![DurationBase::Half, DurationBase::Whole, DurationBase::Quarter],
            forall|k: int| 0 <= k < draws@.len() ==> is_candidate(#[trigger] draws@[k]),
        decreases beat - i,
    {
        let base = choose_base(&candidates).unwrap();
        draws.push(base);
        i = i + 1;
    }
    let out = fill_measure(beat, &draws);
    proof {
        let plan = fill_plan(beat as nat * 16, draws@);
        lemma_fill_exact(beat as nat, draws@);
        lemma_spelled_ticks(out@, plan);
    }
    out
}

/// The notes that play tones in turn: the note at place `i` has the `i`-th
/// note value and the tone at place `i` modulo the number of tones.
pub open spec fn arpeggio(tones: Seq<Tuning>, durations: Seq<Duration>, velocity: u8) -> Seq<Note> {
    if tones.len() == 0 {
        Seq::empty()
    } else {
        Seq::new(
            durations.len(),
            |i: int|
                Note {
                    pitch_class: tones[i % tones.len() as int].class,
                    octave: tones[i % tones.len() as int].octave,
                    duration: durations[i],
                    velocity,
                },
        )
    }
}

/// Gives each note value a tone, going through the tones in turn and
/// starting over after the last. Without tones there are no notes.
pub fn arpeggiate(tones: &Vec<Tuning>, durations: &Vec<Duration>, velocity: u8) -> (r: Vec<Note>)
    ensures
        r@ == arpeggio(tones@, durations@, velocity),
{
    let mut notes: Vec<Note> = Vec::new();
    if tones.len() == 0 {
        return notes;
    }
    let mut i: usize = 0;
    while i < durations.len()
        invariant
            tones@.len() > 0,
            i <= durations@.len(),
            notes@ == arpeggio(tones@, durations@.subrange(0, i as int), velocity),
        decreases durations@.len() - i,
    {
        let tone = tones[i % tones.len()];
        notes.push(
            Note { pitch_class: tone.class, octave: tone.octave, duration: durations[i], velocity },
        );
        i = i + 1;
        assert(notes@ =~= arpeggio(tones@, durations@.subrange(0, i as int), velocity));
    }
    assert(durations@.subrange(0, i as int) =~= durations@);
    notes
}

/// Notes that spell a plan are as long as the plan.
pub proof fn lemma_spelled_ticks(notes: Seq<Duration>, plan: Seq<PlainValue>)
    requires
        spells(notes, plan),
    ensures
        measure_ticks(notes) == plan_ticks(plan),
    decreases notes.len(),
{
    if notes.len() > 0 {
        lemma_spelled_ticks(notes.skip(1), plan.skip(1));
    }
}

/// Filling from draws of half, whole and quarter notes, at least one draw
/// for each quarter note of the budget, gives note values that add up to
/// the budget exactly.
pub proof fn lemma_fill_exact(quarters: nat, draws: Seq<DurationBase>)
    requires
        draws.len() >= quarters,
        forall|k: int| 0 <= k < draws.len() ==> is_candidate(#[trigger] draws[k]),
    ensures
        plan_ticks(fill_plan(quarters * 16, draws)) == quarters * 128,
    decreases draws.len(),
{
    let remaining = quarters * 16;
    let plan = fill_plan(remaining, draws);
    if remaining == 0 {
    } else if draws[0].spec_sixteenths() > remaining {
        assert(is_candidate(draws[0]));
        assert(quarters == 1 || quarters == 2 || quarters == 3);
        if quarters == 1 {
            assert(remaining == 16);
            assert(corrective(16) == (DurationBase::Quarter, 0nat));
            assert(ticks_of((DurationBase::Quarter, 0nat)) == 128);
        } else if quarters == 2 {
            assert(remaining == 32);
            assert(corrective(32) == (DurationBase::Half, 0nat));
            assert(ticks_of((DurationBase::Half, 0nat)) == 256);
        } else {
            assert(remaining == 48);
            assert(corrective(48) == (DurationBase::Half, 1nat));
            assert(ticks_of((DurationBase::Half, 1nat)) == 384);
        }
        assert(ticks_of(corrective(remaining)) == quarters * 128);
        assert(plan =~= seq![corrective(remaining)]);
        assert(plan.skip(1) =~= Seq::<PlainValue>::empty());
        assert(plan_ticks(plan) == ticks_of(corrective(remaining)) + plan_ticks(plan.skip(1)));
    } else {
        assert(is_candidate(draws[0]));
        let taken = draws[0].spec_sixteenths();
        let rest_quarters = (quarters - taken / 16) as nat;
        assert((remaining - taken) as nat == rest_quarters * 16);
        assert forall|k: int| 0 <= k < draws.skip(1).len() implies is_candidate(
            #[trigger] draws.skip(1)[k],
        ) by {
            assert(draws.skip(1)[k] == draws[k + 1]);
        }
        lemma_fill_exact(rest_quarters, draws.skip(1));
        let tail = fill_plan(rest_quarters * 16, draws.skip(1));
        assert(plan =~= seq![(draws[0], 0nat)] + tail);
        assert(plan.skip(1) =~= tail);
        assert(plan[0] == (draws[0], 0nat));
        assert(ticks_of(plan[0]) == taken * 8);
        assert(plan_ticks(plan) == ticks_of(plan[0]) + plan_ticks(plan.skip(1)));
    }
}

} // verus!
