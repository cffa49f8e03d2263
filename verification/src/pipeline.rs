//! The retrieval pipeline as a state machine.
//!
//! A driver lists the container, hands the listing to [`begin`], starts the
//! fetches that it is told to start, and hands each completion to
//! [`Drain::observe`] in the order in which the fetches complete. Every step
//! says what to do next. A match never ends the scan early: the result comes
//! only with the last completion. A failure ends it at once.

use vstd::prelude::*;
use crate::aggregate::{
    aggregate, first_matched, lemma_first_matched_push, AggregateResult, AggregateView,
};
use crate::outcome::{FetchOutcome, OutcomeView, PipelineError};
use crate::request::Event;

verus! {

/// A scan whose fetches are in flight: what has been observed so far.
pub struct Drain {
    pattern_requested: bool,
    launched: usize,
    completed: usize,
    first_match: Option<String>,
    observed: Ghost<Seq<OutcomeView>>,
}

/// A `Drain` as plain values: whether a pattern was asked for, how many
/// fetches were launched, and the outcomes observed so far, in the order in
/// which they arrived.
pub struct DrainView {
    pub pattern_requested: bool,
    pub launched: nat,
    pub observed: Seq<OutcomeView>,
}

impl DrainView {
    /// At least one launched fetch has not completed yet.
    pub open spec fn well_formed(self) -> bool {
        self.observed.len() < self.launched
    }

    /// The number of launched fetches that have not completed yet.
    pub open spec fn remaining(self) -> nat {
        (self.launched - self.observed.len()) as nat
    }
}

impl View for Drain {
    type V = DrainView;

    closed spec fn view(&self) -> DrainView {
        DrainView {
            pattern_requested: self.pattern_requested,
            launched: self.launched as nat,
            observed: self.observed@,
        }
    }
}

/// What the driver is to do next.
pub enum Step {
    /// Start one fetch for each of these identifiers, all of them at once,
    /// then wait for the first to complete.
    Launch(Drain, Vec<String>),
    /// Wait for the next fetch to complete.
    Await(Drain),
    /// Every fetch has completed: this is the result.
    Finish(AggregateResult),
    /// The request has failed. Fetches still in flight may be abandoned.
    Abort(PipelineError),
}

/// A `Step` as plain values.
pub enum StepView {
    Launch(DrainView, Seq<Seq<char>>),
    Await(DrainView),
    Finish(AggregateView),
    Abort(PipelineError),
}

impl View for Step {
    type V = StepView;

    open spec fn view(&self) -> StepView {
        match self {
            Step::Launch(drain, identifiers) => StepView::Launch(drain@, identifiers.deep_view()),
            Step::Await(drain) => StepView::Await(drain@),
            Step::Finish(result) => StepView::Finish(result@),
            Step::Abort(error) => StepView::Abort(*error),
        }
    }
}

/// The identifiers of a listing: its entries that carry one, in the
/// listing's order.
pub open spec fn listed_identifiers(entries: Seq<Option<Seq<char>>>) -> Seq<Seq<char>> {
    entries.filter_map(|entry: Option<Seq<char>>| entry)
}

/// A listing, or the failure to get one, as plain values.
pub open spec fn listing_view(listing: Result<Vec<Option<String>>, PipelineError>) -> Result<
    Seq<Option<Seq<char>>>,
    PipelineError,
> {
    match listing {
        Ok(entries) => Ok(entries.deep_view()),
        Err(error) => Err(error),
    }
}

/// A completed or failed fetch as plain values.
pub open spec fn completion_view(completion: Result<FetchOutcome, PipelineError>) -> Result<
    OutcomeView,
    PipelineError,
> {
    match completion {
        Ok(outcome) => Ok(outcome@),
        Err(error) => Err(error),
    }
}

/// The step that follows the listing. A failed listing fails the request. An
/// empty listing finishes it with nothing fetched. Any other launches one
/// fetch for each identifier.
pub open spec fn first_step(
    pattern_requested: bool,
    listing: Result<Seq<Option<Seq<char>>>, PipelineError>,
) -> StepView {
    match listing {
        Err(error) => StepView::Abort(error),
        Ok(entries) => {
            let identifiers = listed_identifiers(entries);
            if identifiers.len() == 0 {
                StepView::Finish(aggregate(pattern_requested, Seq::empty()))
            } else {
                StepView::Launch(
                    DrainView {
                        pattern_requested,
                        launched: identifiers.len(),
                        observed: Seq::empty(),
                    },
                    identifiers,
                )
            }
        },
    }
}

/// The step that follows one completion. A failed fetch fails the request.
/// An outcome is recorded after those already observed; with the last one
/// the scan finishes, and before that it waits, whether or not anything has
/// matched yet.
pub open spec fn next_step(drain: DrainView, completion: Result<OutcomeView, PipelineError>) -> StepView {
    match completion {
        Err(error) => StepView::Abort(error),
        Ok(outcome) => {
            let observed = drain.observed.push(outcome);
            if observed.len() >= drain.launched {
                StepView::Finish(aggregate(drain.pattern_requested, observed))
            } else {
                StepView::Await(
                    DrainView {
                        pattern_requested: drain.pattern_requested,
                        launched: drain.launched,
                        observed,
                    },
                )
            }
        },
    }
}

/// Where a drain stands after the given completions, taken in order. Once
/// the scan has finished or failed, later completions change nothing.
pub open spec fn drained(drain: DrainView, completions: Seq<Result<OutcomeView, PipelineError>>) -> StepView
    decreases completions.len(),
{
    if completions.len() == 0 {
        StepView::Await(drain)
    } else {
        match next_step(drain, completions.first()) {
            StepView::Await(next) => drained(next, completions.drop_first()),
            done => done,
        }
    }
}

/// Where a whole scan stands after the listing and the given completions.
pub open spec fn run(
    pattern_requested: bool,
    listing: Result<Seq<Option<Seq<char>>>, PipelineError>,
    completions: Seq<Result<OutcomeView, PipelineError>>,
) -> StepView {
    match first_step(pattern_requested, listing) {
        StepView::Launch(drain, _) => drained(drain, completions),
        done => done,
    }
}

/// The identifiers of a listing, in the listing's order. Entries without an
/// identifier are passed over.
pub fn identifiers(listing: &Vec<Option<String>>) -> (identifiers: Vec<String>)
    ensures
        identifiers.deep_view() == listed_identifiers(listing.deep_view()),
{
    let mut identifiers: Vec<String> = Vec::new();
    let mut index: usize = 0;
    assert(listing.deep_view().take(0) =~= Seq::empty());
    assert(identifiers.deep_view() =~= Seq::empty());
    while index < listing.len()
        invariant
            index <= listing.len(),
            identifiers.deep_view() == listed_identifiers(listing.deep_view().take(index as int)),
        decreases listing.len() - index,
    {
        let ghost before = identifiers.deep_view();
        let ghost prefix = listing.deep_view().take(index as int + 1);
        assert(prefix.drop_last() =~= listing.deep_view().take(index as int));
        assert(prefix.last() == listing[index as int].deep_view());
        match &listing[index] {
            Some(identifier) => {
                identifiers.push(identifier.clone());
                assert(identifiers.deep_view() =~= before + seq![identifier@]);
            },
            None => {
                assert(identifiers.deep_view() =~= before);
            },
        }
        index += 1;
    }
    assert(listing.deep_view().take(index as int) =~= listing.deep_view());
    identifiers
}

/// Takes the listing, or the failure to get one, and says how the scan goes
/// on.
pub fn begin(event: &Event, listing: Result<Vec<Option<String>>, PipelineError>) -> (step: Step)
    ensures
        step@ == first_step(event@.pattern is Some, listing_view(listing)),
        step@ matches StepView::Launch(drain, _) ==> drain.well_formed(),
{
    match listing {
        Err(error) => Step::Abort(error),
        Ok(entries) => {
            let pattern_requested: bool = event.find.is_some();
            let keys = identifiers(&entries);
            assert(keys.deep_view().len() == keys.len());
            if keys.len() == 0 {
                if pattern_requested {
                    Step::Finish(AggregateResult::FirstMatch(None))
                } else {
                    Step::Finish(AggregateResult::Count(0))
                }
            } else {
                let drain = Drain {
                    pattern_requested,
                    launched: keys.len(),
                    completed: 0,
                    first_match: None,
                    observed: Ghost(Seq::empty()),
                };
                Step::Launch(drain, keys)
            }
        },
    }
}

impl Drain {
    #[verifier::type_invariant]
    spec fn consistent(&self) -> bool {
        &&& self.completed == self.observed@.len()
        &&& self.completed < self.launched
        &&& first_matched(self.observed@) == match self.first_match {
            Some(identifier) => Some(identifier@),
            None => None,
        }
    }

    /// Takes one completion, in the order in which the fetches complete, and
    /// says how the scan goes on.
    pub fn observe(self, completion: Result<FetchOutcome, PipelineError>) -> (step: Step)
        ensures
            self@.well_formed(),
            step@ == next_step(self@, completion_view(completion)),
            step@ matches StepView::Await(next) ==> next.well_formed(),
    {
        proof {
            use_type_invariant(&self);
        }
        match completion {
            Err(error) => Step::Abort(error),
            Ok(outcome) => {
                proof {
                    lemma_first_matched_push(self.observed@, outcome@);
                }
                let ghost observed = self.observed@.push(outcome@);
                let pattern_requested: bool = self.pattern_requested;
                let launched: usize = self.launched;
                let completed: usize = self.completed + 1;
                let first_match = match self.first_match {
                    Some(identifier) => Some(identifier),
                    None => if outcome.matched {
                        Some(outcome.identifier)
                    } else {
                        None
                    },
                };
                if completed == launched {
                    if pattern_requested {
                        Step::Finish(AggregateResult::FirstMatch(first_match))
                    } else {
                        Step::Finish(AggregateResult::Count(completed))
                    }
                } else {
                    Step::Await(
                        Drain {
                            pattern_requested,
                            launched,
                            completed,
                            first_match,
                            observed: Ghost(observed),
                        },
                    )
                }
            },
        }
    }
}

} // verus!
