//! What holds of every scan, proved from the steps of the pipeline.
//!
//! A scan is given by its listing and by its fetches in the order in which
//! they complete. That order is not fixed by anything, so each statement
//! here holds of every order.

use vstd::prelude::*;
use crate::aggregate::{
    aggregate, is_first_match, lemma_first_matched_is, lemma_first_matched_none, AggregateView,
};
use crate::matcher::occurs;
use crate::outcome::{scanned, OutcomeView, PipelineError};
use crate::pipeline::{drained, first_step, listed_identifiers, run, DrainView, StepView};

verus! {

/// Every one of the completions is a success.
pub open spec fn all_succeed(completions: Seq<Result<OutcomeView, PipelineError>>) -> bool {
    forall|index: int| 0 <= index < completions.len() ==> (#[trigger] completions[index]) is Ok
}

/// The outcomes that the completions carry, in their order.
pub open spec fn outcomes_of(completions: Seq<Result<OutcomeView, PipelineError>>) -> Seq<OutcomeView> {
    Seq::new(completions.len(), |index: int| completions[index]->Ok_0)
}

/// The completions of fetches that all succeed: each object, given by its
/// identifier and its body, scanned for the pattern.
pub open spec fn scans(fetched: Seq<(Seq<char>, Seq<u8>)>, pattern: Option<Seq<u8>>) -> Seq<
    Result<OutcomeView, PipelineError>,
> {
    Seq::new(fetched.len(), |index: int| Ok(scanned(fetched[index].0, fetched[index].1, pattern)))
}

/// A drain that is handed successes only, and no more of them than it has
/// fetches in flight, finishes with the last of them and waits before.
pub proof fn successes_drain(drain: DrainView, completions: Seq<Result<OutcomeView, PipelineError>>)
    requires
        drain.well_formed(),
        all_succeed(completions),
        completions.len() <= drain.remaining(),
    ensures
        drained(drain, completions) == if completions.len() == drain.remaining() {
            StepView::Finish(
                aggregate(drain.pattern_requested, drain.observed + outcomes_of(completions)),
            )
        } else {
            StepView::Await(
                DrainView {
                    pattern_requested: drain.pattern_requested,
                    launched: drain.launched,
                    observed: drain.observed + outcomes_of(completions),
                },
            )
        },
    decreases completions.len(),
{
    let all = drain.observed + outcomes_of(completions);
    if completions.len() == 0 {
        assert(all =~= drain.observed);
    } else {
        assert(completions.first() is Ok);
        let observed = drain.observed.push(completions.first()->Ok_0);
        let rest = completions.drop_first();
        if observed.len() >= drain.launched {
            assert(all =~= observed);
        } else {
            let next = DrainView {
                pattern_requested: drain.pattern_requested,
                launched: drain.launched,
                observed,
            };
            assert(all_succeed(rest)) by {
                assert forall|index: int| 0 <= index < rest.len() implies (#[trigger] rest[index]) is Ok by {
                    assert(completions[index + 1] is Ok);
                }
            }
            successes_drain(next, rest);
            assert(next.observed + outcomes_of(rest) =~= all);
        }
    }
}

/// A drain finishes only with the completion of its last fetch in flight,
/// and then on all the outcomes: those observed before and those that the
/// completions brought.
pub proof fn drain_finishes_with_last_fetch(
    drain: DrainView,
    completions: Seq<Result<OutcomeView, PipelineError>>,
)
    requires
        drain.well_formed(),
    ensures
        drained(drain, completions) matches StepView::Finish(result) ==> {
            let last = completions.take(drain.remaining() as int);
            &&& completions.len() >= drain.remaining()
            &&& all_succeed(last)
            &&& (drain.observed + outcomes_of(last)).len() == drain.launched
            &&& result == aggregate(drain.pattern_requested, drain.observed + outcomes_of(last))
        },
    decreases completions.len(),
{
    if completions.len() > 0 {
        if let StepView::Finish(result) = drained(drain, completions) {
            let last = completions.take(drain.remaining() as int);
            let outcome = completions.first()->Ok_0;
            let observed = drain.observed.push(outcome);
            let rest = completions.drop_first();
            if observed.len() >= drain.launched {
                assert(last =~= seq![completions.first()]);
                assert(drain.observed + outcomes_of(last) =~= observed);
            } else {
                let next = DrainView {
                    pattern_requested: drain.pattern_requested,
                    launched: drain.launched,
                    observed,
                };
                drain_finishes_with_last_fetch(next, rest);
                let later = rest.take(next.remaining() as int);
                assert(last =~= seq![completions.first()] + later);
                assert(next.observed + outcomes_of(later) =~= drain.observed + outcomes_of(last));
                assert forall|index: int| 0 <= index < last.len() implies (#[trigger] last[index]) is Ok by {
                    if index > 0 {
                        assert(later[index - 1] is Ok);
                    }
                }
            }
        }
    }
}

/// A failed fetch among those in flight fails the drain, and the error is
/// that of a fetch that failed no later.
pub proof fn failure_aborts_drain(
    drain: DrainView,
    completions: Seq<Result<OutcomeView, PipelineError>>,
    failed: int,
)
    requires
        drain.well_formed(),
        0 <= failed < completions.len(),
        failed < drain.remaining(),
        completions[failed] is Err,
    ensures
        drained(drain, completions) matches StepView::Abort(error) && exists|index: int|
            0 <= index <= failed && #[trigger] completions[index] == Err::<OutcomeView, PipelineError>(
                error,
            ),
    decreases completions.len(),
{
    match completions.first() {
        Err(error) => {
            assert(completions[0] == Err::<OutcomeView, PipelineError>(error));
        },
        Ok(outcome) => {
            let next = DrainView {
                pattern_requested: drain.pattern_requested,
                launched: drain.launched,
                observed: drain.observed.push(outcome),
            };
            let rest = completions.drop_first();
            failure_aborts_drain(next, rest, failed - 1);
            let error = drained(next, rest)->Abort_0;
            let index = choose|index: int|
                0 <= index <= failed - 1 && #[trigger] rest[index] == Err::<OutcomeView, PipelineError>(
                    error,
                );
            assert(completions[index + 1] == Err::<OutcomeView, PipelineError>(error));
        },
    }
}

/// A scan finishes only when every fetch that was launched has completed,
/// whether or not a pattern was asked for and a match seen early. The result
/// then rests on exactly as many outcomes as identifiers were listed.
pub proof fn finish_takes_every_fetch(
    pattern_requested: bool,
    listing: Seq<Option<Seq<char>>>,
    completions: Seq<Result<OutcomeView, PipelineError>>,
)
    ensures
        run(pattern_requested, Ok(listing), completions) matches StepView::Finish(result) ==> {
            let launched = listed_identifiers(listing).len();
            let completed = completions.take(launched as int);
            &&& completions.len() >= launched
            &&& all_succeed(completed)
            &&& outcomes_of(completed).len() == launched
            &&& result == aggregate(pattern_requested, outcomes_of(completed))
        },
{
    let launched = listed_identifiers(listing).len();
    let completed = completions.take(launched as int);
    match first_step(pattern_requested, Ok(listing)) {
        StepView::Launch(drain, _) => {
            drain_finishes_with_last_fetch(drain, completions);
            assert(drain.observed + outcomes_of(completed) =~= outcomes_of(completed));
        },
        _ => {
            assert(outcomes_of(completed) =~= Seq::empty());
        },
    }
}

/// Where no pattern is asked for and every fetch succeeds, the result is the
/// number of identifiers listed.
pub proof fn count_of_full_scan(
    listing: Seq<Option<Seq<char>>>,
    completions: Seq<Result<OutcomeView, PipelineError>>,
)
    requires
        all_succeed(completions),
        completions.len() == listed_identifiers(listing).len(),
    ensures
        run(false, Ok(listing), completions) == StepView::Finish(
            AggregateView::Count(listed_identifiers(listing).len()),
        ),
{
    if let StepView::Launch(drain, _) = first_step(false, Ok(listing)) {
        successes_drain(drain, completions);
    }
}

/// Where the pattern occurs in the body of exactly one of the objects, the
/// result names that object, in whatever order the fetches complete.
pub proof fn single_match_is_reported(
    listing: Seq<Option<Seq<char>>>,
    fetched: Seq<(Seq<char>, Seq<u8>)>,
    pattern: Seq<u8>,
    only: int,
)
    requires
        fetched.len() == listed_identifiers(listing).len(),
        0 <= only < fetched.len(),
        occurs(fetched[only].1, pattern),
        forall|other: int|
            0 <= other < fetched.len() && other != only ==> !occurs(
                (#[trigger] fetched[other]).1,
                pattern,
            ),
    ensures
        run(true, Ok(listing), scans(fetched, Some(pattern))) == StepView::Finish(
            AggregateView::FirstMatch(Some(fetched[only].0)),
        ),
{
    let completions = scans(fetched, Some(pattern));
    let outcomes = outcomes_of(completions);
    if let StepView::Launch(drain, _) = first_step(true, Ok(listing)) {
        successes_drain(drain, completions);
        assert(drain.observed + outcomes =~= outcomes);
        assert(is_first_match(outcomes, only));
        lemma_first_matched_is(outcomes, only);
    }
}

/// Where the pattern occurs in no body, the result names no object.
pub proof fn no_match_reports_none(
    listing: Seq<Option<Seq<char>>>,
    fetched: Seq<(Seq<char>, Seq<u8>)>,
    pattern: Seq<u8>,
)
    requires
        fetched.len() == listed_identifiers(listing).len(),
        forall|index: int|
            0 <= index < fetched.len() ==> !occurs((#[trigger] fetched[index]).1, pattern),
    ensures
        run(true, Ok(listing), scans(fetched, Some(pattern))) == StepView::Finish(
            AggregateView::FirstMatch(None),
        ),
{
    let completions = scans(fetched, Some(pattern));
    let outcomes = outcomes_of(completions);
    assert forall|index: int| 0 <= index < outcomes.len() implies !outcomes[index].matched by {
        assert(!occurs(fetched[index].1, pattern));
    }
    lemma_first_matched_none(outcomes);
    lemma_first_matched_none(Seq::empty());
    if let StepView::Launch(drain, _) = first_step(true, Ok(listing)) {
        successes_drain(drain, completions);
        assert(drain.observed + outcomes =~= outcomes);
    }
}

/// A listing without identifiers finishes the scan at once, with a count of
/// zero or with no match, and launches nothing.
pub proof fn empty_listing_finishes_at_once(
    pattern_requested: bool,
    listing: Seq<Option<Seq<char>>>,
    completions: Seq<Result<OutcomeView, PipelineError>>,
)
    requires
        listed_identifiers(listing).len() == 0,
    ensures
        first_step(pattern_requested, Ok(listing)) == StepView::Finish(
            if pattern_requested {
                AggregateView::FirstMatch(None)
            } else {
                AggregateView::Count(0)
            },
        ),
        run(pattern_requested, Ok(listing), completions) == first_step(pattern_requested, Ok(listing)),
{
    lemma_first_matched_none(Seq::empty());
}

/// Where any one of the launched fetches fails, the scan fails and gives no
/// result.
pub proof fn failure_is_fatal(
    pattern_requested: bool,
    listing: Seq<Option<Seq<char>>>,
    completions: Seq<Result<OutcomeView, PipelineError>>,
    failed: int,
)
    requires
        0 <= failed < completions.len(),
        failed < listed_identifiers(listing).len(),
        completions[failed] is Err,
    ensures
        run(pattern_requested, Ok(listing), completions) is Abort,
{
    if let StepView::Launch(drain, _) = first_step(pattern_requested, Ok(listing)) {
        failure_aborts_drain(drain, completions, failed);
    }
}

} // verus!
