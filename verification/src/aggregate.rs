//! The result of a scan and its rendering as text.

use vstd::prelude::*;
use crate::outcome::OutcomeView;

verus! {

/// What a scan reports: how many objects were read, where no pattern was
/// asked for, or else the first object seen to match, if any did.
#[derive(Clone, Debug, PartialEq, Eq)]
pub enum AggregateResult {
    Count(usize),
    FirstMatch(Option<String>),
}

/// An `AggregateResult` as plain values.
pub enum AggregateView {
    Count(nat),
    FirstMatch(Option<Seq<char>>),
}

impl View for AggregateResult {
    type V = AggregateView;

    open spec fn view(&self) -> AggregateView {
        match self {
            AggregateResult::Count(n) => AggregateView::Count(*n as nat),
            AggregateResult::FirstMatch(Some(identifier)) => AggregateView::FirstMatch(
                Some(identifier@),
            ),
            AggregateResult::FirstMatch(None) => AggregateView::FirstMatch(None),
        }
    }
}

/// The outcome at `index` matched and none before it did.
pub open spec fn is_first_match(outcomes: Seq<OutcomeView>, index: int) -> bool {
    &&& 0 <= index < outcomes.len()
    &&& outcomes[index].matched
    &&& forall|earlier: int| 0 <= earlier < index ==> !outcomes[earlier].matched
}

/// The identifier of the first outcome that matched, in the order in which
/// the outcomes are given.
pub open spec fn first_matched(outcomes: Seq<OutcomeView>) -> Option<Seq<char>> {
    if exists|index: int| is_first_match(outcomes, index) {
        Some(outcomes[choose|index: int| is_first_match(outcomes, index)].identifier)
    } else {
        None
    }
}

/// At most one outcome is the first to match.
pub proof fn lemma_first_match_unique(outcomes: Seq<OutcomeView>, i: int, j: int)
    requires
        is_first_match(outcomes, i),
        is_first_match(outcomes, j),
    ensures
        i == j,
{
}

/// The outcome that matched with none matching before it is the one named.
pub proof fn lemma_first_matched_is(outcomes: Seq<OutcomeView>, index: int)
    requires
        is_first_match(outcomes, index),
    ensures
        first_matched(outcomes) == Some(outcomes[index].identifier),
{
    let chosen = choose|index: int| is_first_match(outcomes, index);
    lemma_first_match_unique(outcomes, index, chosen);
}

/// Where no outcome matched, none is named.
pub proof fn lemma_first_matched_none(outcomes: Seq<OutcomeView>)
    requires
        forall|index: int| 0 <= index < outcomes.len() ==> !outcomes[index].matched,
    ensures
        first_matched(outcomes) is None,
{
}

/// Where no outcome is the first to match, none below `bound` matches.
proof fn lemma_unmatched_below(outcomes: Seq<OutcomeView>, bound: int)
    requires
        forall|index: int| !is_first_match(outcomes, index),
        0 <= bound <= outcomes.len(),
    ensures
        forall|index: int| 0 <= index < bound ==> !outcomes[index].matched,
    decreases bound,
{
    if bound > 0 {
        lemma_unmatched_below(outcomes, bound - 1);
        assert(!is_first_match(outcomes, bound - 1));
    }
}

/// One more outcome changes the first match only where there was none and
/// the new outcome matches.
pub proof fn lemma_first_matched_push(outcomes: Seq<OutcomeView>, next: OutcomeView)
    ensures
        first_matched(outcomes.push(next)) == match first_matched(outcomes) {
            Some(identifier) => Some(identifier),
            None => if next.matched {
                Some(next.identifier)
            } else {
                None
            },
        },
{
    let extended = outcomes.push(next);
    if exists|index: int| is_first_match(outcomes, index) {
        let first = choose|index: int| is_first_match(outcomes, index);
        assert(is_first_match(extended, first));
        lemma_first_matched_is(extended, first);
    } else {
        lemma_unmatched_below(outcomes, outcomes.len() as int);
        if next.matched {
            let last = outcomes.len() as int;
            assert(is_first_match(extended, last));
            lemma_first_matched_is(extended, last);
        } else {
            assert forall|index: int| 0 <= index < extended.len() implies !extended[index].matched by {
                if index < outcomes.len() {
                    assert(!outcomes[index].matched);
                }
            }
            lemma_first_matched_none(extended);
        }
    }
}

/// The result owed for the outcomes of a finished scan, given in the order
/// in which the fetches completed.
pub open spec fn aggregate(pattern_requested: bool, outcomes: Seq<OutcomeView>) -> AggregateView {
    if pattern_requested {
        AggregateView::FirstMatch(first_matched(outcomes))
    } else {
        AggregateView::Count(outcomes.len())
    }
}

/// The character for one decimal digit.
pub open spec fn digit(value: nat) -> char
    recommends
        value < 10,
{
    "0123456789"@[value as int]
}

/// The decimal digits of `n`, most significant first, without leading zeros.
pub open spec fn decimal(n: nat) -> Seq<char>
    decreases n,
{
    if n < 10 {
        seq![digit(n)]
    } else {
        decimal(n / 10).push(digit(n % 10))
    }
}

/// The text of a result: a count as its decimal digits, a match as the
/// identifier itself, and no match as a fixed phrase.
pub open spec fn rendered(result: AggregateView) -> Seq<char> {
    match result {
        AggregateView::Count(n) => decimal(n),
        AggregateView::FirstMatch(Some(identifier)) => identifier,
        AggregateView::FirstMatch(None) => "none found"@,
    }
}

fn digit_text(value: usize) -> (text: &'static str)
    requires
        value < 10,
    ensures
        text@ == seq![digit(value as nat)],
{
    proof {
        reveal_strlit("0123456789");
        reveal_strlit("0");
        reveal_strlit("1");
        reveal_strlit("2");
        reveal_strlit("3");
        reveal_strlit("4");
        reveal_strlit("5");
        reveal_strlit("6");
        reveal_strlit("7");
        reveal_strlit("8");
        reveal_strlit("9");
    }
    let text = match value {
        0 => "0",
        1 => "1",
        2 => "2",
        3 => "3",
        4 => "4",
        5 => "5",
        6 => "6",
        7 => "7",
        8 => "8",
        _ => "9",
    };
    assert(text@ =~= seq![digit(value as nat)]);
    text
}

/// Writes a count in decimal.
pub fn render_count(n: usize) -> (text: String)
    ensures
        text@ == decimal(n as nat),
    decreases n,
{
    if n < 10 {
        String::from_str(digit_text(n))
    } else {
        let text = render_count(n / 10).concat(digit_text(n % 10));
        assert(text@ =~= decimal(n as nat));
        text
    }
}

impl AggregateResult {
    /// The text that stands for this result in a response.
    pub fn render(&self) -> (text: String)
        ensures
            text@ == rendered(self@),
    {
        match self {
            AggregateResult::Count(n) => render_count(*n),
            AggregateResult::FirstMatch(Some(identifier)) => identifier.clone(),
            AggregateResult::FirstMatch(None) => String::from_str("none found"),
        }
    }
}

} // verus!
