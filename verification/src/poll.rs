//! Concluding the cycles of a poller.
//!
//! A cycle fetches the page of one code, extracts its quote and reads its
//! price text as a number; that much is done before the store is touched and
//! may fail. Concluding the cycle classifies the quote against the record of
//! its symbol and commits the result. A failed cycle changes nothing and is
//! handed back as it is, so that it ends neither the tick nor the poller.

use vstd::prelude::*;
use crate::error::{StockError, StockErrorView};
use crate::extract::{priced, RawQuote};
use crate::price::Price;
use crate::status::{classified, Status};
use crate::stock::{Stock, StockView};
use crate::store::{
    committed_all, distinct_symbols, last_commit, lemma_distinct_commit_is_last,
    lemma_distinct_commits_fill, lemma_last_commit_is_a_commit, lemma_last_commit_wins,
    lemma_same_commits_same_store, observation_of, observed, previous, Commits, Entries,
    ValuationStore,
};

verus! {

/// What a cycle brought before the store was touched: the quote that was
/// extracted, and the number that its price text was read as, `None` where
/// the text is no number.
#[derive(Debug)]
pub struct Sighting {
    pub quote: RawQuote,
    pub number: Option<Price>,
}

/// A cycle as plain values: the quote with its price, or the failure.
pub type Cycle = Result<StockView, StockErrorView>;

/// The plain value of a cycle.
pub open spec fn cycle_view(cycle: Result<Sighting, StockError>) -> Cycle {
    match cycle {
        Ok(sighting) => Ok(priced(sighting.quote@, sighting.number)),
        Err(error) => Err(error@),
    }
}

/// The plain values of a series of cycles.
pub open spec fn cycle_views(cycles: Seq<Result<Sighting, StockError>>) -> Seq<Cycle> {
    cycles.map_values(|cycle: Result<Sighting, StockError>| cycle_view(cycle))
}

/// The plain value of a report.
pub open spec fn report_view(report: Result<Stock, StockError>) -> Cycle {
    match report {
        Ok(stock) => Ok(stock@),
        Err(error) => Err(error@),
    }
}

/// The plain values of a series of reports.
pub open spec fn report_views(reports: Seq<Result<Stock, StockError>>) -> Seq<Cycle> {
    reports.map_values(|report: Result<Stock, StockError>| report_view(report))
}

/// The entries after a cycle was concluded: a quote is classified and
/// committed under its symbol, a failure changes nothing.
pub open spec fn concluded(entries: Entries, cycle: Cycle) -> Entries {
    match cycle {
        Ok(quote) => observed(entries, quote),
        Err(_) => entries,
    }
}

/// What concluding a cycle reports: the observation that was committed, or
/// the failure of the cycle.
pub open spec fn report_of(entries: Entries, cycle: Cycle) -> Cycle {
    match cycle {
        Ok(quote) => Ok(observation_of(entries, quote)),
        Err(error) => Err(error),
    }
}

/// The entries after a series of cycles was concluded, one after the other.
pub open spec fn concluded_all(entries: Entries, cycles: Seq<Cycle>) -> Entries
    decreases cycles.len(),
{
    if cycles.len() == 0 {
        entries
    } else {
        concluded(concluded_all(entries, cycles.drop_last()), cycles.last())
    }
}

/// What concluding a series of cycles reports: for each cycle what it reports
/// on the entries that the cycles before it left.
pub open spec fn reports_of(entries: Entries, cycles: Seq<Cycle>) -> Seq<Cycle> {
    Seq::new(
        cycles.len(),
        |i: int| report_of(concluded_all(entries, cycles.take(i)), cycles[i]),
    )
}

/// Concludes one cycle of a poller that runs its cycles one after the other.
///
/// A quote gets its price, is classified against the record of its symbol
/// (against zero where there is none) and replaces that record; the
/// observation is handed back. A failure leaves the store as it is and is
/// handed back unchanged.
pub fn determine_stock_status(
    past_data: &mut ValuationStore,
    cycle: Result<Sighting, StockError>,
) -> (report: Result<Stock, StockError>)
    ensures
        report_view(report) == report_of(old(past_data)@, cycle_view(cycle)),
        final(past_data)@ == concluded(old(past_data)@, cycle_view(cycle)),
        report is Ok <==> cycle is Ok,
        report matches Ok(stock) ==> stock.price.quotable() && previous(
            final(past_data)@,
            stock.symbol@,
        ) == Some(stock@),
        report matches Ok(stock) ==> (previous(old(past_data)@, stock.symbol@) is None
            ==> stock.status == classified(stock.price, Price { bits: 0 }) && stock.status == (
            if stock.price.rank() > 0 {
                Status::Up
            } else {
                Status::Same
            })),
        forall|other: Seq<char>|
            !(cycle matches Ok(sighting) && sighting.quote.symbol@ == other) ==> previous(
                final(past_data)@,
                other,
            ) == previous(old(past_data)@, other),
{
    match cycle {
        Ok(sighting) => {
            let quote = sighting.quote.priced(sighting.number);
            Ok(past_data.observe(quote))
        },
        Err(error) => Err(error),
    }
}

/// Concludes the cycles of the tasks of a poller that runs each cycle as a
/// task of its own, in the order in which the tasks finished.
///
/// Each cycle is concluded as [`determine_stock_status`] concludes it, on
/// the store as the cycles before it left it; the reports come in the same
/// order.
pub fn async_determine_stock_status(
    data: &mut ValuationStore,
    finished: Vec<Result<Sighting, StockError>>,
) -> (reports: Vec<Result<Stock, StockError>>)
    ensures
        final(data)@ == concluded_all(old(data)@, cycle_views(finished@)),
        report_views(reports@) == reports_of(old(data)@, cycle_views(finished@)),
        reports.len() == finished.len(),
{
    let ghost start = data@;
    let ghost all = cycle_views(finished@);
    let ghost mut seen: Seq<Cycle> = Seq::empty();
    let mut reports: Vec<Result<Stock, StockError>> = Vec::new();
    for cycle in it: finished.into_iter()
        invariant
            it.seq() == finished@,
            all == cycle_views(finished@),
            seen == all.take(it.index() as int),
            data@ == concluded_all(start, seen),
            report_views(reports@) == reports_of(start, seen),
    {
        let ghost before = data@;
        let ghost index = it.index() as int;
        let report = determine_stock_status(data, cycle);
        proof {
            let next = seen.push(cycle_view(cycle));
            assert(all[index] == cycle_view(finished@[index]));
            assert(next =~= all.take(index + 1));
            assert(next.drop_last() =~= seen);
            assert(report_views(reports@.push(report)) =~= report_views(reports@).push(
                report_view(report),
            ));
            assert(reports_of(start, next) =~= reports_of(start, seen).push(
                report_of(before, cycle_view(cycle)),
            )) by {
                assert forall|i: int| 0 <= i < seen.len() implies next.take(i) == seen.take(
                    i,
                ) by {
                    assert(next.take(i) =~= seen.take(i));
                }
                assert(next.take(index) =~= seen);
            }
            seen = next;
        }
        reports.push(report);
    }
    proof {
        assert(seen =~= all);
    }
    reports
}

/// A series of cycles that all brought a quote.
pub open spec fn succeeded(quotes: Seq<StockView>) -> Seq<Cycle> {
    quotes.map_values(|quote: StockView| Ok::<StockView, StockErrorView>(quote))
}

/// No two quotes of the series are of the same symbol.
pub open spec fn distinct_quotes(quotes: Seq<StockView>) -> bool {
    forall|i: int, j: int| 0 <= i < j < quotes.len() ==> quotes[i].symbol != quotes[j].symbol
}

/// The commits that concluding the quotes makes where they are of different
/// symbols: each under its symbol, classified against the entries that were
/// there before the series.
pub open spec fn commits_of(entries: Entries, quotes: Seq<StockView>) -> Commits {
    Seq::new(quotes.len(), |i: int| (quotes[i].symbol, observation_of(entries, quotes[i])))
}

/// Concluding cycles of different symbols is one commit per cycle, each
/// classified against what the store held before the first of them.
pub proof fn lemma_cycles_are_commits(entries: Entries, quotes: Seq<StockView>)
    requires
        distinct_quotes(quotes),
    ensures
        distinct_symbols(commits_of(entries, quotes)),
        concluded_all(entries, succeeded(quotes)) == committed_all(
            entries,
            commits_of(entries, quotes),
        ),
    decreases quotes.len(),
{
    let commits = commits_of(entries, quotes);
    if quotes.len() > 0 {
        let earlier = quotes.drop_last();
        let quote = quotes.last();
        assert(distinct_quotes(earlier)) by {
            assert forall|i: int, j: int| 0 <= i < j < earlier.len() implies earlier[i].symbol
                != earlier[j].symbol by {
                assert(earlier[i] == quotes[i] && earlier[j] == quotes[j]);
            }
        }
        lemma_cycles_are_commits(entries, earlier);
        let before = committed_all(entries, commits_of(entries, earlier));
        assert(succeeded(quotes).drop_last() =~= succeeded(earlier));
        assert(commits.drop_last() =~= commits_of(entries, earlier));
        assert(previous(before, quote.symbol) == previous(entries, quote.symbol)) by {
            lemma_last_commit_wins(entries, commits_of(entries, earlier), quote.symbol);
            lemma_last_commit_is_a_commit(commits_of(entries, earlier), quote.symbol);
            match last_commit(commits_of(entries, earlier), quote.symbol) {
                Some(observation) => {
                    let i = choose|i: int|
                        0 <= i < earlier.len() && commits_of(entries, earlier)[i] == (
                            quote.symbol,
                            observation,
                        );
                    assert(quotes[i].symbol == quote.symbol);
                },
                None => {},
            }
        }
    }
}

/// Cycles of `n` different symbols, concluded in any order, leave a store
/// that was empty with exactly `n` entries, and every store with the
/// observation of each cycle on record under its symbol, classified against
/// what the store held before.
pub proof fn lemma_distinct_cycles_fill(entries: Entries, quotes: Seq<StockView>)
    requires
        distinct_quotes(quotes),
    ensures
        forall|i: int|
            0 <= i < quotes.len() ==> previous(
                concluded_all(entries, succeeded(quotes)),
                (#[trigger] quotes[i]).symbol,
            ) == Some(observation_of(entries, quotes[i])),
        entries == Map::<Seq<char>, StockView>::empty() ==> concluded_all(
            entries,
            succeeded(quotes),
        ).dom().finite() && concluded_all(entries, succeeded(quotes)).dom().len() == quotes.len(),
{
    let commits = commits_of(entries, quotes);
    lemma_cycles_are_commits(entries, quotes);
    assert forall|i: int| 0 <= i < quotes.len() implies previous(
        concluded_all(entries, succeeded(quotes)),
        (#[trigger] quotes[i]).symbol,
    ) == Some(observation_of(entries, quotes[i])) by {
        lemma_last_commit_wins(entries, commits, commits[i].0);
        lemma_distinct_commit_is_last(commits, i);
    }
    if entries == Map::<Seq<char>, StockView>::empty() {
        lemma_distinct_commits_fill(commits);
    }
}

/// The order in which cycles of different symbols finish does not matter:
/// two series of the same quotes, each of a symbol of its own, leave the
/// same store.
pub proof fn lemma_cycle_order_is_irrelevant(
    entries: Entries,
    first: Seq<StockView>,
    second: Seq<StockView>,
)
    requires
        distinct_quotes(first),
        distinct_quotes(second),
        first.to_multiset() == second.to_multiset(),
    ensures
        concluded_all(entries, succeeded(first)) == concluded_all(entries, succeeded(second)),
{
    first.to_multiset_ensures();
    second.to_multiset_ensures();
    lemma_cycles_are_commits(entries, first);
    lemma_cycles_are_commits(entries, second);
    let one = commits_of(entries, first);
    let two = commits_of(entries, second);
    assert forall|commit: (Seq<char>, StockView)| one.contains(commit) <==> two.contains(
        commit,
    ) by {
        if one.contains(commit) {
            let i = choose|i: int| 0 <= i < one.len() && one[i] == commit;
            assert(first.contains(first[i]));
            assert(first.to_multiset().count(first[i]) > 0);
            assert(second.to_multiset().count(first[i]) > 0);
            assert(second.contains(first[i]));
            let j = choose|j: int| 0 <= j < second.len() && second[j] == first[i];
            assert(two[j] == (second[j].symbol, observation_of(entries, second[j])));
            assert(two[j] == commit);
        }
        if two.contains(commit) {
            let j = choose|j: int| 0 <= j < two.len() && two[j] == commit;
            assert(second.contains(second[j]));
            assert(second.to_multiset().count(second[j]) > 0);
            assert(first.to_multiset().count(second[j]) > 0);
            assert(first.contains(second[j]));
            let i = choose|i: int| 0 <= i < first.len() && first[i] == second[j];
            assert(one[i] == (first[i].symbol, observation_of(entries, first[i])));
            assert(one[i] == commit);
        }
    }
    lemma_same_commits_same_store(entries, one, two);
}

} // verus!
