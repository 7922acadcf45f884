//! The valuation store: the most recent observation of every symbol.

use vstd::prelude::*;
use vstd::hash_map::StringHashMap;
use crate::price::Price;
use crate::status::{classified, classify, Status};
use crate::stock::{Stock, StockView};

verus! {

/// What a store holds: at most one observation per symbol.
pub type Entries = Map<Seq<char>, StockView>;

/// The observation on record for a symbol, if there is one.
pub open spec fn previous(entries: Entries, symbol: Seq<char>) -> Option<StockView> {
    if entries.contains_key(symbol) {
        Some(entries[symbol])
    } else {
        None
    }
}

/// The price against which a new quote of the symbol is classified: the price
/// on record, or zero where the symbol has no record yet.
pub open spec fn previous_price(entries: Entries, symbol: Seq<char>) -> Price {
    match previous(entries, symbol) {
        Some(last) => last.price,
        None => Price { bits: 0 },
    }
}

/// The entries after an observation was committed under a symbol.
pub open spec fn committed(entries: Entries, symbol: Seq<char>, observation: StockView) -> Entries {
    entries.insert(symbol, observation)
}

/// A quote with the status that it gets against what is on record.
pub open spec fn observation_of(entries: Entries, quote: StockView) -> StockView {
    StockView {
        status: classified(quote.price, previous_price(entries, quote.symbol)),
        ..quote
    }
}

/// The entries after a quote was classified and committed under its symbol.
pub open spec fn observed(entries: Entries, quote: StockView) -> Entries {
    committed(entries, quote.symbol, observation_of(entries, quote))
}

/// The status of a new quote against the observation before it.
pub fn get_stock_valuation_status(nstock: &Stock, past_stock: &Stock) -> (status: Status)
    ensures
        status == classified(nstock.price, past_stock.price),
{
    classify(nstock.price, past_stock.price)
}

/// The most recent observation per symbol. Entries are created by the first
/// commit for a symbol, replaced by every later one, and never removed.
pub struct ValuationStore {
    entries: StringHashMap<Stock>,
}

impl View for ValuationStore {
    type V = Entries;

    closed spec fn view(&self) -> Entries {
        self.entries@.map_values(|stock: Stock| stock@)
    }
}

impl ValuationStore {
    #[verifier::type_invariant]
    spec fn finite(self) -> bool {
        self.entries@.dom().finite()
    }

    /// A store without entries.
    pub fn new() -> (store: ValuationStore)
        ensures
            store@ == Map::<Seq<char>, StockView>::empty(),
    {
        let store = ValuationStore { entries: StringHashMap::new() };
        assert(store@ =~= Map::<Seq<char>, StockView>::empty());
        store
    }

    /// The number of symbols on record.
    pub fn len(&self) -> (count: usize)
        ensures
            self@.dom().finite(),
            count == self@.dom().len(),
    {
        proof {
            use_type_invariant(self);
            assert(self@.dom() =~= self.entries@.dom());
        }
        self.entries.len()
    }

    /// The last committed observation of the symbol, or `None` where nothing
    /// was committed for it.
    pub fn get_previous(&self, symbol: &str) -> (last: Option<Stock>)
        ensures
            match last {
                Some(stock) => previous(self@, symbol@) == Some(stock@),
                None => previous(self@, symbol@) is None,
            },
    {
        match self.entries.get(symbol) {
            Some(stock) => Some(stock.clone()),
            None => None,
        }
    }

    /// Replaces the observation on record for the symbol. Every other symbol
    /// keeps its record, and no record is lost.
    pub fn commit(&mut self, symbol: String, observation: Stock)
        ensures
            final(self)@ == committed(old(self)@, symbol@, observation@),
            previous(final(self)@, symbol@) == Some(observation@),
            forall|other: Seq<char>|
                other != symbol@ ==> previous(final(self)@, other) == previous(old(self)@, other),
            old(self)@.dom().subset_of(final(self)@.dom()),
    {
        proof {
            use_type_invariant(&*self);
        }
        let mut entries = StringHashMap::new();
        std::mem::swap(&mut self.entries, &mut entries);
        entries.insert(symbol, observation);
        self.entries = entries;
        assert(self@ =~= committed(old(self)@, symbol@, observation@));
    }

    /// Classifies a quote against the record of its symbol, commits the
    /// result under that symbol and returns it. The status that the quote
    /// came with is replaced.
    pub fn observe(&mut self, quote: Stock) -> (observation: Stock)
        ensures
            observation@ == observation_of(old(self)@, quote@),
            final(self)@ == observed(old(self)@, quote@),
    {
        let status = match self.get_previous(quote.symbol.as_str()) {
            Some(last) => get_stock_valuation_status(&quote, &last),
            None => classify(quote.price, Price::zero()),
        };
        let observation = Stock::new(quote.symbol, quote.company_name, quote.price, status);
        self.commit(observation.symbol.clone(), observation.clone());
        observation
    }
}

/// A series of commits, each a symbol and the observation committed under it.
pub type Commits = Seq<(Seq<char>, StockView)>;

/// The entries after a series of commits, made one after the other.
pub open spec fn committed_all(entries: Entries, commits: Commits) -> Entries
    decreases commits.len(),
{
    if commits.len() == 0 {
        entries
    } else {
        committed(committed_all(entries, commits.drop_last()), commits.last().0, commits.last().1)
    }
}

/// The observation of the latest commit in the series that was made under
/// the symbol, if there is one.
pub open spec fn last_commit(commits: Commits, symbol: Seq<char>) -> Option<StockView>
    decreases commits.len(),
{
    if commits.len() == 0 {
        None
    } else if commits.last().0 == symbol {
        Some(commits.last().1)
    } else {
        last_commit(commits.drop_last(), symbol)
    }
}

/// No two commits of the series are made under the same symbol.
pub open spec fn distinct_symbols(commits: Commits) -> bool {
    forall|i: int, j: int| 0 <= i < j < commits.len() ==> commits[i].0 != commits[j].0
}

/// Read-your-write: right after a commit the store answers with the
/// observation that was committed, and its answer for every other symbol is
/// what it was before.
pub proof fn lemma_read_your_write(
    entries: Entries,
    symbol: Seq<char>,
    observation: StockView,
    other: Seq<char>,
)
    ensures
        previous(committed(entries, symbol, observation), symbol) == Some(observation),
        other != symbol ==> previous(committed(entries, symbol, observation), other) == previous(
            entries,
            other,
        ),
{
}

/// A symbol without a record has no previous observation, and its first
/// quote is classified against a price of zero: `Up` for a price above zero,
/// `Down` for one below, `Same` for zero and for not-a-number.
pub proof fn lemma_first_observation(entries: Entries, quote: StockView)
    requires
        !entries.contains_key(quote.symbol),
    ensures
        previous(entries, quote.symbol) is None,
        previous(Map::<Seq<char>, StockView>::empty(), quote.symbol) is None,
        observation_of(entries, quote).status == classified(quote.price, Price { bits: 0 }),
        !quote.price.nan() && quote.price.rank() > 0 ==> observation_of(entries, quote).status
            == Status::Up,
        !quote.price.nan() && quote.price.rank() < 0 ==> observation_of(entries, quote).status
            == Status::Down,
        quote.price.nan() || quote.price.rank() == 0 ==> observation_of(entries, quote).status
            == Status::Same,
        previous(observed(entries, quote), quote.symbol) == Some(observation_of(entries, quote)),
{
}

/// After a series of commits the store answers, for every symbol, with the
/// latest commit made under it, and with what it held before where the
/// series has none.
pub proof fn lemma_last_commit_wins(entries: Entries, commits: Commits, symbol: Seq<char>)
    ensures
        previous(committed_all(entries, commits), symbol) == match last_commit(commits, symbol) {
            Some(observation) => Some(observation),
            None => previous(entries, symbol),
        },
    decreases commits.len(),
{
    if commits.len() > 0 {
        lemma_last_commit_wins(entries, commits.drop_last(), symbol);
    }
}

/// The latest commit under a symbol is one of the commits under that symbol;
/// there is none exactly where the series has no commit under it.
pub proof fn lemma_last_commit_is_a_commit(commits: Commits, symbol: Seq<char>)
    ensures
        match last_commit(commits, symbol) {
            Some(observation) => commits.contains((symbol, observation)),
            None => forall|i: int| 0 <= i < commits.len() ==> (#[trigger] commits[i]).0 != symbol,
        },
    decreases commits.len(),
{
    if commits.len() > 0 {
        let earlier = commits.drop_last();
        lemma_last_commit_is_a_commit(earlier, symbol);
        if commits.last().0 == symbol {
            assert(commits[commits.len() - 1] == (symbol, commits.last().1));
        } else {
            match last_commit(earlier, symbol) {
                Some(observation) => {
                    let i = choose|i: int|
                        0 <= i < earlier.len() && earlier[i] == (symbol, observation);
                    assert(commits[i] == (symbol, observation));
                },
                None => {
                    assert forall|i: int| 0 <= i < commits.len() implies (#[trigger] commits[i]).0
                        != symbol by {
                        if i < earlier.len() {
                            assert(earlier[i] == commits[i]);
                        }
                    }
                },
            }
        }
    }
}

/// Where every commit of a series is under a symbol of its own, each of them
/// is the latest under its symbol.
pub proof fn lemma_distinct_commit_is_last(commits: Commits, at: int)
    requires
        distinct_symbols(commits),
        0 <= at < commits.len(),
    ensures
        last_commit(commits, commits[at].0) == Some(commits[at].1),
{
    lemma_last_commit_is_a_commit(commits, commits[at].0);
    match last_commit(commits, commits[at].0) {
        Some(observation) => {
            let i = choose|i: int|
                0 <= i < commits.len() && commits[i] == (commits[at].0, observation);
            assert(i == at);
        },
        None => {
            assert(commits[at].0 == commits[at].0);
        },
    }
}

/// Commits under `n` different symbols leave an empty store with exactly `n`
/// entries, each the observation that was committed under its symbol.
pub proof fn lemma_distinct_commits_fill(commits: Commits)
    requires
        distinct_symbols(commits),
    ensures
        committed_all(Map::empty(), commits).dom().finite(),
        committed_all(Map::empty(), commits).dom().len() == commits.len(),
        forall|i: int|
            0 <= i < commits.len() ==> previous(
                committed_all(Map::empty(), commits),
                (#[trigger] commits[i]).0,
            ) == Some(commits[i].1),
    decreases commits.len(),
{
    let empty = Map::<Seq<char>, StockView>::empty();
    let after = committed_all(empty, commits);
    if commits.len() > 0 {
        let earlier = commits.drop_last();
        let symbol = commits.last().0;
        assert(distinct_symbols(earlier)) by {
            assert forall|i: int, j: int| 0 <= i < j < earlier.len() implies earlier[i].0
                != earlier[j].0 by {
                assert(earlier[i] == commits[i] && earlier[j] == commits[j]);
            }
        }
        lemma_distinct_commits_fill(earlier);
        let before = committed_all(empty, earlier);
        assert(!before.dom().contains(symbol)) by {
            lemma_last_commit_wins(empty, earlier, symbol);
            lemma_last_commit_is_a_commit(earlier, symbol);
            match last_commit(earlier, symbol) {
                Some(observation) => {
                    let i = choose|i: int|
                        0 <= i < earlier.len() && earlier[i] == (symbol, observation);
                    assert(commits[i] == earlier[i]);
                },
                None => {},
            }
        }
        assert(after.dom() =~= before.dom().insert(symbol));
    }
    assert forall|i: int| 0 <= i < commits.len() implies previous(
        after,
        (#[trigger] commits[i]).0,
    ) == Some(commits[i].1) by {
        lemma_last_commit_wins(empty, commits, commits[i].0);
        lemma_distinct_commit_is_last(commits, i);
    }
}

/// Two series with the same commits in them, those of the first each under
/// a symbol of its own, leave the same store.
pub proof fn lemma_same_commits_same_store(entries: Entries, first: Commits, second: Commits)
    requires
        distinct_symbols(first),
        forall|commit: (Seq<char>, StockView)| first.contains(commit) <==> second.contains(commit),
    ensures
        committed_all(entries, first) == committed_all(entries, second),
{
    let one = committed_all(entries, first);
    let two = committed_all(entries, second);
    assert forall|symbol: Seq<char>| previous(one, symbol) == previous(two, symbol) by {
        lemma_last_commit_wins(entries, first, symbol);
        lemma_last_commit_wins(entries, second, symbol);
        lemma_last_commit_is_a_commit(first, symbol);
        lemma_last_commit_is_a_commit(second, symbol);
        match last_commit(second, symbol) {
            Some(observation) => {
                assert(first.contains((symbol, observation)));
                let i = choose|i: int| 0 <= i < first.len() && first[i] == (symbol, observation);
                lemma_distinct_commit_is_last(first, i);
            },
            None => {
                match last_commit(first, symbol) {
                    Some(observation) => {
                        assert(second.contains((symbol, observation)));
                        let j = choose|j: int|
                            0 <= j < second.len() && second[j] == (symbol, observation);
                        assert(second[j].0 == symbol);
                    },
                    None => {},
                }
            },
        }
    }
    assert(one =~= two) by {
        assert forall|symbol: Seq<char>| one.contains_key(symbol) == two.contains_key(symbol) by {
            assert(previous(one, symbol) == previous(two, symbol));
        }
        assert forall|symbol: Seq<char>| one.contains_key(symbol) implies one[symbol]
            == two[symbol] by {
            assert(previous(one, symbol) == previous(two, symbol));
        }
    }
}

/// The order of commits under different symbols does not matter: two series
/// that hold the same commits, each under a symbol of its own, leave the
/// same store.
pub proof fn lemma_commit_order_is_irrelevant(entries: Entries, first: Commits, second: Commits)
    requires
        distinct_symbols(first),
        first.to_multiset() == second.to_multiset(),
    ensures
        committed_all(entries, first) == committed_all(entries, second),
{
    first.to_multiset_ensures();
    second.to_multiset_ensures();
    assert forall|commit: (Seq<char>, StockView)| first.contains(commit) <==> second.contains(
        commit,
    ) by {
        if first.contains(commit) {
            assert(first.to_multiset().count(commit) > 0);
            assert(second.to_multiset().count(commit) > 0);
        }
        if second.contains(commit) {
            assert(second.to_multiset().count(commit) > 0);
            assert(first.to_multiset().count(commit) > 0);
        }
    }
    lemma_same_commits_same_store(entries, first, second);
}

} // verus!
