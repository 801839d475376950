//! Query parameters of the web API and the reading of symbol lists.
use vstd::prelude::*;

use crate::text::{split_and_trim, split_on, trimmed};

verus! {

/// `?symbol=AAPL`
pub struct SymbolQuery {
    pub symbol: String,
}

/// `?symbol=AAPL&expiry=1774828800`: a symbol and an expiry as a UNIX time.
pub struct ChainQuery {
    pub symbol: String,
    pub expiry: i64,
}

/// `?symbols=AAPL,MSFT,GOOGL`: a comma-separated list of symbols.
pub struct QuotesQuery {
    pub symbols: String,
}

/// The symbols of a comma-separated list, in order, each trimmed of
/// surrounding whitespace; empty entries are kept.
pub open spec fn symbol_list(s: Seq<char>) -> Seq<Seq<char>> {
    split_on(s, ',').map_values(|p: Seq<char>| trimmed(p))
}

/// Splits a comma-separated list of symbols and trims each of them.
pub fn split_symbols(symbols: &str) -> (list: Vec<String>)
    ensures
        list@.len() == symbol_list(symbols@).len(),
        forall|k: int| 0 <= k < list@.len() ==> #[trigger] list@[k]@ == symbol_list(symbols@)[k],
{
    split_and_trim(symbols, ',')
}

impl QuotesQuery {
    /// The symbols the query names, in order.
    pub fn symbol_list(&self) -> (list: Vec<String>)
        ensures
            list@.len() == symbol_list(self.symbols@).len(),
            forall|k: int|
                0 <= k < list@.len() ==> #[trigger] list@[k]@ == symbol_list(self.symbols@)[k],
    {
        split_symbols(self.symbols.as_str())
    }
}

/// The values of the outcomes that completed and succeeded, in order.
pub open spec fn successes<T, E1, E2>(outcomes: Seq<Result<Result<T, E1>, E2>>) -> Seq<T>
    decreases outcomes.len(),
{
    if outcomes.len() == 0 {
        Seq::empty()
    } else {
        let before = successes(outcomes.drop_last());
        match outcomes.last() {
            Ok(Ok(v)) => before.push(v),
            _ => before,
        }
    }
}

/// The answers of requests made one per symbol: those whose task completed
/// and whose request succeeded, in the order the requests were made. A
/// failed symbol is left out rather than failing the whole call.
pub fn successful_answers<T, E1, E2>(outcomes: Vec<Result<Result<T, E1>, E2>>) -> (kept: Vec<T>)
    ensures
        kept@ == successes(outcomes@),
{
    let ghost all = outcomes@;
    let mut rest = outcomes;
    let mut kept: Vec<T> = Vec::new();
    let ghost mut done: int = 0;
    assert(all.take(0) =~= Seq::<Result<Result<T, E1>, E2>>::empty());
    assert(all.skip(0) =~= all);
    while rest.len() > 0
        invariant
            0 <= done <= all.len(),
            rest@ == all.skip(done),
            kept@ == successes(all.take(done)),
        decreases rest.len(),
    {
        let outcome = rest.remove(0);
        assert(all.take(done + 1).drop_last() =~= all.take(done));
        assert(all.take(done + 1).last() == outcome);
        match outcome {
            Ok(Ok(v)) => kept.push(v),
            _ => {},
        }
        proof {
            assert(all.skip(done).drop_first() =~= all.skip(done + 1));
            done = done + 1;
        }
    }
    assert(all.take(done) =~= all);
    kept
}

/// Whether an outcome is a completed task whose request succeeded.
pub open spec fn is_success<T, E1, E2>(o: Result<Result<T, E1>, E2>) -> bool {
    o matches Ok(Ok(_))
}

/// The value a successful outcome carries.
pub open spec fn success_value<T, E1, E2>(o: Result<Result<T, E1>, E2>) -> T {
    match o {
        Ok(Ok(v)) => v,
        _ => vstd::pervasive::arbitrary(),
    }
}

/// The answers kept are exactly the values of the successful outcomes, in
/// the order of the outcomes: every success contributes its value, every
/// failure contributes nothing, and there is no bound on their number.
pub proof fn lemma_successes_are_all_successful_values<T, E1, E2>(
    outcomes: Seq<Result<Result<T, E1>, E2>>,
)
    ensures
        successes(outcomes) == outcomes.filter(|o: Result<Result<T, E1>, E2>| is_success(o)).map_values(
            |o: Result<Result<T, E1>, E2>| success_value(o),
        ),
        successes(outcomes).len() == outcomes.filter(
            |o: Result<Result<T, E1>, E2>| is_success(o),
        ).len(),
    decreases outcomes.len(),
{
    let pred = |o: Result<Result<T, E1>, E2>| is_success(o);
    let val = |o: Result<Result<T, E1>, E2>| success_value(o);
    if outcomes.len() == 0 {
        reveal(Seq::filter);
        assert(outcomes.filter(pred) =~= Seq::<Result<Result<T, E1>, E2>>::empty());
        assert(outcomes.filter(pred).map_values(val) =~= Seq::<T>::empty());
    } else {
        let init = outcomes.drop_last();
        let o = outcomes.last();
        lemma_successes_are_all_successful_values(init);
        assert(init.push(o) =~= outcomes);
        init.lemma_filter_push(o, pred);
        if is_success(o) {
            assert(init.filter(pred).push(o).map_values(val) =~= init.filter(pred).map_values(
                val,
            ).push(success_value(o)));
        }
    }
}

/// Answers of two batches of requests, kept together, are the answers of
/// the first batch followed by those of the second.
pub proof fn lemma_successes_of_concatenation<T, E1, E2>(
    first: Seq<Result<Result<T, E1>, E2>>,
    second: Seq<Result<Result<T, E1>, E2>>,
)
    ensures
        successes(first + second) == successes(first) + successes(second),
    decreases second.len(),
{
    if second.len() == 0 {
        assert(first + second =~= first);
        assert(successes(first) + successes(second) =~= successes(first));
    } else {
        lemma_successes_of_concatenation(first, second.drop_last());
        assert((first + second).drop_last() =~= first + second.drop_last());
        assert((first + second).last() == second.last());
        let before = successes(first) + successes(second.drop_last());
        if is_success(second.last()) {
            assert(before.push(success_value(second.last())) =~= successes(first) + successes(
                second.drop_last(),
            ).push(success_value(second.last())));
        }
    }
}

/// When every request succeeds, every answer is kept: one per request, in
/// request order.
pub proof fn lemma_all_succeeded_all_kept<T, E1, E2>(outcomes: Seq<Result<Result<T, E1>, E2>>)
    requires
        forall|i: int| 0 <= i < outcomes.len() ==> is_success(#[trigger] outcomes[i]),
    ensures
        successes(outcomes).len() == outcomes.len(),
        forall|i: int|
            0 <= i < outcomes.len() ==> #[trigger] successes(outcomes)[i] == success_value(
                outcomes[i],
            ),
    decreases outcomes.len(),
{
    if outcomes.len() > 0 {
        let init = outcomes.drop_last();
        lemma_all_succeeded_all_kept(init);
        assert(is_success(outcomes[outcomes.len() - 1]));
        assert forall|i: int| 0 <= i < outcomes.len() implies #[trigger] successes(outcomes)[i]
            == success_value(outcomes[i]) by {
            if i < outcomes.len() - 1 {
                assert(init[i] == outcomes[i]);
            }
        }
    }
}

} // verus!
