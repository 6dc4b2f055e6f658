use vstd::prelude::*;

verus! {

use crate::scan::ResultView;
use crate::scan::SearchResult;
use crate::scan::results_view;

/// What aggregation yields: each file's results in the order the files were
/// handed in, a failed file (an absent outcome) contributing nothing.
pub open spec fn spec_aggregate(outcomes: Seq<Option<Seq<ResultView>>>) -> Seq<ResultView>
    decreases outcomes.len(),
{
    if outcomes.len() == 0 {
        Seq::empty()
    } else {
        spec_aggregate(outcomes.drop_last()) + match outcomes.last() {
            Some(rs) => rs,
            None => Seq::empty(),
        }
    }
}

/// Gather the per-file scan outcomes into one result list. A file whose scan
/// failed is recorded as `None` and is simply absorbed: it contributes zero
/// results and the run goes on. Within each file the results keep their
/// order; files contribute in the order their outcomes are handed in.
pub fn aggregate(outcomes: &Vec<Option<Vec<SearchResult>>>) -> (r: Vec<SearchResult>)
    ensures
        results_view(r@) == spec_aggregate(outcomes.deep_view()),
{
    let ghost dv = outcomes.deep_view();
    let mut r: Vec<SearchResult> = Vec::new();
    let mut i: usize = 0;
    while i < outcomes.len()
        invariant
            i <= outcomes.len(),
            dv == outcomes.deep_view(),
            dv.len() == outcomes@.len(),
            results_view(r@) == spec_aggregate(dv.take(i as int)),
        decreases outcomes.len() - i,
    {
        proof {
            assert(dv.take(i + 1 as int).drop_last() =~= dv.take(i as int));
            assert(dv.take(i + 1 as int).last() == dv[i as int]);
        }
        match &outcomes[i] {
            Some(results) => {
                let ghost file_rs = results.deep_view();
                let mut j: usize = 0;
                while j < results.len()
                    invariant
                        j <= results.len(),
                        file_rs == results.deep_view(),
                        file_rs.len() == results@.len(),
                        results_view(r@) == spec_aggregate(dv.take(i as int)) + file_rs.take(
                            j as int,
                        ),
                    decreases results.len() - j,
                {
                    let ghost prev = r@;
                    r.push(results[j].clone());
                    proof {
                        assert(file_rs[j as int] == results@[j as int]@);
                        assert(results_view(r@) =~= results_view(prev).push(results@[j as int]@));
                        assert(file_rs.take(j + 1 as int) =~= file_rs.take(j as int).push(
                            file_rs[j as int],
                        ));
                        assert(results_view(r@) =~= spec_aggregate(dv.take(i as int)) + file_rs.take(
                            j + 1 as int,
                        ));
                    }
                    j += 1;
                }
                proof {
                    assert(file_rs.take(results@.len() as int) =~= file_rs);
                    assert(dv[i as int] == Some(file_rs));
                }
            },
            None => {
                proof {
                    assert(results_view(r@) =~= spec_aggregate(dv.take(i + 1 as int)));
                }
            },
        }
        i += 1;
    }
    proof {
        assert(dv.take(outcomes@.len() as int) =~= dv);
    }
    r
}

/// What a finished run reports: either that nothing matched, or how many
/// matching lines were found.
#[derive(Clone, Copy, Debug, PartialEq, Eq, Structural)]
pub enum Summary {
    NoMatches,
    Found(usize),
}

/// The summary of a run that produced `count` matching lines: `NoMatches`
/// exactly when the count is zero.
pub fn summarize(count: usize) -> (r: Summary)
    ensures
        r == Summary::NoMatches <==> count == 0,
        count > 0 ==> r == Summary::Found(count),
{
    if count == 0 {
        Summary::NoMatches
    } else {
        Summary::Found(count)
    }
}

/// The exact line reported when a run finds nothing.
pub fn no_matches_message() -> (r: &'static str)
    ensures
        r@ == "No matches found."@,
{
    "No matches found."
}

/// Searching is repeatable: two runs that aggregate the same per-file
/// outcomes over an unmodified directory report the same results, in the
/// same per-file order.
pub proof fn lemma_search_idempotent(
    r1: Seq<ResultView>,
    r2: Seq<ResultView>,
    outcomes: Seq<Option<Seq<ResultView>>>,
)
    requires
        r1 == spec_aggregate(outcomes),
        r2 == spec_aggregate(outcomes),
    ensures
        r1 == r2,
{
}

} // verus!
