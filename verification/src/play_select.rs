//! Choosing which search title and candidate index `ani-cli -S` gets,
//! from the allanime search results of the canonical title and its
//! fallbacks.

use vstd::prelude::*;

use crate::allanime::{is_best_pick, pick_by_ep_count, Candidate};
use crate::text::owned;

verus! {

broadcast use vstd::string::group_string_axioms;

/// `i` is the first entry whose candidate list is not empty.
pub open spec fn is_first_with_hits(results: Seq<(String, Vec<Candidate>)>, i: int) -> bool {
    &&& 0 <= i < results.len()
    &&& results[i].1@.len() > 0
    &&& forall|j: int| 0 <= j < i ==> (#[trigger] results[j]).1@.len() == 0
}

/// Every candidate list is empty.
pub open spec fn no_hits(results: Seq<(String, Vec<Candidate>)>) -> bool {
    forall|j: int| 0 <= j < results.len() ==> (#[trigger] results[j]).1@.len() == 0
}

/// `a` and `b` hold the same values.
pub open spec fn same_candidate(a: Candidate, b: Candidate) -> bool {
    a.id@ == b.id@ && a.name@ == b.name@ && a.available_episodes == b.available_episodes
}

/// What the selection returns: the title of the first result list with
/// hits, the 1-based index chosen in it (by episode count when `expected`
/// is known, else the first) and that candidate; or `primary`, index 1 and
/// no candidate when every list is empty.
pub open spec fn selection_matches(
    primary: Seq<char>,
    results: Seq<(String, Vec<Candidate>)>,
    expected: Option<u32>,
    mode: Seq<char>,
    title: Seq<char>,
    idx: int,
    chosen: Option<Candidate>,
) -> bool {
    if no_hits(results) {
        title == primary && idx == 1 && chosen is None
    } else {
        exists|i: int|
            #[trigger] is_first_with_hits(results, i) && title == results[i].0@ && match expected {
                None => idx == 1,
                Some(e) => is_best_pick(results[i].1@, e, mode, idx),
            } && match chosen {
                Some(c) => same_candidate(c, results[i].1@[idx - 1]),
                None => false,
            }
    }
}

/// Picks `(title, 1-based index, candidate)`: the first result list with
/// hits wins; inside it the candidate closest to `expected` episodes (the
/// first one when `expected` is unknown). With no hits anywhere, falls
/// back to `(primary, 1, None)`.
pub fn select_first_with_hits_with_candidate(
    primary: &str,
    results: &[(String, Vec<Candidate>)],
    expected: Option<u32>,
    mode: &str,
) -> (r: (String, usize, Option<Candidate>))
    ensures
        selection_matches(primary@, results@, expected, mode@, r.0@, r.1 as int, r.2),
{
    let mut i: usize = 0;
    while i < results.len()
        invariant
            i <= results.len(),
            forall|j: int| 0 <= j < i ==> (#[trigger] results@[j]).1@.len() == 0,
        decreases results.len() - i,
    {
        let cands = &results[i].1;
        if cands.len() > 0 {
            assert(is_first_with_hits(results@, i as int));
            let idx: usize = match expected {
                None => 1,
                Some(e) => match pick_by_ep_count(cands.as_slice(), e, mode) {
                    Some(k) => k,
                    None => 1,
                },
            };
            let c = cands[idx - 1].duplicate();
            let title = results[i].0.clone();
            assert(!no_hits(results@)) by {
                assert(results@[i as int].1@.len() > 0);
            }
            return (title, idx, Some(c));
        }
        i = i + 1;
    }
    (owned(primary), 1, None)
}

/// [`select_first_with_hits_with_candidate`] without the candidate.
pub fn select_first_with_hits_opt(
    primary: &str,
    results: &[(String, Vec<Candidate>)],
    expected: Option<u32>,
    mode: &str,
) -> (r: (String, usize))
    ensures
        exists|c: Option<Candidate>|
            #[trigger] selection_matches(primary@, results@, expected, mode@, r.0@, r.1 as int, c),
{
    let (t, k, c) = select_first_with_hits_with_candidate(primary, results, expected, mode);
    let r = (t, k);
    assert(selection_matches(primary@, results@, expected, mode@, r.0@, r.1 as int, c));
    r
}

/// [`select_first_with_hits_opt`] with a known expected episode count.
pub fn select_first_with_hits(
    primary: &str,
    results: &[(String, Vec<Candidate>)],
    expected: u32,
    mode: &str,
) -> (r: (String, usize))
    ensures
        exists|c: Option<Candidate>|
            #[trigger] selection_matches(primary@, results@, Some(expected), mode@, r.0@, r.1 as int, c),
{
    select_first_with_hits_opt(primary, results, Some(expected), mode)
}

} // verus!
