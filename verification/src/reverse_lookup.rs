//! Finding the Kitsu entry of an allmanga show, as steps: the recorded
//! mapping first, then a Kitsu text search for each of the show's
//! aliases in turn. The caller performs each step (cache reads and
//! writes, the allmanga and Kitsu requests) and hands back what came of
//! it.

use vstd::prelude::*;

use crate::allanime::{dedup_trimmed, term_sources, ShowMetadata};
use crate::text::strings_view;

verus! {

/// The next step of a reverse lookup.
#[derive(Debug, Clone, PartialEq, Eq)]
pub enum LookupStep {
    /// Load the Kitsu details of the recorded id.
    LoadRecorded { kitsu_id: String },
    /// Answer with the details just loaded.
    AnswerRecorded,
    /// Fetch the allmanga show's aliases.
    FetchShow,
    /// Run a Kitsu text search for the term at `index` (see
    /// [`ShowMetadata::search_terms`]).
    Search { index: usize },
    /// Record the mapping to the first hit of the last search and answer
    /// with that hit.
    RecordFirstHit,
    /// Nothing was found; answer with none.
    NotFound,
}

/// First step: with a recorded Kitsu id, load its details; else fetch
/// the show's aliases.
pub fn lookup_start(recorded: Option<String>) -> (r: LookupStep)
    ensures
        match recorded {
            Some(k) => r matches LookupStep::LoadRecorded { kitsu_id } && kitsu_id@ == k@,
            None => r matches LookupStep::FetchShow,
        },
{
    match recorded {
        Some(k) => LookupStep::LoadRecorded { kitsu_id: k },
        None => LookupStep::FetchShow,
    }
}

/// Step after loading the recorded id's details: answer with them when
/// they loaded; else (a stale or removed id) look the show up afresh.
pub fn after_recorded(loaded: bool) -> (r: LookupStep)
    ensures
        loaded ==> r matches LookupStep::AnswerRecorded,
        !loaded ==> r matches LookupStep::FetchShow,
{
    if loaded {
        LookupStep::AnswerRecorded
    } else {
        LookupStep::FetchShow
    }
}

/// Step after fetching the show (`None`: the request failed, which is
/// not an error of the lookup): search for its first term, or find
/// nothing when it has none. The terms are returned for the searches.
pub fn after_show(show: Option<&ShowMetadata>) -> (r: (LookupStep, Vec<String>))
    ensures
        match show {
            None => r.0 matches LookupStep::NotFound && r.1@.len() == 0,
            Some(s) => strings_view(r.1@) == dedup_trimmed(term_sources(*s)) && if r.1@.len() == 0 {
                r.0 matches LookupStep::NotFound
            } else {
                r.0 matches LookupStep::Search { index } && index == 0
            },
        },
{
    match show {
        None => (LookupStep::NotFound, Vec::new()),
        Some(s) => {
            let terms = s.search_terms();
            assert(strings_view(terms@).len() == terms@.len());
            if terms.len() == 0 {
                (LookupStep::NotFound, terms)
            } else {
                (LookupStep::Search { index: 0 }, terms)
            }
        },
    }
}

/// Step after the search for the term at `index` of `term_count`
/// reported `hits` results (`None`: the search failed, which only skips
/// that term): a hit is recorded and answered; otherwise the next term
/// is searched, and after the last one nothing was found.
pub fn after_search(term_count: usize, index: usize, hits: Option<usize>) -> (r: LookupStep)
    requires
        index < term_count,
    ensures
        (hits matches Some(n) && n > 0) ==> r matches LookupStep::RecordFirstHit,
        !(hits matches Some(n) && n > 0) && index + 1 < term_count ==> (r matches LookupStep::Search {
            index: next,
        } && next == index + 1),
        !(hits matches Some(n) && n > 0) && index + 1 == term_count ==> r matches LookupStep::NotFound,
{
    let hit = match hits {
        Some(n) => n > 0,
        None => false,
    };
    if hit {
        LookupStep::RecordFirstHit
    } else if index + 1 < term_count {
        LookupStep::Search { index: index + 1 }
    } else {
        LookupStep::NotFound
    }
}

} // verus!
