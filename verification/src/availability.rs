//! "Is this title playable?" requests and answers.

use vstd::prelude::*;

use crate::allanime::{is_dub, mode_is_dub};
use crate::play::PlayArgs;
use crate::text::{concat3, owned, push_str, strings_view};

verus! {

broadcast use vstd::string::group_string_axioms;

/// A single availability probe.
#[derive(Debug, Clone)]
pub struct AvailabilityArgs {
    /// Canonical title.
    pub title: String,
    /// `"sub"` or `"dub"`.
    pub mode: String,
    /// Fallback titles.
    pub alt_titles: Vec<String>,
    /// Kitsu's episode count.
    pub episode_count: Option<u32>,
    /// Kitsu id; enables the cache.
    pub kitsu_id: Option<String>,
}

/// The cache key of an availability answer: `availability:`, the Kitsu
/// id, `:`, then `dub` in dub mode and `sub` in any other mode.
pub fn cache_key(kitsu_id: &str, mode: &str) -> (r: String)
    ensures
        r@ == "availability:"@ + kitsu_id@ + ":"@ + if is_dub(mode@) {
            "dub"@
        } else {
            "sub"@
        },
{
    let m = if mode_is_dub(mode) {
        "dub"
    } else {
        "sub"
    };
    let mut r = concat3("availability:", kitsu_id, ":");
    push_str(&mut r, m);
    r
}

/// Whether a title is playable.
#[derive(Debug, Clone, Copy, PartialEq, Eq, Structural)]
pub struct AvailabilityResponse {
    /// Any allmanga candidate exists.
    pub available: bool,
}

/// Cached verdicts for several Kitsu ids.
#[derive(Debug, Clone)]
pub struct AvailabilityBatchArgs {
    /// The Kitsu ids.
    pub kitsu_ids: Vec<String>,
    /// `"sub"` or `"dub"`.
    pub mode: String,
}

/// The cached verdicts found, one per Kitsu id.
#[derive(Debug, Clone)]
pub struct AvailabilityBatchResponse {
    /// `(kitsu id, available)` pairs, one per id.
    pub cached: Vec<(String, bool)>,
}

/// Background warming of several probes.
#[derive(Debug, Clone)]
pub struct AvailabilityWarmArgs {
    /// The probes.
    pub items: Vec<AvailabilityArgs>,
}

/// The answer for a probe: available exactly when the selection found a
/// candidate.
pub fn availability_of(chosen_candidate_found: bool) -> (r: AvailabilityResponse)
    ensures
        r.available == chosen_candidate_found,
{
    AvailabilityResponse { available: chosen_candidate_found }
}

/// `"dub"` for the dub mode, `"sub"` for any other.
pub open spec fn normalized_mode(mode: Seq<char>) -> Seq<char> {
    if is_dub(mode) {
        "dub"@
    } else {
        "sub"@
    }
}

/// The play request a probe runs the candidate selection with: its
/// title, fallback titles, episode count and Kitsu id, episode `"1"`,
/// the mode as `"dub"` or `"sub"`, no quality, not a prefetch.
pub fn probe_play_args(args: &AvailabilityArgs) -> (r: PlayArgs)
    ensures
        r.title@ == args.title@,
        r.episode@ == "1"@,
        r.mode@ == normalized_mode(args.mode@),
        r.quality is None,
        r.episode_count == args.episode_count,
        strings_view(r.alt_titles@) == strings_view(args.alt_titles@),
        !r.prefetch,
        r.kitsu_id is None <==> args.kitsu_id is None,
        r.kitsu_id matches Some(k) ==> args.kitsu_id matches Some(a) && k@ == a@,
{
    let mut alt_titles: Vec<String> = Vec::new();
    let mut i: usize = 0;
    while i < args.alt_titles.len()
        invariant
            i <= args.alt_titles.len(),
            strings_view(alt_titles@) == strings_view(args.alt_titles@.subrange(0, i as int)),
        decreases args.alt_titles.len() - i,
    {
        let ghost before = alt_titles@;
        alt_titles.push(args.alt_titles[i].clone());
        assert(strings_view(alt_titles@) =~= strings_view(before).push(args.alt_titles@[i as int]@));
        assert(strings_view(args.alt_titles@.subrange(0, i + 1)) =~= strings_view(
            args.alt_titles@.subrange(0, i as int),
        ).push(args.alt_titles@[i as int]@));
        i = i + 1;
    }
    assert(args.alt_titles@.subrange(0, i as int) == args.alt_titles@);
    PlayArgs {
        title: args.title.clone(),
        episode: owned("1"),
        mode: owned(
            if mode_is_dub(args.mode.as_str()) {
                "dub"
            } else {
                "sub"
            },
        ),
        quality: None,
        episode_count: args.episode_count,
        alt_titles,
        prefetch: false,
        kitsu_id: match &args.kitsu_id {
            Some(k) => Some(k.clone()),
            None => None,
        },
    }
}

/// The non-empty ids of `ids`, in order.
pub open spec fn nonempty_ids(ids: Seq<Seq<char>>) -> Seq<Seq<char>>
    decreases ids.len(),
{
    if ids.len() == 0 {
        Seq::empty()
    } else if ids.last().len() == 0 {
        nonempty_ids(ids.drop_last())
    } else {
        nonempty_ids(ids.drop_last()).push(ids.last())
    }
}

/// The cache lookups of a batch request: for each non-empty Kitsu id, in
/// order, the id and its cache key in the request's mode.
pub fn batch_lookups(args: &AvailabilityBatchArgs) -> (r: Vec<(String, String)>)
    ensures
        r@.len() == nonempty_ids(strings_view(args.kitsu_ids@)).len(),
        forall|k: int|
            0 <= k < r@.len() ==> {
                let id = nonempty_ids(strings_view(args.kitsu_ids@))[k];
                &&& (#[trigger] r@[k]).0@ == id
                &&& r@[k].1@ == "availability:"@ + id + ":"@ + normalized_mode(args.mode@)
            },
{
    let mut r: Vec<(String, String)> = Vec::new();
    let mut i: usize = 0;
    while i < args.kitsu_ids.len()
        invariant
            i <= args.kitsu_ids.len(),
            r@.len() == nonempty_ids(strings_view(args.kitsu_ids@.subrange(0, i as int))).len(),
            forall|k: int|
                0 <= k < r@.len() ==> {
                    let id = nonempty_ids(strings_view(args.kitsu_ids@.subrange(0, i as int)))[k];
                    &&& (#[trigger] r@[k]).0@ == id
                    &&& r@[k].1@ == "availability:"@ + id + ":"@ + normalized_mode(args.mode@)
                },
        decreases args.kitsu_ids.len() - i,
    {
        let ghost before = strings_view(args.kitsu_ids@.subrange(0, i as int));
        let ghost after = strings_view(args.kitsu_ids@.subrange(0, i + 1));
        assert(after.drop_last() =~= before);
        assert(after.last() == args.kitsu_ids@[i as int]@);
        let id = &args.kitsu_ids[i];
        if id.unicode_len() > 0 {
            let key = cache_key(id.as_str(), args.mode.as_str());
            r.push((id.clone(), key));
        }
        i = i + 1;
    }
    assert(args.kitsu_ids@.subrange(0, i as int) == args.kitsu_ids@);
    r
}

} // verus!
