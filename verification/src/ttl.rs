//! How long each kind of cached metadata stays fresh, in seconds.

use vstd::prelude::*;

verus! {

/// Trending rows: one hour.
pub const TRENDING_TTL: u64 = 60 * 60;

/// Other discovery rows: six hours.
pub const DISCOVERY_TTL: u64 = 6 * 60 * 60;

/// One anime's details: seven days.
pub const ANIME_DETAIL_TTL: u64 = 7 * 24 * 60 * 60;

/// Episode lists: one day.
pub const EPISODES_TTL: u64 = 24 * 60 * 60;

/// Title → id matches: thirty days.
pub const TITLE_MATCH_TTL: u64 = 30 * 24 * 60 * 60;

/// Play resolutions: seven days.
pub const PLAY_RESOLUTION_TTL: u64 = 7 * 24 * 60 * 60;

/// Aniskip intervals: seven days.
pub const ANISKIP_TTL: u64 = 7 * 24 * 60 * 60;

/// Availability verdicts: seven days.
pub const AVAILABILITY_TTL: u64 = 7 * 24 * 60 * 60;

/// Fresher kinds of data expire sooner: trending, discovery, episodes,
/// details, then title matches.
pub proof fn law_ttls_ordered()
    ensures
        TRENDING_TTL < DISCOVERY_TTL < EPISODES_TTL < ANIME_DETAIL_TTL < TITLE_MATCH_TTL,
{
}

} // verus!
