//! AniList values, the GraphQL requests that fetch them, and the cached
//! title-match row.

use vstd::prelude::*;

use crate::allanime::{json_quote, json_str};
use crate::text::{concat2, decimal, decimal_string, push_str};

verus! {

broadcast use vstd::string::group_string_axioms;

/// Titles of an AniList entry.
#[derive(Debug, Clone, PartialEq, Eq)]
pub struct AniListTitle {
    /// Romanised title.
    pub romaji: Option<String>,
    /// English title.
    pub english: Option<String>,
    /// Native title.
    pub native: Option<String>,
    /// The title the user prefers.
    pub user_preferred: Option<String>,
}

/// Cover image URLs of an AniList entry.
#[derive(Debug, Clone, PartialEq, Eq)]
pub struct AniListCoverImage {
    /// Extra-large size.
    pub extra_large: Option<String>,
    /// Large size.
    pub large: Option<String>,
    /// Medium size.
    pub medium: Option<String>,
    /// Dominant color, `#rrggbb`.
    pub color: Option<String>,
}

/// An AniList anime.
#[derive(Debug, Clone, PartialEq, Eq)]
pub struct AniListAnimeRef {
    /// AniList id.
    pub id: u32,
    /// MyAnimeList id.
    pub id_mal: Option<u32>,
    /// Titles.
    pub title: AniListTitle,
    /// Cover image.
    pub cover_image: AniListCoverImage,
    /// Banner image URL.
    pub banner_image: Option<String>,
    /// Airing status.
    pub status: Option<String>,
    /// Episode count.
    pub episodes: Option<u32>,
    /// Trending score.
    pub trending: Option<u32>,
    /// Average score (0–100).
    pub average_score: Option<u32>,
}

/// A cached `(normalized query) -> ids` match.
#[derive(Debug, Clone, PartialEq, Eq)]
pub struct TitleMatch {
    /// Normalized query.
    pub query_norm: String,
    /// Matched Kitsu id.
    pub kitsu_id: Option<String>,
    /// Matched AniList id.
    pub anilist_id: Option<i64>,
    /// When the match was stored, in seconds since the epoch.
    pub fetched_at: i64,
}

/// AniList's GraphQL endpoint.
pub const ANILIST_API: &'static str = "https://graphql.anilist.co";

/// The `User-Agent` AniList requests carry.
pub const ANILIST_USER_AGENT: &'static str = "ani-gui/0.1 (https://github.com/pucci/ani-gui)";

/// The trending-anime query.
pub const TRENDING_GQL: &'static str = "query Trending($perPage: Int!) { Page(perPage: $perPage) { media(type: ANIME, sort: TRENDING_DESC) { id idMal title { romaji english native userPreferred } coverImage { extraLarge large medium color } bannerImage status episodes trending averageScore } } }";

/// The banner-by-MAL-id query.
pub const BANNER_BY_MAL_GQL: &'static str = "query BannerByMal($idMal: Int!) { Media(idMal: $idMal, type: ANIME) { bannerImage } }";

/// The body of the trending request: the query with `perPage` set to
/// the page size.
pub fn trending_request_body(limit: u8) -> (r: String)
    ensures
        r@ == "{\"query\":"@ + json_str(TRENDING_GQL@) + ",\"variables\":{\"perPage\":"@ + decimal(
            limit as nat,
        ) + "}}"@,
{
    let q = json_quote(TRENDING_GQL);
    let n = decimal_string(limit as u64);
    let mut r = concat2("{\"query\":", q.as_str());
    push_str(&mut r, ",\"variables\":{\"perPage\":");
    push_str(&mut r, n.as_str());
    push_str(&mut r, "}}");
    r
}

/// The body of the banner request: the query with `idMal` set to the
/// MyAnimeList id.
pub fn banner_request_body(mal_id: u32) -> (r: String)
    ensures
        r@ == "{\"query\":"@ + json_str(BANNER_BY_MAL_GQL@) + ",\"variables\":{\"idMal\":"@
            + decimal(mal_id as nat) + "}}"@,
{
    let q = json_quote(BANNER_BY_MAL_GQL);
    let n = decimal_string(mal_id as u64);
    let mut r = concat2("{\"query\":", q.as_str());
    push_str(&mut r, ",\"variables\":{\"idMal\":");
    push_str(&mut r, n.as_str());
    push_str(&mut r, "}}");
    r
}

} // verus!
