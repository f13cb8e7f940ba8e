//! Kitsu metadata values, the cache keys built for them, and the scan
//! that finds short-lived signed image URLs in a cached response body.

use vstd::prelude::*;

use crate::text::{
    chars_of, collapse_whitespace, lemma_first_char_from_bounds, lemma_first_occurrence_bounds,
    lemma_last_char_before_bounds, concat2, concat3, decimal, decimal_string, find_char,
    find_from, first_char_from, first_occurrence, has_prefix, is_blank, join, last_char_before,
    occurs_at, push_str, rfind_char, split_ws, starts_with, str_eq, string_of_range, strings_view, to_lowercase,
    trim, trim_str, unicode_lowercase,
};

verus! {

broadcast use vstd::string::group_string_axioms;

// ---------------------------------------------------------------------
// Cache keys
// ---------------------------------------------------------------------

/// What [`normalize_query`] returns: lower-cased, trimmed, with runs of
/// whitespace collapsed to one space.
pub open spec fn normalized(s: Seq<char>) -> Seq<char> {
    join(split_ws(unicode_lowercase(trim(s))), seq![' '])
}

/// Lowercase + collapse internal whitespace + trim, so cosmetic
/// differences in a typed query map to one cache key.
pub fn normalize_query(s: &str) -> (r: String)
    ensures
        r@ == normalized(s@),
{
    let t = trim_str(s);
    let lower = to_lowercase(t.as_str());
    collapse_whitespace(lower.as_str())
}

/// Cache key of a Kitsu text search: `kitsu:v2:search:<normalized query>`.
pub fn search_cache_key(query: &str) -> (r: String)
    ensures
        r@ == "kitsu:v2:search:"@ + normalized(query@),
{
    let n = normalize_query(query);
    concat2("kitsu:v2:search:", n.as_str())
}

/// Cache key of one anime's detail: `kitsu:v2:anime:<id>`.
pub fn anime_detail_cache_key(id: &str) -> (r: String)
    ensures
        r@ == "kitsu:v2:anime:"@ + id@,
{
    concat2("kitsu:v2:anime:", id)
}

/// Cache key of a slug lookup: `kitsu:v2:anime-slug:<slug>`.
pub fn anime_slug_cache_key(slug: &str) -> (r: String)
    ensures
        r@ == "kitsu:v2:anime-slug:"@ + slug@,
{
    concat2("kitsu:v2:anime-slug:", slug)
}

/// Cache key of one page of episodes: `kitsu:episodes:<id>:p<page>`.
pub fn episodes_cache_key(anime_id: &str, page: u32) -> (r: String)
    ensures
        r@ == "kitsu:episodes:"@ + anime_id@ + ":p"@ + decimal(page as nat),
{
    let mut r = concat3("kitsu:episodes:", anime_id, ":p");
    let d = decimal_string(page as u64);
    r.append(d.as_str());
    r
}

/// Cache key of a `(title, cour) -> kitsu id` match:
/// `title-match:v2:<trimmed, lower-cased title>:c<cour>`.
pub fn title_match_key(title: &str, cour: u32) -> (r: String)
    ensures
        r@ == "title-match:v2:"@ + unicode_lowercase(trim(title@)) + ":c"@ + decimal(cour as nat),
{
    let t = trim_str(title);
    let lower = to_lowercase(t.as_str());
    let mut r = concat3("title-match:v2:", lower.as_str(), ":c");
    let d = decimal_string(cour as u64);
    r.append(d.as_str());
    r
}

/// Cache key of the reverse `allmanga show_id -> kitsu id` mapping.
pub fn allmanga_kitsu_key(show_id: &str) -> (r: String)
    ensures
        r@ == "allmanga2kitsu:v1:"@ + show_id@,
{
    concat2("allmanga2kitsu:v1:", show_id)
}

/// Cache key of a show's last-watched timestamp.
pub fn watched_at_key(show_id: &str) -> (r: String)
    ensures
        r@ == "watched-at:v1:"@ + show_id@,
{
    concat2("watched-at:v1:", show_id)
}

// ---------------------------------------------------------------------
// Signed image URLs
// ---------------------------------------------------------------------

/// The query parameter that marks a presigned S3 URL.
pub open spec fn amz_needle() -> Seq<char> {
    "X-Amz-Signature="@
}

/// `u` starts with `https://` or `http://`.
pub open spec fn http_like(u: Seq<char>) -> bool {
    starts_with(u, "https://"@) || starts_with(u, "http://"@)
}

/// The URLs found scanning `body` from `idx`, appended to `out`: at each
/// next signature marker, the text between the closest `"` before it and
/// the first `"` at or after it is taken if it starts with `http://` or
/// `https://` and was not taken before; the scan resumes after that
/// closing quote, and stops when a marker has no quote on either side.
pub open spec fn amz_scan(body: Seq<char>, idx: int, out: Seq<Seq<char>>) -> Seq<Seq<char>>
    decreases body.len() - idx,
{
    if idx < 0 || idx > body.len() {
        out
    } else {
        match first_occurrence(body, amz_needle(), idx) {
            None => out,
            Some(sig) => match (last_char_before(body, '"', sig), first_char_from(body, '"', sig)) {
                (Some(h), Some(t)) => {
                    proof {
                        lemma_first_occurrence_bounds(body, amz_needle(), idx);
                        lemma_first_char_from_bounds(body, '"', sig);
                    }
                    let cand = body.subrange(h + 1, t);
                    let next = if http_like(cand) && !out.contains(cand) {
                        out.push(cand)
                    } else {
                        out
                    };
                    amz_scan(body, t + 1, next)
                },
                _ => out,
            },
        }
    }
}

/// Every URL in `body` that carries an `X-Amz-Signature=` parameter and
/// sits inside double quotes, starting with `http://` or `https://`;
/// duplicates removed, in order of first appearance.
pub fn extract_x_amz_urls(body: &str) -> (r: Vec<String>)
    ensures
        strings_view(r@) == amz_scan(body@, 0, Seq::empty()),
{
    let cs = chars_of(body);
    let needle = chars_of("X-Amz-Signature=");
    let https = chars_of("https://");
    let http = chars_of("http://");
    let mut out: Vec<String> = Vec::new();
    let mut idx: usize = 0;
    assert(strings_view(out@) =~= Seq::<Seq<char>>::empty());
    loop
        invariant
            idx <= cs.len(),
            cs@ == body@,
            needle@ == amz_needle(),
            https@ == "https://"@,
            http@ == "http://"@,
            amz_scan(body@, 0, Seq::empty()) == amz_scan(cs@, idx as int, strings_view(out@)),
        decreases cs.len() - idx,
    {
        let sig = match find_from(cs.as_slice(), needle.as_slice(), idx) {
            Some(s) => s,
            None => return out,
        };
        proof {
            lemma_first_occurrence_bounds(cs@, needle@, idx as int);
            lemma_first_char_from_bounds(cs@, '"', sig as int);
            lemma_last_char_before_bounds(cs@, '"', sig as int);
        }
        assert(first_occurrence(cs@, amz_needle(), idx as int) == Some(sig as int));
        let head = rfind_char(cs.as_slice(), '"', sig);
        let tail = find_char(cs.as_slice(), '"', sig);
        let (h, t) = match (head, tail) {
            (Some(h), Some(t)) => (h, t),
            _ => return out,
        };
        assert(last_char_before(cs@, '"', sig as int) == Some(h as int));
        assert(first_char_from(cs@, '"', sig as int) == Some(t as int));
        let cand_chars = string_of_range(cs.as_slice(), h + 1, t);
        let cc = chars_of(cand_chars.as_str());
        let web = has_prefix(cc.as_slice(), https.as_slice()) || has_prefix(
            cc.as_slice(),
            http.as_slice(),
        );
        let ghost prev = strings_view(out@);
        if web {
            let mut seen = false;
            let mut k: usize = 0;
            while k < out.len()
                invariant
                    k <= out.len(),
                    prev == strings_view(out@),
                    seen == (exists|j: int| 0 <= j < k && prev[j] == cand_chars@),
                decreases out.len() - k,
            {
                if str_eq(out[k].as_str(), cand_chars.as_str()) {
                    assert(prev[k as int] == cand_chars@);
                    seen = true;
                }
                proof {
                    if !seen {
                        assert forall|j: int| 0 <= j < k + 1 implies prev[j] != cand_chars@ by {
                            if j == k {
                            }
                        }
                    }
                }
                k = k + 1;
            }
            assert(seen == prev.contains(cc@));
            if !seen {
                out.push(cand_chars);
                assert(strings_view(out@) =~= prev.push(cc@));
            }
        }
        assert(cs@.subrange(h + 1, t as int) == cc@);
        assert(amz_scan(cs@, idx as int, prev) == amz_scan(cs@, t + 1, strings_view(out@)));
        idx = t + 1;
    }
}

proof fn lemma_amz_scan_distinct(body: Seq<char>, idx: int, out: Seq<Seq<char>>)
    requires
        forall|i: int, j: int| 0 <= i < j < out.len() ==> #[trigger] out[i] != #[trigger] out[j],
        forall|i: int| 0 <= i < out.len() ==> http_like(#[trigger] out[i]),
    ensures
        forall|i: int, j: int|
            0 <= i < j < amz_scan(body, idx, out).len() ==> #[trigger] amz_scan(body, idx, out)[i]
                != #[trigger] amz_scan(body, idx, out)[j],
        forall|i: int|
            0 <= i < amz_scan(body, idx, out).len() ==> http_like(#[trigger] amz_scan(body, idx, out)[i]),
    decreases body.len() - idx,
{
    if idx < 0 || idx > body.len() {
        assert(amz_scan(body, idx, out) == out);
    } else {
        match first_occurrence(body, amz_needle(), idx) {
            None => {
                assert(amz_scan(body, idx, out) == out);
            },
            Some(sig) => match (last_char_before(body, '"', sig), first_char_from(body, '"', sig)) {
                (Some(h), Some(t)) => {
                    lemma_first_occurrence_bounds(body, amz_needle(), idx);
                    lemma_first_char_from_bounds(body, '"', sig);
                    let cand = body.subrange(h + 1, t);
                    let next = if http_like(cand) && !out.contains(cand) {
                        out.push(cand)
                    } else {
                        out
                    };
                    if http_like(cand) && !out.contains(cand) {
                        assert forall|i: int, j: int| 0 <= i < j < next.len() implies #[trigger] next[i]
                            != #[trigger] next[j] by {
                            if j == out.len() {
                                assert(next[i] == out[i]);
                            }
                        }
                        assert forall|i: int| 0 <= i < next.len() implies http_like(#[trigger] next[i]) by {
                            if i < out.len() {
                                assert(next[i] == out[i]);
                            }
                        }
                    }
                    lemma_amz_scan_distinct(body, t + 1, next);
                    assert(amz_scan(body, idx, out) == amz_scan(body, t + 1, next));
                },
                _ => {
                    assert(amz_scan(body, idx, out) == out);
                },
            },
        }
    }
}

/// The signed URLs taken from a body never repeat, and each starts with
/// `http://` or `https://`.
pub proof fn law_signed_urls_distinct(body: Seq<char>)
    ensures
        forall|i: int, j: int|
            0 <= i < j < amz_scan(body, 0, Seq::empty()).len() ==> #[trigger] amz_scan(
                body,
                0,
                Seq::empty(),
            )[i] != #[trigger] amz_scan(body, 0, Seq::empty())[j],
        forall|i: int|
            0 <= i < amz_scan(body, 0, Seq::empty()).len() ==> http_like(
                #[trigger] amz_scan(body, 0, Seq::empty())[i],
            ),
{
    lemma_amz_scan_distinct(body, 0, Seq::empty());
}

// ---------------------------------------------------------------------
// Kitsu values
// ---------------------------------------------------------------------

/// Poster image URLs by size.
#[derive(Debug, Clone, PartialEq, Eq)]
pub struct KitsuPosterImage {
    /// Tiny size.
    pub tiny: Option<String>,
    /// Small size.
    pub small: Option<String>,
    /// Medium size.
    pub medium: Option<String>,
    /// Large size.
    pub large: Option<String>,
    /// Original upload.
    pub original: Option<String>,
}

/// Cover image URLs by size.
#[derive(Debug, Clone, PartialEq, Eq)]
pub struct KitsuCoverImage {
    /// Tiny size.
    pub tiny: Option<String>,
    /// Small size.
    pub small: Option<String>,
    /// Large size.
    pub large: Option<String>,
    /// Original upload.
    pub original: Option<String>,
}

/// Episode thumbnail.
#[derive(Debug, Clone, PartialEq, Eq)]
pub struct KitsuEpisodeThumbnail {
    /// Original upload.
    pub original: Option<String>,
}

/// One episode of an anime.
#[derive(Debug, Clone, PartialEq, Eq)]
pub struct KitsuEpisode {
    /// Kitsu episode id.
    pub id: String,
    /// Episode title.
    pub canonical_title: Option<String>,
    /// Season number.
    pub season_number: Option<u32>,
    /// Absolute episode number.
    pub number: Option<u32>,
    /// Number within the season.
    pub relative_number: Option<u32>,
    /// Length in minutes.
    pub length: Option<u32>,
    /// Synopsis.
    pub synopsis: Option<String>,
    /// Air date (`YYYY-MM-DD`).
    pub airdate: Option<String>,
    /// Thumbnail.
    pub thumbnail: Option<KitsuEpisodeThumbnail>,
}

/// `o` holds a string with a non-whitespace character.
pub open spec fn has_text(o: Option<String>) -> bool {
    match o {
        Some(s) => trim(s@).len() > 0,
        None => false,
    }
}

/// A real episode has a non-blank title or a non-blank air date; the
/// rest are placeholder slots Kitsu registers ahead of airing.
pub open spec fn is_real(ep: KitsuEpisode) -> bool {
    has_text(ep.canonical_title) || has_text(ep.airdate)
}

fn opt_has_text(o: &Option<String>) -> (r: bool)
    ensures
        r == has_text(*o),
{
    match o {
        Some(s) => !is_blank(s.as_str()),
        None => false,
    }
}

/// Whether `ep` is a real episode rather than a placeholder slot.
pub fn is_real_episode(ep: &KitsuEpisode) -> (r: bool)
    ensures
        r == is_real(*ep),
{
    opt_has_text(&ep.canonical_title) || opt_has_text(&ep.airdate)
}

/// The real episodes of `eps`, in order.
pub fn real_episodes(eps: Vec<KitsuEpisode>) -> (r: Vec<KitsuEpisode>)
    ensures
        r@ == eps@.filter(|e: KitsuEpisode| is_real(e)),
{
    let mut out: Vec<KitsuEpisode> = Vec::new();
    let ghost all = eps@;
    let mut rest = eps;
    let mut i: usize = 0;
    assert(all.take(0).filter(|e: KitsuEpisode| is_real(e)) =~= Seq::<KitsuEpisode>::empty());
    assert(all.skip(0) == all);
    assert(all.len() == rest.len());
    while rest.len() > 0
        invariant
            i + rest.len() == all.len(),
            all.len() <= usize::MAX,
            rest@ == all.skip(i as int),
            out@ == all.take(i as int).filter(|e: KitsuEpisode| is_real(e)),
        decreases rest.len(),
    {
        let ep = rest.remove(0);
        assert(ep == all[i as int]);
        proof {
            assert(all.take(i + 1).drop_last() == all.take(i as int));
            reveal(Seq::filter);
        }
        if is_real_episode(&ep) {
            out.push(ep);
        }
        i = i + 1;
        assert(rest@ =~= all.skip(i as int));
    }
    assert(all.take(all.len() as int) == all);
    out
}

// ---------------------------------------------------------------------
// MAL-id mappings
// ---------------------------------------------------------------------

/// The first item id that a mappings response's entries reference.
pub open spec fn first_target(targets: Seq<Option<Seq<char>>>) -> Option<Seq<char>>
    decreases targets.len(),
{
    if targets.len() == 0 {
        None
    } else {
        match targets[0] {
            Some(t) => Some(t),
            None => first_target(targets.drop_first()),
        }
    }
}

/// The string of each target, when it has one.
pub open spec fn targets_view(targets: Seq<Option<String>>) -> Seq<Option<Seq<char>>> {
    targets.map_values(|t: Option<String>| match t {
        Some(s) => Some(s@),
        None => None,
    })
}

/// Which anime a `/mappings?include=item` response resolves to: the
/// included resource (by position in `included_ids`) whose id is the
/// first item id the mapping entries reference; `None` when no entry
/// references one or no included resource carries it.
pub fn mapping_target(targets: &[Option<String>], included_ids: &[String]) -> (r: Option<usize>)
    ensures
        match first_target(targets_view(targets@)) {
            None => r is None,
            Some(id) => match r {
                Some(k) => k < included_ids.len() && included_ids@[k as int]@ == id && forall|j: int|
                    0 <= j < k ==> (#[trigger] included_ids@[j])@ != id,
                None => forall|j: int| 0 <= j < included_ids.len() ==> (#[trigger] included_ids@[j])@
                    != id,
            },
        },
{
    let ghost tv = targets_view(targets@);
    let mut i: usize = 0;
    let mut found: Option<usize> = None;
    assert(tv.skip(0) =~= tv);
    while i < targets.len() && found.is_none()
        invariant
            i <= targets.len(),
            tv == targets_view(targets@),
            found is None ==> first_target(tv) == first_target(tv.skip(i as int)),
            found matches Some(k) ==> k < targets.len() && (targets@[k as int] matches Some(t)
                && first_target(tv) == Some(t@)),
        decreases targets.len() - i,
    {
        assert(tv.skip(i as int).drop_first() =~= tv.skip(i + 1));
        assert(tv.skip(i as int)[0] == tv[i as int]);
        match &targets[i] {
            Some(_) => {
                found = Some(i);
            },
            None => {},
        }
        i = i + 1;
    }
    let k = match found {
        Some(k) => k,
        None => {
            assert(tv.skip(i as int) =~= Seq::<Option<Seq<char>>>::empty());
            return None;
        },
    };
    let id = match &targets[k] {
        Some(t) => t,
        None => return None,
    };
    assert(first_target(targets_view(targets@)) == Some(id@));
    let mut j: usize = 0;
    while j < included_ids.len()
        invariant
            j <= included_ids.len(),
            first_target(targets_view(targets@)) == Some(id@),
            forall|m: int| 0 <= m < j ==> (#[trigger] included_ids@[m])@ != id@,
        decreases included_ids.len() - j,
    {
        if str_eq(included_ids[j].as_str(), id.as_str()) {
            return Some(j);
        }
        j = j + 1;
    }
    None
}

// ---------------------------------------------------------------------
// Requests to the Kitsu API
// ---------------------------------------------------------------------

/// Kitsu's API base URL.
pub const KITSU_BASE: &'static str = "https://kitsu.io/api/edge";

/// The sparse fieldset asked for anime resources.
pub const ANIME_FIELDS: &'static str = "canonicalTitle,titles,slug,synopsis,startDate,endDate,episodeCount,averageRating,subtype,status,posterImage,coverImage,ageRating,popularityRank";

/// The sparse fieldset asked for episode resources.
pub const EPISODE_FIELDS: &'static str = "canonicalTitle,seasonNumber,number,relativeNumber,length,synopsis,airdate,thumbnail";

/// The `Accept` header every Kitsu request carries.
pub const JSON_API_ACCEPT: &'static str = "application/vnd.api+json";

/// A GET request to Kitsu: the URL and its query parameters, in order.
#[derive(Debug, Clone)]
pub struct KitsuRequest {
    /// URL without the query.
    pub url: String,
    /// `(name, value)` query parameters.
    pub params: Vec<(String, String)>,
}

/// The query parameters as values.
pub open spec fn params_view(ps: Seq<(String, String)>) -> Seq<(Seq<char>, Seq<char>)> {
    ps.map_values(|p: (String, String)| (p.0@, p.1@))
}

fn request_of(url: String, params: Vec<(String, String)>) -> (r: KitsuRequest)
    ensures
        r.url@ == url@,
        params_view(r.params@) == params_view(params@),
{
    KitsuRequest { url, params }
}

fn param(name: &str, value: &str) -> (r: (String, String))
    ensures
        r.0@ == name@,
        r.1@ == value@,
{
    (name.to_owned(), value.to_owned())
}

/// Free-text anime search: `<base>/anime` with the text, the page size
/// and the anime fieldset.
pub fn search_request(base: &str, query: &str, limit: u8) -> (r: KitsuRequest)
    ensures
        r.url@ == base@ + "/anime"@,
        params_view(r.params@) == seq![
            ("filter[text]"@, query@),
            ("page[limit]"@, decimal(limit as nat)),
            ("fields[anime]"@, ANIME_FIELDS@),
        ],
{
    let l = decimal_string(limit as u64);
    let params = vec![
        param("filter[text]", query),
        param("page[limit]", l.as_str()),
        param("fields[anime]", ANIME_FIELDS),
    ];
    let r = request_of(concat2(base, "/anime"), params);
    assert(params_view(r.params@) =~= seq![
        ("filter[text]"@, query@),
        ("page[limit]"@, decimal(limit as nat)),
        ("fields[anime]"@, ANIME_FIELDS@),
    ]);
    r
}

/// Currently airing anime, most users first: `<base>/anime` filtered on
/// status `current`, sorted by `-userCount`.
pub fn currently_airing_request(base: &str, limit: u8) -> (r: KitsuRequest)
    ensures
        r.url@ == base@ + "/anime"@,
        params_view(r.params@) == seq![
            ("filter[status]"@, "current"@),
            ("sort"@, "-userCount"@),
            ("page[limit]"@, decimal(limit as nat)),
            ("fields[anime]"@, ANIME_FIELDS@),
        ],
{
    let l = decimal_string(limit as u64);
    let params = vec![
        param("filter[status]", "current"),
        param("sort", "-userCount"),
        param("page[limit]", l.as_str()),
        param("fields[anime]", ANIME_FIELDS),
    ];
    let r = request_of(concat2(base, "/anime"), params);
    assert(params_view(r.params@) =~= seq![
        ("filter[status]"@, "current"@),
        ("sort"@, "-userCount"@),
        ("page[limit]"@, decimal(limit as nat)),
        ("fields[anime]"@, ANIME_FIELDS@),
    ]);
    r
}

/// Top-rated anime: `<base>/anime` with an average rating of 70 or more,
/// best first.
pub fn top_rated_request(base: &str, limit: u8) -> (r: KitsuRequest)
    ensures
        r.url@ == base@ + "/anime"@,
        params_view(r.params@) == seq![
            ("filter[averageRating]"@, "70.."@),
            ("sort"@, "-averageRating"@),
            ("page[limit]"@, decimal(limit as nat)),
            ("fields[anime]"@, ANIME_FIELDS@),
        ],
{
    let l = decimal_string(limit as u64);
    let params = vec![
        param("filter[averageRating]", "70.."),
        param("sort", "-averageRating"),
        param("page[limit]", l.as_str()),
        param("fields[anime]", ANIME_FIELDS),
    ];
    let r = request_of(concat2(base, "/anime"), params);
    assert(params_view(r.params@) =~= seq![
        ("filter[averageRating]"@, "70.."@),
        ("sort"@, "-averageRating"@),
        ("page[limit]"@, decimal(limit as nat)),
        ("fields[anime]"@, ANIME_FIELDS@),
    ]);
    r
}

/// The Kitsu anime mapped to a MyAnimeList id, inlined in one response:
/// `<base>/mappings` filtered on the MAL anime id, including the item.
pub fn mal_mapping_request(base: &str, mal_id: u32) -> (r: KitsuRequest)
    ensures
        r.url@ == base@ + "/mappings"@,
        params_view(r.params@) == seq![
            ("filter[externalSite]"@, "myanimelist/anime"@),
            ("filter[externalId]"@, decimal(mal_id as nat)),
            ("include"@, "item"@),
        ],
{
    let id = decimal_string(mal_id as u64);
    let params = vec![
        param("filter[externalSite]", "myanimelist/anime"),
        param("filter[externalId]", id.as_str()),
        param("include", "item"),
    ];
    let r = request_of(concat2(base, "/mappings"), params);
    assert(params_view(r.params@) =~= seq![
        ("filter[externalSite]"@, "myanimelist/anime"@),
        ("filter[externalId]"@, decimal(mal_id as nat)),
        ("include"@, "item"@),
    ]);
    r
}

/// The offset of 1-based page `page` of `limit` episodes:
/// `(page - 1) * limit`, with both steps saturating.
pub open spec fn episode_offset(page: u32, limit: u8) -> u32 {
    let before = if page > 0 {
        page - 1
    } else {
        0
    };
    if before * limit <= u32::MAX {
        (before * limit) as u32
    } else {
        u32::MAX
    }
}

/// A page of an anime's episodes, by number: `<base>/anime/<id>/episodes`
/// with the page size, the offset of the 1-based page, the episode
/// fieldset and `sort=number`.
pub fn episodes_request(base: &str, anime_id: &str, page: u32, limit: u8) -> (r: KitsuRequest)
    ensures
        r.url@ == base@ + "/anime/"@ + anime_id@ + "/episodes"@,
        params_view(r.params@) == seq![
            ("page[limit]"@, decimal(limit as nat)),
            ("page[offset]"@, decimal(episode_offset(page, limit) as nat)),
            ("fields[episodes]"@, EPISODE_FIELDS@),
            ("sort"@, "number"@),
        ],
{
    let before: u32 = if page > 0 {
        page - 1
    } else {
        0
    };
    assert(before as u64 * limit as u64 <= 0xffff_ffff * 255) by (nonlinear_arith)
        requires
            before <= 0xffff_ffff,
            limit <= 255,
    ;
    let product: u64 = before as u64 * limit as u64;
    let offset: u32 = if product <= 0xffff_ffff {
        product as u32
    } else {
        u32::MAX
    };
    let l = decimal_string(limit as u64);
    let o = decimal_string(offset as u64);
    let params = vec![
        param("page[limit]", l.as_str()),
        param("page[offset]", o.as_str()),
        param("fields[episodes]", EPISODE_FIELDS),
        param("sort", "number"),
    ];
    let mut url = concat3(base, "/anime/", anime_id);
    push_str(&mut url, "/episodes");
    let r = request_of(url, params);
    assert(params_view(r.params@) =~= seq![
        ("page[limit]"@, decimal(limit as nat)),
        ("page[offset]"@, decimal(episode_offset(page, limit) as nat)),
        ("fields[episodes]"@, EPISODE_FIELDS@),
        ("sort"@, "number"@),
    ]);
    r
}

/// One anime by id: `<base>/anime/<id>` with the anime fieldset.
pub fn anime_detail_request(base: &str, id: &str) -> (r: KitsuRequest)
    ensures
        r.url@ == base@ + "/anime/"@ + id@,
        params_view(r.params@) == seq![("fields[anime]"@, ANIME_FIELDS@)],
{
    let params = vec![param("fields[anime]", ANIME_FIELDS)];
    let r = request_of(concat3(base, "/anime/", id), params);
    assert(params_view(r.params@) =~= seq![("fields[anime]"@, ANIME_FIELDS@)]);
    r
}

/// One anime by slug: `<base>/anime` filtered on the slug, one result.
pub fn anime_by_slug_request(base: &str, slug: &str) -> (r: KitsuRequest)
    ensures
        r.url@ == base@ + "/anime"@,
        params_view(r.params@) == seq![
            ("filter[slug]"@, slug@),
            ("page[limit]"@, "1"@),
            ("fields[anime]"@, ANIME_FIELDS@),
        ],
{
    let params = vec![
        param("filter[slug]", slug),
        param("page[limit]", "1"),
        param("fields[anime]", ANIME_FIELDS),
    ];
    let r = request_of(concat2(base, "/anime"), params);
    assert(params_view(r.params@) =~= seq![
        ("filter[slug]"@, slug@),
        ("page[limit]"@, "1"@),
        ("fields[anime]"@, ANIME_FIELDS@),
    ]);
    r
}

} // verus!
