//! The decisions of the play flow, between its network and process
//! steps: what a cache hit writes to history, what the availability
//! cache learns from a resolution, what is stored for replay, and what
//! is handed to the proxy session or the external player.

use vstd::prelude::*;

use crate::allanime::{
    max_parsed, parse_u32, parse_u32_str, tags_for_mode, Candidate, ShowMetadata,
};
use crate::error::AniError;
use crate::external_player::{ExternalPlayerKind, LaunchArgs};
use crate::history::HistoryEntry;
use crate::play::{
    history_title, infer_referer, inferred_referer, or_empty, player_window_title, quality_of,
    CreateSessionArgs, DebugOutput, MediaKind, PlayArgs,
};
use crate::play_resolution_cache::CachedResolution;
use crate::text::{decimal, owned, str_eq, strings_view};
use crate::web::url_parse;

verus! {

broadcast use vstd::string::group_string_axioms;

/// The Kitsu id of a play request when it is present and not empty.
pub open spec fn given_kitsu_id(args: PlayArgs) -> Option<Seq<char>> {
    match args.kitsu_id {
        Some(k) => if k@.len() > 0 {
            Some(k@)
        } else {
            None
        },
        None => None,
    }
}

fn kitsu_id_of(args: &PlayArgs) -> (r: Option<String>)
    ensures
        match r {
            Some(k) => given_kitsu_id(*args) == Some(k@),
            None => given_kitsu_id(*args) is None,
        },
{
    match &args.kitsu_id {
        Some(k) => if k.unicode_len() > 0 {
            Some(k.clone())
        } else {
            None
        },
        None => None,
    }
}

/// The mode the allanime search runs in: `"dub"` for `"dub"`, `"sub"`
/// for anything else.
pub fn search_mode(mode: &str) -> (r: &'static str)
    ensures
        mode@ == "dub"@ ==> r@ == "dub"@,
        mode@ != "dub"@ ==> r@ == "sub"@,
{
    if str_eq(mode, "dub") {
        "dub"
    } else {
        "sub"
    }
}

/// The titles the allanime search tries, in order: the canonical title,
/// then each alternative title.
pub fn search_titles(args: &PlayArgs) -> (r: Vec<String>)
    ensures
        strings_view(r@) == seq![args.title@] + strings_view(args.alt_titles@),
{
    let mut r: Vec<String> = Vec::new();
    r.push(args.title.clone());
    let mut i: usize = 0;
    while i < args.alt_titles.len()
        invariant
            i <= args.alt_titles.len(),
            strings_view(r@) == seq![args.title@] + strings_view(args.alt_titles@.subrange(0, i as int)),
        decreases args.alt_titles.len() - i,
    {
        let ghost before = r@;
        let t = args.alt_titles[i].clone();
        r.push(t);
        assert(strings_view(r@) =~= strings_view(before).push(args.alt_titles@[i as int]@));
        assert(strings_view(args.alt_titles@.subrange(0, i + 1)) =~= strings_view(
            args.alt_titles@.subrange(0, i as int),
        ).push(args.alt_titles@[i as int]@));
        assert(strings_view(r@) =~= seq![args.title@] + strings_view(
            args.alt_titles@.subrange(0, i + 1),
        ));
        i = i + 1;
    }
    assert(args.alt_titles@.subrange(0, i as int) == args.alt_titles@);
    r
}

/// Whether a HEAD status means the upstream is still alive: 2xx or 3xx.
pub fn head_status_live(status: u16) -> (r: bool)
    ensures
        r == (200 <= status <= 399),
{
    200 <= status && status <= 399
}

/// The history row a cache hit records: the requested episode under the
/// cached show. None for a prefetch (background warming must not move
/// the user's last-played episode) and for rows without a show id.
pub fn cache_hit_history_entry(args: &PlayArgs, cached: &CachedResolution) -> (r: Option<
    HistoryEntry,
>)
    ensures
        r is Some <==> (!args.prefetch && cached.show_id@.len() > 0),
        r matches Some(e) ==> e@ == (args.episode@, cached.show_id@, cached.show_title@),
{
    if args.prefetch || cached.show_id.unicode_len() == 0 {
        None
    } else {
        Some(
            HistoryEntry {
                ep_no: args.episode.clone(),
                id: cached.show_id.clone(),
                title: cached.show_title.clone(),
            },
        )
    }
}

/// What marking an episode watched writes.
#[derive(Debug, Clone)]
pub struct MarkWatched {
    /// The history row.
    pub entry: HistoryEntry,
    /// The `(allmanga show id, Kitsu id)` mapping to record, if any.
    pub kitsu_mapping: Option<(String, String)>,
    /// The show whose watched-at stamp is set.
    pub stamp_show_id: String,
}

/// The writes of marking an episode watched: nothing without a cached
/// resolution that carries a show id; else the history row for the
/// requested episode, the reverse mapping to the request's Kitsu id when
/// one was given, and the watched-at stamp of the show.
pub fn mark_watched_plan(args: &PlayArgs, cached: Option<&CachedResolution>) -> (r: Option<
    MarkWatched,
>)
    ensures
        r is Some <==> (cached matches Some(c) && c.show_id@.len() > 0),
        r matches Some(w) ==> cached matches Some(c) && {
            &&& w.entry@ == (args.episode@, c.show_id@, c.show_title@)
            &&& w.stamp_show_id@ == c.show_id@
            &&& (w.kitsu_mapping is Some <==> given_kitsu_id(*args) is Some)
            &&& (w.kitsu_mapping matches Some(m) ==> m.0@ == c.show_id@ && given_kitsu_id(*args)
                == Some(m.1@))
        },
{
    match cached {
        None => None,
        Some(c) => {
            if c.show_id.unicode_len() == 0 {
                return None;
            }
            let entry = HistoryEntry {
                ep_no: args.episode.clone(),
                id: c.show_id.clone(),
                title: c.show_title.clone(),
            };
            let kitsu_mapping = match kitsu_id_of(args) {
                Some(k) => Some((c.show_id.clone(), k)),
                None => None,
            };
            Some(MarkWatched { entry, kitsu_mapping, stamp_show_id: c.show_id.clone() })
        },
    }
}

/// A write to the availability cache.
#[derive(Debug, Clone)]
pub enum AvailabilityWrite {
    /// Only whether the anime plays in the mode.
    Simple {
        /// Kitsu id of the anime.
        kitsu_id: String,
        /// `"sub"` or `"dub"`.
        mode: String,
        /// Whether it plays.
        available: bool,
    },
    /// A playable anime with its episode facts.
    Full {
        /// Kitsu id of the anime.
        kitsu_id: String,
        /// `"sub"` or `"dub"`.
        mode: String,
        /// Highest whole-numbered episode, if known.
        episode_count: Option<u32>,
        /// Episode tags that are not whole numbers (recaps, `.5` specials).
        extras: Vec<String>,
    },
}

/// Episode tags that do not parse as a `u32`, in order.
pub open spec fn non_integer_tags(tags: Seq<Seq<char>>) -> Seq<Seq<char>>
    decreases tags.len(),
{
    if tags.len() == 0 {
        Seq::empty()
    } else {
        let prev = non_integer_tags(tags.drop_last());
        if parse_u32(tags.last()) is None {
            prev.push(tags.last())
        } else {
            prev
        }
    }
}

/// The tags of `tags` that are not whole episode numbers.
pub fn non_integer_episode_tags(tags: &[String]) -> (r: Vec<String>)
    ensures
        strings_view(r@) == non_integer_tags(strings_view(tags@)),
{
    let mut r: Vec<String> = Vec::new();
    let mut i: usize = 0;
    while i < tags.len()
        invariant
            i <= tags.len(),
            strings_view(r@) == non_integer_tags(strings_view(tags@.subrange(0, i as int))),
        decreases tags.len() - i,
    {
        let ghost before = strings_view(tags@.subrange(0, i as int));
        let ghost after = strings_view(tags@.subrange(0, i + 1));
        assert(after.drop_last() =~= before);
        assert(after.last() == tags@[i as int]@);
        if parse_u32_str(tags[i].as_str()).is_none() {
            r.push(tags[i].clone());
        }
        assert(strings_view(r@) =~= non_integer_tags(after));
        i = i + 1;
    }
    assert(tags@.subrange(0, i as int) == tags@);
    r
}

/// What a failed resolution teaches the availability cache: that the
/// anime is not in the catalogue, when the failure is "no results" and
/// the request named a Kitsu id.
pub fn availability_after_failure(args: &PlayArgs, err: &AniError) -> (r: Option<
    AvailabilityWrite,
>)
    ensures
        r is Some <==> (*err is NoResults && given_kitsu_id(*args) is Some),
        r matches Some(w) ==> w matches AvailabilityWrite::Simple { kitsu_id, mode, available } && {
            &&& given_kitsu_id(*args) == Some(kitsu_id@)
            &&& mode@ == args.mode@
            &&& !available
        },
{
    match err {
        AniError::NoResults => match kitsu_id_of(args) {
            Some(k) => Some(
                AvailabilityWrite::Simple { kitsu_id: k, mode: args.mode.clone(), available: false },
            ),
            None => None,
        },
        _ => None,
    }
}

/// What a successful resolution teaches the availability cache, when the
/// request named a Kitsu id: without a chosen candidate, only that the
/// anime plays; with one, also its highest whole episode number and its
/// other episode tags from the show's details (none when the details
/// could not be fetched).
pub fn availability_after_resolve(
    args: &PlayArgs,
    chosen: Option<&Candidate>,
    detail: Option<&ShowMetadata>,
) -> (r: Option<AvailabilityWrite>)
    ensures
        r is Some <==> given_kitsu_id(*args) is Some,
        r matches Some(w) ==> match w {
            AvailabilityWrite::Simple { kitsu_id, mode, available } => {
                &&& chosen is None
                &&& given_kitsu_id(*args) == Some(kitsu_id@)
                &&& mode@ == args.mode@
                &&& available
            },
            AvailabilityWrite::Full { kitsu_id, mode, episode_count, extras } => {
                &&& chosen is Some
                &&& given_kitsu_id(*args) == Some(kitsu_id@)
                &&& mode@ == args.mode@
                &&& match detail {
                    Some(d) => {
                        let tags = strings_view(tags_for_mode(d.available_episodes_detail, args.mode@));
                        &&& episode_count == max_parsed(tags)
                        &&& strings_view(extras@) == non_integer_tags(tags)
                    },
                    None => episode_count is None && extras@.len() == 0,
                }
            },
        },
{
    let k = match kitsu_id_of(args) {
        Some(k) => k,
        None => return None,
    };
    match chosen {
        None => Some(
            AvailabilityWrite::Simple { kitsu_id: k, mode: args.mode.clone(), available: true },
        ),
        Some(_) => {
            let mode = args.mode.as_str();
            let (episode_count, extras) = match detail {
                Some(d) => (
                    d.max_integer_episode(mode),
                    non_integer_episode_tags(d.available_episodes_detail.for_mode(mode)),
                ),
                None => (None, Vec::new()),
            };
            Some(
                AvailabilityWrite::Full {
                    kitsu_id: k,
                    mode: args.mode.clone(),
                    episode_count,
                    extras,
                },
            )
        },
    }
}

/// The referer a resolved stream is fetched with: the inferred one, or
/// the empty string.
pub fn resolved_referer(resolved: &DebugOutput) -> (r: String)
    ensures
        r@ == match inferred_referer(resolved.referer, url_parse(resolved.selected_url@)) {
            Some(s) => s,
            None => Seq::empty(),
        },
{
    match infer_referer(resolved) {
        Some(s) => s,
        None => String::new(),
    }
}

/// The `(show id, history title)` of the chosen candidate, or two empty
/// strings when the search picked none.
pub open spec fn show_identity(chosen: Option<Candidate>, mode: Seq<char>) -> (Seq<char>, Seq<char>) {
    match chosen {
        Some(c) => (
            c.id@,
            c.name@ + " ("@ + decimal(crate::allanime::count_for_mode(c.available_episodes, mode) as nat)
                + " episodes)"@,
        ),
        None => (Seq::empty(), Seq::empty()),
    }
}

/// The row stored for replay after a fresh resolution: the selected URL,
/// the referer it is fetched with, its subtitle, how it is served, and
/// the chosen candidate's show id and history title.
pub fn resolution_to_cache(
    resolved: &DebugOutput,
    referer: &str,
    kind: MediaKind,
    chosen: Option<&Candidate>,
    mode: &str,
) -> (r: CachedResolution)
    ensures
        r.upstream_url@ == resolved.selected_url@,
        r.referer@ == referer@,
        r.subtitle_url is None <==> resolved.subtitle_url is None,
        r.subtitle_url matches Some(s) ==> resolved.subtitle_url matches Some(d) && s@ == d@,
        r.media_kind == kind,
        (r.show_id@, r.show_title@) == show_identity(
            match chosen {
                Some(c) => Some(*c),
                None => None,
            },
            mode@,
        ),
{
    let (show_id, show_title) = match chosen {
        Some(c) => (c.id.clone(), history_title(c, mode)),
        None => (String::new(), String::new()),
    };
    CachedResolution {
        upstream_url: resolved.selected_url.clone(),
        referer: owned(referer),
        subtitle_url: match &resolved.subtitle_url {
            Some(s) => Some(s.clone()),
            None => None,
        },
        media_kind: kind,
        show_id,
        show_title,
    }
}

/// The session request for a fresh resolution.
pub fn session_args_for(resolved: &DebugOutput, referer: &str) -> (r: CreateSessionArgs)
    ensures
        r.upstream_url@ == resolved.selected_url@,
        r.referer@ == referer@,
        r.subtitle_url is None <==> resolved.subtitle_url is None,
        r.subtitle_url matches Some(s) ==> resolved.subtitle_url matches Some(d) && s@ == d@,
{
    CreateSessionArgs {
        upstream_url: resolved.selected_url.clone(),
        referer: owned(referer),
        subtitle_url: match &resolved.subtitle_url {
            Some(s) => Some(s.clone()),
            None => None,
        },
    }
}

/// The session request for a cached resolution.
pub fn session_args_from_cached(cached: &CachedResolution) -> (r: CreateSessionArgs)
    ensures
        r.upstream_url@ == cached.upstream_url@,
        r.referer@ == cached.referer@,
        r.subtitle_url is None <==> cached.subtitle_url is None,
        r.subtitle_url matches Some(s) ==> cached.subtitle_url matches Some(d) && s@ == d@,
{
    CreateSessionArgs {
        upstream_url: cached.upstream_url.clone(),
        referer: cached.referer.clone(),
        subtitle_url: match &cached.subtitle_url {
            Some(s) => Some(s.clone()),
            None => None,
        },
    }
}

/// The external-player launch for a cached resolution: its URL, its
/// referer (none when empty), its subtitle, the window title
/// `"<title> · ep <episode>"`, the configured player command, and mpv's
/// flag syntax.
pub fn launch_args_from_cached(
    args: &PlayArgs,
    cached: &CachedResolution,
    player_command: &str,
) -> (r: LaunchArgs)
    ensures
        r.stream_url@ == cached.upstream_url@,
        r.referer is None <==> cached.referer@.len() == 0,
        r.referer matches Some(s) ==> s@ == cached.referer@,
        r.subtitle_url is None <==> cached.subtitle_url is None,
        r.subtitle_url matches Some(s) ==> cached.subtitle_url matches Some(d) && s@ == d@,
        r.title matches Some(t) && t@ == args.title@ + " · ep "@ + args.episode@,
        r.player_command@ == player_command@,
        r.player_kind == ExternalPlayerKind::Mpv,
        r.custom_args_template is None,
{
    LaunchArgs {
        stream_url: cached.upstream_url.clone(),
        referer: if cached.referer.unicode_len() == 0 {
            None
        } else {
            Some(cached.referer.clone())
        },
        subtitle_url: match &cached.subtitle_url {
            Some(s) => Some(s.clone()),
            None => None,
        },
        title: Some(player_window_title(args.title.as_str(), args.episode.as_str())),
        player_command: owned(player_command),
        player_kind: ExternalPlayerKind::Mpv,
        custom_args_template: None,
    }
}

/// The external-player launch for a fresh resolution: the selected URL,
/// the inferred referer, the subtitle, the window title, the configured
/// player command, and mpv's flag syntax.
pub fn launch_args_from_resolved(
    args: &PlayArgs,
    resolved: &DebugOutput,
    player_command: &str,
) -> (r: LaunchArgs)
    ensures
        r.stream_url@ == resolved.selected_url@,
        match r.referer {
            Some(s) => inferred_referer(resolved.referer, url_parse(resolved.selected_url@)) == Some(
                s@,
            ),
            None => inferred_referer(resolved.referer, url_parse(resolved.selected_url@)) is None,
        },
        r.subtitle_url is None <==> resolved.subtitle_url is None,
        r.subtitle_url matches Some(s) ==> resolved.subtitle_url matches Some(d) && s@ == d@,
        r.title matches Some(t) && t@ == args.title@ + " · ep "@ + args.episode@,
        r.player_command@ == player_command@,
        r.player_kind == ExternalPlayerKind::Mpv,
        r.custom_args_template is None,
{
    LaunchArgs {
        stream_url: resolved.selected_url.clone(),
        referer: infer_referer(resolved),
        subtitle_url: match &resolved.subtitle_url {
            Some(s) => Some(s.clone()),
            None => None,
        },
        title: Some(player_window_title(args.title.as_str(), args.episode.as_str())),
        player_command: owned(player_command),
        player_kind: ExternalPlayerKind::Mpv,
        custom_args_template: None,
    }
}

} // verus!
