//! The cache-hit path of a play request, as steps: from the cached row
//! and what the last outside step reported to the next step and, on a
//! hit, the answer. The caller performs each step (the HEAD probe, the
//! session registry, the history file, the cache eviction, the
//! `ani-cli` run) and hands back what came of it.

use vstd::prelude::*;

use crate::external_player::LaunchArgs;
use crate::history::HistoryEntry;
use crate::play::{quality_of, CreateSessionArgs, CreateSessionResponse, MediaKind, PlayArgs, ProxyOrigin};
use crate::play_flow::{
    cache_hit_history_entry, head_status_live, launch_args_from_cached, session_args_from_cached,
};
use crate::play_resolution_cache::{cache_key, play_key, CachedResolution};
use crate::session::{check_session_args, given_subtitle, http_url_check, session_response, CheckedSession};
use crate::web::{parse_url, url_parse, UrlView};

verus! {

broadcast use vstd::string::group_string_axioms;

/// The key a play request's resolution is cached under.
pub open spec fn play_cache_key(args: PlayArgs) -> Seq<char> {
    play_key(args.title@, args.mode@, quality_of(args), args.episode@)
}

/// The next step of the cache-hit path of the embedded player.
#[derive(Debug, Clone)]
pub enum PlayStep {
    /// Send `HEAD url` with this `Referer` (none when empty) and report
    /// the status, or none when the request failed.
    CheckHead { url: String, referer: String },
    /// Register a proxy session for these checked URLs, serving `kind`,
    /// and report its id.
    OpenSession { session: CheckedSession, kind: MediaKind },
    /// Write `history` (when there is one) and answer with `response`.
    Respond { response: CreateSessionResponse, history: Option<HistoryEntry> },
    /// Evict the cached row under `key`, then resolve with `ani-cli`.
    EvictAndResolve { key: String },
    /// Nothing cached: resolve with `ani-cli`.
    Resolve,
}

fn request_key(args: &PlayArgs) -> (r: String)
    ensures
        r@ == play_cache_key(*args),
{
    cache_key(args.title.as_str(), args.mode.as_str(), args.quality_or_best(), args.episode.as_str())
}

/// First step, once the cache was read: with no row, resolve; with a
/// row whose upstream URL parses, probe it; else evict the row and
/// resolve.
pub fn cache_lookup_step(args: &PlayArgs, cached: Option<&CachedResolution>) -> (r: PlayStep)
    ensures
        match cached {
            None => r is Resolve,
            Some(c) => match url_parse(c.upstream_url@) {
                Ok(_) => r matches PlayStep::CheckHead { url, referer } && url@ == c.upstream_url@
                    && referer@ == c.referer@,
                Err(_) => r matches PlayStep::EvictAndResolve { key } && key@ == play_cache_key(
                    *args,
                ),
            },
        },
{
    match cached {
        None => PlayStep::Resolve,
        Some(c) => match parse_url(c.upstream_url.as_str()) {
            Ok(_) => PlayStep::CheckHead { url: c.upstream_url.clone(), referer: c.referer.clone() },
            Err(_) => PlayStep::EvictAndResolve { key: request_key(args) },
        },
    }
}

/// Step after the HEAD probe (`None`: the request failed). A 2xx or 3xx
/// status leads to opening a session for the row's URLs, when they pass
/// the session check; anything else evicts the row and resolves.
pub fn cache_head_step(args: &PlayArgs, cached: &CachedResolution, head_status: Option<u16>) -> (r:
    PlayStep)
    ensures
        ({
            let live = match head_status {
                Some(s) => 200 <= s <= 399,
                None => false,
            };
            let sub = given_subtitle(
                CreateSessionArgs {
                    upstream_url: cached.upstream_url,
                    referer: cached.referer,
                    subtitle_url: cached.subtitle_url,
                },
            );
            let checked = match http_url_check(cached.upstream_url@, "upstream_url"@) {
                Err(_) => false,
                Ok(_) => match sub {
                    None => true,
                    Some(s) => http_url_check(s, "subtitle_url"@) is Ok,
                },
            };
            &&& (live && checked) ==> (r matches PlayStep::OpenSession { session, kind } && kind
                == cached.media_kind && http_url_check(cached.upstream_url@, "upstream_url"@)
                == Ok::<UrlView, Seq<char>>(session.upstream@) && (session.subtitle is Some <==> sub is Some)
                && (session.subtitle matches Some(sp) ==> (sub matches Some(sv) && http_url_check(
                sv,
                "subtitle_url"@,
            ) == Ok::<UrlView, Seq<char>>(sp@))))
            &&& !(live && checked) ==> (r matches PlayStep::EvictAndResolve { key } && key@
                == play_cache_key(*args))
        }),
{
    let live = match head_status {
        Some(s) => head_status_live(s),
        None => false,
    };
    if live {
        let sargs = session_args_from_cached(cached);
        match check_session_args(&sargs) {
            Ok(session) => {
                return PlayStep::OpenSession { session, kind: cached.media_kind };
            },
            Err(_) => {},
        }
    }
    PlayStep::EvictAndResolve { key: request_key(args) }
}

/// Last step of a hit, once the session is registered under
/// `session_id`: answer with the session's proxy URLs, the row's media
/// kind and `cache_hit` set, and record the history row of the hit
/// (see [`cache_hit_history_entry`]).
pub fn cache_hit_step(
    args: &PlayArgs,
    cached: &CachedResolution,
    origin: &ProxyOrigin,
    session_id: &str,
) -> (r: PlayStep)
    ensures
        r matches PlayStep::Respond { response, history } && {
            &&& response.cache_hit
            &&& response.media_kind == cached.media_kind
            &&& response.session_id@ == session_id@
            &&& response.media_url@ == origin.base@ + "/s/"@ + session_id@ + "/"@
                + match cached.media_kind {
                MediaKind::Hls => "master.m3u8"@,
                MediaKind::Mp4 => "file.mp4"@,
            }
            &&& (match cached.subtitle_url {
                Some(s) => s@.len() > 0,
                None => false,
            }) ==> (response.subtitle_url matches Some(u) && u@ == origin.base@ + "/s/"@
                + session_id@ + "/sub.vtt"@)
            &&& !(match cached.subtitle_url {
                Some(s) => s@.len() > 0,
                None => false,
            }) ==> response.subtitle_url is None
            &&& (history is Some <==> (!args.prefetch && cached.show_id@.len() > 0))
            &&& (history matches Some(e) ==> e@ == (
                args.episode@,
                cached.show_id@,
                cached.show_title@,
            ))
        },
{
    let has_subtitle = match &cached.subtitle_url {
        Some(s) => s.unicode_len() > 0,
        None => false,
    };
    let mut response = session_response(origin, session_id, cached.media_kind, has_subtitle);
    response.cache_hit = true;
    PlayStep::Respond { response, history: cache_hit_history_entry(args, cached) }
}

/// The next step of the cache-hit path of the external player.
#[derive(Debug, Clone)]
pub enum ExternalStep {
    /// Send `HEAD url` with this `Referer` (none when empty) and report
    /// the status, or none when the request failed.
    CheckHead { url: String, referer: String },
    /// Hand these arguments to the player.
    Launch { launch: LaunchArgs },
    /// Evict the cached row under `key`, then resolve with `ani-cli`.
    EvictAndResolve { key: String },
    /// Resolve with `ani-cli`, leaving the cache as it is.
    Resolve,
}

/// First step of the external player's cache path: with no row, or a
/// row whose upstream URL does not parse, resolve (the row stays);
/// else probe the URL.
pub fn external_lookup_step(cached: Option<&CachedResolution>) -> (r: ExternalStep)
    ensures
        match cached {
            None => r is Resolve,
            Some(c) => match url_parse(c.upstream_url@) {
                Ok(_) => r matches ExternalStep::CheckHead { url, referer } && url@ == c.upstream_url@
                    && referer@ == c.referer@,
                Err(_) => r is Resolve,
            },
        },
{
    match cached {
        None => ExternalStep::Resolve,
        Some(c) => match parse_url(c.upstream_url.as_str()) {
            Ok(_) => ExternalStep::CheckHead {
                url: c.upstream_url.clone(),
                referer: c.referer.clone(),
            },
            Err(_) => ExternalStep::Resolve,
        },
    }
}

/// Step after the external player's HEAD probe (`None`: the request
/// failed): a 2xx or 3xx status launches the player on the cached row
/// (see [`launch_args_from_cached`]); anything else evicts the row and
/// resolves.
pub fn external_head_step(
    args: &PlayArgs,
    cached: &CachedResolution,
    player_command: &str,
    head_status: Option<u16>,
) -> (r: ExternalStep)
    ensures
        (match head_status {
            Some(s) => 200 <= s <= 399,
            None => false,
        }) ==> (r matches ExternalStep::Launch { launch } && {
            &&& launch.stream_url@ == cached.upstream_url@
            &&& (launch.referer is None <==> cached.referer@.len() == 0)
            &&& (launch.referer matches Some(s) ==> s@ == cached.referer@)
            &&& (launch.subtitle_url is None <==> cached.subtitle_url is None)
            &&& (launch.subtitle_url matches Some(s) ==> cached.subtitle_url matches Some(d) && s@
                == d@)
            &&& (launch.title matches Some(t) && t@ == args.title@ + " · ep "@ + args.episode@)
            &&& launch.player_command@ == player_command@
        }),
        !(match head_status {
            Some(s) => 200 <= s <= 399,
            None => false,
        }) ==> (r matches ExternalStep::EvictAndResolve { key } && key@ == play_cache_key(*args)),
{
    let live = match head_status {
        Some(s) => head_status_live(s),
        None => false,
    };
    if live {
        ExternalStep::Launch { launch: launch_args_from_cached(args, cached, player_command) }
    } else {
        ExternalStep::EvictAndResolve { key: request_key(args) }
    }
}

} // verus!
