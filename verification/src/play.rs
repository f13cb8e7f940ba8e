//! The values of a play request and the pure steps of resolving it:
//! cache keys, the mapping from `ani-cli`'s debug output to a stream
//! session, the inferred `Referer`, and the URLs of the local proxy.

use vstd::prelude::*;

use crate::allanime::{count_for_mode, is_dub, mode_is_dub, Candidate};
use crate::text::{concat2, concat3, decimal, decimal_string, ends_with, owned, push_str, str_ends_with};
use crate::web::{parse_url, url_parse, UrlView};

verus! {

broadcast use vstd::string::group_string_axioms;

/// Library version.
pub const VERSION: &'static str = "0.1.0";

/// Frontend payload of both play endpoints.
#[derive(Debug, Clone)]
pub struct PlayArgs {
    /// Canonical title from the Kitsu metadata.
    pub title: String,
    /// Episode number, as `ani-cli -e` takes it.
    pub episode: String,
    /// `"sub"` or `"dub"`.
    pub mode: String,
    /// `"best"` / `"worst"` / `"1080"` / etc.; `"best"` when absent.
    pub quality: Option<String>,
    /// Kitsu's episode count, used to disambiguate candidates.
    pub episode_count: Option<u32>,
    /// Fallback titles, tried in order when the canonical one has no hits.
    pub alt_titles: Vec<String>,
    /// A background prefetch (must not touch the history file).
    pub prefetch: bool,
    /// Kitsu id of the anime.
    pub kitsu_id: Option<String>,
}

/// The quality a play request resolves with.
pub open spec fn quality_of(a: PlayArgs) -> Seq<char> {
    match a.quality {
        Some(q) => q@,
        None => "best"@,
    }
}

impl PlayArgs {
    /// The requested quality, `"best"` when none was given.
    pub fn quality_or_best(&self) -> (r: &str)
        ensures
            r@ == quality_of(*self),
    {
        match &self.quality {
            Some(q) => q.as_str(),
            None => "best",
        }
    }
}

/// What `ani-cli`'s debug player printed.
#[derive(Debug, Clone)]
pub struct DebugOutput {
    /// The link `ani-cli` selected.
    pub selected_url: String,
    /// Every candidate link it saw.
    pub all_links: Vec<String>,
    /// The `Referer` it reported, if any.
    pub referer: Option<String>,
    /// The subtitle URL it reported, if any.
    pub subtitle_url: Option<String>,
}

/// How the proxy serves a stream.
#[derive(Debug, Clone, Copy, PartialEq, Eq, Structural)]
pub enum MediaKind {
    /// HLS manifest, rewritten by the proxy.
    Hls,
    /// Byte stream, passed through with range support.
    Mp4,
}

/// Frontend → backend payload for a stream session.
#[derive(Debug, Clone)]
pub struct CreateSessionArgs {
    /// Upstream URL to proxy.
    pub upstream_url: String,
    /// `Referer:` to send upstream; empty for none.
    pub referer: String,
    /// Optional subtitle URL.
    pub subtitle_url: Option<String>,
}

/// Backend → frontend response of a stream session.
#[derive(Debug, Clone)]
pub struct CreateSessionResponse {
    /// Session id.
    pub session_id: String,
    /// URL of the media on the local proxy.
    pub media_url: String,
    /// How the media is served.
    pub media_kind: MediaKind,
    /// URL of the subtitle on the local proxy, if any.
    pub subtitle_url: Option<String>,
    /// Whether the resolution came from the cache.
    pub cache_hit: bool,
}

/// The string of `o`, or the empty string.
pub open spec fn or_empty(o: Option<String>) -> Seq<char> {
    match o {
        Some(s) => s@,
        None => Seq::empty(),
    }
}

/// The session request for a resolved stream: the selected URL, the
/// reported referer (empty when none) and the subtitle URL.
pub fn session_args_from_debug(debug: &DebugOutput) -> (r: CreateSessionArgs)
    ensures
        r.upstream_url@ == debug.selected_url@,
        r.referer@ == or_empty(debug.referer),
        r.subtitle_url matches Some(s) ==> debug.subtitle_url matches Some(d) && s@ == d@,
        r.subtitle_url is None <==> debug.subtitle_url is None,
{
    CreateSessionArgs {
        upstream_url: debug.selected_url.clone(),
        referer: match &debug.referer {
            Some(r) => r.clone(),
            None => String::new(),
        },
        subtitle_url: match &debug.subtitle_url {
            Some(s) => Some(s.clone()),
            None => None,
        },
    }
}

/// The `Referer` to forward to the player: the one `ani-cli` reported
/// when not empty; otherwise `https://allmanga.to` for a selected URL
/// whose host ends with `fast4speed.rsvp` (that CDN refuses requests
/// without it); otherwise none.
pub open spec fn inferred_referer(referer: Option<String>, parsed: Result<UrlView, Seq<char>>) -> Option<
    Seq<char>,
> {
    match referer {
        Some(r) if r@.len() > 0 => Some(r@),
        _ => match parsed {
            Ok(v) => match v.1 {
                Some(h) => if ends_with(h, "fast4speed.rsvp"@) {
                    Some("https://allmanga.to"@)
                } else {
                    None
                },
                None => None,
            },
            Err(_) => None,
        },
    }
}

/// Picks the `Referer` for a resolved stream (see [`inferred_referer`]).
pub fn infer_referer(resolved: &DebugOutput) -> (r: Option<String>)
    ensures
        match r {
            Some(s) => inferred_referer(resolved.referer, url_parse(resolved.selected_url@)) == Some(
                s@,
            ),
            None => inferred_referer(resolved.referer, url_parse(resolved.selected_url@)) is None,
        },
{
    if let Some(r) = &resolved.referer {
        if r.unicode_len() > 0 {
            return Some(r.clone());
        }
    }
    match parse_url(resolved.selected_url.as_str()) {
        Ok(p) => match &p.host {
            Some(h) => if str_ends_with(h.as_str(), "fast4speed.rsvp") {
                Some(owned("https://allmanga.to"))
            } else {
                None
            },
            None => None,
        },
        Err(_) => None,
    }
}

/// `"<name> (<count for mode> episodes)"`, the title `ani-cli` writes to
/// the history file for a candidate.
pub fn history_title(c: &Candidate, mode: &str) -> (r: String)
    ensures
        r@ == c.name@ + " ("@ + decimal(count_for_mode(c.available_episodes, mode@) as nat)
            + " episodes)"@,
{
    let n = c.available_episodes.for_mode(mode);
    let d = decimal_string(n as u64);
    let mut r = concat3(c.name.as_str(), " (", d.as_str());
    push_str(&mut r, " episodes)");
    r
}

/// `"<title> · ep <episode>"`, the window title given to an external player.
pub fn player_window_title(title: &str, episode: &str) -> (r: String)
    ensures
        r@ == title@ + " · ep "@ + episode@,
{
    concat3(title, " · ep ", episode)
}

/// How rewritten URIs point back at the local proxy.
#[derive(Debug, Clone)]
pub struct ProxyOrigin {
    /// `http://<host>:<port>`.
    pub base: String,
}

impl ProxyOrigin {
    /// The origin `http://<host>:<port>`.
    pub fn new(host: &str, port: u16) -> (r: Self)
        ensures
            r.base@ == "http://"@ + host@ + ":"@ + decimal(port as nat),
    {
        let d = decimal_string(port as u64);
        let mut base = concat3("http://", host, ":");
        push_str(&mut base, d.as_str());
        ProxyOrigin { base }
    }
}

/// The proxy's base URL.
pub fn proxy_base_url(origin: &ProxyOrigin) -> (r: String)
    ensures
        r@ == origin.base@,
{
    origin.base.clone()
}

/// URL of a session's media on the proxy:
/// `<base>/s/<session>/master.m3u8` for HLS, `.../file.mp4` for MP4.
pub fn session_media_url(origin: &ProxyOrigin, session_id: &str, kind: MediaKind) -> (r: String)
    ensures
        r@ == origin.base@ + "/s/"@ + session_id@ + "/"@ + match kind {
            MediaKind::Hls => "master.m3u8"@,
            MediaKind::Mp4 => "file.mp4"@,
        },
{
    let mut r = concat3(origin.base.as_str(), "/s/", session_id);
    push_str(&mut r, "/");
    match kind {
        MediaKind::Hls => push_str(&mut r, "master.m3u8"),
        MediaKind::Mp4 => push_str(&mut r, "file.mp4"),
    }
    r
}

/// URL of a session's subtitle on the proxy: `<base>/s/<session>/sub.vtt`.
pub fn session_subtitle_url(origin: &ProxyOrigin, session_id: &str) -> (r: String)
    ensures
        r@ == origin.base@ + "/s/"@ + session_id@ + "/sub.vtt"@,
{
    let mut r = concat3(origin.base.as_str(), "/s/", session_id);
    push_str(&mut r, "/sub.vtt");
    r
}

/// What the about page shows.
#[derive(Debug, Clone)]
pub struct AppInfo {
    /// Library version.
    pub version: &'static str,
    /// Path of the `ani-cli` script.
    pub ani_cli_path: String,
    /// Path of the history file.
    pub history_path: String,
    /// Base URL of the local proxy.
    pub proxy_base_url: String,
}

/// The about-page values: version, script path, history path, proxy base.
pub fn app_info(ani_cli_path: &str, history_path: &str, origin: &ProxyOrigin) -> (r: AppInfo)
    ensures
        r.version@ == VERSION@,
        r.ani_cli_path@ == ani_cli_path@,
        r.history_path@ == history_path@,
        r.proxy_base_url@ == origin.base@,
{
    AppInfo {
        version: VERSION,
        ani_cli_path: owned(ani_cli_path),
        history_path: owned(history_path),
        proxy_base_url: origin.base.clone(),
    }
}

} // verus!
