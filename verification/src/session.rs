//! Stream sessions: which URLs a session may be opened for, and the
//! proxy URLs a new session answers with.

use vstd::prelude::*;

use crate::error::AniError;
use crate::play::{
    session_media_url, session_subtitle_url, CreateSessionArgs, CreateSessionResponse, MediaKind,
    ProxyOrigin,
};
use crate::text::{concat2, concat3, push_str, str_eq};
use crate::web::{parse_url, url_parse, UrlParts, UrlView};

verus! {

broadcast use vstd::string::group_string_axioms;

/// What checking `s` as the `field` of a session gives: the parsed URL
/// when it is an `http` or `https` URL; else the error text
/// `"<field>: <parse error>"` or `"<field>: scheme \"<scheme>\" not allowed"`.
pub open spec fn http_url_check(s: Seq<char>, field: Seq<char>) -> Result<UrlView, Seq<char>> {
    match url_parse(s) {
        Err(e) => Err(field + ": "@ + e),
        Ok(v) => if v.0 == "http"@ || v.0 == "https"@ {
            Ok(v)
        } else {
            Err(field + ": scheme \""@ + v.0 + "\" not allowed"@)
        },
    }
}

/// Parses `s` as an `http`/`https` URL (see [`http_url_check`]); every
/// error is `ParseFailed` carrying the text.
pub fn parse_http_url(s: &str, field: &str) -> (r: Result<UrlParts, AniError>)
    ensures
        match http_url_check(s@, field@) {
            Ok(v) => r matches Ok(p) && p@ == v,
            Err(m) => r matches Err(AniError::ParseFailed { detail }) && detail@ == m,
        },
{
    match parse_url(s) {
        Err(e) => {
            let mut d = concat2(field, ": ");
            push_str(&mut d, e.as_str());
            Err(AniError::ParseFailed { detail: d })
        },
        Ok(p) => {
            if str_eq(p.scheme.as_str(), "http") || str_eq(p.scheme.as_str(), "https") {
                Ok(p)
            } else {
                let mut d = concat3(field, ": scheme \"", p.scheme.as_str());
                push_str(&mut d, "\" not allowed");
                Err(AniError::ParseFailed { detail: d })
            }
        },
    }
}

/// The checked URLs of a session request.
#[derive(Debug, Clone)]
pub struct CheckedSession {
    /// The upstream URL.
    pub upstream: UrlParts,
    /// The subtitle URL, when one was given.
    pub subtitle: Option<UrlParts>,
}

/// The subtitle of a request, an empty string counting as none.
pub open spec fn given_subtitle(args: CreateSessionArgs) -> Option<Seq<char>> {
    match args.subtitle_url {
        Some(s) => if s@.len() == 0 {
            None
        } else {
            Some(s@)
        },
        None => None,
    }
}

/// Checks a session request before anything is registered: the upstream
/// URL, then the subtitle URL when one is given (an empty one counts as
/// none), each as an `http`/`https` URL; the first failure is returned.
pub fn check_session_args(args: &CreateSessionArgs) -> (r: Result<CheckedSession, AniError>)
    ensures
        match http_url_check(args.upstream_url@, "upstream_url"@) {
            Err(m) => r matches Err(AniError::ParseFailed { detail }) && detail@ == m,
            Ok(up) => match given_subtitle(*args) {
                None => r matches Ok(c) && c.upstream@ == up && c.subtitle is None,
                Some(sub) => match http_url_check(sub, "subtitle_url"@) {
                    Err(m) => r matches Err(AniError::ParseFailed { detail }) && detail@ == m,
                    Ok(sv) => r matches Ok(c) && c.upstream@ == up && (c.subtitle matches Some(sp)
                        && sp@ == sv),
                },
            },
        },
{
    let upstream = match parse_http_url(args.upstream_url.as_str(), "upstream_url") {
        Ok(u) => u,
        Err(e) => return Err(e),
    };
    let subtitle = match &args.subtitle_url {
        None => None,
        Some(s) => {
            if s.unicode_len() == 0 {
                None
            } else {
                match parse_http_url(s.as_str(), "subtitle_url") {
                    Ok(u) => Some(u),
                    Err(e) => return Err(e),
                }
            }
        },
    };
    Ok(CheckedSession { upstream, subtitle })
}

/// The answer to a new session: its id, the proxy URL of its media (by
/// kind), the proxy URL of its subtitle when it has one, and no cache hit.
pub fn session_response(
    origin: &ProxyOrigin,
    session_id: &str,
    kind: MediaKind,
    has_subtitle: bool,
) -> (r: CreateSessionResponse)
    ensures
        r.session_id@ == session_id@,
        r.media_url@ == origin.base@ + "/s/"@ + session_id@ + "/"@ + match kind {
            MediaKind::Hls => "master.m3u8"@,
            MediaKind::Mp4 => "file.mp4"@,
        },
        r.media_kind == kind,
        has_subtitle ==> (r.subtitle_url matches Some(u) && u@ == origin.base@ + "/s/"@
            + session_id@ + "/sub.vtt"@),
        !has_subtitle ==> r.subtitle_url is None,
        !r.cache_hit,
{
    CreateSessionResponse {
        session_id: session_id.to_owned(),
        media_url: session_media_url(origin, session_id, kind),
        media_kind: kind,
        subtitle_url: if has_subtitle {
            Some(session_subtitle_url(origin, session_id))
        } else {
            None
        },
        cache_hit: false,
    }
}

} // verus!
