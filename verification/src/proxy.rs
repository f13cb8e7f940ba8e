//! The local stream proxy's URL scheme: how a segment URL carries its
//! upstream (URL-safe base64 without padding) and its token, how it is
//! read back, and which upstream statuses are passed on.

use vstd::prelude::*;

use crate::error::AniError;
use crate::play::{MediaKind, ProxyOrigin};
use crate::text::{concat3, owned, push_str, starts_with, str_ends_with, str_starts_with, ends_with};
use crate::web::{parse_url, url_parse, UrlParts, UrlView};

verus! {

broadcast use vstd::string::group_string_axioms;

/// What `base64`'s `URL_SAFE_NO_PAD` engine writes for the UTF-8 bytes of
/// the text `s`.
pub uninterp spec fn b64_url_encode(s: Seq<char>) -> Seq<char>;

/// What `base64`'s `URL_SAFE_NO_PAD` engine decodes from the text `s`:
/// the bytes, or `None` when it reports a decode error.
pub uninterp spec fn b64_url_decode(s: Seq<char>) -> Option<Seq<u8>>;

/// What `std::str::from_utf8` makes of `b`: the text, or `None` when the
/// bytes are not valid UTF-8.
pub uninterp spec fn utf8_decode(b: Seq<u8>) -> Option<Seq<char>>;

/// The base64 text `b64` decodes to UTF-8 bytes of the text `s`.
pub open spec fn reads_back_as(b64: Seq<char>, s: Seq<char>) -> bool {
    b64_url_decode(b64) matches Some(b) && utf8_decode(b) == Some(s)
}

/// Calls `Engine::encode` of `base64::engine::general_purpose::URL_SAFE_NO_PAD`
/// on the bytes of `s`; the text it returns is named `b64_url_encode`.
/// The same engine's `decode` gives those bytes back (the crate's
/// round-trip promise), and `std::str::from_utf8` reads the UTF-8 bytes of
/// a `str` back as that text. The length bound keeps the crate's
/// buffer-size computation from overflowing, where it panics.
#[verifier::external_body]
fn encode_url_safe(s: &str) -> (r: String)
    requires
        s@.len() <= usize::MAX / 8,
    ensures
        r@ == b64_url_encode(s@),
        reads_back_as(r@, s@),
{
    base64::Engine::encode(&base64::engine::general_purpose::URL_SAFE_NO_PAD, s.as_bytes())
}

/// Calls `Engine::decode` of `base64::engine::general_purpose::URL_SAFE_NO_PAD`
/// on the bytes of `s`; the bytes it returns, or `None` for its
/// `DecodeError`, are named `b64_url_decode`.
#[verifier::external_body]
fn decode_url_safe(s: &str) -> (r: Option<Vec<u8>>)
    requires
        s@.len() <= usize::MAX / 8,
    ensures
        match r {
            Some(b) => b64_url_decode(s@) == Some(b@),
            None => b64_url_decode(s@) is None,
        },
{
    match base64::Engine::decode(&base64::engine::general_purpose::URL_SAFE_NO_PAD, s.as_bytes()) {
        Ok(b) => Some(b),
        Err(_) => None,
    }
}

/// Calls `std::str::from_utf8`; the text, or `None` for its `Utf8Error`,
/// is named `utf8_decode`.
#[verifier::external_body]
fn text_of_utf8(b: &[u8]) -> (r: Option<String>)
    ensures
        match r {
            Some(s) => utf8_decode(b@) == Some(s@),
            None => utf8_decode(b@) is None,
        },
{
    match std::str::from_utf8(b) {
        Ok(s) => Some(s.to_string()),
        Err(_) => None,
    }
}

impl ProxyOrigin {
    /// The URL the player fetches for an upstream segment:
    /// `<base>/s/<session>/seg?u=<upstream, URL-safe base64>&t=<token>`.
    /// Its `u` parameter reads back (see [`seg_target`]) as the parse of
    /// `original`.
    pub fn segment_url(&self, session: &str, original: &str, token: &str) -> (r: String)
        requires
            original@.len() <= usize::MAX / 8,
        ensures
            r@ == self.base@ + "/s/"@ + session@ + "/seg?u="@ + b64_url_encode(original@) + "&t="@
                + token@,
            reads_back_as(b64_url_encode(original@), original@),
            seg_target(b64_url_encode(original@)) == match url_parse(original@) {
                Ok(v) => Some(v),
                Err(_) => None::<UrlView>,
            },
    {
        let encoded = encode_url_safe(original);
        proof {
            law_segment_reads_back(original@);
        }
        let mut r = concat3(self.base.as_str(), "/s/", session);
        push_str(&mut r, "/seg?u=");
        push_str(&mut r, encoded.as_str());
        push_str(&mut r, "&t=");
        push_str(&mut r, token);
        r
    }
}

/// The upstream URL carried by a segment request's `u` parameter, read
/// back: base64 decode, then UTF-8, then URL parse; any failure is
/// `InvalidToken`.
pub open spec fn seg_target(b64: Seq<char>) -> Option<UrlView> {
    match b64_url_decode(b64) {
        None => None,
        Some(bytes) => match utf8_decode(bytes) {
            None => None,
            Some(text) => match url_parse(text) {
                Ok(v) => Some(v),
                Err(_) => None,
            },
        },
    }
}

/// A segment URL's `u` parameter, read back, is the upstream URL it was
/// written for, parsed: whenever the base64 text decodes to the UTF-8 of
/// `u` (as [`ProxyOrigin::segment_url`] ensures of what it writes), the
/// target is the parse of `u`, and none exactly when `u` does not parse.
pub proof fn law_segment_reads_back(u: Seq<char>)
    requires
        reads_back_as(b64_url_encode(u), u),
    ensures
        seg_target(b64_url_encode(u)) == match url_parse(u) {
            Ok(v) => Some(v),
            Err(_) => None::<UrlView>,
        },
{
}

/// Reads the upstream URL out of a segment request's `u` parameter (see
/// [`seg_target`]).
pub fn decode_seg_url(b64: &str) -> (r: Result<UrlParts, AniError>)
    requires
        b64@.len() <= usize::MAX / 8,
    ensures
        match seg_target(b64@) {
            Some(v) => r matches Ok(p) && p@ == v,
            None => r matches Err(AniError::InvalidToken),
        },
{
    let bytes = match decode_url_safe(b64) {
        Some(b) => b,
        None => return Err(AniError::InvalidToken),
    };
    let text = match text_of_utf8(bytes.as_slice()) {
        Some(t) => t,
        None => return Err(AniError::InvalidToken),
    };
    match parse_url(text.as_str()) {
        Ok(p) => Ok(p),
        Err(_) => Err(AniError::InvalidToken),
    }
}

/// A rewritten manifest URI: one already on the proxy origin (starting
/// with its base) is kept as it is; any other becomes the signed segment
/// URL for it.
pub open spec fn proxied_uri(upstream: Seq<char>, base: Seq<char>, session: Seq<char>, token: Seq<
    char,
>) -> Seq<char> {
    if starts_with(upstream, base) {
        upstream
    } else {
        base + "/s/"@ + session + "/seg?u="@ + b64_url_encode(upstream) + "&t="@ + token
    }
}

/// Rewrites one manifest URI (see [`proxied_uri`]).
pub fn build_proxy_uri(upstream: &str, origin: &ProxyOrigin, session: &str, token: &str) -> (r:
    String)
    requires
        upstream@.len() <= usize::MAX / 8,
    ensures
        r@ == proxied_uri(upstream@, origin.base@, session@, token@),
{
    if str_starts_with(upstream, origin.base.as_str()) {
        owned(upstream)
    } else {
        origin.segment_url(session, upstream, token)
    }
}

/// Rewriting a URI twice gives what rewriting it once gave: the rewritten
/// URI is already on the proxy origin.
pub proof fn law_proxy_rewrite_idempotent(
    upstream: Seq<char>,
    base: Seq<char>,
    session: Seq<char>,
    token: Seq<char>,
    token2: Seq<char>,
)
    ensures
        proxied_uri(proxied_uri(upstream, base, session, token), base, session, token2)
            == proxied_uri(upstream, base, session, token),
{
    let r = proxied_uri(upstream, base, session, token);
    if !starts_with(upstream, base) {
        let rest = "/s/"@ + session + "/seg?u="@ + b64_url_encode(upstream) + "&t="@ + token;
        assert(r =~= base + rest);
        assert((base + rest).subrange(0, base.len() as int) =~= base);
    }
}

/// Whether a segment request targets a sub-playlist (its path ends with
/// `.m3u8`), which the proxy rewrites, rather than raw media it streams.
pub fn is_manifest_path(path: &str) -> (r: bool)
    ensures
        r == ends_with(path@, ".m3u8"@),
{
    str_ends_with(path, ".m3u8")
}

/// The status the proxy answers an upstream HTTP error with: the
/// upstream's own when it is a valid status code (100–999), else 502.
pub fn upstream_error_status(status: u16) -> (r: u16)
    ensures
        100 <= status <= 999 ==> r == status,
        !(100 <= status <= 999) ==> r == 502,
{
    if 100 <= status && status <= 999 {
        status
    } else {
        502
    }
}

/// A refusal from a proxy route: the HTTP status and the plain-text body.
#[derive(Debug, Clone, Copy, PartialEq, Eq)]
pub struct ProxyRefusal {
    /// HTTP status.
    pub status: u16,
    /// Response body.
    pub body: &'static str,
}

/// Whether a manifest or byte-stream request may go on: without a live
/// session it gets 404; when the session serves the other media kind,
/// 415 and a pointer to the matching endpoint.
pub fn check_media_session(found: Option<MediaKind>, wanted: MediaKind) -> (r: Result<
    (),
    ProxyRefusal,
>)
    ensures
        found is None ==> (r matches Err(e) && e.status == 404 && e.body@
            == "session not found or expired"@),
        found == Some(wanted) ==> r is Ok,
        (found is Some && found != Some(wanted)) ==> (r matches Err(e) && e.status == 415 && e.body@
            == match wanted {
            MediaKind::Hls => "session media is not HLS — use /file.mp4"@,
            MediaKind::Mp4 => "session media is not MP4 — use /master.m3u8"@,
        }),
{
    match found {
        None => Err(ProxyRefusal { status: 404, body: "session not found or expired" }),
        Some(k) => {
            if k == wanted {
                Ok(())
            } else {
                match wanted {
                    MediaKind::Hls => Err(
                        ProxyRefusal { status: 415, body: "session media is not HLS — use /file.mp4" },
                    ),
                    MediaKind::Mp4 => Err(
                        ProxyRefusal {
                            status: 415,
                            body: "session media is not MP4 — use /master.m3u8",
                        },
                    ),
                }
            }
        },
    }
}

/// Whether a segment request may go on, checked in the route's order: a
/// malformed session id gets 400; an unknown session 404; a `u`
/// parameter that does not read back as a URL (see [`seg_target`]) 400;
/// a token that `token_valid` refuses for the decoded URL 403. Otherwise
/// the decoded upstream URL.
pub fn check_segment_request<F: Fn(&UrlParts) -> bool>(
    session_id_valid: bool,
    session_found: bool,
    u: &str,
    token_valid: F,
) -> (r: Result<UrlParts, ProxyRefusal>)
    requires
        u@.len() <= usize::MAX / 8,
        forall|p: &UrlParts| token_valid.requires((p,)),
    ensures
        !session_id_valid ==> (r matches Err(e) && e.status == 400 && e.body@ == "invalid session id"@),
        session_id_valid && !session_found ==> (r matches Err(e) && e.status == 404 && e.body@
            == "session not found"@),
        session_id_valid && session_found && seg_target(u@) is None ==> (r matches Err(e) && e.status
            == 400 && e.body@ == "bad segment url encoding"@),
        session_id_valid && session_found && seg_target(u@) is Some ==> match r {
            Ok(p) => seg_target(u@) == Some(p@) && token_valid.ensures((&p,), true),
            Err(e) => e.status == 403 && e.body@ == "invalid segment token"@ && exists|p: UrlParts|
                seg_target(u@) == Some(p@) && #[trigger] token_valid.ensures((&p,), false),
        },
{
    if !session_id_valid {
        return Err(ProxyRefusal { status: 400, body: "invalid session id" });
    }
    if !session_found {
        return Err(ProxyRefusal { status: 404, body: "session not found" });
    }
    let upstream = match decode_seg_url(u) {
        Ok(p) => p,
        Err(_) => return Err(ProxyRefusal { status: 400, body: "bad segment url encoding" }),
    };
    if token_valid(&upstream) {
        Ok(upstream)
    } else {
        Err(ProxyRefusal { status: 403, body: "invalid segment token" })
    }
}

} // verus!
