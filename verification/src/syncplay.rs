//! The argv handed to a locally installed Syncplay, which wraps the
//! user's media player and keeps a room's playback in sync.

use vstd::prelude::*;

use crate::error::AniError;
use crate::external_player::ExternalPlayerKind;
use crate::text::{concat2, is_blank, strings_view, trim, trim_str};

verus! {

broadcast use vstd::string::group_string_axioms;

/// Arguments of a Syncplay launch.
#[derive(Debug, Clone)]
pub struct SyncplayLaunchArgs {
    /// The resolved stream URL; Syncplay's positional file argument.
    pub stream_url: String,
    /// Syncplay binary path.
    pub binary: String,
    /// Optional `Referer:` value, forwarded to the wrapped player.
    pub referer: Option<String>,
    /// Optional subtitle URL, forwarded to the wrapped player.
    pub subtitle_url: Option<String>,
    /// Which media player Syncplay wraps.
    pub player_kind: ExternalPlayerKind,
    /// Path of the media-player binary Syncplay should wrap; empty to
    /// leave Syncplay's own setting alone.
    pub player_binary: String,
}

/// The referrer flag of the wrapped player.
pub open spec fn referrer_flag(k: ExternalPlayerKind) -> Seq<char> {
    match k {
        ExternalPlayerKind::Vlc => "--http-referrer="@,
        ExternalPlayerKind::Iina => "--mpv-referrer="@,
        _ => "--referrer="@,
    }
}

/// `o`'s string when present and not empty.
pub open spec fn non_empty(o: Option<String>) -> Option<Seq<char>> {
    match o {
        Some(s) => if s@.len() > 0 {
            Some(s@)
        } else {
            None
        },
        None => None,
    }
}

/// `flag + v` for a present value, else nothing.
pub open spec fn flag_if(flag: Seq<char>, v: Option<Seq<char>>) -> Seq<Seq<char>> {
    match v {
        Some(x) => seq![flag + x],
        None => Seq::empty(),
    }
}

/// What [`build_argv`] returns: `--player-path=<trimmed binary>` when the
/// trimmed player binary is not empty, the stream URL, then (except for a
/// custom player, and only when a non-empty referer or subtitle is given)
/// `--`, the referrer flag and the `--sub-file=` flag.
pub open spec fn syncplay_argv(a: SyncplayLaunchArgs) -> Seq<Seq<char>> {
    let pb = trim(a.player_binary@);
    let head = if pb.len() > 0 {
        seq!["--player-path="@ + pb]
    } else {
        Seq::empty()
    };
    let base = head.push(a.stream_url@);
    let r = non_empty(a.referer);
    let s = non_empty(a.subtitle_url);
    if a.player_kind == ExternalPlayerKind::Custom || (r is None && s is None) {
        base
    } else {
        base + seq!["--"@] + flag_if(referrer_flag(a.player_kind), r) + flag_if("--sub-file="@, s)
    }
}

fn non_empty_str(o: &Option<String>) -> (r: Option<&str>)
    ensures
        match r {
            Some(x) => non_empty(*o) == Some(x@),
            None => non_empty(*o) is None,
        },
{
    match o {
        Some(s) => if s.unicode_len() > 0 {
            Some(s.as_str())
        } else {
            None
        },
        None => None,
    }
}

fn push_flag_if(argv: &mut Vec<String>, flag: &str, v: Option<&str>)
    ensures
        strings_view(final(argv)@) == strings_view(old(argv)@) + flag_if(
            flag@,
            match v {
                Some(x) => Some(x@),
                None => None,
            },
        ),
{
    match v {
        Some(x) => {
            let ghost before = strings_view(argv@);
            argv.push(concat2(flag, x));
            assert(strings_view(argv@) =~= before + seq![flag@ + x@]);
        },
        None => {
            assert(strings_view(argv@) =~= strings_view(old(argv)@) + Seq::<Seq<char>>::empty());
        },
    }
}

/// The argv passed to the Syncplay binary (see [`syncplay_argv`]).
pub fn build_argv(args: &SyncplayLaunchArgs) -> (r: Vec<String>)
    ensures
        strings_view(r@) == syncplay_argv(*args),
{
    let mut argv: Vec<String> = Vec::new();
    let player_binary = trim_str(args.player_binary.as_str());
    if player_binary.unicode_len() > 0 {
        argv.push(concat2("--player-path=", player_binary.as_str()));
    }
    argv.push(args.stream_url.clone());
    let ghost pb = trim(args.player_binary@);
    let ghost head = if pb.len() > 0 {
        seq!["--player-path="@ + pb]
    } else {
        Seq::<Seq<char>>::empty()
    };
    assert(strings_view(argv@) =~= head.push(args.stream_url@));
    if args.player_kind == ExternalPlayerKind::Custom {
        return argv;
    }
    let referrer = match args.player_kind {
        ExternalPlayerKind::Vlc => "--http-referrer=",
        ExternalPlayerKind::Iina => "--mpv-referrer=",
        _ => "--referrer=",
    };
    let referer = non_empty_str(&args.referer);
    let subtitle = non_empty_str(&args.subtitle_url);
    if referer.is_some() || subtitle.is_some() {
        let ghost before = strings_view(argv@);
        argv.push("--".to_owned());
        assert(strings_view(argv@) =~= before + seq!["--"@]);
        push_flag_if(&mut argv, referrer, referer);
        push_flag_if(&mut argv, "--sub-file=", subtitle);
    }
    argv
}

/// A launch can only be attempted with a non-blank Syncplay binary; a
/// blank one is reported as a spawn failure carrying the binary as given.
pub fn launch_precheck(args: &SyncplayLaunchArgs) -> (r: Result<Vec<String>, AniError>)
    ensures
        trim(args.binary@).len() == 0 ==> (r matches Err(AniError::SyncplaySpawnFailed { binary })
            && binary@ == args.binary@),
        trim(args.binary@).len() > 0 ==> (r matches Ok(v) && strings_view(v@) == syncplay_argv(*args)),
{
    if is_blank(args.binary.as_str()) {
        return Err(AniError::SyncplaySpawnFailed { binary: args.binary.clone() });
    }
    Ok(build_argv(args))
}

} // verus!
