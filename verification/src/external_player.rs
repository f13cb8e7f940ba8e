//! The argv handed to the user's external media player (mpv, VLC, IINA
//! or a custom command), with the same `--referer` / `--sub-file` flags
//! `ani-cli` passes.

use vstd::prelude::*;

use crate::text::{
    chars_of, concat2, find_char, first_char_from, is_blank, lemma_first_char_from_bounds, owned,
    push_char, str_eq, string_of_range, strings_view, trim,
};

verus! {

broadcast use vstd::string::group_string_axioms;

/// Player flavor; decides which flag syntax the argv uses.
#[derive(Debug, Clone, Copy, PartialEq, Eq, Structural)]
pub enum ExternalPlayerKind {
    /// mpv: the default, the upstream `ani-cli` flag set.
    Mpv,
    /// VideoLAN VLC.
    Vlc,
    /// IINA on macOS: mpv flags behind a `--mpv-` prefix.
    Iina,
    /// Anything else: argv from a user template.
    Custom,
}

impl Default for ExternalPlayerKind {
    fn default() -> (r: Self)
        ensures
            r == ExternalPlayerKind::Mpv,
    {
        ExternalPlayerKind::Mpv
    }
}

/// Arguments of an external-player launch.
#[derive(Debug, Clone)]
pub struct LaunchArgs {
    /// The resolved stream URL (mp4 or m3u8).
    pub stream_url: String,
    /// Optional `Referer:` value the upstream CDN requires.
    pub referer: Option<String>,
    /// Optional subtitle URL (`.vtt`).
    pub subtitle_url: Option<String>,
    /// Title shown in the player window's titlebar.
    pub title: Option<String>,
    /// Player command, e.g. `"mpv"`.
    pub player_command: String,
    /// Which player flag syntax to use.
    pub player_kind: ExternalPlayerKind,
    /// Argument template, used only for [`ExternalPlayerKind::Custom`].
    /// Placeholders: `{url}`, `{referer}`, `{title}`, `{sub}`.
    pub custom_args_template: Option<String>,
}

// ---------------------------------------------------------------------
// Known players
// ---------------------------------------------------------------------

/// `flag + value` when `o` holds a value, else nothing.
pub open spec fn opt_flag(flag: Seq<char>, o: Option<String>) -> Seq<Seq<char>> {
    match o {
        Some(v) => seq![flag + v@],
        None => Seq::empty(),
    }
}

/// Title flag, subtitle flag, referrer flag (each when its value is
/// present), then the stream URL.
pub open spec fn template_argv(a: LaunchArgs, tf: Seq<char>, sf: Seq<char>, rf: Seq<char>) -> Seq<
    Seq<char>,
> {
    opt_flag(tf, a.title) + opt_flag(sf, a.subtitle_url) + opt_flag(rf, a.referer) + seq![
        a.stream_url@,
    ]
}

fn push_opt_flag(argv: &mut Vec<String>, flag: &str, o: &Option<String>)
    ensures
        strings_view(final(argv)@) == strings_view(old(argv)@) + opt_flag(flag@, *o),
{
    match o {
        Some(v) => {
            argv.push(concat2(flag, v.as_str()));
            assert(strings_view(argv@) =~= strings_view(old(argv)@) + opt_flag(flag@, *o));
        },
        None => {
            assert(strings_view(argv@) =~= strings_view(old(argv)@) + opt_flag(flag@, *o));
        },
    }
}

/// Argv for mpv, VLC and IINA: same shape, different flag names.
pub fn build_argv_with_template(
    args: &LaunchArgs,
    title_flag: &str,
    sub_flag: &str,
    referrer_flag: &str,
) -> (r: Vec<String>)
    ensures
        strings_view(r@) == template_argv(*args, title_flag@, sub_flag@, referrer_flag@),
{
    let mut argv: Vec<String> = Vec::new();
    assert(strings_view(argv@) =~= Seq::<Seq<char>>::empty());
    push_opt_flag(&mut argv, title_flag, &args.title);
    push_opt_flag(&mut argv, sub_flag, &args.subtitle_url);
    push_opt_flag(&mut argv, referrer_flag, &args.referer);
    let ghost before = strings_view(argv@);
    argv.push(args.stream_url.clone());
    assert(strings_view(argv@) =~= before.push(args.stream_url@));
    assert(strings_view(argv@) =~= template_argv(*args, title_flag@, sub_flag@, referrer_flag@));
    argv
}

// ---------------------------------------------------------------------
// Custom templates
// ---------------------------------------------------------------------

/// The words `shlex::split` returns for `s`, or `None` for bad quoting.
/// The POSIX-shell word rules that decide them are not restated here.
pub uninterp spec fn shlex_words(s: Seq<char>) -> Option<Seq<Seq<char>>>;

/// Calls `shlex::split`; its result is a function of the input alone,
/// named `shlex_words`.
#[verifier::external_body]
fn shlex_split(s: &str) -> (r: Option<Vec<String>>)
    ensures
        match r {
            Some(v) => shlex_words(s@) == Some(strings_view(v@)),
            None => shlex_words(s@) is None,
        },
{
    shlex::split(s)
}

/// The value a placeholder name stands for: `Some(value)` for the four
/// known names, `None` for an unknown one.
pub open spec fn placeholder_value(
    name: Seq<char>,
    url: Seq<char>,
    referer: Seq<char>,
    title: Seq<char>,
    sub: Seq<char>,
) -> Option<Seq<char>> {
    if name == "url"@ {
        Some(url)
    } else if name == "referer"@ {
        Some(referer)
    } else if name == "title"@ {
        Some(title)
    } else if name == "sub"@ {
        Some(sub)
    } else {
        None
    }
}

/// `p + r` when `r` is `Some(r)`; `None` stays `None`.
pub open spec fn prepend(p: Seq<char>, r: Option<Seq<char>>) -> Option<Seq<char>> {
    match r {
        Some(x) => Some(p + x),
        None => None,
    }
}

/// A token with its placeholders substituted, read left to right:
/// `{name}` with a known name becomes its value, or drops the whole
/// token (`None`) when the value is empty; `{name}` with an unknown name
/// stays as written; a `{` with no closing `}` keeps the rest verbatim.
pub open spec fn substituted(
    t: Seq<char>,
    url: Seq<char>,
    referer: Seq<char>,
    title: Seq<char>,
    sub: Seq<char>,
) -> Option<Seq<char>>
    decreases t.len(),
{
    if t.len() == 0 {
        Some(Seq::empty())
    } else if t[0] != '{' {
        prepend(seq![t[0]], substituted(t.drop_first(), url, referer, title, sub))
    } else {
        match first_char_from(t, '}', 1) {
            None => Some(t),
            Some(j) => {
                proof {
                    lemma_first_char_from_bounds(t, '}', 1);
                }
                let name = t.subrange(1, j);
                let rest = t.subrange(j + 1, t.len() as int);
                match placeholder_value(name, url, referer, title, sub) {
                    None => prepend(
                        seq!['{'] + name + seq!['}'],
                        substituted(rest, url, referer, title, sub),
                    ),
                    Some(v) => if v.len() == 0 {
                        None
                    } else {
                        prepend(v, substituted(rest, url, referer, title, sub))
                    },
                }
            },
        }
    }
}

proof fn lemma_first_char_from_shift(t: Seq<char>, c: char, i: int, k: int)
    requires
        0 <= i <= t.len(),
        0 <= k,
    ensures
        first_char_from(t.subrange(i, t.len() as int), c, k) == match first_char_from(t, c, i + k) {
            Some(x) => Some(x - i),
            None => None::<int>,
        },
    decreases t.len() - (i + k),
{
    let s = t.subrange(i, t.len() as int);
    if k >= s.len() {
    } else {
        assert(s[k] == t[i + k]);
        if s[k] != c {
            lemma_first_char_from_shift(t, c, i, k + 1);
        }
    }
}

fn name_is(cs: &[char], lo: usize, hi: usize, lit: &str) -> (r: bool)
    requires
        lo <= hi <= cs.len(),
    ensures
        r == (cs@.subrange(lo as int, hi as int) == lit@),
{
    let name = string_of_range(cs, lo, hi);
    str_eq(name.as_str(), lit)
}

/// One token with placeholders substituted (see [`substituted`]).
pub fn substitute_token(tok: &str, url: &str, referer: &str, title: &str, sub: &str) -> (r: Option<
    String,
>)
    ensures
        match r {
            Some(s) => substituted(tok@, url@, referer@, title@, sub@) == Some(s@),
            None => substituted(tok@, url@, referer@, title@, sub@) is None,
        },
{
    let cs = chars_of(tok);
    let n = cs.len();
    let mut out = String::new();
    let mut i: usize = 0;
    assert(cs@.subrange(0, n as int) == cs@);
    while i < n
        invariant
            i <= n == cs.len(),
            cs@ == tok@,
            substituted(tok@, url@, referer@, title@, sub@) == prepend(
                out@,
                substituted(cs@.subrange(i as int, n as int), url@, referer@, title@, sub@),
            ),
        decreases n - i,
    {
        let ghost t = cs@.subrange(i as int, n as int);
        let c = cs[i];
        assert(t[0] == c);
        if c != '{' {
            assert(t.drop_first() == cs@.subrange(i + 1, n as int));
            push_char(&mut out, c);
            i = i + 1;
        } else {
            let close = find_char(cs.as_slice(), '}', i + 1);
            proof {
                lemma_first_char_from_shift(cs@, '}', i as int, 1);
                lemma_first_char_from_bounds(cs@, '}', i + 1);
            }
            match close {
                None => {
                    let rest = string_of_range(cs.as_slice(), i, n);
                    out.append(rest.as_str());
                    return Some(out);
                },
                Some(j) => {
                    let ghost name = cs@.subrange(i + 1, j as int);
                    assert(t.subrange(1, j - i) == name);
                    assert(t.subrange(j - i + 1, t.len() as int) == cs@.subrange(j + 1, n as int));
                    let value: Option<&str> = if name_is(cs.as_slice(), i + 1, j, "url") {
                        Some(url)
                    } else if name_is(cs.as_slice(), i + 1, j, "referer") {
                        Some(referer)
                    } else if name_is(cs.as_slice(), i + 1, j, "title") {
                        Some(title)
                    } else if name_is(cs.as_slice(), i + 1, j, "sub") {
                        Some(sub)
                    } else {
                        None
                    };
                    match value {
                        None => {
                            let literal = string_of_range(cs.as_slice(), i, j + 1);
                            assert(literal@ == seq!['{'] + name + seq!['}']);
                            out.append(literal.as_str());
                        },
                        Some(v) => {
                            if v.unicode_len() == 0 {
                                return None;
                            }
                            out.append(v);
                        },
                    }
                    i = j + 1;
                },
            }
        }
    }
    Some(out)
}

/// The substituted tokens, dropping those a missing placeholder removes.
pub open spec fn rendered_tokens(
    ts: Seq<Seq<char>>,
    url: Seq<char>,
    referer: Seq<char>,
    title: Seq<char>,
    sub: Seq<char>,
) -> Seq<Seq<char>>
    decreases ts.len(),
{
    if ts.len() == 0 {
        Seq::empty()
    } else {
        let prev = rendered_tokens(ts.drop_last(), url, referer, title, sub);
        match substituted(ts.last(), url, referer, title, sub) {
            Some(s) => prev.push(s),
            None => prev,
        }
    }
}

/// Substitutes every token of an already-split template.
pub fn render_custom_tokens(
    tokens: &[String],
    url: &str,
    referer: &str,
    title: &str,
    sub: &str,
) -> (r: Vec<String>)
    ensures
        strings_view(r@) == rendered_tokens(
            strings_view(tokens@),
            url@,
            referer@,
            title@,
            sub@,
        ),
{
    let ghost ts = strings_view(tokens@);
    let mut out: Vec<String> = Vec::new();
    let mut i: usize = 0;
    assert(strings_view(out@) =~= Seq::<Seq<char>>::empty());
    while i < tokens.len()
        invariant
            i <= tokens.len(),
            ts == strings_view(tokens@),
            strings_view(out@) == rendered_tokens(ts.take(i as int), url@, referer@, title@, sub@),
        decreases tokens.len() - i,
    {
        proof {
            assert(ts.take(i + 1).drop_last() == ts.take(i as int));
            assert(ts.take(i + 1).last() == tokens@[i as int]@);
        }
        match substitute_token(tokens[i].as_str(), url, referer, title, sub) {
            Some(s) => {
                let ghost before = strings_view(out@);
                out.push(s);
                assert(strings_view(out@) =~= before.push(s@));
            },
            None => {},
        }
        i = i + 1;
    }
    assert(ts.take(ts.len() as int) == ts);
    out
}

/// The string in `o`, or the empty string.
pub open spec fn or_empty(o: Option<String>) -> Seq<char> {
    match o {
        Some(s) => s@,
        None => Seq::empty(),
    }
}

fn as_str_or_empty(o: &Option<String>) -> (r: &str)
    ensures
        r@ == or_empty(*o),
{
    match o {
        Some(s) => s.as_str(),
        None => {
            let e = "";
            proof {
                reveal_strlit("");
            }
            assert(e@ =~= Seq::<char>::empty());
            e
        },
    }
}

/// Argv for the custom kind: the template split into shell words, each
/// with placeholders substituted (see [`substituted`]); just the URL when
/// the template is missing, blank, or badly quoted.
pub open spec fn custom_argv(a: LaunchArgs) -> Seq<Seq<char>> {
    match a.custom_args_template {
        Some(t) => if trim(t@).len() == 0 {
            seq![a.stream_url@]
        } else {
            match shlex_words(t@) {
                Some(ws) => rendered_tokens(
                    ws,
                    a.stream_url@,
                    or_empty(a.referer),
                    or_empty(a.title),
                    or_empty(a.subtitle_url),
                ),
                None => seq![a.stream_url@],
            }
        },
        None => seq![a.stream_url@],
    }
}

fn url_only(args: &LaunchArgs) -> (r: Vec<String>)
    ensures
        strings_view(r@) == seq![args.stream_url@],
{
    let mut v: Vec<String> = Vec::new();
    v.push(args.stream_url.clone());
    assert(strings_view(v@) =~= seq![args.stream_url@]);
    v
}

/// Argv for [`ExternalPlayerKind::Custom`] (see [`custom_argv`]).
pub fn build_argv_custom(args: &LaunchArgs) -> (r: Vec<String>)
    ensures
        strings_view(r@) == custom_argv(*args),
{
    let template = match &args.custom_args_template {
        Some(s) => s,
        None => return url_only(args),
    };
    if is_blank(template.as_str()) {
        return url_only(args);
    }
    let tokens = match shlex_split(template.as_str()) {
        Some(t) => t,
        None => return url_only(args),
    };
    let referer = as_str_or_empty(&args.referer);
    let title = as_str_or_empty(&args.title);
    let sub = as_str_or_empty(&args.subtitle_url);
    render_custom_tokens(tokens.as_slice(), args.stream_url.as_str(), referer, title, sub)
}

/// What [`build_argv`] returns for each player kind.
pub open spec fn launch_argv(a: LaunchArgs) -> Seq<Seq<char>> {
    match a.player_kind {
        ExternalPlayerKind::Mpv => template_argv(
            a,
            "--force-media-title="@,
            "--sub-file="@,
            "--referrer="@,
        ),
        ExternalPlayerKind::Vlc => template_argv(
            a,
            "--meta-title="@,
            "--sub-file="@,
            "--http-referrer="@,
        ),
        ExternalPlayerKind::Iina => template_argv(
            a,
            "--mpv-force-media-title="@,
            "--sub-file="@,
            "--mpv-referrer="@,
        ),
        ExternalPlayerKind::Custom => custom_argv(a),
    }
}

/// The argv passed to the player command: title, subtitle, referrer,
/// then the URL, in the flag syntax of the player kind; for a custom
/// player, the user's template with placeholders filled in.
pub fn build_argv(args: &LaunchArgs) -> (r: Vec<String>)
    ensures
        strings_view(r@) == launch_argv(*args),
{
    match args.player_kind {
        ExternalPlayerKind::Mpv => build_argv_with_template(
            args,
            "--force-media-title=",
            "--sub-file=",
            "--referrer=",
        ),
        ExternalPlayerKind::Vlc => build_argv_with_template(
            args,
            "--meta-title=",
            "--sub-file=",
            "--http-referrer=",
        ),
        ExternalPlayerKind::Iina => build_argv_with_template(
            args,
            "--mpv-force-media-title=",
            "--sub-file=",
            "--mpv-referrer=",
        ),
        ExternalPlayerKind::Custom => build_argv_custom(args),
    }
}

/// A launch can only be attempted with a non-blank player command.
pub fn launch_precheck(args: &LaunchArgs) -> (r: Result<Vec<String>, crate::error::AniError>)
    ensures
        trim(args.player_command@).len() == 0 ==> r matches Err(crate::error::AniError::MissingBinary),
        trim(args.player_command@).len() > 0 ==> (r matches Ok(v) && strings_view(v@) == launch_argv(*args)),
{
    if is_blank(args.player_command.as_str()) {
        return Err(crate::error::AniError::MissingBinary);
    }
    Ok(build_argv(args))
}

} // verus!
