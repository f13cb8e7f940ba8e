//! The decisions around spawning the `ani-cli` script: the argv of a
//! debug-mode run, where the script is found, and how a failed run is
//! reported.

use vstd::prelude::*;

use crate::allanime::{is_dub, mode_is_dub};
use crate::error::AniError;
use crate::bash::pick_first_existing;
use crate::config::{join_path, path_join};
use crate::text::{
    ascii_lower, ascii_lowercase, concat3, contains, contains_str, decimal, decimal_string, owned,
    replace_char, replace_char_str, str_eq, strings_view,
};

verus! {

broadcast use vstd::string::group_string_axioms;

/// How long any single `ani-cli` invocation may run, in seconds.
pub const DEFAULT_TIMEOUT_SECS: u64 = 60;

/// i18n key of a scraper run that failed for a reason we cannot name.
pub const SCRAPER_PARSE_FAILED: &'static str = "error.scraper.parse_failed";

/// `PATH` used when neither an override nor an inherited value exists.
pub const FALLBACK_PATH: &'static str = "/usr/bin:/bin";

/// Strip `"`, which breaks `ani-cli`'s shell-interpolated JSON search body.
pub fn sanitize_anicli_query(q: &str) -> (r: String)
    ensures
        r@ == replace_char(q@, '"', Seq::empty()),
{
    let empty = "";
    proof {
        reveal_strlit("");
    }
    assert(empty@ =~= Seq::<char>::empty());
    replace_char_str(q, '"', empty)
}

/// How a debug-mode run finds the `ani-cli` script.
#[derive(Debug, Clone)]
pub struct DebugOptions {
    /// Path of the `ani-cli` script.
    pub ani_cli_path: String,
    /// Optional override for the history directory (`ANI_CLI_HIST_DIR`).
    pub hist_dir: Option<String>,
    /// Wall-clock timeout, in seconds.
    pub timeout_secs: u64,
    /// Override for `PATH`.
    pub path_override: Option<String>,
}

impl DebugOptions {
    /// Options for a located script with all defaults: no history
    /// override, the default timeout, the inherited `PATH`.
    pub fn new(ani_cli_path: String) -> (r: Self)
        ensures
            r.ani_cli_path@ == ani_cli_path@,
            r.hist_dir is None,
            r.timeout_secs == DEFAULT_TIMEOUT_SECS,
            r.path_override is None,
    {
        DebugOptions {
            ani_cli_path,
            hist_dir: None,
            timeout_secs: DEFAULT_TIMEOUT_SECS,
            path_override: None,
        }
    }
}

/// What `std::path::Path::parent` gives for the path `p`: the path
/// without its last component, or `None` for a root or empty path.
pub uninterp spec fn path_parent(p: Seq<char>) -> Option<Seq<char>>;

/// Calls `std::path::Path::parent` on `p`; the parent (a prefix of a
/// UTF-8 path, so UTF-8 itself) is named `path_parent`.
#[verifier::external_body]
fn parent_of(p: &str) -> (r: Option<String>)
    ensures
        match r {
            Some(d) => path_parent(p@) == Some(d@),
            None => path_parent(p@) is None,
        },
{
    std::path::Path::new(p).parent().and_then(|d| d.to_str()).map(|d| d.to_string())
}

/// The options of a play-flow run: the located script; as history
/// directory the override when given (a prefetch's scratch directory,
/// keeping background warming out of the user's history), else the
/// directory of the history file; the default timeout; the inherited
/// `PATH`.
pub fn debug_options_for(
    ani_cli_path: &str,
    history_path: &str,
    override_hist_dir: Option<&str>,
) -> (r: DebugOptions)
    ensures
        r.ani_cli_path@ == ani_cli_path@,
        match override_hist_dir {
            Some(o) => r.hist_dir matches Some(h) && h@ == o@,
            None => match path_parent(history_path@) {
                Some(d) => r.hist_dir matches Some(h) && h@ == d,
                None => r.hist_dir is None,
            },
        },
        r.timeout_secs == DEFAULT_TIMEOUT_SECS,
        r.path_override is None,
{
    let hist_dir = match override_hist_dir {
        Some(o) => Some(owned(o)),
        None => parent_of(history_path),
    };
    DebugOptions {
        ani_cli_path: owned(ani_cli_path),
        hist_dir,
        timeout_secs: DEFAULT_TIMEOUT_SECS,
        path_override: None,
    }
}

/// `f` answered `b` for a string whose text is `s`.
pub open spec fn answered<F: Fn(&String) -> bool>(f: F, s: Seq<char>, b: bool) -> bool {
    exists|c: String| #[trigger] f.ensures((&c,), b) && c@ == s
}

/// The entry `name` in each of `dirs`, in order.
pub open spec fn path_candidates(dirs: Seq<String>, name: Seq<char>) -> Seq<Seq<char>> {
    Seq::new(dirs.len(), |i: int| path_join(dirs[i]@, name))
}

/// `k` is the first of `dirs` whose `name` entry `is_exec` accepted: every
/// earlier entry was refused.
pub open spec fn first_hit<F: Fn(&String) -> bool>(
    is_exec: F,
    dirs: Seq<String>,
    name: Seq<char>,
    k: int,
) -> bool {
    &&& 0 <= k < dirs.len()
    &&& answered(is_exec, path_candidates(dirs, name)[k], true)
    &&& forall|j: int| 0 <= j < k ==> answered(is_exec, #[trigger] path_candidates(dirs, name)[j], false)
}

/// Every `name` entry of `dirs` was refused by `is_exec`.
pub open spec fn no_hit<F: Fn(&String) -> bool>(is_exec: F, dirs: Seq<String>, name: Seq<char>) -> bool {
    forall|j: int| 0 <= j < dirs.len() ==> answered(is_exec, #[trigger] path_candidates(dirs, name)[j], false)
}

/// The `name` entry of each directory, in order.
pub fn candidates_in(dirs: &[String], name: &str) -> (r: Vec<String>)
    ensures
        strings_view(r@) == path_candidates(dirs@, name@),
{
    let mut r: Vec<String> = Vec::new();
    let mut i: usize = 0;
    while i < dirs.len()
        invariant
            i <= dirs.len(),
            r@.len() == i,
            forall|j: int| 0 <= j < i ==> #[trigger] r@[j]@ == path_join(dirs@[j]@, name@),
        decreases dirs.len() - i,
    {
        r.push(join_path(dirs[i].as_str(), name));
        i = i + 1;
    }
    assert(strings_view(r@) =~= path_candidates(dirs@, name@));
    r
}

/// The first `name` entry of `dirs` (the directories of `PATH`, in order)
/// that `is_exec` accepts, asking each in turn; `None` when it refuses
/// them all.
pub fn find_in_path<F: Fn(&String) -> bool>(dirs: &[String], name: &str, is_exec: F) -> (r: Option<String>)
    requires
        forall|c: &String| is_exec.requires((c,)),
    ensures
        match r {
            Some(p) => exists|k: int| first_hit(is_exec, dirs@, name@, k) && p@ == path_candidates(dirs@, name@)[k],
            None => no_hit(is_exec, dirs@, name@),
        },
{
    let cands = candidates_in(dirs, name);
    let ghost cs = path_candidates(dirs@, name@);
    assert(cands@.len() == strings_view(cands@).len() && cs.len() == dirs@.len());
    assert forall|i: int| 0 <= i < cands@.len() implies #[trigger] cands@[i]@ == cs[i] by {
        assert(strings_view(cands@)[i] == cands@[i]@);
    }
    let r = pick_first_existing(cands.as_slice(), is_exec);
    proof {
        match &r {
            Some(p) => {
                let i = choose|i: int|
                    0 <= i < cands@.len() && p@ == cands@[i]@ && is_exec.ensures((&cands@[i],), true)
                        && forall|j: int| 0 <= j < i ==> is_exec.ensures((&cands@[j],), false);
                assert(answered(is_exec, cs[i], true));
                assert forall|j: int| 0 <= j < i implies answered(is_exec, #[trigger] cs[j], false) by {
                    assert(is_exec.ensures((&cands@[j],), false));
                }
                assert(first_hit(is_exec, dirs@, name@, i));
            },
            None => {
                assert forall|j: int| 0 <= j < dirs@.len() implies answered(is_exec, #[trigger] cs[j], false) by {
                    assert(is_exec.ensures((&cands@[j],), false));
                }
            },
        }
    }
    r
}

/// Where the script is taken from: the first executable `ani-cli` in the
/// directories of `PATH` (see [`find_in_path`]), then the fallback when
/// it is a file; otherwise `MissingBinary`.
pub fn locate_ani_cli<F: Fn(&String) -> bool>(
    path_dirs: &[String],
    is_exec: F,
    fallback: Option<String>,
    fallback_is_file: bool,
) -> (r: Result<String, AniError>)
    requires
        forall|c: &String| is_exec.requires((c,)),
    ensures
        match r {
            Ok(p) => (exists|k: int| first_hit(is_exec, path_dirs@, "ani-cli"@, k) && p@
                == path_candidates(path_dirs@, "ani-cli"@)[k]) || (no_hit(is_exec, path_dirs@, "ani-cli"@)
                && fallback_is_file && (fallback matches Some(f) && p@ == f@)),
            Err(e) => e is MissingBinary && no_hit(is_exec, path_dirs@, "ani-cli"@) && !(
            fallback_is_file && fallback is Some),
        },
{
    if let Some(p) = find_in_path(path_dirs, "ani-cli", is_exec) {
        return Ok(p);
    }
    if let Some(f) = fallback {
        if fallback_is_file {
            return Ok(f);
        }
    }
    Err(AniError::MissingBinary)
}

/// Whether a file counts as executable where the script's directory is
/// searched on Windows: a regular file whose extension is `exe` or `cmd`,
/// in any ASCII case.
pub fn is_executable_windows(is_file: bool, extension: Option<&str>) -> (r: bool)
    ensures
        r == (is_file && match extension {
            Some(e) => ascii_lower(e@) == "exe"@ || ascii_lower(e@) == "cmd"@,
            None => false,
        }),
{
    if !is_file {
        return false;
    }
    match extension {
        Some(e) => {
            let l = ascii_lowercase(e);
            str_eq(l.as_str(), "exe") || str_eq(l.as_str(), "cmd")
        },
        None => false,
    }
}

/// A regular file with any execute bit set (`mode & 0o111 != 0`).
pub fn is_executable(is_file: bool, mode: u32) -> (r: bool)
    ensures
        r == (is_file && (mode & 0o111u32) != 0),
{
    is_file && (mode & 0o111u32) != 0
}

/// The argv of a debug-mode run: `-S <index, at least 1> -e <ep> -q
/// <quality>`, `--dub` for dub mode, then `--` and the query with its
/// double quotes removed.
pub open spec fn debug_argv_spec(
    query: Seq<char>,
    ep: Seq<char>,
    quality: Seq<char>,
    mode: Seq<char>,
    select_index: usize,
) -> Seq<Seq<char>> {
    let idx: nat = if select_index >= 1 {
        select_index as nat
    } else {
        1
    };
    seq!["-S"@, decimal(idx), "-e"@, ep, "-q"@, quality] + (if is_dub(mode) {
        seq!["--dub"@]
    } else {
        Seq::empty()
    }) + seq!["--"@, replace_char(query, '"', Seq::empty())]
}

/// Builds the argv of a debug-mode run (see [`debug_argv_spec`]).
pub fn debug_argv(query: &str, ep: &str, quality: &str, mode: &str, select_index: usize) -> (r: Vec<
    String,
>)
    ensures
        strings_view(r@) == debug_argv_spec(query@, ep@, quality@, mode@, select_index),
{
    let idx: usize = if select_index >= 1 {
        select_index
    } else {
        1
    };
    let mut argv: Vec<String> = Vec::new();
    argv.push("-S".to_owned());
    argv.push(decimal_string(idx as u64));
    argv.push("-e".to_owned());
    argv.push(owned(ep));
    argv.push("-q".to_owned());
    argv.push(owned(quality));
    let dub = mode_is_dub(mode);
    if dub {
        argv.push("--dub".to_owned());
    }
    argv.push("--".to_owned());
    argv.push(sanitize_anicli_query(query));
    assert(strings_view(argv@) =~= debug_argv_spec(query@, ep@, quality@, mode@, select_index));
    argv
}

/// The environment of a debug-mode run, which starts from an empty one:
/// `PATH` (the override, else the inherited value, else
/// [`FALLBACK_PATH`]), `HOME` when one is inherited, `TERM=dumb`,
/// `NO_COLOR=1`, `ANI_CLI_PLAYER=debug`, and `ANI_CLI_HIST_DIR` (the
/// options' history directory, else the inherited one) when there is one.
pub open spec fn debug_env_spec(
    path_override: Option<String>,
    inherited_path: Option<String>,
    home: Option<String>,
    hist_dir: Option<String>,
    inherited_hist_dir: Option<String>,
) -> Seq<(Seq<char>, Seq<char>)> {
    let path = match path_override {
        Some(p) => p@,
        None => match inherited_path {
            Some(i) => i@,
            None => FALLBACK_PATH@,
        },
    };
    seq![("PATH"@, path)] + match home {
        Some(h) => seq![("HOME"@, h@)],
        None => Seq::empty(),
    } + seq![("TERM"@, "dumb"@), ("NO_COLOR"@, "1"@), ("ANI_CLI_PLAYER"@, "debug"@)] + match hist_dir {
        Some(d) => seq![("ANI_CLI_HIST_DIR"@, d@)],
        None => match inherited_hist_dir {
            Some(d) => seq![("ANI_CLI_HIST_DIR"@, d@)],
            None => Seq::empty(),
        },
    }
}

/// The entries as values.
pub open spec fn env_view(v: Seq<(String, String)>) -> Seq<(Seq<char>, Seq<char>)> {
    v.map_values(|e: (String, String)| (e.0@, e.1@))
}

fn push_env(v: &mut Vec<(String, String)>, name: &str, value: &str)
    ensures
        env_view(final(v)@) == env_view(old(v)@).push((name@, value@)),
{
    let ghost before = v@;
    v.push((owned(name), owned(value)));
    assert(env_view(v@) =~= env_view(before).push((name@, value@)));
}

/// Builds the environment of a debug-mode run (see [`debug_env_spec`])
/// from the options and what the caller's own environment holds
/// (`PATH`, `HOME`, `ANI_CLI_HIST_DIR`).
pub fn debug_env(
    opts: &DebugOptions,
    inherited_path: Option<String>,
    home: Option<String>,
    inherited_hist_dir: Option<String>,
) -> (r: Vec<(String, String)>)
    ensures
        env_view(r@) == debug_env_spec(
            opts.path_override,
            inherited_path,
            home,
            opts.hist_dir,
            inherited_hist_dir,
        ),
{
    let mut v: Vec<(String, String)> = Vec::new();
    let path = spawn_path_value(opts.path_override.clone(), inherited_path.clone());
    push_env(&mut v, "PATH", path.as_str());
    match &home {
        Some(h) => push_env(&mut v, "HOME", h.as_str()),
        None => {},
    }
    push_env(&mut v, "TERM", "dumb");
    push_env(&mut v, "NO_COLOR", "1");
    push_env(&mut v, "ANI_CLI_PLAYER", "debug");
    match &opts.hist_dir {
        Some(d) => push_env(&mut v, "ANI_CLI_HIST_DIR", d.as_str()),
        None => match &inherited_hist_dir {
            Some(d) => push_env(&mut v, "ANI_CLI_HIST_DIR", d.as_str()),
            None => {},
        },
    }
    assert(env_view(v@) =~= debug_env_spec(
        opts.path_override,
        inherited_path,
        home,
        opts.hist_dir,
        inherited_hist_dir,
    ));
    v
}

/// The argv of a download run: `-d`, then the argv of a debug-mode run
/// for the same episode (see [`debug_argv_spec`]).
pub open spec fn download_argv_spec(
    query: Seq<char>,
    ep: Seq<char>,
    quality: Seq<char>,
    mode: Seq<char>,
    select_index: usize,
) -> Seq<Seq<char>> {
    seq!["-d"@] + debug_argv_spec(query, ep, quality, mode, select_index)
}

/// Builds the argv of a download run (see [`download_argv_spec`]).
pub fn download_argv(query: &str, ep: &str, quality: &str, mode: &str, select_index: usize) -> (r:
    Vec<String>)
    ensures
        strings_view(r@) == download_argv_spec(query@, ep@, quality@, mode@, select_index),
{
    let rest = debug_argv(query, ep, quality, mode, select_index);
    let mut argv: Vec<String> = Vec::new();
    argv.push("-d".to_owned());
    let mut i: usize = 0;
    while i < rest.len()
        invariant
            i <= rest.len(),
            argv@.len() == i + 1,
            argv@[0]@ == "-d"@,
            forall|j: int| 0 <= j < i ==> #[trigger] argv@[j + 1]@ == rest@[j]@,
        decreases rest.len() - i,
    {
        argv.push(rest[i].clone());
        i = i + 1;
    }
    assert forall|k: int| 1 <= k < argv@.len() implies #[trigger] argv@[k]@ == rest@[k - 1]@ by {
        assert(argv@[(k - 1) + 1]@ == rest@[k - 1]@);
    }
    assert(strings_view(argv@) =~= seq!["-d"@] + strings_view(rest@));
    argv
}

/// Name of the variable `ani-cli` reads its download directory from.
pub const DOWNLOAD_DIR_VAR: &'static str = "ANI_CLI_DOWNLOAD_DIR";

/// The environment entry pointing a download run at `download_dir`.
pub fn download_env(download_dir: &str) -> (r: (String, String))
    ensures
        r.0@ == DOWNLOAD_DIR_VAR@,
        r.1@ == download_dir@,
{
    (owned(DOWNLOAD_DIR_VAR), owned(download_dir))
}

/// `PATH` for the spawn: the override, else the inherited value, else
/// [`FALLBACK_PATH`].
pub fn spawn_path_value(path_override: Option<String>, inherited: Option<String>) -> (r: String)
    ensures
        r@ == match path_override {
            Some(p) => p@,
            None => match inherited {
                Some(i) => i@,
                None => FALLBACK_PATH@,
            },
        },
{
    match path_override {
        Some(p) => p,
        None => match inherited {
            Some(i) => i,
            None => owned(FALLBACK_PATH),
        },
    }
}

/// The list the `ani-cli` `PATH` is built from: the override, else the
/// inherited value, else [`FALLBACK_PATH`].
pub open spec fn path_base<'a>(path_override: Option<&'a str>, inherited: Option<&'a str>) -> &'a str {
    match path_override {
        Some(o) => o,
        None => match inherited {
            Some(i) => i,
            None => FALLBACK_PATH,
        },
    }
}

/// The bundled directory, when there is one, ahead of `parts`.
pub open spec fn with_bundled(bundled_bin: Option<&str>, parts: Seq<String>) -> Seq<Seq<char>> {
    match bundled_bin {
        Some(b) => seq![b@] + strings_view(parts),
        None => strings_view(parts),
    }
}

/// `PATH` for an `ani-cli` spawn. The base list (the override, else the
/// inherited value, else [`FALLBACK_PATH`]) is split into directories
/// with the platform's `split_paths`; the bundled directory, when there
/// is one, goes first; the directories are joined back with the
/// platform's `join_paths`. Where joining fails, the base is used as it
/// is.
pub fn compose_anicli_path<S, J>(
    bundled_bin: Option<&str>,
    path_override: Option<&str>,
    inherited: Option<&str>,
    split_paths: S,
    join_paths: J,
) -> (r: String) where S: Fn(&str) -> Vec<String>, J: Fn(Vec<String>) -> Option<String>
    requires
        forall|t: &str| split_paths.requires((t,)),
        forall|v: Vec<String>| join_paths.requires((v,)),
    ensures
        exists|parts: Vec<String>, list: Vec<String>, joined: Option<String>|
            #![trigger split_paths.ensures((path_base(path_override, inherited),), parts), join_paths.ensures((list,), joined)]
            {
                &&& split_paths.ensures((path_base(path_override, inherited),), parts)
                &&& strings_view(list@) == with_bundled(bundled_bin, parts@)
                &&& join_paths.ensures((list,), joined)
                &&& r@ == match joined {
                    Some(j) => j@,
                    None => path_base(path_override, inherited)@,
                }
            },
{
    let base: &str = match path_override {
        Some(o) => o,
        None => match inherited {
            Some(i) => i,
            None => FALLBACK_PATH,
        },
    };
    assert(base == path_base(path_override, inherited));
    let parts = split_paths(base);
    let mut list: Vec<String> = Vec::new();
    match bundled_bin {
        Some(b) => {
            list.push(owned(b));
        },
        None => {},
    }
    let ghost head = strings_view(list@);
    let mut i: usize = 0;
    while i < parts.len()
        invariant
            i <= parts.len(),
            strings_view(list@) == head + strings_view(parts@.subrange(0, i as int)),
        decreases parts.len() - i,
    {
        let ghost before = strings_view(list@);
        list.push(parts[i].clone());
        assert(strings_view(list@) =~= before.push(parts@[i as int]@));
        assert(strings_view(parts@.subrange(0, i + 1)) =~= strings_view(
            parts@.subrange(0, i as int),
        ).push(parts@[i as int]@));
        i = i + 1;
    }
    assert(parts@.subrange(0, i as int) == parts@);
    assert(strings_view(list@) =~= with_bundled(bundled_bin, parts@));
    let ghost sent = list;
    let joined = join_paths(list);
    let r = match joined {
        Some(j) => j,
        None => owned(base),
    };
    assert(split_paths.ensures((path_base(path_override, inherited),), parts));
    assert(join_paths.ensures((sent,), joined));
    r
}

/// The error for a run that exited non-zero: `NoResults` when stderr says
/// "No results found", a scraper error otherwise.
pub fn classify_failure(stderr_text: &str) -> (r: AniError)
    ensures
        contains(stderr_text@, "No results found"@) ==> r matches AniError::NoResults,
        !contains(stderr_text@, "No results found"@) ==> (r matches AniError::Scraper { key }
            && key@ == SCRAPER_PARSE_FAILED@),
{
    if contains_str(stderr_text, "No results found") {
        AniError::NoResults
    } else {
        AniError::Scraper { key: SCRAPER_PARSE_FAILED }
    }
}

} // verus!
