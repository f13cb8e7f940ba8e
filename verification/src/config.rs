//! User settings, their defaults, and the file-system locations the
//! backend uses.

use vstd::prelude::*;

use crate::external_player::ExternalPlayerKind;
use crate::text::{chars_of, concat2, contains, owned, push_char, push_str};

verus! {

broadcast use vstd::string::group_string_axioms;

/// The operating system a default is chosen for.
#[derive(Debug, Clone, Copy, PartialEq, Eq, Structural)]
pub enum HostOs {
    /// Linux and every other Unix.
    Linux,
    /// macOS.
    MacOs,
    /// Windows.
    Windows,
}

/// Default Syncplay binary for an operating system.
pub open spec fn syncplay_default(os: HostOs) -> Seq<char> {
    match os {
        HostOs::MacOs => "/Applications/Syncplay.app/Contents/MacOS/syncplay"@,
        HostOs::Windows => "C:\\Program Files\\Syncplay\\Syncplay.exe"@,
        HostOs::Linux => "syncplay"@,
    }
}

/// Per-OS default for the Syncplay binary: the app bundle on macOS, the
/// installer's path on Windows, the bare command elsewhere.
pub fn default_syncplay_binary(os: HostOs) -> (r: String)
    ensures
        r@ == syncplay_default(os),
{
    match os {
        HostOs::MacOs => owned("/Applications/Syncplay.app/Contents/MacOS/syncplay"),
        HostOs::Windows => owned("C:\\Program Files\\Syncplay\\Syncplay.exe"),
        HostOs::Linux => owned("syncplay"),
    }
}

/// Application configuration.
#[derive(Debug, Clone, PartialEq, Eq)]
pub struct Config {
    /// UI locale (BCP 47).
    pub locale: String,
    /// `"sub"` or `"dub"`.
    pub mode: String,
    /// Quality token: `"best"`, `"worst"`, `"1080"`, etc.
    pub quality: String,
    /// External-player command for the escape hatch.
    pub external_player: String,
    /// Which flag syntax the external player takes.
    pub external_player_kind: ExternalPlayerKind,
    /// Argument template for the custom player kind.
    pub external_player_custom_args: String,
    /// Syncplay binary.
    pub syncplay_binary: String,
    /// Hard cap on the on-disk image cache, in megabytes.
    pub image_cache_cap_mb: u64,
    /// Auto-advance to the next episode at the end of one.
    pub auto_play_next: bool,
    /// Show the download progress strip.
    pub download_bottom_bar_enabled: bool,
    /// Skip openings automatically.
    pub auto_skip_op: bool,
    /// Skip endings automatically.
    pub auto_skip_ed: bool,
    /// Use the custom player controls instead of the native ones.
    pub use_custom_player_controls: bool,
    /// Pause instead of entering Picture-in-Picture when leaving the player.
    pub disable_auto_pip_on_leave: bool,
    /// Run `ani-cli -U` on boot when the script is stale.
    pub auto_update_anicli: bool,
}

/// The defaults: those of upstream `ani-cli` (`en`, `sub`, `best`,
/// `mpv`), a 500 MB image cache, every opt-in toggle off, the download
/// bar and auto-update on, no custom template, and the OS's Syncplay.
pub open spec fn is_default_config(c: Config, os: HostOs) -> bool {
    &&& c.locale@ == "en"@
    &&& c.mode@ == "sub"@
    &&& c.quality@ == "best"@
    &&& c.external_player@ == "mpv"@
    &&& c.external_player_kind == ExternalPlayerKind::Mpv
    &&& c.external_player_custom_args@.len() == 0
    &&& c.syncplay_binary@ == syncplay_default(os)
    &&& c.image_cache_cap_mb == 500
    &&& !c.auto_play_next
    &&& c.download_bottom_bar_enabled
    &&& !c.auto_skip_op
    &&& !c.auto_skip_ed
    &&& !c.use_custom_player_controls
    &&& !c.disable_auto_pip_on_leave
    &&& c.auto_update_anicli
}

impl Config {
    /// The default configuration on `os`.
    pub fn for_host(os: HostOs) -> (r: Self)
        ensures
            is_default_config(r, os),
    {
        Config {
            locale: owned("en"),
            mode: owned("sub"),
            quality: owned("best"),
            external_player: owned("mpv"),
            external_player_kind: ExternalPlayerKind::Mpv,
            external_player_custom_args: String::new(),
            syncplay_binary: default_syncplay_binary(os),
            image_cache_cap_mb: 500,
            auto_play_next: false,
            download_bottom_bar_enabled: true,
            auto_skip_op: false,
            auto_skip_ed: false,
            use_custom_player_controls: false,
            disable_auto_pip_on_leave: false,
            auto_update_anicli: true,
        }
    }

    /// Image-cache cap in bytes (`image_cache_cap_mb` MiB), saturating.
    pub fn image_cache_cap_bytes(&self) -> (r: u64)
        ensures
            r == if self.image_cache_cap_mb * 1048576 <= u64::MAX {
                (self.image_cache_cap_mb * 1048576) as u64
            } else {
                u64::MAX
            },
    {
        if self.image_cache_cap_mb <= u64::MAX / 1048576 {
            self.image_cache_cap_mb * 1048576
        } else {
            u64::MAX
        }
    }
}

// ---------------------------------------------------------------------
// Paths
// ---------------------------------------------------------------------

/// `PathBuf::push` of a relative component on Unix: the component after
/// a `/`, unless the base is empty or already ends with one.
pub open spec fn path_join(base: Seq<char>, comp: Seq<char>) -> Seq<char> {
    if base.len() == 0 {
        comp
    } else if base.last() == '/' {
        base + comp
    } else {
        base + seq!['/'] + comp
    }
}

/// Joins a relative component onto a path (see [`path_join`]).
pub fn join_path(base: &str, comp: &str) -> (r: String)
    ensures
        r@ == path_join(base@, comp@),
{
    let cs = chars_of(base);
    let mut out = owned(base);
    if cs.len() > 0 && cs[cs.len() - 1] != '/' {
        push_char(&mut out, '/');
    }
    push_str(&mut out, comp);
    assert(cs.len() > 0 ==> cs@.last() == cs@[cs.len() - 1]);
    out
}

/// Reverse-DNS qualifier of the application's directories.
pub const QUALIFIER: &'static str = "net";

/// Organization of the application's directories.
pub const ORGANIZATION: &'static str = "thirdmovement";

/// Application name of the application's directories.
pub const APPLICATION: &'static str = "ani-gui";

/// An application name that every platform's directory layout keeps as it
/// is: lower-case ASCII letters, digits and `-`.
pub open spec fn plain_app_name(a: Seq<char>) -> bool {
    forall|i: int|
        0 <= i < a.len() ==> ('a' <= #[trigger] a[i] <= 'z' || '0' <= a[i] <= '9' || a[i] == '-')
}

/// Calls `directories_next::ProjectDirs::from(qualifier, organization,
/// application)` and reads its configuration, cache and data directories
/// (lossily, as strings). Whether there are any, and where they are, comes
/// from the environment (the home directory, the XDG variables, the
/// platform). What the crate's source shows for every platform: each of
/// the three joins a project path onto a base directory, and that project
/// path holds a plain application name unchanged (Linux lower-cases it and
/// drops white space, macOS puts it last in `qualifier.organization.application`,
/// Windows joins it under the organization); so each directory contains it.
#[verifier::external_body]
fn project_dir_paths(qualifier: &str, organization: &str, application: &str) -> (r: Option<
    (String, String, String),
>)
    ensures
        plain_app_name(application@) ==> (r matches Some(t) ==> contains(t.0@, application@)
            && contains(t.1@, application@) && contains(t.2@, application@)),
{
    match directories_next::ProjectDirs::from(qualifier, organization, application) {
        Some(d) => Some(
            (
                d.config_dir().to_string_lossy().into_owned(),
                d.cache_dir().to_string_lossy().into_owned(),
                d.data_dir().to_string_lossy().into_owned(),
            ),
        ),
        None => None,
    }
}

/// `p` is `comp` joined onto a directory that contains the application
/// name.
pub open spec fn in_app_dir(p: Seq<char>, comp: Seq<char>) -> bool {
    exists|d: Seq<char>| contains(d, "ani-gui"@) && p == path_join(d, comp)
}

/// The application's configuration, cache and data directories.
fn app_dirs() -> (r: Option<(String, String, String)>)
    ensures
        r matches Some(t) ==> contains(t.0@, "ani-gui"@) && contains(t.1@, "ani-gui"@) && contains(
            t.2@,
            "ani-gui"@,
        ),
{
    proof {
        reveal_strlit("ani-gui");
    }
    assert(plain_app_name(APPLICATION@));
    project_dir_paths(QUALIFIER, ORGANIZATION, APPLICATION)
}

/// The application's per-user directories, as directories-next reads
/// them from the environment: `(configuration, cache, data)`; none
/// without a home directory. Each contains the application name.
pub fn project_dirs() -> (r: Option<(String, String, String)>)
    ensures
        r matches Some(t) ==> contains(t.0@, "ani-gui"@) && contains(t.1@, "ani-gui"@) && contains(
            t.2@,
            "ani-gui"@,
        ),
{
    app_dirs()
}

/// `config.toml` in the configuration directory of `dirs`
/// (`(configuration, cache, data)`).
pub fn config_file_from(dirs: &(String, String, String)) -> (r: String)
    ensures
        r@ == path_join(dirs.0@, "config.toml"@),
{
    join_path(dirs.0.as_str(), "config.toml")
}

/// The cache directory of `dirs` (`(configuration, cache, data)`).
pub fn cache_dir_from(dirs: &(String, String, String)) -> (r: String)
    ensures
        r@ == dirs.1@,
{
    dirs.1.clone()
}

/// `images` in the cache directory of `dirs`.
pub fn image_cache_dir_from(dirs: &(String, String, String)) -> (r: String)
    ensures
        r@ == path_join(dirs.1@, "images"@),
{
    join_path(dirs.1.as_str(), "images")
}

/// `metadata.sqlite` in the cache directory of `dirs`.
pub fn metadata_db_from(dirs: &(String, String, String)) -> (r: String)
    ensures
        r@ == path_join(dirs.1@, "metadata.sqlite"@),
{
    join_path(dirs.1.as_str(), "metadata.sqlite")
}

/// `logs` in the data directory of `dirs`.
pub fn logs_dir_from(dirs: &(String, String, String)) -> (r: String)
    ensures
        r@ == path_join(dirs.2@, "logs"@),
{
    join_path(dirs.2.as_str(), "logs")
}

/// `config.toml` in the per-user configuration directory (see
/// [`project_dirs`], [`config_file_from`]).
pub fn config_file() -> (r: Option<String>)
    ensures
        r matches Some(p) ==> in_app_dir(p@, "config.toml"@),
{
    match project_dirs() {
        Some(t) => {
            let p = config_file_from(&t);
            assert(contains(t.0@, "ani-gui"@) && p@ == path_join(t.0@, "config.toml"@));
            Some(p)
        },
        None => None,
    }
}

/// The per-user cache directory (`$XDG_CACHE_HOME/ani-gui` or
/// `~/.cache/ani-gui` on Linux; see [`project_dirs`], [`cache_dir_from`]).
/// Whether there is one and which it is come from the environment; it
/// contains the application name.
pub fn cache_dir() -> (r: Option<String>)
    ensures
        r matches Some(p) ==> contains(p@, "ani-gui"@),
{
    match project_dirs() {
        Some(t) => Some(cache_dir_from(&t)),
        None => None,
    }
}

/// `images` under the per-user cache directory (see
/// [`image_cache_dir_from`]).
pub fn image_cache_dir() -> (r: Option<String>)
    ensures
        r matches Some(p) ==> in_app_dir(p@, "images"@),
{
    match project_dirs() {
        Some(t) => {
            let p = image_cache_dir_from(&t);
            assert(contains(t.1@, "ani-gui"@) && p@ == path_join(t.1@, "images"@));
            Some(p)
        },
        None => None,
    }
}

/// `metadata.sqlite` under the per-user cache directory (see
/// [`metadata_db_from`]).
pub fn metadata_db() -> (r: Option<String>)
    ensures
        r matches Some(p) ==> in_app_dir(p@, "metadata.sqlite"@),
{
    match project_dirs() {
        Some(t) => {
            let p = metadata_db_from(&t);
            assert(contains(t.1@, "ani-gui"@) && p@ == path_join(t.1@, "metadata.sqlite"@));
            Some(p)
        },
        None => None,
    }
}

/// `logs` under the per-user data directory (see [`logs_dir_from`]).
pub fn logs_dir() -> (r: Option<String>)
    ensures
        r matches Some(p) ==> in_app_dir(p@, "logs"@),
{
    match project_dirs() {
        Some(t) => {
            let p = logs_dir_from(&t);
            assert(contains(t.2@, "ani-gui"@) && p@ == path_join(t.2@, "logs"@));
            Some(p)
        },
        None => None,
    }
}

/// Where `ani-cli` keeps its history, given `ANI_CLI_HIST_DIR`,
/// `XDG_STATE_HOME` and `HOME`: `<hist dir>/ani-hsts`, else
/// `<state>/ani-cli/ani-hsts`, else `<home>/.local/state/ani-cli/ani-hsts`.
pub open spec fn history_location(
    hist_dir: Option<String>,
    xdg_state_home: Option<String>,
    home: Option<String>,
) -> Option<Seq<char>> {
    match hist_dir {
        Some(d) => Some(path_join(d@, "ani-hsts"@)),
        None => match xdg_state_home {
            Some(s) => Some(path_join(path_join(s@, "ani-cli"@), "ani-hsts"@)),
            None => match home {
                Some(h) => Some(
                    path_join(
                        path_join(path_join(path_join(h@, ".local"@), "state"@), "ani-cli"@),
                        "ani-hsts"@,
                    ),
                ),
                None => None,
            },
        },
    }
}

/// The `ani-hsts` path (see [`history_location`]).
pub fn ani_cli_history(hist_dir: Option<String>, xdg_state_home: Option<String>, home: Option<String>) -> (r:
    Option<String>)
    ensures
        match r {
            Some(p) => history_location(hist_dir, xdg_state_home, home) == Some(p@),
            None => history_location(hist_dir, xdg_state_home, home) is None,
        },
{
    match &hist_dir {
        Some(d) => Some(join_path(d.as_str(), "ani-hsts")),
        None => match &xdg_state_home {
            Some(s) => {
                let a = join_path(s.as_str(), "ani-cli");
                Some(join_path(a.as_str(), "ani-hsts"))
            },
            None => match &home {
                Some(h) => {
                    let a = join_path(h.as_str(), ".local");
                    let b = join_path(a.as_str(), "state");
                    let c = join_path(b.as_str(), "ani-cli");
                    Some(join_path(c.as_str(), "ani-hsts"))
                },
                None => None,
            },
        },
    }
}

/// Where downloads go, given `XDG_DOWNLOAD_DIR` and `HOME`:
/// `<xdg>/ani-gui` when it is set and not empty, else
/// `<home>/Downloads/ani-gui`.
pub open spec fn download_location(xdg_download_dir: Option<String>, home: Option<String>) -> Option<
    Seq<char>,
> {
    match xdg_download_dir {
        Some(x) if x@.len() > 0 => Some(path_join(x@, "ani-gui"@)),
        _ => match home {
            Some(h) => Some(path_join(path_join(h@, "Downloads"@), "ani-gui"@)),
            None => None,
        },
    }
}

/// The download directory (see [`download_location`]).
pub fn download_dir(xdg_download_dir: Option<String>, home: Option<String>) -> (r: Option<String>)
    ensures
        match r {
            Some(p) => download_location(xdg_download_dir, home) == Some(p@),
            None => download_location(xdg_download_dir, home) is None,
        },
{
    if let Some(x) = &xdg_download_dir {
        if x.unicode_len() > 0 {
            return Some(join_path(x.as_str(), "ani-gui"));
        }
    }
    match &home {
        Some(h) => {
            let a = join_path(h.as_str(), "Downloads");
            Some(join_path(a.as_str(), "ani-gui"))
        },
        None => None,
    }
}

} // verus!
