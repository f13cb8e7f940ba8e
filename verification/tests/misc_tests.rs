use ani_gui::allanime::{AvailableEpisodes, Candidate};
use ani_gui::aniskip;
use ani_gui::availability;
use ani_gui::bash::{pick_first_existing, resolve_bash_path, windows_bash_candidate_paths};
use ani_gui::config::{
    ani_cli_history, cache_dir, cache_dir_from, config_file, config_file_from,
    default_syncplay_binary, download_dir, image_cache_dir, image_cache_dir_from, join_path,
    logs_dir, logs_dir_from, metadata_db, metadata_db_from, project_dirs, Config, HostOs,
};
use ani_gui::download::{play_args_view, resolve_dest, split_alt_titles, DownloadArgs};
use ani_gui::error::AniError;
use ani_gui::external_player::ExternalPlayerKind;
use ani_gui::images::{
    canonicalize_for_cache, disk_path, hash_url, sniff_extension, upstream_from_protocol_uri,
};
use ani_gui::kitsu::{
    allmanga_kitsu_key, episodes_cache_key, extract_x_amz_urls, is_real_episode,
    normalize_query, real_episodes, search_cache_key, title_match_key, watched_at_key,
    KitsuEpisode,
};
use ani_gui::play::{
    app_info, history_title, infer_referer, player_window_title, proxy_base_url,
    session_args_from_debug, session_media_url, session_subtitle_url, CreateSessionArgs,
    DebugOutput, MediaKind, PlayArgs, ProxyOrigin,
};
use ani_gui::play_resolution_cache::cache_key;
use ani_gui::play_select::{
    select_first_with_hits, select_first_with_hits_opt, select_first_with_hits_with_candidate,
};
use ani_gui::process::{
    classify_failure, debug_argv, debug_env, download_argv, download_env, find_in_path, is_executable,
    is_executable_windows, locate_ani_cli, sanitize_anicli_query, spawn_path_value, DebugOptions,
};
use ani_gui::ttl::{ANIME_DETAIL_TTL, DISCOVERY_TTL, EPISODES_TTL, TITLE_MATCH_TTL, TRENDING_TTL};
use ani_gui::VERSION;

// --- bash ---------------------------------------------------------------

#[test]
fn pick_first_existing_returns_first_match() {
    let candidates = vec![
        "/no/a".to_string(),
        "/yes/b".to_string(),
        "/yes/c".to_string(),
    ];
    let got = pick_first_existing(&candidates, |p: &String| p.starts_with("/yes"));
    assert_eq!(got, Some("/yes/b".to_string()));
}

#[test]
fn pick_first_existing_returns_none_when_none_exist() {
    let candidates = vec!["/no/a".to_string(), "/no/b".to_string()];
    let got = pick_first_existing(&candidates, |_: &String| false);
    assert!(got.is_none());
}

#[test]
fn pick_first_existing_handles_empty_candidate_list() {
    let got = pick_first_existing(&[], |_: &String| true);
    assert!(got.is_none());
}

#[test]
fn candidate_paths_uses_program_files_when_set() {
    let v = windows_bash_candidate_paths(
        Some(r"D:\Apps".into()),
        Some(r"D:\Apps86".into()),
        Some(r"C:\Users\me".into()),
    );
    assert_eq!(
        v,
        vec![
            r"D:\Apps\Git\bin\bash.exe".to_string(),
            r"D:\Apps86\Git\bin\bash.exe".to_string(),
            r"C:\Users\me\scoop\apps\git\current\bin\bash.exe".to_string(),
        ]
    );
}

#[test]
fn candidate_paths_falls_back_to_literals_when_program_files_missing() {
    let v = windows_bash_candidate_paths(None, None, Some(r"C:\Users\me".into()));
    assert_eq!(
        v,
        vec![
            r"C:\Program Files\Git\bin\bash.exe".to_string(),
            r"C:\Program Files (x86)\Git\bin\bash.exe".to_string(),
            r"C:\Users\me\scoop\apps\git\current\bin\bash.exe".to_string(),
        ]
    );
}

#[test]
fn candidate_paths_omits_scoop_when_userprofile_missing() {
    let v = windows_bash_candidate_paths(None, None, None);
    assert_eq!(
        v,
        vec![
            r"C:\Program Files\Git\bin\bash.exe".to_string(),
            r"C:\Program Files (x86)\Git\bin\bash.exe".to_string(),
        ]
    );
}

#[test]
fn resolve_bash_path_returns_ok_none_on_unix() {
    let got = resolve_bash_path(false, None).expect("no error where no bash is needed");
    assert!(got.is_none(), "Unix expects None, got {got:?}");
}

#[test]
fn resolve_bash_path_reports_missing_bash_where_needed() {
    assert!(matches!(resolve_bash_path(true, None), Err(AniError::BashMissing)));
    assert_eq!(
        resolve_bash_path(true, Some("C:\\bash.exe".into())).unwrap(),
        Some("C:\\bash.exe".to_string())
    );
}

// --- process ------------------------------------------------------------

#[test]
fn sanitize_anicli_query_strips_embedded_double_quotes() {
    let q = r#"Naruto Shippuuden: Shippuu! "Konoha Gakuen" Den"#;
    assert_eq!(
        sanitize_anicli_query(q),
        "Naruto Shippuuden: Shippuu! Konoha Gakuen Den",
    );
}

#[test]
fn sanitize_anicli_query_passes_quote_free_titles_through() {
    assert_eq!(sanitize_anicli_query("One Piece"), "One Piece");
    assert_eq!(sanitize_anicli_query(""), "");
}

#[test]
fn debug_argv_matches_the_ani_cli_contract() {
    assert_eq!(
        debug_argv("A \"B\"", "5", "best", "dub", 0),
        vec!["-S", "1", "-e", "5", "-q", "best", "--dub", "--", "A B"]
    );
    assert_eq!(
        debug_argv("X", "12", "1080", "sub", 37),
        vec!["-S", "37", "-e", "12", "-q", "1080", "--", "X"]
    );
}

#[test]
fn debug_options_new_uses_defaults() {
    let o = DebugOptions::new("/tmp/ani-cli".into());
    assert_eq!(o.ani_cli_path, "/tmp/ani-cli");
    assert!(o.hist_dir.is_none());
    assert_eq!(o.timeout_secs, 60);
    assert!(o.path_override.is_none());
}

#[test]
fn locate_ani_cli_prefers_path_then_existing_fallback() {
    let dirs = vec!["/opt/bin".to_string(), "/usr/bin".to_string(), "/bin".to_string()];
    let only_usr_bin = |c: &String| c == "/usr/bin/ani-cli" || c == "/bin/ani-cli";
    assert_eq!(
        locate_ani_cli(&dirs, only_usr_bin, Some("/x".into()), true).unwrap(),
        "/usr/bin/ani-cli"
    );
    let nothing = |_: &String| false;
    assert_eq!(locate_ani_cli(&dirs, nothing, Some("/x".into()), true).unwrap(), "/x");
    assert!(matches!(
        locate_ani_cli(&dirs, nothing, Some("/x".into()), false),
        Err(AniError::MissingBinary)
    ));
    assert!(matches!(locate_ani_cli(&dirs, nothing, None, true), Err(AniError::MissingBinary)));
}

#[test]
fn locate_ani_cli_with_no_path_and_no_fallback_errors() {
    let everything = |_: &String| true;
    assert!(matches!(locate_ani_cli(&[], everything, None, false), Err(AniError::MissingBinary)));
}

#[test]
fn find_in_path_asks_each_directory_in_order() {
    let dirs = vec!["/a".to_string(), "/b/".to_string(), "/c".to_string()];
    let asked = std::cell::RefCell::new(Vec::new());
    let b_only = |c: &String| {
        asked.borrow_mut().push(c.clone());
        c.starts_with("/b")
    };
    assert_eq!(find_in_path(&dirs, "fzf", b_only), Some("/b/fzf".to_string()));
    assert_eq!(*asked.borrow(), vec!["/a/fzf".to_string(), "/b/fzf".to_string()]);
    assert_eq!(find_in_path(&dirs, "fzf", |_: &String| false), None);
    assert_eq!(find_in_path(&[], "fzf", |_: &String| true), None);
}

#[test]
fn windows_executables_are_exe_or_cmd_files() {
    assert!(is_executable_windows(true, Some("exe")));
    assert!(is_executable_windows(true, Some("CMD")));
    assert!(is_executable_windows(true, Some("ExE")));
    assert!(!is_executable_windows(true, Some("sh")));
    assert!(!is_executable_windows(true, None));
    assert!(!is_executable_windows(false, Some("exe")));
}

#[test]
fn is_executable_needs_a_file_with_an_execute_bit() {
    assert!(is_executable(true, 0o755));
    assert!(is_executable(true, 0o100));
    assert!(!is_executable(true, 0o644));
    assert!(!is_executable(false, 0o755));
}

#[test]
fn spawn_path_and_failure_classification() {
    assert_eq!(spawn_path_value(Some("/a".into()), Some("/b".into())), "/a");
    assert_eq!(spawn_path_value(None, Some("/b".into())), "/b");
    assert_eq!(spawn_path_value(None, None), "/usr/bin:/bin");
    assert!(matches!(classify_failure("x No results found y"), AniError::NoResults));
    match classify_failure("Episode not released") {
        AniError::Scraper { key } => assert_eq!(key, "error.scraper.parse_failed"),
        other => panic!("unexpected {other:?}"),
    }
}

// --- config -------------------------------------------------------------

#[test]
fn defaults_match_ani_cli_defaults() {
    let c = Config::for_host(HostOs::Linux);
    assert_eq!(c.mode, "sub");
    assert_eq!(c.quality, "best");
    assert_eq!(c.external_player, "mpv");
}

#[test]
fn auto_play_next_defaults_to_false() {
    assert!(!Config::for_host(HostOs::Linux).auto_play_next);
}

#[test]
fn auto_skip_defaults_to_false() {
    let c = Config::for_host(HostOs::Linux);
    assert!(!c.auto_skip_op);
    assert!(!c.auto_skip_ed);
}

#[test]
fn external_player_custom_args_defaults_to_empty_string() {
    let c = Config::for_host(HostOs::Linux);
    assert!(c.external_player_custom_args.is_empty());
    assert_eq!(c.external_player_kind, ExternalPlayerKind::Mpv);
    assert_eq!(c.image_cache_cap_mb, 500);
    assert_eq!(c.image_cache_cap_bytes(), 500 * 1024 * 1024);
    assert!(c.auto_update_anicli);
}

#[test]
fn syncplay_binary_default_per_os() {
    assert_eq!(default_syncplay_binary(HostOs::Linux), "syncplay");
    assert_eq!(
        default_syncplay_binary(HostOs::MacOs),
        "/Applications/Syncplay.app/Contents/MacOS/syncplay"
    );
    assert_eq!(
        default_syncplay_binary(HostOs::Windows),
        "C:\\Program Files\\Syncplay\\Syncplay.exe"
    );
    assert_eq!(Config::for_host(HostOs::Linux).syncplay_binary, "syncplay");
}

#[test]
fn project_dir_derived_paths_have_expected_filenames() {
    if let Some(p) = config_file() {
        assert!(p.ends_with("config.toml"), "got {p:?}");
        assert!(p.contains("ani-gui"), "got {p:?}");
    }
    if let Some(p) = cache_dir() {
        assert!(std::path::Path::new(&p).is_absolute(), "cache_dir must be absolute: {p:?}");
        assert!(p.contains("ani-gui"), "cache_dir must name the application: {p:?}");
    }
    if let Some(p) = image_cache_dir() {
        assert!(p.ends_with("images"), "got {p:?}");
    }
    if let Some(p) = metadata_db() {
        assert!(p.ends_with("metadata.sqlite"), "got {p:?}");
    }
    if let Some(p) = logs_dir() {
        assert!(p.ends_with("logs"), "got {p:?}");
    }
}

#[test]
fn join_path_adds_one_separator() {
    assert_eq!(join_path("/a", "b"), "/a/b");
    assert_eq!(join_path("/a/", "b"), "/a/b");
    assert_eq!(join_path("", "b"), "b");
}

#[test]
fn ani_cli_history_honors_override_then_state_then_home() {
    assert_eq!(
        ani_cli_history(Some("/tmp/test-ani-hsts-dir".into()), Some("/s".into()), None).unwrap(),
        "/tmp/test-ani-hsts-dir/ani-hsts"
    );
    assert_eq!(
        ani_cli_history(None, Some("/tmp/test-state".into()), Some("/h".into())).unwrap(),
        "/tmp/test-state/ani-cli/ani-hsts"
    );
    assert_eq!(
        ani_cli_history(None, None, Some("/tmp/test-fake-home".into())).unwrap(),
        "/tmp/test-fake-home/.local/state/ani-cli/ani-hsts"
    );
    assert_eq!(ani_cli_history(None, None, None), None);
}

#[test]
fn download_dir_honors_xdg_then_home() {
    assert_eq!(
        download_dir(Some("/tmp/test-xdg-downloads".into()), None).unwrap(),
        "/tmp/test-xdg-downloads/ani-gui"
    );
    assert_eq!(
        download_dir(Some(String::new()), Some("/tmp/test-fake-home".into())).unwrap(),
        "/tmp/test-fake-home/Downloads/ani-gui"
    );
    assert_eq!(download_dir(None, None), None);
}

// --- error --------------------------------------------------------------

#[test]
fn every_variant_has_a_stable_key() {
    let cases = [
        AniError::Scraper {
            key: "error.scraper.custom_test_key",
        },
        AniError::Timeout,
        AniError::NoResults,
        AniError::ParseFailed { detail: "x".into() },
        AniError::MissingBinary,
        AniError::BashMissing,
        AniError::PlayerSpawnFailed {
            binary: "vlc".into(),
        },
        AniError::SyncplaySpawnFailed {
            binary: "syncplay".into(),
        },
        AniError::Upstream { status: 503 },
        AniError::Network,
        AniError::Cache,
        AniError::Io,
        AniError::Config,
        AniError::Metadata,
        AniError::InvalidToken,
    ];
    for c in cases {
        let k = c.key();
        assert!(
            k.starts_with("error."),
            "every error key starts with 'error.': got {k:?} for {c:?}"
        );
        assert!(!k.is_empty());
    }
}

#[test]
fn bash_missing_and_player_spawn_failed_keys() {
    assert_eq!(AniError::BashMissing.key(), "error.bash.missing");
    assert_eq!(
        AniError::PlayerSpawnFailed { binary: "vlc".into() }.key(),
        "error.player.spawn_failed"
    );
}

#[test]
fn display_messages_match_thiserror_attributes() {
    assert_eq!(AniError::Timeout.message(), "scraper timed out");
    assert_eq!(AniError::NoResults.message(), "no results");
    assert_eq!(AniError::Network.message(), "network error");
    assert_eq!(AniError::Upstream { status: 503 }.message(), "upstream 503");
    assert_eq!(
        AniError::ParseFailed {
            detail: "stdout shape".into()
        }
        .message(),
        "parse failed: stdout shape"
    );
    assert_eq!(
        AniError::SyncplaySpawnFailed { binary: "sp".into() }.message(),
        "syncplay spawn failed: sp"
    );
}

#[test]
fn io_error_maps_to_io_variant() {
    let io_err = std::io::Error::new(std::io::ErrorKind::NotFound, "x");
    let mapped: AniError = io_err.into();
    assert!(matches!(mapped, AniError::Io));
    assert_eq!(mapped.key(), "error.io.generic");
}

#[test]
fn toml_error_maps_to_config_variant() {
    let toml_err: toml::de::Error =
        toml::from_str::<toml::Value>("not = valid = toml").unwrap_err();
    let mapped: AniError = toml_err.into();
    assert!(matches!(mapped, AniError::Config));
    assert_eq!(mapped.key(), "error.config.parse");
}

// --- lib / ttl ----------------------------------------------------------

#[test]
fn version_string_looks_like_semver() {
    let parts: Vec<&str> = VERSION.split('.').collect();
    assert!(
        parts.len() >= 2,
        "CARGO_PKG_VERSION should be semver-shaped: {VERSION}"
    );
}

#[test]
fn ttls_are_strictly_ordered_short_to_long() {
    assert!(TRENDING_TTL < DISCOVERY_TTL);
    assert!(DISCOVERY_TTL < EPISODES_TTL);
    assert!(EPISODES_TTL < ANIME_DETAIL_TTL);
    assert!(ANIME_DETAIL_TTL < TITLE_MATCH_TTL);
}

// --- cache keys ---------------------------------------------------------

#[test]
fn cache_key_includes_mal_and_episode() {
    assert_eq!(aniskip::cache_key(21, "1"), "aniskip:v1:21:1");
    assert_eq!(aniskip::cache_key(59970, "12"), "aniskip:v1:59970:12");
}

#[test]
fn cache_key_is_deterministic_for_the_same_inputs() {
    let a = cache_key("One Piece", "sub", "best", "1");
    let b = cache_key("One Piece", "sub", "best", "1");
    assert_eq!(a, b);
}

#[test]
fn cache_key_differs_across_each_axis() {
    let base = cache_key("One Piece", "sub", "best", "1");
    assert_ne!(cache_key("Naruto", "sub", "best", "1"), base);
    assert_ne!(cache_key("One Piece", "dub", "best", "1"), base);
    assert_ne!(cache_key("One Piece", "sub", "1080", "1"), base);
    assert_ne!(cache_key("One Piece", "sub", "best", "2"), base);
}

#[test]
fn cache_key_includes_schema_version_so_v0_entries_are_unreachable() {
    let k = cache_key("X", "sub", "best", "1");
    assert!(k.starts_with("play:v1:"), "got {k}");
    assert_eq!(k, "play:v1:X:sub:best:1");
}

#[test]
fn availability_cache_key_normalizes_mode() {
    assert_eq!(availability::cache_key("42", "dub"), "availability:42:dub");
    assert_eq!(availability::cache_key("42", "raw"), "availability:42:sub");
    assert!(availability::availability_of(true).available);
}

#[test]
fn normalize_query_collapses_whitespace_and_lowercases() {
    assert_eq!(normalize_query("One Piece"), "one piece");
    assert_eq!(normalize_query("  ONE   PIECE  "), "one piece");
    assert_eq!(normalize_query("\tone\npiece"), "one piece");
}

#[test]
fn kitsu_keys_have_their_prefixes() {
    assert_eq!(search_cache_key("  One   PIECE "), "kitsu:v2:search:one piece");
    assert_eq!(title_match_key("  Frieren ", 2), "title-match:v2:frieren:c2");
    assert_eq!(allmanga_kitsu_key("abc"), "allmanga2kitsu:v1:abc");
    assert_eq!(watched_at_key("abc"), "watched-at:v1:abc");
    assert_eq!(episodes_cache_key("12", 3), "kitsu:episodes:12:p3");
}

// --- kitsu warm ---------------------------------------------------------

#[test]
fn extract_finds_a_single_signed_url_inside_json_quotes() {
    let body = r#"{"posterImage":{"original":"https://kitsu-prod.s3.us-west-002.backblazeb2.com/anime/48069/poster.jpg?X-Amz-Algorithm=AWS4-HMAC-SHA256&X-Amz-Date=20260508T013024Z&X-Amz-Expires=900&X-Amz-Signature=abc123"}}"#;
    let urls = extract_x_amz_urls(body);
    assert_eq!(urls.len(), 1);
    assert!(urls[0].starts_with("https://kitsu-prod.s3.us-west-002.backblazeb2.com/"));
    assert!(urls[0].contains("X-Amz-Signature=abc123"));
}

#[test]
fn extract_returns_empty_when_no_signature_present() {
    let body = r#"{"posterImage":{"large":"https://media.kitsu.app/anime/12/poster.jpg"}}"#;
    assert!(extract_x_amz_urls(body).is_empty());
}

#[test]
fn extract_finds_multiple_signed_urls_and_dedupes() {
    let body = r#"{
        "posterImage":{"original":"https://s3.example/p.jpg?X-Amz-Signature=A"},
        "coverImage":{"original":"https://s3.example/c.jpg?X-Amz-Signature=B"},
        "duplicate":"https://s3.example/p.jpg?X-Amz-Signature=A"
    }"#;
    let urls = extract_x_amz_urls(body);
    assert_eq!(urls.len(), 2);
    assert!(urls[0].contains("p.jpg"));
    assert!(urls[1].contains("c.jpg"));
}

#[test]
fn extract_skips_unquoted_signature_text() {
    let body = "free text X-Amz-Signature=foo end";
    assert!(extract_x_amz_urls(body).is_empty());
}

#[test]
fn extract_only_returns_http_or_https() {
    let body = r#""file:///tmp/x?X-Amz-Signature=oops""#;
    assert!(extract_x_amz_urls(body).is_empty());
}

fn episode(title: Option<&str>, airdate: Option<&str>) -> KitsuEpisode {
    KitsuEpisode {
        id: "1".into(),
        canonical_title: title.map(str::to_string),
        season_number: None,
        number: Some(1),
        relative_number: None,
        length: None,
        synopsis: None,
        airdate: airdate.map(str::to_string),
        thumbnail: None,
    }
}

#[test]
fn placeholder_episodes_are_dropped() {
    assert!(is_real_episode(&episode(Some("Ep"), None)));
    assert!(is_real_episode(&episode(None, Some("2020-01-01"))));
    assert!(!is_real_episode(&episode(Some("  "), Some(""))));
    assert!(!is_real_episode(&episode(None, None)));
    let kept = real_episodes(vec![
        episode(Some("a"), None),
        episode(None, None),
        episode(None, Some("2021-02-03")),
    ]);
    assert_eq!(kept.len(), 2);
    assert_eq!(kept[1].airdate.as_deref(), Some("2021-02-03"));
}

// --- play -----------------------------------------------------------------

#[test]
fn debug_output_with_referer_and_subtitle_maps_to_session_args() {
    let debug = DebugOutput {
        selected_url: "https://wixmp.example/video.mp4".into(),
        all_links: vec![],
        referer: Some("https://allmanga.to".into()),
        subtitle_url: Some("https://wixmp.example/subs.vtt".into()),
    };
    let session_args = CreateSessionArgs {
        upstream_url: debug.selected_url.clone(),
        referer: debug.referer.clone().unwrap_or_default(),
        subtitle_url: debug.subtitle_url.clone(),
    };
    assert_eq!(session_args.upstream_url, "https://wixmp.example/video.mp4");
    assert_eq!(session_args.referer, "https://allmanga.to");
    assert_eq!(
        session_args.subtitle_url.as_deref(),
        Some("https://wixmp.example/subs.vtt")
    );
    let mapped = session_args_from_debug(&debug);
    assert_eq!(mapped.upstream_url, session_args.upstream_url);
    assert_eq!(mapped.referer, session_args.referer);
    assert_eq!(mapped.subtitle_url, session_args.subtitle_url);
}

#[test]
fn debug_output_without_referer_maps_to_empty_referer_string() {
    let debug = DebugOutput {
        selected_url: "https://x/y.mp4".into(),
        all_links: vec![],
        referer: None,
        subtitle_url: None,
    };
    let mapped = session_args_from_debug(&debug);
    let session_args = CreateSessionArgs {
        upstream_url: debug.selected_url,
        referer: debug.referer.unwrap_or_default(),
        subtitle_url: debug.subtitle_url,
    };
    assert_eq!(session_args.referer, "");
    assert!(session_args.subtitle_url.is_none());
    assert_eq!(mapped.referer, "");
    assert!(mapped.subtitle_url.is_none());
}

#[test]
fn play_args_quality_defaults_to_best() {
    let args = PlayArgs {
        title: "test".into(),
        episode: "1".into(),
        mode: "sub".into(),
        quality: None,
        episode_count: None,
        alt_titles: vec![],
        prefetch: false,
        kitsu_id: None,
    };
    assert_eq!(args.quality.as_deref().unwrap_or("best"), "best");
    assert_eq!(args.quality_or_best(), "best");
}

fn debug(selected_url: &str, referer: Option<&str>) -> DebugOutput {
    DebugOutput {
        selected_url: selected_url.into(),
        all_links: vec![],
        referer: referer.map(str::to_string),
        subtitle_url: None,
    }
}

#[test]
fn infer_referer_trusts_explicit_value_from_ani_cli() {
    let got = infer_referer(&debug("https://example.com/v.mp4", Some("https://example.com")));
    assert_eq!(got, Some("https://example.com".to_string()));
}

#[test]
fn infer_referer_falls_back_to_allmanga_for_fast4speed() {
    let got = infer_referer(&debug("https://tools.fast4speed.rsvp/v.mp4", None));
    assert_eq!(got, Some("https://allmanga.to".to_string()));
}

#[test]
fn infer_referer_handles_empty_string_as_missing() {
    let got = infer_referer(&debug("https://tools.fast4speed.rsvp/v.mp4", Some("")));
    assert_eq!(got, Some("https://allmanga.to".to_string()));
    assert_eq!(infer_referer(&debug("https://cdn.example/v.mp4", None)), None);
    assert_eq!(infer_referer(&debug("not a url", None)), None);
}

#[test]
fn proxy_urls_and_titles() {
    let o = ProxyOrigin::new("127.0.0.1", 40_000);
    assert_eq!(proxy_base_url(&o), "http://127.0.0.1:40000");
    assert_eq!(
        session_media_url(&o, "abc", MediaKind::Hls),
        "http://127.0.0.1:40000/s/abc/master.m3u8"
    );
    assert_eq!(
        session_media_url(&o, "abc", MediaKind::Mp4),
        "http://127.0.0.1:40000/s/abc/file.mp4"
    );
    assert_eq!(session_subtitle_url(&o, "abc"), "http://127.0.0.1:40000/s/abc/sub.vtt");
    let info = app_info("/usr/local/bin/ani-cli", "/home/u/h", &ProxyOrigin::new("127.0.0.1", 42_337));
    assert_eq!(info.version, VERSION);
    assert_eq!(info.proxy_base_url, "http://127.0.0.1:42337");
    assert_eq!(player_window_title("Show", "3"), "Show · ep 3");
    let c = Candidate {
        id: "x".into(),
        name: "One Piece".into(),
        available_episodes: AvailableEpisodes { sub: 1100, dub: 2 },
    };
    assert_eq!(history_title(&c, "sub"), "One Piece (1100 episodes)");
    assert_eq!(history_title(&c, "dub"), "One Piece (2 episodes)");
}

// --- play_select ----------------------------------------------------------

fn cand(id: &str, name: &str, sub_eps: u32) -> Candidate {
    Candidate {
        id: id.into(),
        name: name.into(),
        available_episodes: AvailableEpisodes {
            sub: sub_eps,
            dub: 0,
        },
    }
}

#[test]
fn select_first_with_hits_walks_alt_titles_when_episode_count_unknown() {
    let results = vec![
        ("JoJo's Bizarre Adventure: Stone Ocean".into(), vec![]),
        (
            "Jojo no Kimyou na Bouken Part 6: Stone Ocean".into(),
            vec![cand("a1", "Stone Ocean", 12)],
        ),
    ];
    let (title, idx) = select_first_with_hits_opt(
        "JoJo's Bizarre Adventure: Stone Ocean",
        &results,
        None,
        "sub",
    );
    assert_eq!(title, "Jojo no Kimyou na Bouken Part 6: Stone Ocean");
    assert_eq!(idx, 1, "first hit when no ep_count to compare");
}

#[test]
fn select_first_with_hits_returns_primary_when_every_list_is_empty() {
    let results: Vec<(String, Vec<Candidate>)> =
        vec![("primary".into(), vec![]), ("alt1".into(), vec![])];
    let (title, idx) = select_first_with_hits("primary", &results, 38, "sub");
    assert_eq!(title, "primary");
    assert_eq!(idx, 1);
}

#[test]
fn select_first_with_hits_uses_first_non_empty_list() {
    let results = vec![
        ("primary".into(), vec![cand("p1", "Primary Show", 38)]),
        ("alt1".into(), vec![cand("a1", "Alt Show", 12)]),
    ];
    let (title, idx) = select_first_with_hits("primary", &results, 38, "sub");
    assert_eq!(title, "primary");
    assert_eq!(idx, 1, "single-candidate list always picks index 1");
}

#[test]
fn select_first_with_hits_skips_empty_primary_to_alt_with_hits() {
    let results = vec![
        ("JoJo's Bizarre Adventure: Stone Ocean".into(), vec![]),
        (
            "Jojo no Kimyou na Bouken Part 6: Stone Ocean".into(),
            vec![
                cand("a1", "Stone Ocean main", 38),
                cand("a2", "side story", 1),
            ],
        ),
    ];
    let (title, idx) =
        select_first_with_hits("JoJo's Bizarre Adventure: Stone Ocean", &results, 38, "sub");
    assert_eq!(title, "Jojo no Kimyou na Bouken Part 6: Stone Ocean");
    assert_eq!(idx, 1);
}

#[test]
fn select_first_with_hits_picks_by_ep_count_within_chosen_list() {
    let results = vec![(
        "Naruto: Shippuden".into(),
        vec![
            cand("a1", "side story", 1),
            cand("a2", "main shippuden", 500),
        ],
    )];
    let (title, idx) = select_first_with_hits("Naruto: Shippuden", &results, 500, "sub");
    assert_eq!(title, "Naruto: Shippuden");
    assert_eq!(idx, 2);
}

#[test]
fn select_with_candidate_returns_the_chosen_row() {
    let results = vec![(
        "t".into(),
        vec![cand("a1", "side", 1), cand("a2", "main", 500)],
    )];
    let (_, idx, c) = select_first_with_hits_with_candidate("t", &results, Some(490), "sub");
    assert_eq!(idx, 2);
    assert_eq!(c.unwrap().id, "a2");
    let (_, _, none) = select_first_with_hits_with_candidate("t", &[], Some(1), "sub");
    assert!(none.is_none());
}

// --- images -----------------------------------------------------------------

#[test]
fn hash_url_is_deterministic_and_32_hex() {
    let h = hash_url("https://media.kitsu.app/anime/12/poster.jpg");
    assert_eq!(h.len(), 32);
    assert!(h.chars().all(|c| c.is_ascii_hexdigit()));
    assert_eq!(h, hash_url("https://media.kitsu.app/anime/12/poster.jpg"));
    assert_ne!(h, hash_url("https://media.kitsu.app/anime/13/poster.jpg"));
}

#[test]
fn hash_url_matches_sha256_prefix_of_canonical_form() {
    // SHA-256("abc") starts with ba7816bf8f01cfea414140de5dae2223.
    assert_eq!(hash_url("abc"), "ba7816bf8f01cfea414140de5dae2223");
}

#[test]
fn hash_url_ignores_rotating_signature_params() {
    let a = hash_url("https://s3.example/p.jpg?X-Amz-Signature=A&X-Amz-Date=1&v=2");
    let b = hash_url("https://s3.example/p.jpg?x-amz-signature=B&v=2");
    assert_eq!(a, b);
    assert_eq!(a, hash_url("https://s3.example/p.jpg?v=2"));
}

#[test]
fn canonicalize_for_cache_drops_only_amz_params() {
    assert_eq!(canonicalize_for_cache("https://x/a.jpg"), "https://x/a.jpg");
    assert_eq!(
        canonicalize_for_cache("https://x/a.jpg?X-Amz-Date=1&X-Amz-Signature=2"),
        "https://x/a.jpg"
    );
    assert_eq!(
        canonicalize_for_cache("https://x/a.jpg?a=1&X-Amz-Date=1&b=2"),
        "https://x/a.jpg?a=1&b=2"
    );
    assert_eq!(canonicalize_for_cache("https://x/a.jpg?"), "https://x/a.jpg?");
    assert_eq!(canonicalize_for_cache("https://x/a?b?c"), "https://x/a?b?c");
}

#[test]
fn disk_path_buckets_by_hash_prefix() {
    assert_eq!(
        disk_path("/cache", "abcdef", "jpg"),
        "/cache/ab/abcdef.jpg"
    );
    assert_eq!(disk_path("/cache", "éabc", "png"), "/cache/é/éabc.png");
    assert_eq!(disk_path("/cache/", "ab", "bin"), "/cache/ab/ab.bin");
}

#[test]
fn sniff_extension_by_url_text() {
    assert_eq!(sniff_extension("https://x/a.JPG"), ("image/jpeg", "jpg"));
    assert_eq!(sniff_extension("https://x/a.jpeg?x=1"), ("image/jpeg", "jpg"));
    assert_eq!(sniff_extension("https://x/a.png"), ("image/png", "png"));
    assert_eq!(sniff_extension("https://x/a.webp"), ("image/webp", "webp"));
    assert_eq!(sniff_extension("https://x/a.gif"), ("image/gif", "gif"));
    assert_eq!(sniff_extension("https://x/a.svg"), ("image/svg+xml", "svg"));
    assert_eq!(
        sniff_extension("https://x/a"),
        ("application/octet-stream", "bin")
    );
}

#[test]
fn upstream_from_protocol_uri_rebuilds_https_url() {
    assert_eq!(
        upstream_from_protocol_uri("image://media.kitsu.app/anime/12/poster.jpg?x=1").unwrap(),
        "https://media.kitsu.app/anime/12/poster.jpg?x=1"
    );
    assert_eq!(
        upstream_from_protocol_uri("image://media.kitsu.app/p.jpg").unwrap(),
        "https://media.kitsu.app/p.jpg"
    );
    match upstream_from_protocol_uri("https://media.kitsu.app/p.jpg") {
        Err(AniError::ParseFailed { detail }) => {
            assert_eq!(detail, "expected image:// scheme, got https://")
        }
        other => panic!("unexpected {other:?}"),
    }
    assert!(matches!(
        upstream_from_protocol_uri("not a uri"),
        Err(AniError::ParseFailed { .. })
    ));
}

// --- download ---------------------------------------------------------------

fn dl_args(dir: Option<&str>) -> DownloadArgs {
    DownloadArgs {
        title: "x".into(),
        episode: "1".into(),
        mode: "sub".into(),
        quality: None,
        episode_count: None,
        alt_titles: vec![],
        kitsu_id: None,
        download_dir: dir.map(str::to_string),
    }
}

#[test]
fn resolve_dest_prefers_explicit_args_over_paths_helper() {
    let a = dl_args(Some("/tmp/explicit"));
    let p = resolve_dest(&a, Some("/home/u/Downloads/ani-gui".into())).expect("ok");
    assert_eq!(p, "/tmp/explicit");
}

#[test]
fn resolve_dest_falls_back_to_default_dir() {
    assert_eq!(resolve_dest(&dl_args(Some("")), Some("/d".into())).unwrap(), "/d");
    assert!(matches!(resolve_dest(&dl_args(None), None), Err(AniError::Config)));
}

#[test]
fn download_args_view_and_alt_title_splitting() {
    let mut a = dl_args(None);
    a.alt_titles = vec!["b".into()];
    let v = play_args_view(&a);
    assert_eq!(v.title, "x");
    assert_eq!(v.alt_titles, vec!["b".to_string()]);
    assert!(!v.prefetch);
    assert_eq!(
        split_alt_titles("a\nb\nc"),
        vec!["a".to_string(), "b".to_string(), "c".to_string()]
    );
    assert_eq!(split_alt_titles("\na\n\n"), vec!["a".to_string()]);
    assert!(split_alt_titles("").is_empty());
}

#[test]
fn spawn_download_passes_d_flag_and_episode_query_quality() {
    let argv = download_argv("Naruto Shippuuden", "5", "1080", "sub", 1);
    assert!(argv.iter().any(|a| a == "-d"), "argv: {argv:?}");
    assert!(argv.windows(2).any(|w| w == ["-e", "5"]), "argv missing -e 5: {argv:?}");
    assert!(argv.windows(2).any(|w| w == ["-q", "1080"]), "argv missing -q 1080: {argv:?}");
    assert!(argv.iter().any(|a| a == "Naruto Shippuuden"), "argv missing query token: {argv:?}");
    assert_eq!(
        argv,
        vec!["-d", "-S", "1", "-e", "5", "-q", "1080", "--", "Naruto Shippuuden"]
    );
}

#[test]
fn spawn_download_includes_dub_flag_when_mode_dub() {
    let argv = download_argv("any", "1", "best", "dub", 1);
    assert!(argv.iter().any(|a| a == "--dub"), "argv missing --dub: {argv:?}");
    assert!(!download_argv("any", "1", "best", "sub", 1).iter().any(|a| a == "--dub"));
}

#[test]
fn spawn_download_sets_ani_cli_download_dir_env() {
    let (name, value) = download_env("/home/u/Downloads/ani-gui");
    assert_eq!(name, "ANI_CLI_DOWNLOAD_DIR");
    assert_eq!(value, "/home/u/Downloads/ani-gui", "expected ANI_CLI_DOWNLOAD_DIR to point at the chosen dir");
}

#[test]
fn stripping_presigning_twice_changes_nothing() {
    for u in [
        "https://s3.example/p.jpg?X-Amz-Date=1&w=200&x-amz-signature=ff&h=3",
        "https://s3.example/p.jpg?X-Amz-Date=1",
        "https://s3.example/p.jpg",
        "https://s3.example/p.jpg?&&w=1",
    ] {
        let once = canonicalize_for_cache(u);
        assert_eq!(canonicalize_for_cache(&once), once);
        assert_eq!(hash_url(&once), hash_url(u));
    }
}

#[test]
fn per_user_paths_come_from_the_right_directory() {
    let dirs = (
        "/home/u/.config/ani-gui".to_string(),
        "/home/u/.cache/ani-gui".to_string(),
        "/home/u/.local/share/ani-gui".to_string(),
    );
    assert_eq!(config_file_from(&dirs), "/home/u/.config/ani-gui/config.toml");
    assert_eq!(cache_dir_from(&dirs), "/home/u/.cache/ani-gui");
    assert_eq!(image_cache_dir_from(&dirs), "/home/u/.cache/ani-gui/images");
    assert_eq!(metadata_db_from(&dirs), "/home/u/.cache/ani-gui/metadata.sqlite");
    assert_eq!(logs_dir_from(&dirs), "/home/u/.local/share/ani-gui/logs");
    if let Some(d) = project_dirs() {
        assert_eq!(config_file(), Some(config_file_from(&d)));
        assert_eq!(cache_dir(), Some(cache_dir_from(&d)));
        assert_eq!(logs_dir(), Some(logs_dir_from(&d)));
    }
}

fn env_pairs(v: &[(String, String)]) -> Vec<(&str, &str)> {
    v.iter().map(|(a, b)| (a.as_str(), b.as_str())).collect()
}

#[test]
fn debug_env_sets_path_terminal_player_and_history() {
    let mut opts = DebugOptions::new("/opt/ani-cli".into());
    let env = debug_env(&opts, Some("/usr/local/bin:/usr/bin".into()), Some("/home/u".into()), None);
    assert_eq!(
        env_pairs(&env),
        vec![
            ("PATH", "/usr/local/bin:/usr/bin"),
            ("HOME", "/home/u"),
            ("TERM", "dumb"),
            ("NO_COLOR", "1"),
            ("ANI_CLI_PLAYER", "debug"),
        ]
    );
    opts.path_override = Some("/shim".into());
    opts.hist_dir = Some("/tmp/prefetch".into());
    let env = debug_env(&opts, Some("/usr/bin".into()), None, Some("/inherited".into()));
    assert_eq!(
        env_pairs(&env),
        vec![
            ("PATH", "/shim"),
            ("TERM", "dumb"),
            ("NO_COLOR", "1"),
            ("ANI_CLI_PLAYER", "debug"),
            ("ANI_CLI_HIST_DIR", "/tmp/prefetch"),
        ]
    );
    opts.path_override = None;
    opts.hist_dir = None;
    let env = debug_env(&opts, None, None, Some("/inherited".into()));
    assert_eq!(env[0], ("PATH".to_string(), "/usr/bin:/bin".to_string()));
    assert_eq!(env.last().unwrap(), &("ANI_CLI_HIST_DIR".to_string(), "/inherited".to_string()));
}
