use ani_gui::external_player::{
    build_argv, launch_precheck, substitute_token, ExternalPlayerKind, LaunchArgs,
};
use ani_gui::syncplay::{self, SyncplayLaunchArgs};
use ani_gui::AniError;

fn args(stream: &str) -> LaunchArgs {
    LaunchArgs {
        stream_url: stream.into(),
        referer: None,
        subtitle_url: None,
        title: None,
        player_command: "mpv".into(),
        player_kind: ExternalPlayerKind::Mpv,
        custom_args_template: None,
    }
}

#[test]
fn argv_with_only_stream_is_a_single_arg() {
    let v = build_argv(&args("https://example.com/v.mp4"));
    assert_eq!(v, vec!["https://example.com/v.mp4".to_string()]);
}

#[test]
fn argv_includes_force_media_title_when_present() {
    let mut a = args("https://example.com/v.mp4");
    a.title = Some("Test Anime Episode 1".into());
    let v = build_argv(&a);
    assert_eq!(
        v,
        vec![
            "--force-media-title=Test Anime Episode 1".to_string(),
            "https://example.com/v.mp4".to_string(),
        ]
    );
}

#[test]
fn argv_emits_sub_file_and_referer_in_the_same_order_as_ani_cli() {
    let mut a = args("https://example.com/master.m3u8");
    a.title = Some("T".into());
    a.subtitle_url = Some("https://example.com/sub.vtt".into());
    a.referer = Some("https://allmanga.to".into());
    let v = build_argv(&a);
    assert_eq!(
        v,
        vec![
            "--force-media-title=T".to_string(),
            "--sub-file=https://example.com/sub.vtt".to_string(),
            "--referrer=https://allmanga.to".to_string(),
            "https://example.com/master.m3u8".to_string(),
        ]
    );
}

#[test]
fn argv_for_vlc_uses_vlc_flag_syntax() {
    let mut a = args("https://example.com/master.m3u8");
    a.player_kind = ExternalPlayerKind::Vlc;
    a.title = Some("T".into());
    a.subtitle_url = Some("https://example.com/sub.vtt".into());
    a.referer = Some("https://allmanga.to".into());
    let v = build_argv(&a);
    assert_eq!(
        v,
        vec![
            "--meta-title=T".to_string(),
            "--sub-file=https://example.com/sub.vtt".to_string(),
            "--http-referrer=https://allmanga.to".to_string(),
            "https://example.com/master.m3u8".to_string(),
        ]
    );
}

#[test]
fn argv_for_iina_uses_mpv_prefixed_flags() {
    let mut a = args("https://example.com/v.mp4");
    a.player_kind = ExternalPlayerKind::Iina;
    a.title = Some("T".into());
    a.subtitle_url = Some("https://example.com/sub.vtt".into());
    a.referer = Some("https://allmanga.to".into());
    let v = build_argv(&a);
    assert_eq!(
        v,
        vec![
            "--mpv-force-media-title=T".to_string(),
            "--sub-file=https://example.com/sub.vtt".to_string(),
            "--mpv-referrer=https://allmanga.to".to_string(),
            "https://example.com/v.mp4".to_string(),
        ]
    );
}

#[test]
fn argv_for_custom_kind_substitutes_placeholders() {
    let mut a = args("https://example.com/v.mp4");
    a.player_kind = ExternalPlayerKind::Custom;
    a.title = Some("My Show".into());
    a.subtitle_url = Some("https://example.com/sub.vtt".into());
    a.referer = Some("https://allmanga.to".into());
    a.custom_args_template = Some("--ref={referer} --title={title} --sub={sub} {url}".into());
    let v = build_argv(&a);
    assert_eq!(
        v,
        vec![
            "--ref=https://allmanga.to".to_string(),
            "--title=My Show".to_string(),
            "--sub=https://example.com/sub.vtt".to_string(),
            "https://example.com/v.mp4".to_string(),
        ]
    );
}

#[test]
fn argv_for_custom_drops_tokens_with_missing_placeholders() {
    let mut a = args("https://example.com/v.mp4");
    a.player_kind = ExternalPlayerKind::Custom;
    a.referer = Some("https://allmanga.to".into());
    a.custom_args_template = Some("--ref={referer} --title={title} --sub={sub} {url}".into());
    let v = build_argv(&a);
    assert_eq!(
        v,
        vec![
            "--ref=https://allmanga.to".to_string(),
            "https://example.com/v.mp4".to_string(),
        ]
    );
}

#[test]
fn argv_for_custom_with_empty_template_falls_back_to_url_only() {
    let mut a = args("https://example.com/v.mp4");
    a.player_kind = ExternalPlayerKind::Custom;
    a.custom_args_template = None;
    let v = build_argv(&a);
    assert_eq!(v, vec!["https://example.com/v.mp4".to_string()]);
}

#[test]
fn argv_for_custom_with_blank_or_badly_quoted_template_is_url_only() {
    let mut a = args("https://example.com/v.mp4");
    a.player_kind = ExternalPlayerKind::Custom;
    a.custom_args_template = Some("   ".into());
    assert_eq!(build_argv(&a), vec!["https://example.com/v.mp4".to_string()]);
    a.custom_args_template = Some("--title=\"unterminated {title}".into());
    assert_eq!(build_argv(&a), vec!["https://example.com/v.mp4".to_string()]);
}

#[test]
fn argv_for_custom_splits_shell_quotes() {
    let mut a = args("u");
    a.player_kind = ExternalPlayerKind::Custom;
    a.title = Some("A B".into());
    a.custom_args_template = Some("'--title={title}' \"x y\" {url}".into());
    assert_eq!(
        build_argv(&a),
        vec!["--title=A B".to_string(), "x y".to_string(), "u".to_string()]
    );
}

#[test]
fn substitute_token_keeps_unknown_and_unterminated_placeholders() {
    assert_eq!(
        substitute_token("{foo}-{url}", "U", "", "", ""),
        Some("{foo}-U".to_string())
    );
    assert_eq!(
        substitute_token("a{url", "U", "", "", ""),
        Some("a{url".to_string())
    );
    assert_eq!(substitute_token("{title}{url}", "U", "", "", ""), None);
    assert_eq!(
        substitute_token("{sub}|{referer}", "U", "R", "T", "S"),
        Some("S|R".to_string())
    );
    assert_eq!(substitute_token("", "U", "", "", ""), Some(String::new()));
}

#[test]
fn launch_precheck_rejects_blank_player_command() {
    let mut a = args("https://example.com/v.mp4");
    a.player_command = String::new();
    assert!(matches!(launch_precheck(&a), Err(AniError::MissingBinary)));
    a.player_command = " \t".into();
    assert!(matches!(launch_precheck(&a), Err(AniError::MissingBinary)));
    a.player_command = "mpv".into();
    assert_eq!(
        launch_precheck(&a).unwrap(),
        vec!["https://example.com/v.mp4".to_string()]
    );
}

fn sargs(stream: &str, binary: &str) -> SyncplayLaunchArgs {
    SyncplayLaunchArgs {
        stream_url: stream.into(),
        binary: binary.into(),
        referer: None,
        subtitle_url: None,
        player_kind: ExternalPlayerKind::Mpv,
        player_binary: String::new(),
    }
}

#[test]
fn argv_emits_player_path_before_stream_when_set() {
    let mut a = sargs("https://example.com/master.m3u8", "syncplay");
    a.player_binary = "/usr/bin/vlc".into();
    a.player_kind = ExternalPlayerKind::Vlc;
    let v = syncplay::build_argv(&a);
    assert_eq!(
        v,
        vec![
            "--player-path=/usr/bin/vlc".to_string(),
            "https://example.com/master.m3u8".to_string(),
        ]
    );
}

#[test]
fn argv_emits_player_path_alongside_post_separator_flags() {
    let mut a = sargs("https://example.com/master.m3u8", "syncplay");
    a.player_binary = "/usr/bin/vlc".into();
    a.player_kind = ExternalPlayerKind::Vlc;
    a.referer = Some("https://allmanga.to".into());
    let v = syncplay::build_argv(&a);
    assert_eq!(
        v,
        vec![
            "--player-path=/usr/bin/vlc".to_string(),
            "https://example.com/master.m3u8".to_string(),
            "--".to_string(),
            "--http-referrer=https://allmanga.to".to_string(),
        ]
    );
}

#[test]
fn argv_omits_player_path_when_player_binary_empty() {
    let mut a = sargs("https://example.com/v.mp4", "syncplay");
    a.player_binary = String::new();
    let v = syncplay::build_argv(&a);
    assert_eq!(v, vec!["https://example.com/v.mp4".to_string()]);
}

#[test]
fn argv_emits_player_path_for_bare_command_names() {
    for bare in ["mpv", "vlc", "iina"] {
        let mut a = sargs("https://example.com/v.mp4", "syncplay");
        a.player_binary = bare.into();
        let v = syncplay::build_argv(&a);
        assert_eq!(
            v,
            vec![
                format!("--player-path={bare}"),
                "https://example.com/v.mp4".to_string(),
            ],
            "bare command {bare:?} must still pin via --player-path",
        );
    }
}

#[test]
fn argv_emits_player_path_for_relative_path_with_separator() {
    let mut a = sargs("https://example.com/v.mp4", "syncplay");
    a.player_binary = "./vendor/mpv".into();
    let v = syncplay::build_argv(&a);
    assert_eq!(
        v,
        vec![
            "--player-path=./vendor/mpv".to_string(),
            "https://example.com/v.mp4".to_string(),
        ]
    );
}

#[test]
fn argv_emits_player_path_for_windows_style_path() {
    let mut a = sargs("https://example.com/v.mp4", "syncplay");
    a.player_binary = r"C:\Program Files\mpv\mpv.exe".into();
    let v = syncplay::build_argv(&a);
    assert_eq!(
        v,
        vec![
            r"--player-path=C:\Program Files\mpv\mpv.exe".to_string(),
            "https://example.com/v.mp4".to_string(),
        ]
    );
}

#[test]
fn argv_with_no_referer_is_just_the_url() {
    let v = syncplay::build_argv(&sargs("https://example.com/master.m3u8", "syncplay"));
    assert_eq!(v, vec!["https://example.com/master.m3u8".to_string()]);
}

#[test]
fn argv_forwards_referer_after_separator() {
    let mut a = sargs("https://example.com/master.m3u8", "syncplay");
    a.referer = Some("https://allmanga.to".into());
    let v = syncplay::build_argv(&a);
    assert_eq!(
        v,
        vec![
            "https://example.com/master.m3u8".to_string(),
            "--".to_string(),
            "--referrer=https://allmanga.to".to_string(),
        ]
    );
}

#[test]
fn argv_drops_empty_referer() {
    let mut a = sargs("https://example.com/v.mp4", "syncplay");
    a.referer = Some(String::new());
    let v = syncplay::build_argv(&a);
    assert_eq!(v, vec!["https://example.com/v.mp4".to_string()]);
}

#[test]
fn argv_forwards_subtitle_after_separator() {
    let mut a = sargs("https://example.com/master.m3u8", "syncplay");
    a.subtitle_url = Some("https://example.com/subs.vtt".into());
    let v = syncplay::build_argv(&a);
    assert_eq!(
        v,
        vec![
            "https://example.com/master.m3u8".to_string(),
            "--".to_string(),
            "--sub-file=https://example.com/subs.vtt".to_string(),
        ]
    );
}

#[test]
fn argv_forwards_referer_and_subtitle_together() {
    let mut a = sargs("https://example.com/master.m3u8", "syncplay");
    a.referer = Some("https://allmanga.to".into());
    a.subtitle_url = Some("https://example.com/subs.vtt".into());
    let v = syncplay::build_argv(&a);
    assert_eq!(
        v,
        vec![
            "https://example.com/master.m3u8".to_string(),
            "--".to_string(),
            "--referrer=https://allmanga.to".to_string(),
            "--sub-file=https://example.com/subs.vtt".to_string(),
        ]
    );
}

#[test]
fn argv_drops_empty_subtitle() {
    let mut a = sargs("https://example.com/v.mp4", "syncplay");
    a.subtitle_url = Some(String::new());
    let v = syncplay::build_argv(&a);
    assert_eq!(v, vec!["https://example.com/v.mp4".to_string()]);
}

#[test]
fn argv_for_vlc_uses_http_referrer() {
    let mut a = sargs("https://example.com/v.mp4", "syncplay");
    a.player_kind = ExternalPlayerKind::Vlc;
    a.referer = Some("https://allmanga.to".into());
    a.subtitle_url = Some("https://example.com/subs.vtt".into());
    let v = syncplay::build_argv(&a);
    assert_eq!(
        v,
        vec![
            "https://example.com/v.mp4".to_string(),
            "--".to_string(),
            "--http-referrer=https://allmanga.to".to_string(),
            "--sub-file=https://example.com/subs.vtt".to_string(),
        ]
    );
}

#[test]
fn argv_for_iina_uses_mpv_prefixed_referrer() {
    let mut a = sargs("https://example.com/v.mp4", "syncplay");
    a.player_kind = ExternalPlayerKind::Iina;
    a.referer = Some("https://allmanga.to".into());
    a.subtitle_url = Some("https://example.com/subs.vtt".into());
    let v = syncplay::build_argv(&a);
    assert_eq!(
        v,
        vec![
            "https://example.com/v.mp4".to_string(),
            "--".to_string(),
            "--mpv-referrer=https://allmanga.to".to_string(),
            "--sub-file=https://example.com/subs.vtt".to_string(),
        ]
    );
}

#[test]
fn argv_for_custom_emits_no_player_specific_flags() {
    let mut a = sargs("https://example.com/v.mp4", "syncplay");
    a.player_kind = ExternalPlayerKind::Custom;
    a.referer = Some("https://allmanga.to".into());
    a.subtitle_url = Some("https://example.com/subs.vtt".into());
    let v = syncplay::build_argv(&a);
    assert_eq!(v, vec!["https://example.com/v.mp4".to_string()]);
}

#[test]
fn syncplay_argv_trims_player_binary() {
    let mut a = sargs("u", "syncplay");
    a.player_binary = "  /opt/mpv \n".into();
    assert_eq!(
        syncplay::build_argv(&a),
        vec!["--player-path=/opt/mpv".to_string(), "u".to_string()]
    );
    a.player_binary = "   ".into();
    assert_eq!(syncplay::build_argv(&a), vec!["u".to_string()]);
}

#[test]
fn open_syncplay_with_blank_binary_returns_spawn_failed() {
    match syncplay::launch_precheck(&sargs("https://example.com/v.mp4", "")) {
        Err(AniError::SyncplaySpawnFailed { binary }) => assert!(binary.is_empty()),
        other => panic!("expected SyncplaySpawnFailed, got {other:?}"),
    }
}

#[test]
fn default_player_kind_is_mpv() {
    assert_eq!(ExternalPlayerKind::default(), ExternalPlayerKind::Mpv);
}
