use ani_gui::allanime::{
    check_api_status, show_or_default, AvailableEpisodes, AvailableEpisodesDetail, Candidate,
    ShowMetadata,
};
use ani_gui::error::AniError;
use ani_gui::external_player::ExternalPlayerKind;
use ani_gui::kitsu::mapping_target;
use ani_gui::play::{CreateSessionArgs, DebugOutput, MediaKind, PlayArgs, ProxyOrigin};
use ani_gui::play_flow::{
    availability_after_failure, availability_after_resolve, cache_hit_history_entry,
    head_status_live, launch_args_from_cached, launch_args_from_resolved, mark_watched_plan,
    non_integer_episode_tags, resolution_to_cache, resolved_referer, search_mode, search_titles,
    session_args_for, session_args_from_cached, AvailabilityWrite,
};
use ani_gui::play_resolution_cache::CachedResolution;
use ani_gui::proxy::{
    check_media_session, check_segment_request, is_manifest_path, upstream_error_status, ProxyRefusal,
};
use ani_gui::session::{check_session_args, parse_http_url, session_response};

fn args(prefetch: bool, kitsu_id: Option<&str>) -> PlayArgs {
    PlayArgs {
        title: "One Piece".into(),
        episode: "12".into(),
        mode: "sub".into(),
        quality: None,
        episode_count: None,
        alt_titles: vec!["ワンピース".into(), "Wan Pisu".into()],
        prefetch,
        kitsu_id: kitsu_id.map(str::to_string),
    }
}

fn cached(show_id: &str) -> CachedResolution {
    CachedResolution {
        upstream_url: "https://cdn.example/v.mp4".into(),
        referer: String::new(),
        subtitle_url: Some("https://cdn.example/s.vtt".into()),
        media_kind: MediaKind::Mp4,
        show_id: show_id.into(),
        show_title: if show_id.is_empty() { String::new() } else { "One Piece (1100 episodes)".into() },
    }
}

fn candidate() -> Candidate {
    Candidate {
        id: "ReooPAxPMsHM4KPMY".into(),
        name: "1P".into(),
        available_episodes: AvailableEpisodes { sub: 1100, dub: 1000 },
    }
}

#[test]
fn search_titles_lists_canonical_then_alternatives() {
    assert_eq!(
        search_titles(&args(false, None)),
        vec!["One Piece".to_string(), "ワンピース".to_string(), "Wan Pisu".to_string()]
    );
    assert_eq!(search_mode("dub"), "dub");
    assert_eq!(search_mode("Dub"), "sub");
    assert_eq!(search_mode(""), "sub");
}

#[test]
fn head_status_counts_success_and_redirects_as_live() {
    assert!(head_status_live(200));
    assert!(head_status_live(302));
    assert!(head_status_live(399));
    assert!(!head_status_live(199));
    assert!(!head_status_live(404));
    assert!(!head_status_live(500));
}

#[test]
fn cache_hit_writes_history_only_for_clicks_with_a_show_id() {
    let e = cache_hit_history_entry(&args(false, None), &cached("abc")).expect("entry");
    assert_eq!(e.ep_no, "12");
    assert_eq!(e.id, "abc");
    assert_eq!(e.title, "One Piece (1100 episodes)");
    assert!(cache_hit_history_entry(&args(true, None), &cached("abc")).is_none());
    assert!(cache_hit_history_entry(&args(false, None), &cached("")).is_none());
}

#[test]
fn mark_watched_records_mapping_only_with_a_kitsu_id() {
    let c = cached("abc");
    let w = mark_watched_plan(&args(false, Some("42")), Some(&c)).expect("plan");
    assert_eq!(w.entry.id, "abc");
    assert_eq!(w.entry.ep_no, "12");
    assert_eq!(w.stamp_show_id, "abc");
    assert_eq!(w.kitsu_mapping, Some(("abc".to_string(), "42".to_string())));
    let w = mark_watched_plan(&args(false, Some("")), Some(&c)).expect("plan");
    assert_eq!(w.kitsu_mapping, None);
    assert!(mark_watched_plan(&args(false, Some("42")), None).is_none());
    assert!(mark_watched_plan(&args(false, Some("42")), Some(&cached(""))).is_none());
}

#[test]
fn no_results_marks_the_anime_unavailable() {
    match availability_after_failure(&args(false, Some("42")), &AniError::NoResults) {
        Some(AvailabilityWrite::Simple { kitsu_id, mode, available }) => {
            assert_eq!(kitsu_id, "42");
            assert_eq!(mode, "sub");
            assert!(!available);
        }
        other => panic!("unexpected {other:?}"),
    }
    assert!(availability_after_failure(&args(false, Some("42")), &AniError::Timeout).is_none());
    assert!(availability_after_failure(&args(false, None), &AniError::NoResults).is_none());
}

#[test]
fn resolve_records_episode_facts_for_the_chosen_candidate() {
    let detail = ShowMetadata {
        available_episodes_detail: AvailableEpisodesDetail {
            sub: vec!["3".into(), "1061.5".into(), "1".into(), "recap".into()],
            dub: vec![],
        },
        ..Default::default()
    };
    let c = candidate();
    match availability_after_resolve(&args(false, Some("42")), Some(&c), Some(&detail)) {
        Some(AvailabilityWrite::Full { kitsu_id, mode, episode_count, extras }) => {
            assert_eq!(kitsu_id, "42");
            assert_eq!(mode, "sub");
            assert_eq!(episode_count, Some(3));
            assert_eq!(extras, vec!["1061.5".to_string(), "recap".to_string()]);
        }
        other => panic!("unexpected {other:?}"),
    }
    match availability_after_resolve(&args(false, Some("42")), Some(&c), None) {
        Some(AvailabilityWrite::Full { episode_count, extras, .. }) => {
            assert_eq!(episode_count, None);
            assert!(extras.is_empty());
        }
        other => panic!("unexpected {other:?}"),
    }
    assert!(matches!(
        availability_after_resolve(&args(false, Some("42")), None, None),
        Some(AvailabilityWrite::Simple { available: true, .. })
    ));
    assert!(availability_after_resolve(&args(false, None), Some(&c), Some(&detail)).is_none());
}

#[test]
fn non_integer_tags_keep_order() {
    let tags = vec!["1".to_string(), "+2".to_string(), "2.5".to_string(), "".to_string(), "x".to_string()];
    assert_eq!(
        non_integer_episode_tags(&tags),
        vec!["2.5".to_string(), "".to_string(), "x".to_string()]
    );
}

fn resolved(url: &str, referer: Option<&str>) -> DebugOutput {
    DebugOutput {
        selected_url: url.into(),
        all_links: vec![],
        referer: referer.map(str::to_string),
        subtitle_url: None,
    }
}

#[test]
fn fresh_resolution_is_stored_with_the_chosen_show() {
    let r = resolved("https://tools.fast4speed.rsvp/x/sub/1", None);
    let referer = resolved_referer(&r);
    assert_eq!(referer, "https://allmanga.to");
    let c = candidate();
    let row = resolution_to_cache(&r, &referer, MediaKind::Mp4, Some(&c), "sub");
    assert_eq!(row.upstream_url, "https://tools.fast4speed.rsvp/x/sub/1");
    assert_eq!(row.referer, "https://allmanga.to");
    assert_eq!(row.show_id, "ReooPAxPMsHM4KPMY");
    assert_eq!(row.show_title, "1P (1100 episodes)");
    let row = resolution_to_cache(&r, "", MediaKind::Hls, None, "dub");
    assert_eq!(row.show_id, "");
    assert_eq!(row.show_title, "");
    assert_eq!(resolved_referer(&resolved("https://other.example/v.mp4", None)), "");
}

#[test]
fn session_args_carry_url_referer_and_subtitle() {
    let r = resolved("https://cdn.example/v.m3u8", Some("https://ref.example"));
    let s = session_args_for(&r, "https://ref.example");
    assert_eq!(s.upstream_url, "https://cdn.example/v.m3u8");
    assert_eq!(s.referer, "https://ref.example");
    assert!(s.subtitle_url.is_none());
    let s = session_args_from_cached(&cached("abc"));
    assert_eq!(s.upstream_url, "https://cdn.example/v.mp4");
    assert_eq!(s.subtitle_url.as_deref(), Some("https://cdn.example/s.vtt"));
}

#[test]
fn external_launch_from_cache_and_from_resolution() {
    let a = args(false, None);
    let l = launch_args_from_cached(&a, &cached("abc"), "mpv");
    assert_eq!(l.stream_url, "https://cdn.example/v.mp4");
    assert_eq!(l.referer, None);
    assert_eq!(l.title.as_deref(), Some("One Piece · ep 12"));
    assert_eq!(l.player_command, "mpv");
    assert_eq!(l.player_kind, ExternalPlayerKind::Mpv);
    assert!(l.custom_args_template.is_none());
    let mut c = cached("abc");
    c.referer = "https://allmanga.to".into();
    assert_eq!(launch_args_from_cached(&a, &c, "vlc").referer.as_deref(), Some("https://allmanga.to"));
    let l = launch_args_from_resolved(&a, &resolved("https://tools.fast4speed.rsvp/v", None), "mpv");
    assert_eq!(l.referer.as_deref(), Some("https://allmanga.to"));
}

#[test]
fn proxy_status_and_manifest_rules() {
    assert_eq!(upstream_error_status(404), 404);
    assert_eq!(upstream_error_status(999), 999);
    assert_eq!(upstream_error_status(0), 502);
    assert_eq!(upstream_error_status(1000), 502);
    assert!(is_manifest_path("/v/1080/index.m3u8"));
    assert!(!is_manifest_path("/v/1080/seg0.ts"));
}

#[test]
fn session_checks_reject_non_http_urls() {
    assert!(parse_http_url("https://cdn.example/master.m3u8", "upstream_url").is_ok());
    assert!(parse_http_url("http://insecure.example/master.m3u8", "upstream_url").is_ok());
    match parse_http_url("file:///etc/passwd", "upstream_url") {
        Err(AniError::ParseFailed { detail }) => {
            assert_eq!(detail, "upstream_url: scheme \"file\" not allowed")
        }
        other => panic!("unexpected {other:?}"),
    }
    match parse_http_url("not a url", "upstream_url") {
        Err(AniError::ParseFailed { detail }) => assert!(detail.starts_with("upstream_url: ")),
        other => panic!("unexpected {other:?}"),
    }
    let ok = check_session_args(&CreateSessionArgs {
        upstream_url: "https://cdn.example/master.m3u8".into(),
        referer: String::new(),
        subtitle_url: Some(String::new()),
    })
    .expect("ok");
    assert!(ok.subtitle.is_none());
    assert_eq!(ok.upstream.href, "https://cdn.example/master.m3u8");
    let bad_sub = check_session_args(&CreateSessionArgs {
        upstream_url: "https://cdn.example/master.m3u8".into(),
        referer: String::new(),
        subtitle_url: Some("ftp://x/y.vtt".into()),
    });
    assert!(matches!(bad_sub, Err(AniError::ParseFailed { .. })));
}

#[test]
fn session_response_points_at_the_proxy() {
    let o = ProxyOrigin::new("127.0.0.1", 40_002);
    let r = session_response(&o, "id-1", MediaKind::Hls, true);
    assert_eq!(r.session_id, "id-1");
    assert_eq!(r.media_url, "http://127.0.0.1:40002/s/id-1/master.m3u8");
    assert_eq!(r.subtitle_url.as_deref(), Some("http://127.0.0.1:40002/s/id-1/sub.vtt"));
    assert!(!r.cache_hit);
    let r = session_response(&o, "id-2", MediaKind::Mp4, false);
    assert_eq!(r.media_url, "http://127.0.0.1:40002/s/id-2/file.mp4");
    assert!(r.subtitle_url.is_none());
}

#[test]
fn mapping_target_finds_the_first_referenced_item() {
    let targets = vec![None, Some("7".to_string()), Some("9".to_string())];
    let included = vec!["9".to_string(), "7".to_string(), "7".to_string()];
    assert_eq!(mapping_target(&targets, &included), Some(1));
    assert_eq!(mapping_target(&[], &included), None);
    assert_eq!(mapping_target(&[None], &included), None);
    assert_eq!(mapping_target(&targets, &[]), None);
}

#[test]
fn media_routes_refuse_missing_and_mismatched_sessions() {
    assert_eq!(check_media_session(Some(MediaKind::Hls), MediaKind::Hls), Ok(()));
    assert_eq!(
        check_media_session(None, MediaKind::Mp4),
        Err(ProxyRefusal { status: 404, body: "session not found or expired" })
    );
    assert_eq!(
        check_media_session(Some(MediaKind::Mp4), MediaKind::Hls),
        Err(ProxyRefusal { status: 415, body: "session media is not HLS — use /file.mp4" })
    );
    assert_eq!(
        check_media_session(Some(MediaKind::Hls), MediaKind::Mp4),
        Err(ProxyRefusal { status: 415, body: "session media is not MP4 — use /master.m3u8" })
    );
}

fn seg_param(u: &str) -> String {
    base64::Engine::encode(&base64::engine::general_purpose::URL_SAFE_NO_PAD, u.as_bytes())
}

#[test]
fn segment_requests_are_checked_in_route_order() {
    let u = seg_param("https://hianime.example/path/seg-001.ts");
    let yes = |_: &ani_gui::web::UrlParts| true;
    let no = |_: &ani_gui::web::UrlParts| false;
    let refusal = |r: Result<ani_gui::web::UrlParts, ProxyRefusal>| r.err().map(|e| (e.status, e.body));
    assert_eq!(refusal(check_segment_request(false, false, "!!!", no)), Some((400, "invalid session id")));
    assert_eq!(refusal(check_segment_request(true, false, "!!!", no)), Some((404, "session not found")));
    assert_eq!(
        refusal(check_segment_request(true, true, "!!!", yes)),
        Some((400, "bad segment url encoding"))
    );
    assert_eq!(
        refusal(check_segment_request(true, true, &seg_param("not a url"), yes)),
        Some((400, "bad segment url encoding"))
    );
    assert_eq!(refusal(check_segment_request(true, true, &u, no)), Some((403, "invalid segment token")));
    let ok = check_segment_request(true, true, &u, |p: &ani_gui::web::UrlParts| p.path == "/path/seg-001.ts")
        .expect("passes");
    assert_eq!(ok.href, "https://hianime.example/path/seg-001.ts");
}

#[test]
fn allanime_answers_need_a_success_status() {
    assert!(check_api_status(200).is_ok());
    assert!(check_api_status(299).is_ok());
    assert!(matches!(check_api_status(503), Err(AniError::Upstream { status: 503 })));
    assert!(matches!(check_api_status(302), Err(AniError::Upstream { status: 302 })));
}

#[test]
fn fetch_show_handles_null_show_as_empty_metadata() {
    let d = show_or_default(None);
    assert_eq!(d.name, "");
    assert!(d.english_name.is_none() && d.native_name.is_none() && d.alt_names.is_empty());
    let s = ShowMetadata { name: "1P".into(), ..Default::default() };
    assert_eq!(show_or_default(Some(s.clone())), s);
}
