use ani_gui::allanime::ShowMetadata;
use ani_gui::play::{MediaKind, PlayArgs, ProxyOrigin};
use ani_gui::play_cache::{
    cache_head_step, cache_hit_step, cache_lookup_step, external_head_step, external_lookup_step,
    ExternalStep, PlayStep,
};
use ani_gui::play_resolution_cache::CachedResolution;
use ani_gui::reverse_lookup::{after_recorded, after_search, after_show, lookup_start, LookupStep};

fn external_args(title: &str, episode: &str) -> PlayArgs {
    PlayArgs {
        title: title.into(),
        episode: episode.into(),
        mode: "sub".into(),
        quality: Some("best".into()),
        episode_count: None,
        alt_titles: vec![],
        prefetch: false,
        kitsu_id: None,
    }
}

fn row(upstream: &str, referer: &str, subtitle: Option<&str>, show_id: &str) -> CachedResolution {
    CachedResolution {
        upstream_url: upstream.into(),
        referer: referer.into(),
        subtitle_url: subtitle.map(str::to_string),
        media_kind: MediaKind::Mp4,
        show_id: show_id.into(),
        show_title: if show_id.is_empty() { String::new() } else { "Test (12 episodes)".into() },
    }
}

fn origin() -> ProxyOrigin {
    ProxyOrigin::new("127.0.0.1", 8765)
}

#[test]
fn no_cached_row_resolves_with_ani_cli() {
    let args = external_args("Never Played", "1");
    assert!(matches!(cache_lookup_step(&args, None), PlayStep::Resolve));
    assert!(matches!(external_lookup_step(None), ExternalStep::Resolve));
}

#[test]
fn try_serve_cached_returns_none_when_url_is_unparseable() {
    let args = external_args("Bad URL", "2");
    let cached = row("not://a valid url at all", "", None, "");
    match cache_lookup_step(&args, Some(&cached)) {
        PlayStep::EvictAndResolve { key } => assert_eq!(key, "play:v1:Bad URL:sub:best:2"),
        other => panic!("expected eviction, got {other:?}"),
    }
}

#[test]
fn try_launch_args_from_cache_returns_none_on_unparseable_url() {
    let cached = row("not://a valid url", "", None, "");
    assert!(matches!(external_lookup_step(Some(&cached)), ExternalStep::Resolve));
}

#[test]
fn parseable_row_is_probed_with_its_referer() {
    let args = external_args("Fast4", "3");
    let cached = row("https://tools.fast4speed.rsvp/sub/1", "https://allmanga.to", None, "");
    match cache_lookup_step(&args, Some(&cached)) {
        PlayStep::CheckHead { url, referer } => {
            assert_eq!(url, "https://tools.fast4speed.rsvp/sub/1");
            assert_eq!(referer, "https://allmanga.to");
        }
        other => panic!("expected a HEAD probe, got {other:?}"),
    }
    match external_lookup_step(Some(&cached)) {
        ExternalStep::CheckHead { url, referer } => {
            assert_eq!(url, "https://tools.fast4speed.rsvp/sub/1");
            assert_eq!(referer, "https://allmanga.to");
        }
        other => panic!("expected a HEAD probe, got {other:?}"),
    }
}

#[test]
fn try_serve_cached_returns_none_on_404() {
    let args = external_args("Stale Show", "4");
    let cached = row("https://cdn.example/expired.mp4", "", None, "abc");
    for status in [Some(404u16), Some(500), Some(199), None] {
        match cache_head_step(&args, &cached, status) {
            PlayStep::EvictAndResolve { key } => assert_eq!(key, "play:v1:Stale Show:sub:best:4"),
            other => panic!("expected eviction for {status:?}, got {other:?}"),
        }
    }
}

#[test]
fn live_head_opens_a_session_of_the_cached_kind() {
    let args = external_args("Cached Show", "5");
    let mut cached = row("https://cdn.example/cached.m3u8", "", Some("https://cdn.example/c.vtt"), "");
    cached.media_kind = MediaKind::Hls;
    for status in [200u16, 204, 302] {
        match cache_head_step(&args, &cached, Some(status)) {
            PlayStep::OpenSession { session, kind } => {
                assert_eq!(kind, MediaKind::Hls);
                assert_eq!(session.upstream.href, "https://cdn.example/cached.m3u8");
                assert!(session.subtitle.is_some());
            }
            other => panic!("expected a session for {status}, got {other:?}"),
        }
    }
}

#[test]
fn live_head_with_a_non_http_row_evicts() {
    let args = external_args("Ftp Show", "6");
    let cached = row("ftp://cdn.example/v.mp4", "", None, "");
    match cache_head_step(&args, &cached, Some(200)) {
        PlayStep::EvictAndResolve { key } => assert_eq!(key, "play:v1:Ftp Show:sub:best:6"),
        other => panic!("expected eviction, got {other:?}"),
    }
}

#[test]
fn play_with_progress_returns_cache_hit_response_when_head_succeeds() {
    let args = external_args("Cached Show", "5");
    let cached = row("https://cdn.example/cached.mp4", "", None, "");
    match cache_hit_step(&args, &cached, &origin(), "sess-1") {
        PlayStep::Respond { response, history } => {
            assert!(response.cache_hit);
            assert_eq!(response.media_kind, MediaKind::Mp4);
            assert_eq!(response.media_url, "http://127.0.0.1:8765/s/sess-1/file.mp4");
            assert_eq!(response.subtitle_url, None);
            assert!(history.is_none());
        }
        other => panic!("expected an answer, got {other:?}"),
    }
}

#[test]
fn play_with_progress_writes_history_on_cache_hit_with_show_id() {
    let args = external_args("Show With History", "3");
    let cached = row("https://cdn.example/cached.mp4", "", Some("https://cdn.example/s.vtt"), "abc");
    match cache_hit_step(&args, &cached, &origin(), "sess-2") {
        PlayStep::Respond { response, history } => {
            assert!(response.cache_hit);
            assert_eq!(
                response.subtitle_url.as_deref(),
                Some("http://127.0.0.1:8765/s/sess-2/sub.vtt")
            );
            let e = history.expect("history row");
            assert_eq!(e.ep_no, "3");
            assert_eq!(e.id, "abc");
            assert_eq!(e.title, "Test (12 episodes)");
        }
        other => panic!("expected an answer, got {other:?}"),
    }
    let mut prefetch = args.clone();
    prefetch.prefetch = true;
    match cache_hit_step(&prefetch, &cached, &origin(), "sess-3") {
        PlayStep::Respond { history, .. } => assert!(history.is_none()),
        other => panic!("expected an answer, got {other:?}"),
    }
}

#[test]
fn try_launch_args_from_cache_returns_launch_args_on_2xx_head() {
    let args = external_args("Naruto", "5");
    let cached = row("https://cdn.example/v.mp4", "", None, "");
    match external_head_step(&args, &cached, "test-player", Some(200)) {
        ExternalStep::Launch { launch } => {
            assert!(launch.stream_url.ends_with("/v.mp4"));
            assert_eq!(launch.referer, None, "empty cached referer must round-trip as None");
            assert_eq!(launch.player_command, "test-player");
            assert_eq!(launch.title.as_deref(), Some("Naruto · ep 5"));
        }
        other => panic!("expected a launch, got {other:?}"),
    }
}

#[test]
fn try_launch_args_from_cache_round_trips_referer_and_subtitle() {
    let args = external_args("Fast4", "7");
    let cached = row(
        "https://tools.fast4speed.rsvp/sub/3",
        "https://allmanga.to",
        Some("https://example/cap.vtt"),
        "abc",
    );
    match external_head_step(&args, &cached, "mpv", Some(200)) {
        ExternalStep::Launch { launch } => {
            assert_eq!(launch.referer.as_deref(), Some("https://allmanga.to"));
            assert_eq!(launch.subtitle_url.as_deref(), Some("https://example/cap.vtt"));
        }
        other => panic!("expected a launch, got {other:?}"),
    }
}

#[test]
fn try_launch_args_from_cache_evicts_and_returns_none_on_404() {
    let args = external_args("Stale", "9");
    let cached = row("https://cdn.example/dead.mp4", "", None, "");
    match external_head_step(&args, &cached, "mpv", Some(404)) {
        ExternalStep::EvictAndResolve { key } => assert_eq!(key, "play:v1:Stale:sub:best:9"),
        other => panic!("expected eviction, got {other:?}"),
    }
}

#[test]
fn resolve_allmanga_show_id_short_circuits_on_reverse_cache_hit() {
    assert_eq!(
        lookup_start(Some("12".to_string())),
        LookupStep::LoadRecorded { kitsu_id: "12".to_string() }
    );
    assert_eq!(after_recorded(true), LookupStep::AnswerRecorded);
}

#[test]
fn stale_recorded_id_and_missing_record_look_the_show_up() {
    assert_eq!(lookup_start(None), LookupStep::FetchShow);
    assert_eq!(after_recorded(false), LookupStep::FetchShow);
}

#[test]
fn reverse_lookup_walks_the_aliases_until_a_hit() {
    let show = ShowMetadata {
        name: "1P".into(),
        english_name: Some(" One Piece ".into()),
        native_name: Some("ワンピース".into()),
        alt_names: vec!["One Piece".into(), "  ".into()],
        ..Default::default()
    };
    let (step, terms) = after_show(Some(&show));
    assert_eq!(step, LookupStep::Search { index: 0 });
    assert_eq!(terms, vec!["One Piece".to_string(), "ワンピース".to_string()]);
    assert_eq!(after_search(terms.len(), 0, Some(0)), LookupStep::Search { index: 1 });
    assert_eq!(after_search(terms.len(), 0, None), LookupStep::Search { index: 1 });
    assert_eq!(after_search(terms.len(), 1, Some(2)), LookupStep::RecordFirstHit);
    assert_eq!(after_search(terms.len(), 1, Some(0)), LookupStep::NotFound);
}

#[test]
fn reverse_lookup_finds_nothing_without_a_show_or_terms() {
    let (step, terms) = after_show(None);
    assert_eq!(step, LookupStep::NotFound);
    assert!(terms.is_empty());
    let bare = ShowMetadata { name: "Stub".into(), ..Default::default() };
    assert_eq!(after_show(Some(&bare)).0, LookupStep::NotFound);
}

#[test]
fn play_with_progress_evicts_cache_when_head_fails_then_returns_error() {
    let args = external_args("Stale Show", "2");
    let cached = row("https://cdn.example/dead.mp4", "", None, "abc");
    assert!(matches!(cache_lookup_step(&args, Some(&cached)), PlayStep::CheckHead { .. }));
    match cache_head_step(&args, &cached, Some(404)) {
        PlayStep::EvictAndResolve { key } => {
            assert_eq!(key, "play:v1:Stale Show:sub:best:2", "stale row must be evicted on HEAD failure")
        }
        other => panic!("expected eviction, got {other:?}"),
    }
}

#[test]
fn try_serve_cached_sends_referer_header_when_set() {
    let args = external_args("Fast4", "1");
    let cached = row("https://tools.fast4speed.rsvp/sub/1", "https://allmanga.to", None, "");
    match cache_lookup_step(&args, Some(&cached)) {
        PlayStep::CheckHead { referer, .. } => assert_eq!(referer, "https://allmanga.to"),
        other => panic!("expected a HEAD probe, got {other:?}"),
    }
}

#[test]
fn try_launch_args_from_cache_returns_none_on_cache_miss() {
    assert!(matches!(external_lookup_step(None), ExternalStep::Resolve));
}

#[test]
fn try_serve_cached_returns_session_on_2xx_head() {
    let args = external_args("Video", "1");
    let cached = row("https://cdn.example/video.mp4", "", None, "");
    assert!(matches!(cache_head_step(&args, &cached, Some(200)), PlayStep::OpenSession { .. }));
    match cache_hit_step(&args, &cached, &origin(), "s-9") {
        PlayStep::Respond { response, .. } => {
            assert!(response.media_url.contains("/file.mp4"));
            assert_eq!(response.media_kind, MediaKind::Mp4);
            assert!(
                response.cache_hit,
                "try_serve_cached must tag the response so the renderer can retry on player error"
            );
        }
        other => panic!("expected an answer, got {other:?}"),
    }
}
