use atic_desktop::media::{
    app_label, control, exe_source, focus, focus_route, now, parse_media_action, searchable_title,
    seek, seek_target, seekable, source_exe, thumb_key, timeline_times, without_known_cover,
    FocusRoute, MediaAction, MediaNow, WINDOWS_EPOCH_MS,
};

fn playing(key: &str) -> MediaNow {
    MediaNow {
        title: "T".into(),
        artist: "A".into(),
        app: "Spotify".into(),
        playing: true,
        can_toggle: true,
        can_next: true,
        can_prev: true,
        can_seek: false,
        thumbnail: Some("data:image/png;base64,QUJD".into()),
        thumb_key: key.into(),
        position_ms: Some(1),
        duration_ms: Some(2),
        updated_ms: Some(3),
    }
}

#[test]
fn nombres_legibles_de_app() {
    assert_eq!(app_label("Spotify.exe"), "Spotify");
    assert_eq!(app_label("msedge"), "Msedge");
    assert_eq!(app_label("Microsoft.ZuneMusic_8wekyb3d8bbwe!Microsoft.ZuneMusic"), "ZuneMusic");
    assert_eq!(app_label(""), "");
    assert_eq!(app_label("F0DC299D809B9700"), "");
}

#[test]
fn labels_use_the_unicode_upper_case_and_strip_one_extension() {
    assert_eq!(app_label("ßapp"), "SSapp");
    assert_eq!(app_label("player.EXE"), "Player");
    assert_eq!(app_label("abc123"), "Abc123");
}

#[test]
fn media_actions_parse_and_unknown_ones_are_reported() {
    assert_eq!(parse_media_action("toggle"), Ok(MediaAction::Toggle));
    assert_eq!(parse_media_action("prev"), Ok(MediaAction::Prev));
    assert_eq!(parse_media_action("stop"), Err("acción de medios desconocida: stop".to_string()));
}

#[test]
fn the_cover_is_dropped_when_the_caller_has_it() {
    let n = without_known_cover(Some(playing("k1")), Some("k1")).unwrap();
    assert!(n.thumbnail.is_none());
    let n = without_known_cover(Some(playing("k1")), Some("k2")).unwrap();
    assert!(n.thumbnail.is_some());
    assert!(without_known_cover(None, Some("k1")).is_none());
    assert_eq!(thumb_key("Spotify", "T", "A"), "Spotify\u{1}T\u{1}A");
}

#[test]
fn only_executables_name_a_source_and_focus_route_follows_the_id() {
    assert_eq!(exe_source("Spotify.EXE"), Some("Spotify.EXE".to_string()));
    assert_eq!(exe_source("F0DC299D809B9700"), None);
    assert_eq!(focus_route("spotify.exe"), FocusRoute::Exe);
    assert_eq!(focus_route("Microsoft.ZuneMusic_8wekyb3d8bbwe!Microsoft.ZuneMusic"), FocusRoute::Package);
    assert_eq!(focus_route("F0DC299D809B9700"), FocusRoute::ByTitle);
    assert_eq!(searchable_title("  ab "), None);
    assert_eq!(searchable_title(" abc "), Some(vec!['a', 'b', 'c']));
}

#[test]
fn without_a_media_service_nothing_plays() {
    assert!(now().unwrap().is_none());
    assert_eq!(control(MediaAction::Next), Ok(false));
    assert_eq!(seek(10), Ok(false));
    assert_eq!(focus(), Ok(false));
    assert_eq!(source_exe(), None);
}

/// Floating-point seconds to whole milliseconds: the same conversion the
/// shell (`app/reports.rs`, `seconds_to_ms`) applies before it hands the
/// report to the library. Tests cannot name the shell's crate, and the
/// reading is floating point and serde, which the library does not hold; so
/// the shell's reading is repeated here step for step, and what is under
/// test is the library's `now_from_report`.
fn seconds_to_ms(s: f64) -> u64 {
    (s * 1000.0) as u64
}

/// What the media service prints, read as the shell reads it.
fn parse(json: &str) -> Option<(atic_desktop::media::MediaNow, String)> {
    let v: serde_json::Value = serde_json::from_str(json).ok()?;
    let text = |k: &str| v.get(k)?.as_str().map(|s| s.to_string());
    let secs = |k: &str| v.get(k).and_then(|x| x.as_f64());
    let report = atic_desktop::media::MediaReport {
        playing: v.get("playing")?.as_bool()?,
        title: text("title")?,
        artist: text("artist")?,
        app: text("app")?,
        bundle: text("bundle")?,
        duration_ms: secs("duration").filter(|d| *d > 0.0).map(seconds_to_ms),
        position_ms: secs("elapsed").map(|e| seconds_to_ms(e.max(0.0))),
        stamp_ms: secs("stamp").map(|ms| ms as i64),
        key: text("key")?,
        art: text("art")?,
        mime: text("mime")?,
    };
    Some(atic_desktop::media::now_from_report(report))
}

/// The library's part alone: a report already in milliseconds.
#[test]
fn a_report_in_milliseconds_is_taken_as_it_is() {
    let report = atic_desktop::media::MediaReport {
        playing: true,
        title: "T".into(),
        artist: "A".into(),
        app: "Zen".into(),
        bundle: "b".into(),
        duration_ms: Some(175_300),
        position_ms: Some(12_500),
        stamp_ms: Some(1_790_300_709_000),
        key: "k".into(),
        art: String::new(),
        mime: String::new(),
    };
    let (now, bundle) = atic_desktop::media::now_from_report(report);
    assert_eq!(bundle, "b");
    assert_eq!(now.duration_ms, Some(175_300));
    assert_eq!(now.position_ms, Some(12_500));
    assert_eq!(now.updated_ms, Some(1_790_300_709_000));
    assert!(now.thumbnail.is_none());
}

#[test]
fn lee_lo_que_suena_en_el_navegador() {
    let (now, bundle) = parse(
        r#"{"playing":true,"title":"Aunque No Sea Conmigo","artist":"Macha","app":"Zen","bundle":"app.zen-browser.zen","duration":175.3,"elapsed":12.5,"stamp":1790300709000.5,"key":"app.zen-browser.zen:abc","art":"","mime":""}"#,
    )
    .unwrap();
    assert!(now.playing);
    assert_eq!(now.app, "Zen");
    assert_eq!(bundle, "app.zen-browser.zen");
    assert_eq!(now.duration_ms, Some(175_300));
    assert_eq!(now.position_ms, Some(12_500));
    assert_eq!(now.updated_ms, Some(1_790_300_709_000));
    assert!(now.thumbnail.is_none());
    assert!(!now.can_seek);
}

#[test]
fn nada_sonando_es_none() {
    assert!(parse("").is_none());
}

#[test]
fn la_caratula_viaja_como_data_url() {
    let (now, _) = parse(
        r#"{"playing":false,"title":"T","artist":"A","app":"Música","bundle":"com.apple.Music","duration":null,"elapsed":null,"stamp":null,"key":"k","art":"QUJD","mime":"image/png"}"#,
    )
    .unwrap();
    assert_eq!(now.thumbnail.as_deref(), Some("data:image/png;base64,QUJD"));
    assert!(now.updated_ms.is_some());
}

#[test]
fn the_timeline_is_read_from_its_start_and_kept_within_the_track() {
    let updated = Some((WINDOWS_EPOCH_MS + 1_000) * 10_000);
    assert_eq!(
        timeline_times(Some(0), Some(1_753_000_000), Some(125_000_000), updated),
        (Some(12_500), Some(175_300), Some(1_000))
    );
    // Position past the end, and before the start.
    assert_eq!(timeline_times(Some(10_000), Some(20_000), Some(90_000), None), (Some(1), Some(1), None));
    assert_eq!(timeline_times(Some(50_000), Some(90_000), Some(0), None), (Some(0), Some(4), None));
    // No length: nothing of the timeline.
    assert_eq!(timeline_times(Some(5), Some(5), Some(5), updated), (None, None, None));
    assert_eq!(timeline_times(None, None, None, None), (None, None, None));
    // An update before 1970 is not reported.
    assert_eq!(timeline_times(None, Some(20_000), None, Some(10_000)), (Some(0), Some(2), None));
    assert!(seekable(Some(0), true));
    assert!(!seekable(None, true));
    assert!(!seekable(Some(3), false));
}

#[test]
fn a_seek_counts_from_the_start_and_saturates() {
    assert_eq!(seek_target(Some(50_000), 2), 70_000);
    assert_eq!(seek_target(None, 2), 20_000);
    assert_eq!(seek_target(Some(7), u64::MAX), 7 - 10_000);
    assert_eq!(seek_target(Some(1), i64::MAX as u64), i64::MAX);
}
