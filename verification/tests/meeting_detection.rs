use atic_desktop::meeting_detection::{classify_window, detect_meeting, detection_change, process_name, MeetingInfo, WindowInfo};

#[test]
fn classifies_supported_meeting_windows() {
    assert_eq!(
        classify_window("chrome.exe", "Planificación semanal - Google Meet").unwrap().provider,
        "Google Meet"
    );
    assert!(classify_window("Zoom.exe", "Zoom Workplace").is_none());
    assert!(classify_window("ms-teams.exe", "Chat | Microsoft Teams").is_none());
    assert_eq!(
        classify_window("ms-teams.exe", "Reunión semanal | Microsoft Teams").unwrap().provider,
        "Microsoft Teams"
    );
}

#[test]
fn zoom_and_webex_need_their_process_and_titles_are_cut() {
    assert_eq!(classify_window("ZOOM.EXE", "Zoom Meeting").unwrap().provider, "Zoom");
    assert!(classify_window("chrome.exe", "Zoom Meeting").is_none());
    assert_eq!(classify_window("CiscoWebEx.exe", "Webinar semanal").unwrap().provider, "Webex");
    let long = format!("{} - Google Meet", "x".repeat(300));
    assert_eq!(classify_window("chrome.exe", &long).unwrap().title.chars().count(), 180);
}

#[test]
fn the_first_meeting_window_wins_and_changes_are_reported_once() {
    let w = |p: &str, t: &str| WindowInfo { process: p.into(), title: t.into() };
    let windows = vec![w("notepad.exe", "notas"), w("chrome.exe", "A - Google Meet"), w("zoom.exe", "Zoom Meeting")];
    let m = detect_meeting(&windows).unwrap();
    assert_eq!(m.provider, "Google Meet");
    assert!(detect_meeting(&vec![w("notepad.exe", "x")]).is_none());
    let prev: Option<MeetingInfo> = None;
    let cur = Some(MeetingInfo { provider: "Zoom".into(), title: "Z".into() });
    let p = detection_change(&prev, &cur).unwrap();
    assert!(p.active);
    assert_eq!(p.provider.as_deref(), Some("Zoom"));
    assert!(detection_change(&cur, &Some(MeetingInfo { provider: "Zoom".into(), title: "Z".into() })).is_none());
    let off = detection_change(&cur, &None).unwrap();
    assert!(!off.active && off.provider.is_none());
    assert_eq!(process_name("C:\\Program Files\\Zoom\\bin\\Zoom.exe"), "Zoom.exe");
}
