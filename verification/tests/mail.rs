use atic_desktop::mail::{clean_recipients, secrets_status, send_result, smtp_from, wants_smtp};

#[test]
fn the_secret_status_keeps_one_flag_per_provider() {
    let entries = vec![
        (Some("groq".to_string()), false),
        (None, true),
        (Some("mistral".to_string()), true),
        (Some("groq".to_string()), true),
    ];
    let s = secrets_status(&entries, true);
    assert_eq!(
        s.providers,
        vec![("groq".to_string(), true), ("mistral".to_string(), true)]
    );
    assert!(s.has_smtp_password);
}

#[test]
fn recipients_are_trimmed_and_blank_ones_dropped() {
    let to = vec![" a@x.com ".to_string(), "   ".to_string(), "b@y.com".to_string()];
    assert_eq!(clean_recipients(&to), vec!["a@x.com".to_string(), "b@y.com".to_string()]);
}

#[test]
fn smtp_settings() {
    assert!(wants_smtp("smtp"));
    assert!(!wants_smtp("mailto"));
    assert_eq!(smtp_from("", "user@x.com"), "user@x.com");
    assert_eq!(smtp_from("me@x.com", "user@x.com"), "me@x.com");
}

#[test]
fn a_draft_gives_its_address() {
    let r = send_result("mailto", "mailto:a@x.com?subject=S".to_string());
    assert_eq!(r.backend, "mailto");
    assert_eq!(r.mailto_url.as_deref(), Some("mailto:a@x.com?subject=S"));
    let r = send_result("smtp", "enviado".to_string());
    assert_eq!(r.message, "enviado");
    assert!(r.mailto_url.is_none());
}
