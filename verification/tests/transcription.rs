use atic_desktop::transcription::{
    live_engine_choice, models_ready, progress_due, unknown_model, usable_key, LiveEngineChoice,
    GROQ_LIVE_KEY_REQUIRED_MSG,
};

#[test]
fn groq_needs_no_local_model() {
    assert!(models_ready("groq", false, "groq", false, false, "local", false, false));
    assert!(!models_ready("local", false, "groq", false, false, "local", false, false));
    assert!(models_ready("local", true, "local", true, true, "groq", true, false));
    assert!(!models_ready("local", true, "local", true, true, "local", true, false));
    assert!(models_ready("local", true, "local", true, false, "local", false, false));
}

#[test]
fn progress_is_reported_every_two_megabytes() {
    assert!(!progress_due(0, 1_999_999, 10_000_000));
    assert!(progress_due(0, 2_000_000, 10_000_000));
    assert!(progress_due(5_000_000, 5_100_000, 5_100_000));
    assert!(!progress_due(5_000_000, 4_000_000, 10_000_000));
}

#[test]
fn keys_and_messages() {
    assert_eq!(usable_key(Some("  k1 ".to_string())).as_deref(), Some("k1"));
    assert_eq!(usable_key(Some("   ".to_string())), None);
    assert_eq!(usable_key(None), None);
    assert_eq!(unknown_model(false, "tiny"), "Modelo desconocido: tiny");
    assert_eq!(unknown_model(true, "tiny"), "Unknown model: tiny");
}

#[test]
fn the_live_engine_falls_back_to_local() {
    assert!(matches!(live_engine_choice("GROQ", Some("k".to_string())), LiveEngineChoice::Groq(ref k) if k == "k"));
    assert!(matches!(live_engine_choice("groq", None), LiveEngineChoice::Local { warn: true }));
    assert!(matches!(live_engine_choice("local", Some("k".to_string())), LiveEngineChoice::Local { warn: false }));
    assert!(GROQ_LIVE_KEY_REQUIRED_MSG.contains("Groq"));
}
