use atic_desktop::summarization::{
    base_url_or, catalog_models, model_changed, no_live_models, ollama_url, resolved_models,
    ProviderDto, ProviderInfo,
};

fn info() -> ProviderInfo {
    ProviderInfo {
        id: "ollama".to_string(),
        display_name: "Ollama".to_string(),
        kind: "openai_compat".to_string(),
        default_base_url: "http://localhost:11434".to_string(),
        default_model: "llama3".to_string(),
        needs_api_key: false,
        base_url_editable: true,
        secret_kind: Some("ollama_key".to_string()),
        suggested_models: vec!["llama3".to_string(), "qwen".to_string()],
    }
}

#[test]
fn a_provider_reads_its_kind_by_name() {
    let d = ProviderDto::from(&info());
    assert_eq!(d.kind, "openai_compat");
    assert_eq!(d.id, "ollama");
    assert_eq!(d.secret_kind.as_deref(), Some("ollama_key"));
    assert_eq!(d.suggested_models, vec!["llama3".to_string(), "qwen".to_string()]);
    assert_eq!(catalog_models(&info()), vec!["llama3".to_string(), "qwen".to_string()]);
}

#[test]
fn addresses_fall_back_to_their_defaults() {
    assert_eq!(ollama_url("  "), "http://127.0.0.1:11434");
    assert_eq!(ollama_url("http://h:1"), "http://h:1");
    assert_eq!(base_url_or("", "https://api"), "https://api");
    assert_eq!(base_url_or("https://mine", "https://api"), "https://mine");
}

#[test]
fn the_provider_list_wins_when_it_has_models() {
    let fallback = vec!["a".to_string()];
    let (m, live) = resolved_models(Some(vec!["x".to_string()]), fallback.clone());
    assert_eq!(m, vec!["x".to_string()]);
    assert!(live);
    let (m, live) = resolved_models(Some(Vec::new()), fallback.clone());
    assert_eq!(m, fallback);
    assert!(!live);
    let (m, live) = resolved_models(None, fallback.clone());
    assert_eq!(m, fallback);
    assert!(!live);
    let none = no_live_models();
    assert!(none.models.is_empty() && !none.live && none.selected.is_empty());
    assert!(model_changed("a", "b"));
    assert!(!model_changed("a", "a"));
}
