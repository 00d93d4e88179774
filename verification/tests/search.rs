use atic_desktop::search::{
    best_score, capture_search_hit, clip_search_hit, file_name_of, join_words, matches_query,
    recording_search_hit, score_match, scratch_search_hit, search_local, snippet_search_hit,
    CaptureEntry, ClipboardEntry, RecordingEntry, SearchHitKind, MAX_HITS,
};
use atic_desktop::snippets::Snippet;

fn snippet(id: &str, name: &str, body: &str, aliases: &[&str]) -> Snippet {
    Snippet {
        id: id.to_string(),
        name: name.to_string(),
        body: body.to_string(),
        aliases: aliases.iter().map(|a| a.to_string()).collect(),
        updated_at_ms: 0,
    }
}

#[test]
fn the_score_prefers_a_prefix() {
    assert_eq!(score_match("hol", "Hola mundo"), Some(100));
    assert_eq!(score_match("mun", "Hola mundo"), Some(50));
    assert_eq!(score_match("xyz", "Hola mundo"), None);
    assert_eq!(score_match("", "Hola"), None);
}

#[test]
fn accents_and_case_are_folded() {
    assert!(matches_query("CANCION", "la canción"));
    assert!(matches_query("nino", "Niño"));
    assert!(!matches_query("", "algo"));
}

#[test]
fn the_best_part_wins() {
    let parts = vec!["otro".to_string(), "xhola".to_string(), "hola".to_string()];
    assert_eq!(best_score("hola", &parts), Some(100));
    let none: Vec<String> = Vec::new();
    assert_eq!(best_score("hola", &none), None);
}

#[test]
fn words_are_joined_with_spaces() {
    let v = vec!["a".to_string(), "bc".to_string(), "d".to_string()];
    assert_eq!(join_words(&v), "a bc d");
    assert_eq!(join_words(&Vec::new()), "");
}

#[test]
fn the_file_name_is_the_last_component() {
    let name: String = file_name_of("C:\\caps\\shot 1.png").into_iter().collect();
    assert_eq!(name, "shot 1.png");
    let name: String = file_name_of("/tmp/a/b.png").into_iter().collect();
    assert_eq!(name, "b.png");
    let name: String = file_name_of("plain").into_iter().collect();
    assert_eq!(name, "plain");
}

#[test]
fn a_snippet_matches_by_alias() {
    let s = snippet("s1", "Firma", "Saludos, Ana", &["sig", "final"]);
    let hit = snippet_search_hit("fin", &s).unwrap();
    assert_eq!(hit.id, "s1");
    assert_eq!(hit.kind, SearchHitKind::Snippet);
    assert_eq!(hit.title, "Firma");
    assert_eq!(hit.preview, "Saludos, Ana");
    // The aliases are searched joined: "sig final" holds "fin" past its start.
    assert_eq!(hit.score, Some(50));
    assert_eq!(snippet_search_hit("sig", &s).unwrap().score, Some(100));
    assert!(snippet_search_hit("zzz", &s).is_none());
}

#[test]
fn the_scratch_pad_is_one_hit() {
    let hit = scratch_search_hit("lista", "comprar: lista de cosas").unwrap();
    assert_eq!(hit.id, "scratchpad");
    assert_eq!(hit.kind, SearchHitKind::Scratchpad);
    assert_eq!(hit.title, "Bloc de notas");
    assert_eq!(hit.score, Some(50));
    assert!(scratch_search_hit("lista", "").is_none());
}

#[test]
fn an_image_clip_is_titled_as_such() {
    let c = ClipboardEntry {
        id: "c1".to_string(),
        preview: "captura.png".to_string(),
        text: None,
        is_image: true,
    };
    let hit = clip_search_hit("captura", &c).unwrap();
    assert_eq!(hit.title, "Imagen del portapapeles");
    assert_eq!(hit.kind, SearchHitKind::Clipboard);
    let t = ClipboardEntry {
        id: "c2".to_string(),
        preview: "pre".to_string(),
        text: Some("texto largo".to_string()),
        is_image: false,
    };
    let hit = clip_search_hit("largo", &t).unwrap();
    assert_eq!(hit.title, "Portapapeles");
    assert_eq!(hit.preview, "pre");
    assert_eq!(hit.score, Some(50));
}

#[test]
fn a_capture_shows_its_label_and_file() {
    let c = CaptureEntry {
        path: "/caps/factura.png".to_string(),
        label: "mesa".to_string(),
        ocr_text: String::new(),
    };
    let hit = capture_search_hit("factura", &c).unwrap();
    assert_eq!(hit.id, "/caps/factura.png");
    assert_eq!(hit.title, "Captura mesa");
    assert_eq!(hit.preview, "factura.png");
    assert_eq!(hit.score, Some(100));
    let bare = CaptureEntry {
        path: "x.png".to_string(),
        label: String::new(),
        ocr_text: "texto leido".to_string(),
    };
    let hit = capture_search_hit("leido", &bare).unwrap();
    assert_eq!(hit.title, "Captura");
    assert_eq!(hit.preview, "texto leido");
}

#[test]
fn a_recording_matches_by_title() {
    let r = RecordingEntry {
        id: "r1".to_string(),
        title: "Reunión semanal".to_string(),
        started: "2024-05-01 10:00".to_string(),
    };
    let hit = recording_search_hit("reunion", &r).unwrap();
    assert_eq!(hit.kind, SearchHitKind::Recording);
    assert_eq!(hit.preview, "2024-05-01 10:00");
    assert!(recording_search_hit("xyz", &r).is_none());
}

#[test]
fn an_empty_query_finds_nothing() {
    let snippets = vec![snippet("s1", "a", "b", &[])];
    let hits = search_local("   ", &snippets, "a", &Vec::new(), &Vec::new(), &Vec::new());
    assert!(hits.is_empty());
}

#[test]
fn hits_are_ranked_by_score_then_title() {
    let snippets = vec![
        snippet("s1", "Zeta", "contiene casa", &[]),
        snippet("s2", "Beta", "casa grande", &[]),
        snippet("s3", "Alfa", "casa chica", &[]),
    ];
    let hits = search_local(" casa ", &snippets, "", &Vec::new(), &Vec::new(), &Vec::new());
    let ids: Vec<&str> = hits.iter().map(|h| h.id.as_str()).collect();
    assert_eq!(ids, vec!["s3", "s2", "s1"]);
}

#[test]
fn at_most_forty_hits_are_kept() {
    let snippets: Vec<Snippet> = (0..50)
        .map(|i| snippet(&format!("s{i}"), &format!("n{i:02}"), "uno", &[]))
        .collect();
    let hits = search_local("uno", &snippets, "", &Vec::new(), &Vec::new(), &Vec::new());
    assert_eq!(hits.len(), MAX_HITS);
    assert_eq!(hits[0].title, "n00");
}
