use std::cell::Cell;

use atic_desktop::app_icons::IconMemory;
use atic_desktop::lyrics::{media_lyrics, pick, LyricsHit};

fn hit(duration_ms: u64, lyrics: Option<&str>) -> LyricsHit {
    LyricsHit { duration_ms: Some(duration_ms), synced_lyrics: lyrics.map(str::to_string) }
}

#[test]
fn elige_la_version_de_duracion_mas_cercana() {
    let hits = vec![
        hit(200_000, Some("[00:01.00]lejos")),
        hit(181_000, Some("[00:01.00]cerca")),
        hit(180_000, None),
    ];
    assert_eq!(pick(&hits, Some(180_400)).as_deref(), Some("[00:01.00]cerca"));
}

#[test]
fn descarta_versiones_de_otra_duracion_o_sin_letra() {
    let hits = vec![hit(240_000, Some("[00:01.00]en vivo")), hit(180_000, Some("  "))];
    assert_eq!(pick(&hits, Some(180_000)), None);
}

#[test]
fn the_first_of_the_closest_wins_and_no_duration_matches_all() {
    let hits = vec![hit(181_000, Some("a")), hit(179_000, Some("b"))];
    assert_eq!(pick(&hits, Some(180_000)).as_deref(), Some("a"));
    assert_eq!(pick(&hits, None).as_deref(), Some("a"));
    assert_eq!(pick(&Vec::new(), None), None);
}

#[test]
fn answers_are_remembered_but_errors_are_not() {
    let mut cache = IconMemory::new();
    let calls = Cell::new(0);
    let search = |t: &str, a: &str| {
        calls.set(calls.get() + 1);
        assert_eq!((t, a), ("Tema", "Artista"));
        Ok(vec![hit(100_000, Some("[00:00.00]la"))])
    };
    let first = media_lyrics(&mut cache, " Tema ", " Artista", Some(100_500), search);
    assert_eq!(first.unwrap().as_deref(), Some("[00:00.00]la"));
    let again = media_lyrics(&mut cache, "Tema", "Artista", Some(100_900), search);
    assert_eq!(again.unwrap().as_deref(), Some("[00:00.00]la"));
    assert_eq!(calls.get(), 1);
    assert_eq!(cache.entries[0].0, "Tema\u{1}Artista\u{1}100");

    let failing = |_: &str, _: &str| -> Result<Vec<LyricsHit>, String> { Err("sin red".to_string()) };
    assert_eq!(media_lyrics(&mut cache, "Otro", "", None, failing), Err("sin red".to_string()));
    assert_eq!(cache.entries.len(), 1);
    assert_eq!(media_lyrics(&mut cache, "   ", "x", None, failing), Ok(None));
}
