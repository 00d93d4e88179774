use atic_desktop::snippets::{
    delete_note, delete_snippet, derive_title, list_notes, list_snippets, prepare_snippet,
    save_note, set_scratchpad, snippet_to_paste, upsert_snippet, Note, Scratchpad, Snippet,
    TITLE_MAX,
};

fn snip(id: &str, name: &str, body: &str, at: u64) -> Snippet {
    Snippet { id: id.into(), name: name.into(), body: body.into(), aliases: vec![], updated_at_ms: at }
}

#[test]
fn titulo_usa_la_primera_linea_con_contenido() {
    assert_eq!(derive_title("  \n\n  Comprar pan\nmás cosas"), "Comprar pan");
}

#[test]
fn titulo_de_cuerpo_vacio_no_queda_en_blanco() {
    assert_eq!(derive_title("   \n \n"), "Nota sin título");
}

#[test]
fn titulo_largo_se_corta_con_puntos_suspensivos() {
    let largo = "a".repeat(TITLE_MAX + 20);
    let titulo = derive_title(&largo);
    assert_eq!(titulo.chars().count(), TITLE_MAX);
    assert!(titulo.ends_with('…'));
}

#[test]
fn titulo_corta_por_caracteres_no_por_bytes() {
    let largo = "á".repeat(TITLE_MAX + 5);
    let titulo = derive_title(&largo);
    assert_eq!(titulo.chars().count(), TITLE_MAX);
}

#[test]
fn title_of_exactly_the_limit_is_kept_whole() {
    let exacto = "b".repeat(TITLE_MAX);
    assert_eq!(derive_title(&exacto), exacto);
    assert_eq!(derive_title("\r\n  hola \r\nchau"), "hola");
}

#[test]
fn a_snippet_without_name_is_refused() {
    let s = snip("", "   ", "cuerpo", 0);
    assert_eq!(prepare_snippet(&s, 5).err(), Some("El nombre no puede estar vacío".to_string()));
    let mut items = vec![snip("x", "X", "b", 1)];
    assert!(upsert_snippet(&mut items, s, 5).is_err());
    assert_eq!(items.len(), 1);
}

#[test]
fn a_snippet_is_cleaned_before_it_is_stored() {
    let mut s = snip("", "  Firma  ", "Saludos  \n\n", 0);
    s.aliases = vec![" fir ".into(), "   ".into(), "sig".into()];
    let p = prepare_snippet(&s, 42).unwrap();
    assert_eq!(p.name, "Firma");
    assert_eq!(p.body, "Saludos");
    assert_eq!(p.aliases, vec!["fir".to_string(), "sig".to_string()]);
    assert_eq!(p.updated_at_ms, 42);
}

#[test]
fn upsert_creates_with_a_fresh_id_and_updates_in_place() {
    let mut items: Vec<Snippet> = Vec::new();
    let created = upsert_snippet(&mut items, snip(" ", "Uno", "1", 0), 10).unwrap();
    assert_eq!(created.id.len(), 36);
    assert_eq!(created.id.chars().filter(|c| *c == '-').count(), 4);
    assert_eq!(items.len(), 1);
    let again = upsert_snippet(&mut items, snip(&created.id, "Uno bis", "2", 0), 20).unwrap();
    assert_eq!(again.id, created.id);
    assert_eq!(items.len(), 1);
    assert_eq!(items[0].name, "Uno bis");
    assert_eq!(items[0].updated_at_ms, 20);
    upsert_snippet(&mut items, snip("otro", "Dos", "3", 0), 30).unwrap();
    assert_eq!(items.len(), 2);
    assert_eq!(items[1].id, "otro");
}

#[test]
fn deleting_and_pasting_report_missing_snippets() {
    let mut items = vec![snip("a", "A", "", 1), snip("b", "B", "texto", 2)];
    assert_eq!(snippet_to_paste(&items, "zz"), Err("Fragmento no encontrado".to_string()));
    assert_eq!(snippet_to_paste(&items, "a"), Err("El fragmento está vacío".to_string()));
    assert_eq!(snippet_to_paste(&items, "b"), Ok("texto".to_string()));
    assert!(delete_snippet(&mut items, "zz").is_err());
    assert_eq!(delete_snippet(&mut items, "a").unwrap().name, "A");
    assert_eq!(items.len(), 1);
}

#[test]
fn snippets_and_notes_list_newest_first_ties_in_order() {
    let items = vec![snip("a", "A", "", 5), snip("b", "B", "", 9), snip("c", "C", "", 5)];
    let ids: Vec<String> = list_snippets(&items).into_iter().map(|s| s.id).collect();
    assert_eq!(ids, vec!["b", "a", "c"]);
    let notes = vec![
        Note { id: "n1".into(), title: "t".into(), body: "b".into(), updated_at_ms: 1 },
        Note { id: "n2".into(), title: "t".into(), body: "b".into(), updated_at_ms: 3 },
    ];
    let ids: Vec<String> = list_notes(&notes).into_iter().map(|n| n.id).collect();
    assert_eq!(ids, vec!["n2", "n1"]);
}

#[test]
fn notes_save_replace_and_delete() {
    let mut notes: Vec<Note> = Vec::new();
    assert!(save_note(&mut notes, None, "   ".into(), 7).is_none());
    assert!(notes.is_empty());
    let n = save_note(&mut notes, None, "Lista\nleche".into(), 1234).unwrap();
    assert_eq!(n.id, "note-1234");
    assert_eq!(n.title, "Lista");
    let m = save_note(&mut notes, Some("note-1234".into()), "Otra\ncosa".into(), 2000).unwrap();
    assert_eq!(m.id, "note-1234");
    assert_eq!(notes.len(), 1);
    assert_eq!(notes[0].title, "Otra");
    let k = save_note(&mut notes, Some("nope".into()), "Nueva".into(), 0).unwrap();
    assert_eq!(k.id, "note-0");
    assert_eq!(notes.len(), 2);
    delete_note(&mut notes, "note-1234");
    assert_eq!(notes.len(), 1);
    assert_eq!(notes[0].id, "note-0");
}

#[test]
fn the_scratchpad_keeps_its_body_and_stamp() {
    let pad = set_scratchpad("hola".into(), 99);
    assert_eq!(pad.body, "hola");
    assert_eq!(pad.updated_at_ms, 99);
    let empty = Scratchpad::default();
    assert_eq!(empty.body, "");
    assert_eq!(empty.updated_at_ms, 0);
}
