use atic_desktop::notes::{app_slug, is_orphan_asset, legacy_key, Block, Frame, Note, Page};

fn zero() -> Frame {
    Frame { x: 0, y: 0, w: 0, h: 0 }
}

#[test]
fn el_slug_no_sale_de_la_carpeta() {
    assert_eq!(app_slug("../../etc/passwd"), "etc-passwd");
    assert_eq!(app_slug("chrome.exe"), "chrome.exe");
    assert_eq!(app_slug(""), "app");
    assert_eq!(app_slug("..."), "app");
}

#[test]
fn slug_is_cut_to_sixty_four_characters() {
    let long = "x".repeat(100);
    assert_eq!(app_slug(&long).chars().count(), 64);
    assert_eq!(app_slug("Mi App!"), "Mi-App");
}

#[test]
fn la_pagina_se_reusa_por_titulo() {
    let mut note = Note::new("code.exe", 0);
    let a = note.page_for_title("main.rs", 1);
    let b = note.page_for_title("main.rs", 2);
    let c = note.page_for_title("otro.rs", 3);
    assert_eq!(a, b);
    assert_ne!(a, c);
    assert_eq!(note.pages.len(), 2);
    assert_eq!(note.page_index(&c), Some(1));
    assert_eq!(note.page_for_title("  main.rs ", 4), a);
}

#[test]
fn el_texto_plano_no_pisa_imagenes() {
    let mut page = Page {
        id: "p".into(),
        title: String::new(),
        blocks: vec![
            Block::Text { id: "t".into(), body: "hola".into(), frame: zero() },
            Block::Image { id: "i".into(), asset: "img-1.png".into(), width: 10, height: 10, frame: zero() },
        ],
        updated_at: 0,
    };
    page.set_plain_text("chau", 5);
    assert_eq!(page.plain_text(), "chau");
    assert_eq!(page.blocks.len(), 2);
    assert!(matches!(page.blocks[1], Block::Image { .. }));
    assert_eq!(page.updated_at, 5);
}

#[test]
fn escribir_en_una_pagina_vacia_crea_el_bloque() {
    let mut page = Page { id: "p".into(), title: String::new(), blocks: Vec::new(), updated_at: 0 };
    page.set_plain_text("", 1);
    assert!(page.blocks.is_empty());
    page.set_plain_text("algo", 2);
    assert_eq!(page.plain_text(), "algo");
}

#[test]
fn later_text_blocks_fold_into_the_first() {
    let mut page = Page {
        id: "p".into(),
        title: String::new(),
        blocks: vec![
            Block::Text { id: "a".into(), body: "uno".into(), frame: zero() },
            Block::Text { id: "b".into(), body: "dos".into(), frame: zero() },
        ],
        updated_at: 0,
    };
    assert_eq!(page.plain_text(), "uno\n\ndos");
    page.set_plain_text("solo", 1);
    assert_eq!(page.blocks.len(), 1);
    assert_eq!(page.plain_text(), "solo");
}

#[test]
fn assets_no_page_names_are_orphans() {
    let mut note = Note::new("app", 0);
    let id = note.page_for_title("", 0);
    let i = note.page_index(&id).unwrap();
    note.pages[i].blocks.push(Block::Image { id: "i".into(), asset: "img-1.png".into(), width: 1, height: 1, frame: zero() });
    assert!(!is_orphan_asset(&note, "img-1.png"));
    assert!(is_orphan_asset(&note, "img-2.png"));
}

#[test]
fn old_keys_split_into_app_and_title() {
    assert_eq!(legacy_key("code.exe|main.rs"), ("code.exe".to_string(), "main.rs".to_string()));
    assert_eq!(legacy_key("code.exe"), ("code.exe".to_string(), String::new()));
    assert_eq!(legacy_key("a|b|c"), ("a".to_string(), "b|c".to_string()));
}

#[test]
fn a_folder_name_is_its_own_folder_name() {
    for app in ["../../etc/passwd", "chrome.exe", "...", "", "-_a b_-", "Código.exe", &"x".repeat(100)] {
        let once = app_slug(app);
        assert!(!once.is_empty() && once.chars().count() <= 64);
        assert!(!once.starts_with(['.', '-', '_']) && !once.ends_with(['.', '-', '_']));
        assert_eq!(app_slug(&once), once);
    }
    assert_eq!(app_slug("..."), "app");
}
