use atic_desktop::fuzzy::{is_subsequence, within_one_edit};
use atic_desktop::launcher::{
    action_route, apps_folder_target, assemble_index, aumid_valido, builtin_actions, entry_score,
    find_entry, hit_from_entry, list_favorites, merge_unique_apps, normalize, score_match,
    search_index, should_skip_app_name, sort_by_title, toggle_favorite, EntryTarget, IndexState,
    LauncherAction, LauncherEntry, LauncherKind, FAVORITES_LIMIT,
};

fn app(id: &str, title: &str) -> LauncherEntry {
    LauncherEntry {
        id: id.to_string(),
        kind: LauncherKind::App,
        title: title.to_string(),
        subtitle: "Aplicación".to_string(),
        target: EntryTarget::Path(format!("{title}.lnk")),
    }
}

#[test]
fn exact_and_prefix_outrank_typos() {
    assert_eq!(score_match("chrome", "Google Chrome"), Some(50));
    assert_eq!(score_match("goo", "Google Chrome"), Some(100));
}

#[test]
fn tolerates_one_letter_typo() {
    assert_eq!(score_match("chreme", "Chrome"), Some(40));
    assert_eq!(score_match("chromee", "Chrome"), Some(40));
    assert_eq!(score_match("chrom", "Chrome"), Some(100));
    assert_eq!(score_match("dicatr", "Dictar"), Some(40));
    assert_eq!(score_match("chorme", "Chrome"), Some(40));
}

#[test]
fn subsequence_helper_matches_gapped_chars() {
    let q: Vec<char> = "cme".chars().collect();
    let h: Vec<char> = "chrome".chars().collect();
    assert!(is_subsequence(&q, &h));
    assert!(!is_subsequence(&"cmx".chars().collect::<Vec<_>>(), &h));
}

#[test]
fn rejects_unrelated() {
    assert_eq!(score_match("zzzz", "Chrome"), None);
}

#[test]
fn un_aumid_raro_no_llega_al_shell() {
    assert!(aumid_valido("Microsoft.WindowsTerminal_8wekyb3d8bbwe!App"));
    assert!(!aumid_valido(""));
    assert!(!aumid_valido("\\raro"));
    assert!(!aumid_valido("con\ncontrol"));
    assert!(!aumid_valido("nul\0"));
}

#[test]
fn el_apps_folder_no_duplica_lo_que_ya_trae_el_menu_inicio() {
    let lnk = |title: &str| LauncherEntry {
        id: format!("app:{title}.lnk"),
        kind: LauncherKind::App,
        title: title.into(),
        subtitle: "Aplicación".into(),
        target: EntryTarget::Path(format!("{title}.lnk")),
    };
    let uwp = |title: &str| LauncherEntry {
        id: format!("uwp:{title}!App"),
        kind: LauncherKind::App,
        title: title.into(),
        subtitle: "Aplicación".into(),
        target: EntryTarget::Aumid(format!("{title}!App")),
    };
    let mut apps = vec![lnk("Terminal"), lnk("Outlook (classic)")];
    merge_unique_apps(&mut apps, vec![uwp("Términal"), uwp("Outlook"), uwp("WhatsApp")]);
    let ids: Vec<&str> = apps.iter().map(|e| e.id.as_str()).collect();
    assert_eq!(
        ids,
        vec!["app:Terminal.lnk", "app:Outlook (classic).lnk", "uwp:Outlook!App", "uwp:WhatsApp!App",]
    );
}

#[test]
fn apps_score_title_only() {
    let app = LauncherEntry {
        id: "app:chrome".into(),
        kind: LauncherKind::App,
        title: "Chrome".into(),
        subtitle: "Aplicación".into(),
        target: EntryTarget::Path("chrome.lnk".to_string()),
    };
    assert_eq!(entry_score("pli", &app), None);
    assert_eq!(entry_score("chro", &app), Some(100));

    let action = LauncherEntry {
        id: "action:capture".into(),
        kind: LauncherKind::Action,
        title: "Capturar pantalla".into(),
        subtitle: "Seleccionar ventana, región o monitor".into(),
        target: EntryTarget::Action("capture".to_string()),
    };
    assert_eq!(entry_score("ventana", &action), Some(65));
}

#[test]
fn normalize_lowers_and_folds_accents() {
    assert_eq!(normalize("Árbol Ñandú"), "arbol nandu");
}

#[test]
fn one_edit_covers_each_kind_of_typo() {
    let c = |s: &str| s.chars().collect::<Vec<char>>();
    assert!(within_one_edit(&c("chrome"), &c("chreme")));
    assert!(within_one_edit(&c("chrome"), &c("chorme")));
    assert!(within_one_edit(&c("chrome"), &c("chrom")));
    assert!(!within_one_edit(&c("chrome"), &c("cheerm")));
}

#[test]
fn uninstallers_are_not_indexed() {
    assert!(should_skip_app_name("Uninstall Foo"));
    assert!(should_skip_app_name("Desinstalar Bar"));
    assert!(should_skip_app_name("Foo uninstall helper"));
    assert!(should_skip_app_name("desktop.ini"));
    assert!(!should_skip_app_name("Chrome"));
}

#[test]
fn builtin_actions_follow_language_and_agents_switch() {
    let es = builtin_actions(false, true);
    assert_eq!(es.len(), 7);
    assert_eq!(es[0].title, "Dictar");
    assert_eq!(es[5].id, "action:agents");
    let en = builtin_actions(true, false);
    assert_eq!(en.len(), 6);
    assert_eq!(en[0].title, "Dictate");
    assert!(en.iter().all(|e| e.id != "action:agents"));
    assert_eq!(en[5].id, "action:settings");
}

#[test]
fn hit_rows_name_apps_in_the_interface_language() {
    let e = app("app:x", "X");
    assert_eq!(hit_from_entry(&e, false).subtitle, "Aplicación");
    assert_eq!(hit_from_entry(&e, true).subtitle, "Application");
    assert_eq!(hit_from_entry(&e, true).score, None);
}

#[test]
fn search_ranks_by_score_then_title() {
    let index = vec![app("app:b", "Google Chrome"), app("app:a", "Chrome"), app("app:c", "Chromium")];
    let hits = search_index(&index, "  chrom ", false);
    let ids: Vec<&str> = hits.iter().map(|h| h.id.as_str()).collect();
    assert_eq!(ids, vec!["app:a", "app:c", "app:b"]);
    assert_eq!(hits[0].score, Some(100));
    assert_eq!(hits[2].score, Some(50));
    assert!(search_index(&index, "   ", false).is_empty());
}

#[test]
fn search_keeps_at_most_the_limit() {
    let index: Vec<LauncherEntry> = (0..30).map(|i| app(&format!("app:{i}"), &format!("Tool {i:02}"))).collect();
    let hits = search_index(&index, "tool", true);
    assert_eq!(hits.len(), 24);
    assert_eq!(hits[0].title, "Tool 00");
}

#[test]
fn favorites_toggle_refuses_blank_and_unknown_ids() {
    let index = vec![app("app:a", "A")];
    let mut favs: Vec<String> = Vec::new();
    assert_eq!(toggle_favorite(&mut favs, &index, "  "), Err("id vacío".to_string()));
    assert_eq!(toggle_favorite(&mut favs, &index, "app:z"), Err("resultado no encontrado".to_string()));
    assert!(favs.is_empty());
}

#[test]
fn favorites_toggle_adds_then_removes_and_keeps_the_last_eight() {
    let index: Vec<LauncherEntry> = (0..10).map(|i| app(&format!("app:{i}"), &format!("App {i}"))).collect();
    let mut favs: Vec<String> = Vec::new();
    assert_eq!(toggle_favorite(&mut favs, &index, "app:0"), Ok(vec!["app:0".to_string()]));
    assert_eq!(toggle_favorite(&mut favs, &index, "app:0"), Ok(vec![]));
    for i in 0..10 {
        toggle_favorite(&mut favs, &index, &format!("app:{i}")).unwrap();
    }
    assert_eq!(favs.len(), FAVORITES_LIMIT);
    assert_eq!(favs[0], "app:2");
    assert_eq!(favs[7], "app:9");
}

#[test]
fn favorites_list_skips_ids_no_longer_indexed() {
    let index = vec![app("app:a", "A"), app("app:b", "B")];
    let ids = vec!["app:b".to_string(), "app:gone".to_string(), "app:a".to_string()];
    let hits = list_favorites(&index, &ids, false);
    let got: Vec<&str> = hits.iter().map(|h| h.id.as_str()).collect();
    assert_eq!(got, vec!["app:b", "app:a"]);
    assert_eq!(find_entry(&index, "app:b"), Some(1));
}

#[test]
fn actions_route_and_unknown_ones_are_reported() {
    assert_eq!(action_route("capture"), Ok(LauncherAction::Capture));
    assert_eq!(action_route("settings"), Ok(LauncherAction::Settings));
    assert_eq!(action_route("volar"), Err("acción desconocida: volar".to_string()));
}

#[test]
fn packaged_apps_open_through_the_apps_folder() {
    assert_eq!(
        apps_folder_target("Microsoft.WindowsTerminal_8wekyb3d8bbwe!App"),
        Ok("shell:AppsFolder\\Microsoft.WindowsTerminal_8wekyb3d8bbwe!App".to_string())
    );
    assert_eq!(apps_folder_target("\\raro"), Err("identificador de app inválido".to_string()));
}

#[test]
fn apps_are_sorted_by_lowercase_title_stably() {
    let sorted = sort_by_title(vec![app("1", "zeta"), app("2", "Alpha"), app("3", "alpha"), app("4", "Beta")]);
    let ids: Vec<&str> = sorted.iter().map(|e| e.id.as_str()).collect();
    assert_eq!(ids, vec!["2", "3", "4", "1"]);
}

#[test]
fn the_index_puts_actions_first_then_sorted_apps() {
    let index = assemble_index(false, false, vec![app("app:z", "Zoom"), app("app:a", "Acrobat")], vec![app("uwp:zoom", "zoom")]);
    assert_eq!(index.len(), 6 + 2);
    assert_eq!(index[6].id, "app:a");
    assert_eq!(index[7].id, "app:z");
}

#[test]
fn rebuilds_coalesce_while_one_runs() {
    let mut s = IndexState::new();
    assert!(s.start_indexing(true, 1_000));
    assert!(s.english);
    assert!(!s.refresh_language(false, 1_001));
    assert!(s.rebuild_again);
    assert!(s.build_finished(1_002));
    assert!(!s.build_finished(1_003));
    assert!(!s.rebuilding);
    assert!(!s.maybe_refresh(1_030));
    assert!(s.maybe_refresh(1_063));
    assert!(!s.float_open());
}
