use std::cell::Cell;

use atic_desktop::launcher_icons::{icon_data_url, uwp_icon_data_url, IconCache};

#[test]
fn found_icons_are_remembered_by_lowercase_path() {
    let mut cache = IconCache::new();
    let calls = Cell::new(0);
    let found = || {
        calls.set(calls.get() + 1);
        Some("data:image/png;base64,AA".to_string())
    };
    assert_eq!(icon_data_url(&mut cache, "C:\\Apps\\X.lnk", found).as_deref(), Some("data:image/png;base64,AA"));
    assert_eq!(icon_data_url(&mut cache, "c:\\apps\\x.lnk", found).as_deref(), Some("data:image/png;base64,AA"));
    assert_eq!(calls.get(), 1);
}

#[test]
fn failures_are_tried_again() {
    let mut cache = IconCache::new();
    let calls = Cell::new(0);
    let missing = || {
        calls.set(calls.get() + 1);
        None
    };
    assert_eq!(icon_data_url(&mut cache, "a.lnk", missing), None);
    assert_eq!(icon_data_url(&mut cache, "a.lnk", missing), None);
    assert_eq!(calls.get(), 2);
    assert!(cache.entries.is_empty());
}

#[test]
fn packaged_apps_have_their_own_keys() {
    let mut cache = IconCache::new();
    uwp_icon_data_url(&mut cache, "Microsoft.Photos!App", || Some("p".to_string()));
    assert_eq!(cache.entries[0].0, "uwp:microsoft.photos!app");
    assert_eq!(icon_data_url(&mut cache, "Microsoft.Photos!App", || None), None);
}
