use atic_desktop::retention::{
    auto_cleanup_days, cleanup_gate, effective_days, outside_reason, preview, RecordingAge,
    RetentionCleanupResult, DAY_NANOS, MAX_DAYS,
};

fn rec(id: &str, started_nanos: i64, bytes: u64) -> RecordingAge {
    RecordingAge {
        id: id.to_string(),
        title: format!("t-{id}"),
        started_at: String::new(),
        started_nanos,
        bytes,
    }
}

#[test]
fn the_requested_period_wins_and_is_capped() {
    assert_eq!(effective_days(Some(7), 30), 7);
    assert_eq!(effective_days(None, 30), 30);
    assert_eq!(effective_days(Some(99_999), 30), MAX_DAYS);
    assert_eq!(effective_days(None, 99_999), MAX_DAYS);
}

#[test]
fn the_preview_lists_what_is_older_than_the_period() {
    let now = 100 * DAY_NANOS;
    let recs = vec![
        rec("old", now - 10 * DAY_NANOS, 5),
        rec("new", now - DAY_NANOS, 7),
        rec("older", now - 40 * DAY_NANOS, u64::MAX),
    ];
    let p = preview(7, now, &recs);
    assert_eq!(p.days, 7);
    assert_eq!(p.count, 2);
    assert_eq!(p.items[0].id, "old");
    assert_eq!(p.items[1].id, "older");
    // The total saturates instead of wrapping.
    assert_eq!(p.bytes, u64::MAX);
}

#[test]
fn a_period_of_zero_deletes_nothing() {
    let recs = vec![rec("a", 0, 5)];
    let p = preview(0, 100 * DAY_NANOS, &recs);
    assert_eq!(p.count, 0);
    assert_eq!(p.bytes, 0);
    assert!(p.items.is_empty());
}

#[test]
fn a_cleanup_needs_confirmation_and_quiet() {
    assert_eq!(
        cleanup_gate(false, false, false, false).unwrap_err(),
        "La limpieza requiere confirmación explícita."
    );
    assert_eq!(
        cleanup_gate(true, true, true, false).unwrap_err(),
        "Finish recording or dictation before cleaning data."
    );
    assert!(cleanup_gate(true, true, false, false).is_ok());
}

#[test]
fn the_automatic_cleanup_runs_only_with_a_period() {
    assert_eq!(auto_cleanup_days(true, 30), Some(30));
    assert_eq!(auto_cleanup_days(true, 0), None);
    assert_eq!(auto_cleanup_days(false, 30), None);
}

#[test]
fn the_result_counts_deletions_and_errors() {
    let mut r = RetentionCleanupResult::new();
    r.record_deleted(10);
    r.record_deleted(u64::MAX);
    r.record_error("Reunión", outside_reason());
    assert_eq!(r.deleted, 2);
    assert_eq!(r.bytes_freed, u64::MAX);
    assert_eq!(r.errors, vec!["Reunión: ruta fuera del directorio permitido".to_string()]);
}
