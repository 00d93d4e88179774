use atic_desktop::paste_queue::{paste_outcome, queued_preview, PasteOutcome, PasteQueue, MAX_ITEMS};

#[test]
fn a_text_is_pasted_only_when_a_window_can_take_it() {
    assert_eq!(paste_outcome(true), PasteOutcome::Pasted);
    assert_eq!(paste_outcome(false), PasteOutcome::Queued);
}

#[test]
fn queued_texts_come_out_oldest_first() {
    let mut q = PasteQueue::new();
    let a = q.enqueue("  primero ", 10).unwrap();
    assert_eq!(a.text, "primero");
    assert_eq!(a.created_at_ms, 10);
    assert_eq!(a.id.len(), 36);
    q.enqueue("segundo", 11).unwrap();
    assert_eq!(q.pop_front().as_deref(), Some("primero"));
    assert_eq!(q.pop_front().as_deref(), Some("segundo"));
    assert_eq!(q.pop_front(), None);
}

#[test]
fn a_blank_text_is_refused() {
    let mut q = PasteQueue::new();
    assert_eq!(q.enqueue("   ", 1).unwrap_err(), "Texto vacío");
    assert!(q.list().is_empty());
}

#[test]
fn the_queue_keeps_the_newest_items() {
    let mut q = PasteQueue::new();
    for i in 0..(MAX_ITEMS + 5) {
        q.enqueue(&format!("t{i}"), i as u64).unwrap();
    }
    let items = q.list();
    assert_eq!(items.len(), MAX_ITEMS);
    assert_eq!(items[0].text, "t5");
    assert_eq!(items[MAX_ITEMS - 1].text, format!("t{}", MAX_ITEMS + 4));
}

#[test]
fn ids_are_fresh() {
    let mut q = PasteQueue::new();
    let a = q.enqueue("a", 1).unwrap();
    let b = q.enqueue("b", 1).unwrap();
    assert_ne!(a.id, b.id);
}

#[test]
fn an_item_can_be_dismissed_by_id() {
    let mut q = PasteQueue::new();
    let a = q.enqueue("a", 1).unwrap();
    q.enqueue("b", 2).unwrap();
    assert!(q.dismiss(&a.id).is_ok());
    let left = q.list();
    assert_eq!(left.len(), 1);
    assert_eq!(left[0].text, "b");
    assert_eq!(q.dismiss(&a.id).unwrap_err(), "Ítem no encontrado");
    q.clear();
    assert!(q.list().is_empty());
}

#[test]
fn the_preview_is_cut_by_characters() {
    assert_eq!(queued_preview("corto"), "corto");
    let long: String = "ñ".repeat(130);
    assert_eq!(queued_preview(&long).chars().count(), 120);
}

#[test]
fn an_item_can_be_taken_to_paste_now() {
    let mut q = PasteQueue::new();
    q.enqueue("uno", 1).unwrap();
    let b = q.enqueue("dos", 2).unwrap();
    assert_eq!(q.take(&b.id), Ok("dos".to_string()));
    assert_eq!(q.list().len(), 1);
    assert_eq!(q.take(&b.id), Err("Ítem no encontrado".to_string()));
}
