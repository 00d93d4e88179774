use atic_desktop::ole_text_drag::{
    drag_files, drag_outcome, drag_unicode_text, filetime_to_unix_ms, hdrop_bytes,
    query_continue_drag, requested_format, unicode_text_bytes, DragError, DragOutcome,
    DragPayload, CF_HDROP, CF_LOCALE, CF_OEMTEXT, CF_TEXT, CF_UNICODETEXT, DRAGDROP_S_CANCEL,
    DRAGDROP_S_DROP, S_OK,
};

#[test]
fn the_system_answer_is_read() {
    assert_eq!(drag_outcome(DRAGDROP_S_DROP, 1), Ok(DragOutcome { dropped: true, effect: 1 }));
    assert_eq!(drag_outcome(DRAGDROP_S_CANCEL, 0), Ok(DragOutcome { dropped: false, effect: 0 }));
    assert_eq!(drag_outcome(S_OK, 0), Ok(DragOutcome { dropped: false, effect: 0 }));
    assert_eq!(drag_outcome(-2147467259, 0), Err(-2147467259));
}

#[test]
fn empty_drags_are_refused() {
    let never = |_: &DragPayload| -> (i32, u32) { panic!("no drag expected") };
    assert!(matches!(drag_unicode_text("", never), Err(DragError::Refused(ref m)) if m == "texto vacío"));
    assert!(matches!(drag_files(&Vec::new(), never), Err(DragError::Refused(ref m)) if m == "sin archivos que arrastrar"));
}

#[test]
fn text_is_dragged_as_text() {
    let run = |p: &DragPayload| -> (i32, u32) {
        match p {
            DragPayload::Text(t) if t == "hola" => (DRAGDROP_S_DROP, 1),
            _ => (0, 0),
        }
    };
    assert!(matches!(drag_unicode_text("hola", run), Ok(DragOutcome { dropped: true, effect: 1 })));
    let files = vec!["/tmp/a.png".to_string()];
    let fail = |_: &DragPayload| -> (i32, u32) { (-1, 0) };
    assert!(matches!(drag_files(&files, fail), Err(DragError::Failed(-1))));
}

#[test]
fn unicode_is_offered_before_ansi() {
    let text = DragPayload::Text("x".to_string());
    assert_eq!(text.formats(), vec![CF_UNICODETEXT, CF_TEXT, CF_OEMTEXT, CF_LOCALE]);
    let files = DragPayload::Files(vec!["a".to_string()]);
    assert_eq!(files.formats(), vec![CF_HDROP]);
    let offered = text.formats();
    assert_eq!(requested_format(1, 1, CF_TEXT, &offered), Some(CF_TEXT));
    assert_eq!(requested_format(4, 1, CF_TEXT, &offered), None);
    assert_eq!(requested_format(1, 2, CF_TEXT, &offered), None);
    assert_eq!(requested_format(1, 1, CF_HDROP, &offered), None);
}

#[test]
fn releasing_over_the_agents_cancels() {
    assert_eq!(query_continue_drag(true, 1, false), DRAGDROP_S_CANCEL);
    assert_eq!(query_continue_drag(false, 0, false), DRAGDROP_S_DROP);
    assert_eq!(query_continue_drag(false, 0, true), DRAGDROP_S_CANCEL);
    assert_eq!(query_continue_drag(false, 1, true), S_OK);
}

#[test]
fn text_and_file_lists_are_utf16() {
    let expected: Vec<u8> = "añ😀".encode_utf16().chain([0]).flat_map(|u| u.to_le_bytes()).collect();
    assert_eq!(unicode_text_bytes("añ😀"), expected);
    let paths = vec!["C:\\a.png".to_string(), "b".to_string()];
    let bytes = hdrop_bytes(&paths);
    assert_eq!(&bytes[..20], &[20, 0, 0, 0, 0, 0, 0, 0, 0, 0, 0, 0, 0, 0, 0, 0, 1, 0, 0, 0]);
    let mut units: Vec<u16> = "C:\\a.png".encode_utf16().collect();
    units.push(0);
    units.extend("b".encode_utf16());
    units.push(0);
    units.push(0);
    let tail: Vec<u8> = units.iter().flat_map(|u| u.to_le_bytes()).collect();
    assert_eq!(&bytes[20..], &tail[..]);
}

#[test]
fn file_times_count_from_1970() {
    let ticks: u64 = 116_444_736_000_000_000 + 15_000_000;
    assert_eq!(filetime_to_unix_ms((ticks >> 32) as u32, ticks as u32), 1_500);
    assert_eq!(filetime_to_unix_ms(0, 5), 0);
}
