use clipboard_core::commands::{
    clean_old_items_at, clear_clipboard, copy, copy_at, copy_target, delete_clipboard_item,
    get_clipboard_history, get_system_data, CopyPayload,
};
use clipboard_core::errors::CommandError;
use clipboard_core::ledger::Ledger;
use clipboard_core::models::RawImage;
use clipboard_core::notify::Notifier;
use clipboard_core::resolver::{
    handle_clipboard_change, observe_image, observe_text, ClipboardEvent, ResolvedAction,
};
use clipboard_core::store::ContentStore;

fn text_ledger(entries: &[(&str, i64)]) -> (Ledger, Notifier) {
    let mut ledger = Ledger::new();
    let mut notifier = Notifier::new();
    for (text, ts) in entries {
        observe_text(&mut ledger, &mut notifier, text.to_string(), *ts, None);
    }
    (ledger, notifier)
}

fn solid_image(byte: u8, width: u32, height: u32) -> RawImage {
    RawImage {
        rgba: vec![byte; (4 * width * height) as usize],
        width,
        height,
    }
}

#[test]
fn scenario_repeat_text_keeps_one_row() {
    let mut ledger = Ledger::new();
    let mut notifier = Notifier::new();

    let a1 = observe_text(&mut ledger, &mut notifier, "hello".to_string(), 1_000, None);
    assert_eq!(a1, ResolvedAction::Inserted { id: 1 });
    let history = get_clipboard_history(&ledger);
    assert_eq!(history.len(), 1);
    assert_eq!(history[0].text.as_deref(), Some("hello"));
    assert_eq!(history[0].image, None);
    assert_eq!(history[0].timestamp, 1_000);

    let a2 = observe_text(&mut ledger, &mut notifier, "hello".to_string(), 6_000, None);
    assert_eq!(a2, ResolvedAction::Touched { prev_timestamp: 1_000 });
    let history = get_clipboard_history(&ledger);
    assert_eq!(history.len(), 1);
    assert_eq!(history[0].timestamp, 6_000);
    assert_eq!(history[0].id, 1);
}

#[test]
fn dedup_text_many_copies_one_row() {
    let mut ledger = Ledger::new();
    let mut notifier = Notifier::new();
    for k in 0..5i64 {
        observe_text(&mut ledger, &mut notifier, "again".to_string(), 100 + k, None);
    }
    let history = get_clipboard_history(&ledger);
    assert_eq!(history.len(), 1);
    assert_eq!(history[0].timestamp, 104);
    assert_eq!(history[0].size_bytes, 5);
    assert_eq!(notifier.count, 5);
}

#[test]
fn text_size_is_byte_length() {
    let mut ledger = Ledger::new();
    let mut notifier = Notifier::new();
    observe_text(&mut ledger, &mut notifier, "h\u{e9}llo".to_string(), 1, None);
    let history = get_clipboard_history(&ledger);
    assert_eq!(history[0].size_bytes, 6);
}

#[test]
fn empty_text_is_valid_content() {
    let mut ledger = Ledger::new();
    let mut notifier = Notifier::new();
    observe_text(&mut ledger, &mut notifier, String::new(), 42, None);
    let history = get_clipboard_history(&ledger);
    assert_eq!(history.len(), 1);
    assert_eq!(history[0].text.as_deref(), Some(""));
    assert_eq!(history[0].size_bytes, 0);
}

#[test]
fn history_is_ordered_newest_first() {
    let (ledger, _) = text_ledger(&[("a", 300), ("b", 100), ("c", 200), ("d", 300)]);
    let history = get_clipboard_history(&ledger);
    let view: Vec<(i64, &str)> = history
        .iter()
        .map(|it| (it.timestamp, it.text.as_deref().unwrap()))
        .collect();
    // equal timestamps keep id order: "a" (id 1) before "d" (id 4)
    assert_eq!(view, vec![(300, "a"), (300, "d"), (200, "c"), (100, "b")]);
}

#[test]
fn rows_hold_exactly_one_modality() {
    let mut ledger = Ledger::new();
    let mut notifier = Notifier::new();
    let mut store = ContentStore::new();
    observe_text(&mut ledger, &mut notifier, "words".to_string(), 1, None);
    observe_image(&mut ledger, &mut notifier, &mut store, &solid_image(7, 2, 2), 2, None)
        .unwrap();
    for it in get_clipboard_history(&ledger) {
        assert!(it.text.is_some() != it.image.is_some());
        assert_eq!(it.image_width.is_some(), it.image.is_some());
        assert_eq!(it.image_height.is_some(), it.image.is_some());
    }
}

#[test]
fn scenario_purge_removes_only_old_rows() {
    let now: i64 = 1_700_000_000_000;
    let ten_days_ago = now - 10 * 24 * 60 * 60 * 1000;
    let one_hour_ago = now - 60 * 60 * 1000;
    let (mut ledger, mut notifier) = text_ledger(&[("old", ten_days_ago), ("new", one_hour_ago)]);

    let before = notifier.count;
    let cutoff = clean_old_items_at(&mut ledger, &mut notifier, 7, now);
    assert_eq!(cutoff, now - 7 * 24 * 60 * 60 * 1000);
    assert_eq!(notifier.count, before + 1);

    let history = get_clipboard_history(&ledger);
    assert_eq!(history.len(), 1);
    assert_eq!(history[0].text.as_deref(), Some("new"));
}

#[test]
fn scenario_copy_bumps_row_to_top() {
    let (mut ledger, mut notifier) = text_ledger(&[("first", 100), ("second", 200)]);
    let history = get_clipboard_history(&ledger);
    assert_eq!(history[0].text.as_deref(), Some("second"));
    let first_id = history[1].id;

    match copy_target(&ledger, first_id) {
        Ok(CopyPayload::Text(s)) => assert_eq!(s, "first"),
        other => panic!("unexpected copy target: {:?}", other.is_ok()),
    }

    let before = notifier.count;
    let ts = copy_at(&mut ledger, &mut notifier, first_id, 900).unwrap();
    assert_eq!(ts, 900);
    assert_eq!(notifier.count, before + 1);

    let history = get_clipboard_history(&ledger);
    assert_eq!(history[0].id, first_id);
    assert_eq!(history[0].timestamp, 900);
    assert_eq!(history.len(), 2);
}

#[test]
fn copy_with_wall_clock_reports_new_timestamp() {
    let (mut ledger, mut notifier) = text_ledger(&[("note", 100)]);
    let id = get_clipboard_history(&ledger)[0].id;
    let ts = copy(&mut ledger, &mut notifier, id).unwrap();
    let history = get_clipboard_history(&ledger);
    assert_eq!(history[0].timestamp, ts);
}

#[test]
fn copy_of_unknown_id_fails_and_changes_nothing() {
    let (mut ledger, mut notifier) = text_ledger(&[("only", 100)]);
    let before = notifier.count;
    assert_eq!(
        copy_at(&mut ledger, &mut notifier, 99, 500),
        Err(CommandError::NotFound)
    );
    assert_eq!(copy_target(&ledger, 99).is_ok(), false);
    assert_eq!(notifier.count, before);
    assert_eq!(get_clipboard_history(&ledger)[0].timestamp, 100);
}

#[test]
fn delete_removes_one_row_and_notifies() {
    let (mut ledger, mut notifier) = text_ledger(&[("keep", 100), ("drop", 200)]);
    let drop_id = get_clipboard_history(&ledger)[0].id;
    let before = notifier.count;
    assert!(delete_clipboard_item(&mut ledger, &mut notifier, drop_id));
    assert_eq!(notifier.count, before + 1);
    let history = get_clipboard_history(&ledger);
    assert_eq!(history.len(), 1);
    assert_eq!(history[0].text.as_deref(), Some("keep"));

    assert!(!delete_clipboard_item(&mut ledger, &mut notifier, drop_id));
    assert_eq!(notifier.count, before + 2);
}

#[test]
fn clear_empties_history_and_notifies_once() {
    let (mut ledger, mut notifier) = text_ledger(&[("a", 1), ("b", 2)]);
    let before = notifier.count;
    clear_clipboard(&mut ledger, &mut notifier);
    assert_eq!(notifier.count, before + 1);
    assert!(get_clipboard_history(&ledger).is_empty());
}

#[test]
fn usage_stats_sum_sizes_and_location() {
    let (ledger, _) = text_ledger(&[("abc", 1), ("de", 2)]);
    let data = get_system_data(&ledger, "/data/clipboard.db".to_string());
    assert_eq!(data.size_bytes, 5);
    assert_eq!(data.db_path, "/data/clipboard.db");
}

#[test]
fn scenario_combined_change_gives_two_decisions_and_notifications() {
    let mut ledger = Ledger::new();
    let mut notifier = Notifier::new();
    let mut store = ContentStore::new();
    let event = ClipboardEvent {
        text: Some("both".to_string()),
        image: Some(solid_image(9, 4, 4)),
    };
    let before = notifier.count;
    let out = handle_clipboard_change(&mut ledger, &mut notifier, &mut store, event, 50, None);
    assert_eq!(out.text_action, Some(ResolvedAction::Inserted { id: 1 }));
    assert!(matches!(out.image_action, Some(Ok(ResolvedAction::Inserted { id: 2 }))));
    assert!(out.pending_write.is_some());
    assert_eq!(notifier.count, before + 2);
    assert_eq!(get_clipboard_history(&ledger).len(), 2);
}

#[test]
fn text_only_change_gives_one_notification() {
    let mut ledger = Ledger::new();
    let mut notifier = Notifier::new();
    let mut store = ContentStore::new();
    let event = ClipboardEvent { text: Some("solo".to_string()), image: None };
    let out = handle_clipboard_change(&mut ledger, &mut notifier, &mut store, event, 5, None);
    assert!(out.text_action.is_some());
    assert!(out.image_action.is_none());
    assert!(out.pending_write.is_none());
    assert_eq!(notifier.count, 1);
}

#[test]
fn find_queries_see_exactly_the_stored_content() {
    let (ledger, _) = text_ledger(&[("needle", 10)]);
    assert!(ledger.find_by_text(&"needle".to_string()).is_some());
    assert!(ledger.find_by_text(&"missing".to_string()).is_none());
    assert!(ledger.find_by_image_ref(&"nothing.png".to_string()).is_none());
}
