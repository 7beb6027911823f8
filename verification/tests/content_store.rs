use clipboard_core::commands::get_clipboard_history;
use clipboard_core::errors::{DecodeError, StoreError};
use clipboard_core::imaging::decode_image;
use clipboard_core::ledger::Ledger;
use clipboard_core::models::RawImage;
use clipboard_core::monitor::{monitor_step, MonitorAction, MonitorEvent, MonitorState};
use clipboard_core::notify::Notifier;
use clipboard_core::resolver::{observe_image, ResolvedAction};
use clipboard_core::store::ContentStore;

fn gradient_image(width: u32, height: u32) -> RawImage {
    let mut rgba = Vec::new();
    for y in 0..height {
        for x in 0..width {
            rgba.push((x % 256) as u8);
            rgba.push((y % 256) as u8);
            rgba.push(((x + y) % 256) as u8);
            rgba.push(255);
        }
    }
    RawImage { rgba, width, height }
}

#[test]
fn storing_identical_pixels_twice_reuses_the_file() {
    let mut store = ContentStore::new();
    let img = gradient_image(64, 64);

    let (first, pending) = store.save_image_to_file(&img).unwrap();
    assert!(!first.already_exists);
    let pending = pending.expect("a fresh buffer must hand back bytes to write");
    assert_eq!(pending.file_name, first.path);
    assert_eq!(pending.bytes.len(), first.size);
    assert_eq!(store.len(), 1);

    let again = gradient_image(64, 64);
    let (second, pending2) = store.save_image_to_file(&again).unwrap();
    assert!(second.already_exists);
    assert!(pending2.is_none());
    assert_eq!(second.path, first.path);
    assert_eq!(second.size, first.size);
    assert_eq!(store.len(), 1);
}

#[test]
fn file_name_is_the_blake3_digest_of_the_pixels() {
    let mut store = ContentStore::new();
    let img = gradient_image(8, 8);
    let (result, _) = store.save_image_to_file(&img).unwrap();
    let expected = format!("{}.png", blake3::hash(&img.rgba).to_hex());
    assert_eq!(result.path, expected);
}

#[test]
fn encoded_bytes_decode_back_to_the_same_pixels() {
    let mut store = ContentStore::new();
    let img = gradient_image(16, 9);
    let (_, pending) = store.save_image_to_file(&img).unwrap();
    let decoded = decode_image(&pending.unwrap().bytes).unwrap();
    assert_eq!(decoded.width, 16);
    assert_eq!(decoded.height, 9);
    assert_eq!(decoded.rgba, img.rgba);
}

#[test]
fn malformed_bytes_are_reported_not_decoded() {
    let garbage = vec![1u8, 2, 3, 4, 5];
    assert_eq!(decode_image(&garbage).unwrap_err(), DecodeError::InvalidImage);
}

#[test]
fn zero_sized_capture_is_refused_by_the_encoder() {
    let mut store = ContentStore::new();
    let img = RawImage { rgba: Vec::new(), width: 0, height: 0 };
    assert_eq!(store.save_image_to_file(&img).unwrap_err(), StoreError::EncodeFailed);
    assert_eq!(store.len(), 0);
}

#[test]
fn scenario_image_dedup_keeps_source_and_size() {
    let mut ledger = Ledger::new();
    let mut notifier = Notifier::new();
    let mut store = ContentStore::new();
    let img = gradient_image(64, 64);

    let (a1, pending1) = observe_image(
        &mut ledger,
        &mut notifier,
        &mut store,
        &img,
        1_000,
        Some("AppA".to_string()),
    )
    .unwrap();
    assert_eq!(a1, ResolvedAction::Inserted { id: 1 });
    assert!(pending1.is_some());

    let history = get_clipboard_history(&ledger);
    assert_eq!(history.len(), 1);
    let row = &history[0];
    let expected_name = format!("{}.png", blake3::hash(&img.rgba).to_hex());
    assert_eq!(row.image.as_deref(), Some(expected_name.as_str()));
    assert_eq!(row.image_width, Some(64));
    assert_eq!(row.image_height, Some(64));
    assert_eq!(row.source_app.as_deref(), Some("AppA"));
    let first_size = row.size_bytes;

    let again = gradient_image(64, 64);
    let (a2, pending2) = observe_image(
        &mut ledger,
        &mut notifier,
        &mut store,
        &again,
        2_000,
        Some("AppB".to_string()),
    )
    .unwrap();
    assert_eq!(a2, ResolvedAction::Touched { prev_timestamp: 1_000 });
    assert!(pending2.is_none());
    assert_eq!(store.len(), 1);

    let history = get_clipboard_history(&ledger);
    assert_eq!(history.len(), 1);
    assert_eq!(history[0].timestamp, 2_000);
    assert_eq!(history[0].source_app.as_deref(), Some("AppA"));
    assert_eq!(history[0].size_bytes, first_size);
    assert_eq!(notifier.count, 2);
}

#[test]
fn monitor_never_stops_watching() {
    assert_eq!(
        monitor_step(MonitorState::Idle, MonitorEvent::ChangeDetected),
        (MonitorState::Processing, MonitorAction::ProcessChange)
    );
    assert_eq!(
        monitor_step(MonitorState::Processing, MonitorEvent::ProcessingDone),
        (MonitorState::Idle, MonitorAction::Continue)
    );
    assert_eq!(
        monitor_step(MonitorState::Idle, MonitorEvent::ClipboardError),
        (MonitorState::Idle, MonitorAction::Continue)
    );
    assert_eq!(
        monitor_step(MonitorState::Processing, MonitorEvent::ClipboardError),
        (MonitorState::Idle, MonitorAction::Continue)
    );
    assert_eq!(
        monitor_step(MonitorState::Processing, MonitorEvent::ChangeDetected),
        (MonitorState::Processing, MonitorAction::Continue)
    );
}
