use sticky_one::clipboard::ClipboardContent;
use sticky_one::config::{Config, MAX_IMAGE_SIZE_BYTES};
use sticky_one::daemon::{parse_pid, Daemon, DaemonAction, DaemonEvent};
use sticky_one::entry::Entry;
use sticky_one::{StickyError, Storage};

fn daemon() -> Daemon {
    Daemon::new(Storage::open_in_memory().unwrap(), Config::default())
}

fn text(t: &str) -> Result<ClipboardContent, StickyError> {
    Ok(ClipboardContent::Text(t.to_string()))
}

#[test]
fn identical_reads_store_once() {
    let mut d = daemon();
    let now: i64 = 1_700_000_000;
    assert_eq!(d.poll_clipboard_at(text("copied"), now).unwrap(), Some(1));
    assert_eq!(d.poll_clipboard_at(text("copied"), now + 1).unwrap(), None);
    assert_eq!(d.storage().count().unwrap(), 1);
    assert_eq!(d.poll_clipboard_at(text("other"), now + 2).unwrap(), Some(2));
    assert_eq!(d.poll_clipboard_at(text("copied"), now + 3).unwrap(), Some(3));
    assert_eq!(d.storage().count().unwrap(), 3);
}

#[test]
fn identical_reads_store_once_at_current_time() {
    let mut d = daemon();
    assert!(d.poll_clipboard(text("same")).unwrap().is_some());
    assert!(d.poll_clipboard(text("same")).unwrap().is_none());
    assert_eq!(d.storage().count().unwrap(), 1);
}

#[test]
fn seeded_from_latest_entry() {
    let mut s = Storage::open_in_memory().unwrap();
    s.insert(&Entry::new_text_at("kept".into(), 1_700_000_000)).unwrap();
    let mut d = Daemon::new(s, Config::default());
    assert_eq!(d.poll_clipboard_at(text("kept"), 1_700_000_010).unwrap(), None);
    assert_eq!(d.storage().count().unwrap(), 1);
}

#[test]
fn empty_and_oversized_reads_are_skipped() {
    let mut d = daemon();
    assert_eq!(d.poll_clipboard_at(Ok(ClipboardContent::Empty), 10).unwrap(), None);
    let too_big = Err(StickyError::ImageTooLarge { size: MAX_IMAGE_SIZE_BYTES + 1, max: MAX_IMAGE_SIZE_BYTES });
    assert_eq!(d.poll_clipboard_at(too_big, 10).unwrap(), None);
    assert_eq!(d.storage().count().unwrap(), 0);
}

#[test]
fn other_read_errors_are_returned() {
    let mut d = daemon();
    let err = d.poll_clipboard_at(Err(StickyError::Clipboard("xclip failed".into())), 10).unwrap_err();
    assert_eq!(err, StickyError::Clipboard("xclip failed".into()));
    assert_eq!(d.storage().count().unwrap(), 0);
}

#[test]
fn insert_evicts_expired_entries() {
    let mut s = Storage::open_in_memory().unwrap();
    let now: i64 = 1_700_000_000;
    s.insert(&Entry::new_text_at("ancient".into(), now - 13 * 3600)).unwrap();
    let mut d = Daemon::new(s, Config::default());
    assert_eq!(d.poll_clipboard_at(text("fresh"), now).unwrap(), Some(2));
    let rows = d.storage().list(10).unwrap();
    assert_eq!(rows.len(), 1);
    assert_eq!(rows[0].content.as_deref(), Some("fresh"));
}

#[test]
fn events_map_to_actions() {
    let mut d = daemon();
    assert!(matches!(d.handle_at(DaemonEvent::Tick(text("a")), 5), DaemonAction::Stored(1)));
    assert!(matches!(d.handle_at(DaemonEvent::Tick(text("a")), 6), DaemonAction::Idle));
    assert!(matches!(
        d.handle_at(DaemonEvent::Tick(Err(StickyError::Clipboard("x".into()))), 7),
        DaemonAction::Report(StickyError::Clipboard(_))
    ));
    assert!(matches!(d.handle(DaemonEvent::Hotkey), DaemonAction::SpawnPopup));
    assert!(matches!(d.handle(DaemonEvent::Shutdown), DaemonAction::Stop));
    assert_eq!(d.storage().count().unwrap(), 1);
}

#[test]
fn startup_pass_evicts() {
    let mut s = Storage::open_in_memory().unwrap();
    s.insert(&Entry::new_text_at("old".into(), 0)).unwrap();
    s.insert(&Entry::new_text("now".into())).unwrap();
    let mut d = Daemon::new(s, Config::default());
    assert_eq!(d.startup().unwrap(), 1);
    assert_eq!(d.storage().count().unwrap(), 1);
}

#[test]
fn pid_marker_text() {
    assert_eq!(parse_pid("1234\n"), Some(1234));
    assert_eq!(parse_pid(" +7 "), Some(7));
    assert_eq!(parse_pid("4294967295"), Some(u32::MAX));
    assert_eq!(parse_pid("4294967296"), None);
    assert_eq!(parse_pid("99999999999999999999"), None);
    assert_eq!(parse_pid(""), None);
    assert_eq!(parse_pid("+"), None);
    assert_eq!(parse_pid("12a"), None);
    assert_eq!(parse_pid("-1"), None);
}

#[test]
fn poll_results_for_each_read() {
    let mut d = daemon();
    assert_eq!(d.poll_clipboard(Ok(ClipboardContent::Empty)).unwrap(), None);
    assert_eq!(d.poll_clipboard(text("new")).unwrap(), Some(1));
    assert_eq!(d.poll_clipboard(text("new")).unwrap(), None);
    assert_eq!(d.poll_clipboard(text("newer")).unwrap(), Some(2));
    let too_big = Err(StickyError::ImageTooLarge { size: 1, max: 0 });
    assert_eq!(d.poll_clipboard(too_big).unwrap(), None);
    assert!(matches!(d.handle(DaemonEvent::Tick(Ok(ClipboardContent::Empty))), DaemonAction::Idle));
    assert!(matches!(
        d.handle(DaemonEvent::Tick(Err(StickyError::InvalidImage))),
        DaemonAction::Report(StickyError::InvalidImage)
    ));
    assert_eq!(d.storage().count().unwrap(), 2);
}

#[test]
fn oversized_image_is_noted_not_stored() {
    let mut d = daemon();
    let too_big = Err(StickyError::ImageTooLarge { size: MAX_IMAGE_SIZE_BYTES + 1, max: MAX_IMAGE_SIZE_BYTES });
    match d.handle_at(DaemonEvent::Tick(too_big), 10) {
        DaemonAction::Skipped(e) => assert_eq!(e, StickyError::ImageTooLarge { size: MAX_IMAGE_SIZE_BYTES + 1, max: MAX_IMAGE_SIZE_BYTES }),
        other => panic!("unexpected {:?}", other),
    }
    assert!(matches!(d.handle_at(DaemonEvent::Tick(Ok(ClipboardContent::Empty)), 11), DaemonAction::Idle));
    assert_eq!(d.storage().count().unwrap(), 0);
}
