use sticky_one::entry::Entry;
use sticky_one::popup::{namespace, PopupState};

fn entries() -> Vec<Entry> {
    vec![
        Entry::new_text("Hello World".into()),
        Entry::new_image(vec![0x89, b'P', b'N', b'G']),
        Entry::new_text("another line".into()),
    ]
}

#[test]
fn popup_starts_with_all_entries() {
    let p = PopupState::new(entries());
    assert_eq!(p.filtered(), &vec![0, 1, 2]);
    assert_eq!(p.selected(), 0);
    assert_eq!(p.selected_entry().unwrap().content.as_deref(), Some("Hello World"));
}

#[test]
fn popup_filter_ignores_case() {
    let mut p = PopupState::new(entries());
    p.set_search("WORLD".into());
    assert_eq!(p.filtered(), &vec![0]);
    p.set_search("l".into());
    assert_eq!(p.filtered(), &vec![0, 2]);
    p.set_search("zzz".into());
    assert!(p.filtered().is_empty());
    assert!(p.selected_entry().is_none());
    p.set_search(String::new());
    assert_eq!(p.filtered(), &vec![0, 1, 2]);
}

#[test]
fn popup_selection_moves_within_bounds() {
    let mut p = PopupState::new(entries());
    p.select_prev();
    assert_eq!(p.selected(), 0);
    p.select_next();
    p.select_next();
    p.select_next();
    assert_eq!(p.selected(), 2);
    assert_eq!(p.selected_entry().unwrap().content.as_deref(), Some("another line"));
    p.select_prev();
    assert_eq!(p.selected(), 1);
    p.set_search("line".into());
    assert_eq!(p.selected(), 0);
}

#[test]
fn popup_namespace() {
    assert_eq!(namespace(), "syo-popup");
}
