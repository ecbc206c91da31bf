use sticky_one::clipboard::{read, read_as_entry, read_as_entry_at, validate_png, write_payload, ClipboardContent};
use sticky_one::config::MAX_IMAGE_SIZE_BYTES;
use sticky_one::entry::{ContentType, Entry};
use sticky_one::StickyError;

fn png(len: usize) -> Vec<u8> {
    let mut d = vec![0x89, b'P', b'N', b'G'];
    d.resize(len, 7);
    d
}

#[test]
fn png_signature() {
    assert!(validate_png(&png(8)).is_ok());
    assert_eq!(validate_png(b"\x89PN"), Err(StickyError::InvalidImage));
    assert_eq!(validate_png(b"GIF89a"), Err(StickyError::InvalidImage));
}

#[test]
fn image_wins_over_text() {
    match read(Some(png(10)), Some("text".into())) {
        Ok(ClipboardContent::Image(d)) => assert_eq!(d, png(10)),
        other => panic!("unexpected {:?}", other),
    }
}

#[test]
fn oversized_image_is_refused() {
    let size = MAX_IMAGE_SIZE_BYTES + 1;
    match read(Some(png(size)), None) {
        Err(e) => assert_eq!(e, StickyError::ImageTooLarge { size, max: MAX_IMAGE_SIZE_BYTES }),
        other => panic!("unexpected {:?}", other),
    }
    assert!(matches!(read(Some(png(MAX_IMAGE_SIZE_BYTES)), None), Ok(ClipboardContent::Image(_))));
}

#[test]
fn non_png_image_is_refused() {
    match read(Some(vec![1, 2, 3, 4, 5]), Some("t".into())) {
        Err(e) => assert_eq!(e, StickyError::InvalidImage),
        other => panic!("unexpected {:?}", other),
    }
}

#[test]
fn text_and_empty() {
    assert!(matches!(read(Some(Vec::new()), Some("hi".into())), Ok(ClipboardContent::Text(t)) if t == "hi"));
    assert!(matches!(read(None, Some(String::new())), Ok(ClipboardContent::Empty)));
    assert!(matches!(read(None, None), Ok(ClipboardContent::Empty)));
}

#[test]
fn read_as_entry_cases() {
    let e = read_as_entry_at(Ok(ClipboardContent::Text("x".into())), 5).unwrap().unwrap();
    assert_eq!(e.content.as_deref(), Some("x"));
    assert_eq!(e.created_at, 5);
    let i = read_as_entry(Ok(ClipboardContent::Image(png(6)))).unwrap().unwrap();
    assert_eq!(i.content_type, ContentType::Image);
    assert!(read_as_entry(Ok(ClipboardContent::Empty)).unwrap().is_none());
    assert_eq!(
        read_as_entry(Err(StickyError::Clipboard("gone".into()))).unwrap_err(),
        StickyError::Clipboard("gone".into())
    );
}

#[test]
fn write_payload_cases() {
    let t = Entry::new_text("https://x.org".into());
    assert!(matches!(write_payload(&t), ClipboardContent::Text(s) if s == "https://x.org"));
    let i = Entry::new_image(png(5));
    assert!(matches!(write_payload(&i), ClipboardContent::Image(d) if d == png(5)));
    let mut broken = Entry::new_image(png(5));
    broken.image_data = None;
    assert!(matches!(write_payload(&broken), ClipboardContent::Empty));
}
