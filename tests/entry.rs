use sticky_one::entry::{classify, hash_content, ContentType, Entry};

#[test]
fn new_text_plain() {
    let e = Entry::new_text("hello world".into());
    assert_eq!(e.content_type, ContentType::Text);
    assert_eq!(e.content.as_deref(), Some("hello world"));
    assert!(e.image_data.is_none());
}

#[test]
fn new_text_detects_link() {
    let e = Entry::new_text("https://example.com".into());
    assert_eq!(e.content_type, ContentType::Link);
}

#[test]
fn new_text_not_link() {
    let e = Entry::new_text("just some text".into());
    assert_eq!(e.content_type, ContentType::Text);
}

#[test]
fn new_image() {
    let data = vec![0x89, b'P', b'N', b'G', 1, 2, 3];
    let e = Entry::new_image(data.clone());
    assert_eq!(e.content_type, ContentType::Image);
    assert!(e.content.is_none());
    assert_eq!(e.image_data.unwrap(), data);
}

#[test]
fn display_preview_text() {
    let e = Entry::new_text("hello world".into());
    assert_eq!(e.display_preview(80), "hello world");
}

#[test]
fn display_preview_truncates() {
    let e = Entry::new_text("a".repeat(100));
    let preview = e.display_preview(10);
    assert!(preview.ends_with("..."));
    assert!(preview.len() <= 14); // 10 chars + "..."
}

#[test]
fn display_preview_collapses_whitespace() {
    let e = Entry::new_text("hello\n  world\t\tfoo".into());
    assert_eq!(e.display_preview(80), "hello world foo");
}

#[test]
fn display_preview_image() {
    let e = Entry::new_image(vec![0; 100]);
    assert_eq!(e.display_preview(80), "[Image: 100 bytes]");
}

#[test]
fn hash_deterministic() {
    let h1 = hash_content(b"test data");
    let h2 = hash_content(b"test data");
    assert_eq!(h1, h2);
}

#[test]
fn hash_different_for_different_input() {
    let h1 = hash_content(b"aaa");
    let h2 = hash_content(b"bbb");
    assert_ne!(h1, h2);
}

#[test]
fn content_type_roundtrip() {
    for ct in [ContentType::Text, ContentType::Link, ContentType::Image] {
        assert_eq!(ContentType::parse(ct.as_str()), Some(ct));
    }
}

#[test]
fn content_type_tags_and_unknown_tag() {
    assert_eq!(ContentType::Text.as_str(), "text");
    assert_eq!(ContentType::Link.as_str(), "link");
    assert_eq!(ContentType::Image.as_str(), "image");
    assert_eq!(ContentType::parse("Text"), None);
    assert_eq!(ContentType::parse(""), None);
    assert_eq!(ContentType::parse("video"), None);
}

#[test]
fn fingerprint_is_sha256_hex() {
    assert_eq!(
        hash_content(b"abc"),
        "ba7816bf8f01cfea414140de5dae2223b00361a396177a9cb410ff61f20015ad"
    );
    assert_eq!(
        hash_content(b""),
        "e3b0c44298fc1c149afbf4c8996fb92427ae41e4649b934ca495991b7852b855"
    );
}

#[test]
fn fingerprint_of_text_entry_is_over_utf8_bytes() {
    let e = Entry::new_text_at("héllo".to_string(), 7);
    assert_eq!(e.hash, hash_content("héllo".as_bytes()));
    assert_eq!(e.hash.len(), 64);
    assert_eq!(e.created_at, 7);
    assert_eq!(e.id, 0);
}

#[test]
fn fingerprint_repeatable_and_distinct() {
    let a = Entry::new_text("same".into());
    let b = Entry::new_text("same".into());
    let c = Entry::new_text("other".into());
    assert_eq!(a.hash, b.hash);
    assert_ne!(a.hash, c.hash);
}

#[test]
fn classify_total_and_stable() {
    for t in ["", "plain", "https://example.com", "  https://example.com\n", "mailto:a@b.c", "example.com"] {
        let first = classify(t);
        assert!(first == ContentType::Text || first == ContentType::Link);
        assert_eq!(classify(t), first);
    }
    assert_eq!(classify("  https://example.com\n"), ContentType::Link);
    assert_eq!(classify("example.com"), ContentType::Text);
    assert_eq!(classify(""), ContentType::Text);
}

#[test]
fn preview_exact_truncation() {
    let e = Entry::new_text("a".repeat(100));
    assert_eq!(e.display_preview(10), "aaaaaaaaaa...");
    let fits = Entry::new_text("abcdefghij".into());
    assert_eq!(fits.display_preview(10), "abcdefghij");
}

#[test]
fn preview_counts_characters_not_bytes() {
    let e = Entry::new_text("héllo wörld".into());
    assert_eq!(e.display_preview(5), "héllo...");
    assert_eq!(e.display_preview(11), "héllo wörld");
    assert_eq!(e.display_preview(0), "...");
}

#[test]
fn preview_length_bound() {
    let e = Entry::new_text("  one   two\tthree\n four  ".into());
    for n in 0..30 {
        let p = e.display_preview(n);
        let collapsed = "one two three four";
        if collapsed.chars().count() > n {
            assert!(p.chars().count() <= n + 3);
            assert!(p.ends_with("..."));
        } else {
            assert_eq!(p, collapsed);
        }
    }
}

#[test]
fn preview_of_blank_and_missing_text() {
    let blank = Entry::new_text(" \n\t ".into());
    assert_eq!(blank.display_preview(80), "");
    let mut missing = Entry::new_text("x".into());
    missing.content = None;
    assert_eq!(missing.display_preview(80), "");
}

#[test]
fn preview_of_empty_image() {
    let e = Entry::new_image(Vec::new());
    assert_eq!(e.display_preview(80), "[Image: 0 bytes]");
    let big = Entry::new_image(vec![1; 123456]);
    assert_eq!(big.display_preview(3), "[Image: 123456 bytes]");
}

#[test]
fn duplicate_keeps_every_field() {
    let mut e = Entry::new_image_at(vec![1, 2, 3], 42);
    e.id = 9;
    let d = e.duplicate();
    assert_eq!(d.id, 9);
    assert_eq!(d.content_type, ContentType::Image);
    assert_eq!(d.image_data, Some(vec![1, 2, 3]));
    assert_eq!(d.hash, e.hash);
    assert_eq!(d.created_at, 42);
}

#[test]
fn stored_tag_fallback() {
    assert_eq!(ContentType::from_stored_tag("link"), ContentType::Link);
    assert_eq!(ContentType::from_stored_tag("image"), ContentType::Image);
    assert_eq!(ContentType::from_stored_tag("bogus"), ContentType::Text);
}
