use mdz_core::text::{replace_all, to_chars, trim_range};
use mdz_core::{DocumentMetadata, ErrorKind, MdzDocument, MdzError};

#[test]
fn new_document_is_bare() {
    let doc = MdzDocument::new("content".to_string());
    assert_eq!(doc.content, "content");
    assert!(doc.images.is_empty());
    assert!(doc.css.is_none());
    assert!(doc.metadata.title.is_none());
    assert!(doc.metadata.created_at.is_none());
    assert!(doc.metadata.modified_at.is_none());
    assert_eq!(doc.metadata.version, "1.0");
    assert_eq!(DocumentMetadata::default().version, "1.0");
}

#[test]
fn add_image_last_write_wins() {
    let mut doc = MdzDocument::new(String::new());
    doc.add_image("img/a.png".to_string(), vec![1]);
    doc.add_image("img/b.png".to_string(), vec![2]);
    doc.add_image("img/a.png".to_string(), vec![3, 4]);
    assert_eq!(doc.images.len(), 2);
    assert_eq!(doc.images[0].path, "img/a.png");
    assert_eq!(doc.image("img/a.png"), Some(&vec![3u8, 4]));
    assert_eq!(doc.image("img/b.png"), Some(&vec![2u8]));
    assert_eq!(doc.image("img/c.png"), None);
    assert_eq!(doc.find_image("img/b.png"), Some(1));
    assert_eq!(doc.find_image("a.png"), None);
}

#[test]
fn set_css_overwrites() {
    let mut doc = MdzDocument::new("c".to_string());
    doc.set_css("one".to_string());
    doc.set_css("two".to_string());
    assert_eq!(doc.css.as_deref(), Some("two"));
    assert_eq!(doc.content, "c");
}

#[test]
fn error_messages() {
    let cases = [
        (MdzError::Io("a".to_string()), ErrorKind::Io, "IO error: a"),
        (MdzError::Zip("b".to_string()), ErrorKind::Zip, "ZIP error: b"),
        (MdzError::Json("c".to_string()), ErrorKind::Json, "JSON error: c"),
        (MdzError::InvalidFormat("d".to_string()), ErrorKind::InvalidFormat, "Invalid MDZ format: d"),
        (MdzError::MissingFile("e".to_string()), ErrorKind::MissingFile, "Missing required file: e"),
        (MdzError::ResourceNotFound("f".to_string()), ErrorKind::ResourceNotFound, "Resource not found: f"),
        (MdzError::Validation("g".to_string()), ErrorKind::Validation, "Validation error: g"),
        (MdzError::Parse("h".to_string()), ErrorKind::Parse, "Parsing error: h"),
        (MdzError::Render("i".to_string()), ErrorKind::Render, "Rendering error: i"),
    ];
    for (error, kind, text) in cases {
        assert_eq!(error.kind(), kind);
        assert_eq!(error.message(), text);
    }
}

#[test]
fn replace_all_matches_std() {
    let cases = [
        ("abcabc", "bc", "X"),
        ("aaaa", "aa", "b"),
        ("aaa", "aa", "b"),
        ("abc", "", "-"),
        ("", "", "-"),
        ("", "a", "b"),
        ("abc", "abcd", "x"),
        ("abc", "c", ""),
        ("\u{e9}t\u{e9}", "\u{e9}", "e"),
        ("ab", "b", "bb"),
    ];
    for (text, pat, with) in cases {
        let got: String = replace_all(&to_chars(text), &to_chars(pat), &to_chars(with)).into_iter().collect();
        assert_eq!(got, text.replace(pat, with), "{:?} {:?} {:?}", text, pat, with);
    }
}

#[test]
fn trim_matches_std() {
    for text in ["  a b \t", "", "   ", "x", "\u{a0}\u{2003}y\u{3000}\n", "\u{feff}z", "\u{200b}w "] {
        let chars = to_chars(text);
        let (a, b) = trim_range(&chars, 0, chars.len());
        let got: String = chars[a..b].iter().collect();
        assert_eq!(got, text.trim(), "{:?}", text);
    }
    assert_eq!(to_chars("h\u{e9}llo"), vec!['h', '\u{e9}', 'l', 'l', 'o']);
}
