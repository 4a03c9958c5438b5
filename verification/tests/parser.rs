use mdz_core::archive::Archive;
use mdz_core::{ErrorKind, MdzError, MdzParser};
use std::io::{Cursor, Write};

fn pack(entries: &[(&str, &[u8])]) -> Vec<u8> {
    let mut writer = zip::ZipWriter::new(Cursor::new(Vec::new()));
    for (name, data) in entries {
        writer.start_file(*name, zip::write::FileOptions::default()).unwrap();
        writer.write_all(data).unwrap();
    }
    writer.finish().unwrap().into_inner()
}

#[test]
fn parse_main_only() {
    let bytes = pack(&[("main.md", b"hello\n\nworld")]);
    let doc = MdzParser::parse_bytes(&bytes).unwrap();
    assert_eq!(doc.content, "hello\n\nworld");
    assert!(doc.images.is_empty());
    assert!(doc.css.is_none());
    assert!(doc.metadata.title.is_none());
    assert!(doc.metadata.created_at.is_none());
    assert!(doc.metadata.modified_at.is_some());
    assert_eq!(doc.metadata.version, "1.0");
}

#[test]
fn parse_missing_main() {
    let bytes = pack(&[("notes.txt", b"x")]);
    let err = MdzParser::parse_bytes(&bytes).unwrap_err();
    assert_eq!(err, MdzError::MissingFile("main.md".to_string()));
    assert_eq!(err.kind(), ErrorKind::MissingFile);
    assert_eq!(err.message(), "Missing required file: main.md");
}

#[test]
fn parse_not_an_archive() {
    let err = MdzParser::parse_bytes(b"this is no archive").unwrap_err();
    assert_eq!(err.kind(), ErrorKind::Zip);
    assert!(err.message().starts_with("ZIP error: "));
}

#[test]
fn parse_main_not_utf8() {
    let bytes = pack(&[("main.md", &[0xff, 0xfe, 0x00])]);
    let err = MdzParser::parse_bytes(&bytes).unwrap_err();
    assert_eq!(err.kind(), ErrorKind::Io);
}

#[test]
fn parse_images_and_css() {
    let bytes = pack(&[
        ("main.md", b"  # My Title  \ntext"),
        ("img/", b""),
        ("img/a.png", &[1, 2, 3]),
        ("other/b.png", &[9]),
        ("css/other.css", b"ignored"),
        ("css/style.css", b"body{}"),
        ("img/sub/c.gif", &[4]),
    ]);
    let doc = MdzParser::parse_bytes(&bytes).unwrap();
    assert_eq!(doc.metadata.title.as_deref(), Some("My Title"));
    assert_eq!(doc.css.as_deref(), Some("body{}"));
    assert_eq!(doc.images.len(), 2);
    assert_eq!(doc.images[0].path, "img/a.png");
    assert_eq!(doc.images[0].data, vec![1, 2, 3]);
    assert_eq!(doc.images[1].path, "img/sub/c.gif");
    assert_eq!(doc.image("img/sub/c.gif"), Some(&vec![4u8]));
    assert_eq!(doc.image("other/b.png"), None);
}

#[test]
fn parse_css_not_utf8() {
    let bytes = pack(&[("main.md", b"x"), ("css/style.css", &[0xc3, 0x28])]);
    let err = MdzParser::parse_bytes(&bytes).unwrap_err();
    assert_eq!(err.kind(), ErrorKind::Io);
}

#[test]
fn parse_from_open_archive() {
    let bytes = pack(&[("main.md", b"# T")]);
    let mut archive: Archive = zip::ZipArchive::new(Cursor::new(bytes)).unwrap();
    let doc = MdzParser::parse(&mut archive).unwrap();
    assert_eq!(doc.content, "# T");
    assert_eq!(doc.metadata.title.as_deref(), Some("T"));
    let again = MdzParser::parse(&mut archive).unwrap();
    assert_eq!(again.content, "# T");
}

#[test]
fn extract_title_cases() {
    assert_eq!(MdzParser::extract_title("# Hello"), Some("Hello".to_string()));
    assert_eq!(MdzParser::extract_title("intro\n\n   #   Spaced out  \r\n# Second"), Some("Spaced out".to_string()));
    assert_eq!(MdzParser::extract_title("## Not first level\n#NoSpace"), None);
    assert_eq!(MdzParser::extract_title(""), None);
    assert_eq!(MdzParser::extract_title("# "), None);
    assert_eq!(MdzParser::extract_title("#  \nx"), None);
    assert_eq!(MdzParser::extract_title("# a\n# b"), Some("a".to_string()));
    assert_eq!(MdzParser::extract_title("\u{3000}# wide\u{a0}"), Some("wide".to_string()));
    assert_eq!(MdzParser::extract_title("x\n"), None);
    assert_eq!(MdzParser::extract_title("# # x"), Some("# x".to_string()));
}

#[test]
fn extract_metadata_sets_modified_only() {
    let metadata = MdzParser::extract_metadata("# Doc\nbody");
    assert_eq!(metadata.title.as_deref(), Some("Doc"));
    assert!(metadata.created_at.is_none());
    let when = metadata.modified_at.unwrap();
    assert!(when.secs > 1_600_000_000);
    assert!(when.nanos < 2_000_000_000);
    assert_eq!(metadata.version, "1.0");
}

fn position(haystack: &[u8], needle: &[u8], from: usize) -> usize {
    (from..haystack.len()).find(|&i| haystack[i..].starts_with(needle)).unwrap()
}

#[test]
fn entry_missing_from_its_place() {
    let mut bytes = pack(&[("main.md", b"# T"), ("notes.txt", b"abc")]);
    let second = position(&bytes, b"PK\x03\x04", 4);
    bytes[second] = b'X';
    let err = MdzParser::parse_bytes(&bytes).unwrap_err();
    assert_eq!(err.kind(), ErrorKind::Zip);
    let err = mdz_core::MdzValidator::validate_bytes(&bytes).unwrap_err();
    assert_eq!(err.kind(), ErrorKind::Zip);
}

#[test]
fn damaged_image_is_an_io_error() {
    let mut writer = zip::ZipWriter::new(Cursor::new(Vec::new()));
    let stored = zip::write::FileOptions::default().compression_method(zip::CompressionMethod::Stored);
    writer.start_file("main.md", stored).unwrap();
    writer.write_all(b"text").unwrap();
    writer.start_file("img/a.png", stored).unwrap();
    writer.write_all(b"IMAGEDATA").unwrap();
    writer.start_file("misc.bin", stored).unwrap();
    writer.write_all(b"OTHERDATA").unwrap();
    let good = writer.finish().unwrap().into_inner();

    let mut bytes = good.clone();
    let at = position(&bytes, b"IMAGEDATA", 0);
    bytes[at] = b'X';
    let err = MdzParser::parse_bytes(&bytes).unwrap_err();
    assert_eq!(err.kind(), ErrorKind::Io);
    assert!(mdz_core::MdzValidator::validate_bytes(&bytes).unwrap().is_valid());

    let mut bytes = good.clone();
    let at = position(&bytes, b"OTHERDATA", 0);
    bytes[at] = b'X';
    let doc = MdzParser::parse_bytes(&bytes).unwrap();
    assert_eq!(doc.images.len(), 1);
    assert_eq!(doc.images[0].data, b"IMAGEDATA".to_vec());
}

#[test]
fn later_entry_with_the_same_path_wins() {
    let bytes = pack(&[("main.md", b"first"), ("img/a.png", &[1]), ("img/a.png", &[2]), ("main.md", b"second")]);
    match zip::ZipArchive::new(Cursor::new(bytes.clone())) {
        Ok(archive) => assert_eq!(archive.len(), 4),
        Err(_) => panic!("archive does not open"),
    }
    let doc = MdzParser::parse_bytes(&bytes).unwrap();
    assert_eq!(doc.content, "second");
    assert_eq!(doc.images.len(), 1);
    assert_eq!(doc.images[0].data, vec![2]);
}
