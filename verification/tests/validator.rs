use mdz_core::{ErrorKind, MdzError, MdzValidator, ValidationResult};
use std::io::{Cursor, Write};

fn pack_names(names: &[&str]) -> Vec<u8> {
    let mut writer = zip::ZipWriter::new(Cursor::new(Vec::new()));
    for name in names {
        writer.start_file(*name, zip::write::FileOptions::default()).unwrap();
        writer.write_all(b"x").unwrap();
    }
    writer.finish().unwrap().into_inner()
}

fn names(list: &[&str]) -> Vec<String> {
    list.iter().map(|s| s.to_string()).collect()
}

#[test]
fn validate_missing_main() {
    let result = MdzValidator::validate_bytes(&pack_names(&["readme.txt"])).unwrap();
    assert!(!result.has_main_md);
    assert_eq!(result.errors, vec!["Missing required file: main.md".to_string()]);
    assert!(!result.is_valid());
    assert!(result.warnings.is_empty());
}

#[test]
fn validate_full_container() {
    let bytes = pack_names(&["main.md", "img/", "img/a.png", "img/photo.bmp", "css/style.css", "css/x.css", "extra/file.txt"]);
    let result = MdzValidator::validate_bytes(&bytes).unwrap();
    assert!(result.has_main_md);
    assert!(result.has_img_dir);
    assert!(result.has_css_dir);
    assert!(result.has_main_css);
    assert_eq!(result.image_files, names(&["img/a.png", "img/photo.bmp"]));
    assert_eq!(result.css_files, names(&["css/style.css", "css/x.css"]));
    assert!(result.errors.is_empty());
    assert_eq!(result.warnings, names(&["Unsupported image format: img/photo.bmp"]));
    assert!(result.is_valid());
}

#[test]
fn validate_open_archive_twice() {
    let bytes = pack_names(&["main.md", "img/a.gif"]);
    let mut archive = zip::ZipArchive::new(Cursor::new(bytes)).unwrap();
    let first = MdzValidator::validate(&mut archive).unwrap();
    let second = MdzValidator::validate(&mut archive).unwrap();
    assert_eq!(first.image_files, second.image_files);
    assert!(first.is_valid());
}

#[test]
fn validate_not_an_archive() {
    let err = MdzValidator::validate_bytes(&[1, 2, 3]).unwrap_err();
    assert_eq!(err.kind(), ErrorKind::Zip);
}

#[test]
fn unsupported_format_flagged() {
    let result = MdzValidator::validate_names(&names(&["main.md", "img/photo.bmp", "img/photo.png"]));
    assert!(result.warnings.contains(&"Unsupported image format: img/photo.bmp".to_string()));
    assert!(!result.warnings.iter().any(|w| w.contains("img/photo.png")));
    assert_eq!(result.warnings.len(), 1);
}

#[test]
fn path_hygiene_flagged() {
    let result = MdzValidator::validate_names(&names(&["main.md", "../evil", "docs/clean-name_1.txt"]));
    assert_eq!(
        result.warnings,
        names(&["Invalid file path '../evil': Validation error: Path traversal not allowed"])
    );
    assert!(result.is_valid());
}

#[test]
fn every_broken_rule_warns() {
    let result = MdzValidator::validate_names(&names(&["main.md", "a/../b c/\u{e9}.txt"]));
    assert_eq!(
        result.warnings,
        names(&[
            "Invalid file path 'a/../b c/\u{e9}.txt': Validation error: Path traversal not allowed",
            "Invalid file path 'a/../b c/\u{e9}.txt': Validation error: Spaces in file paths not recommended",
            "Invalid file path 'a/../b c/\u{e9}.txt': Validation error: Non-ASCII characters not recommended",
        ])
    );
}

#[test]
fn dots_inside_a_segment_are_no_traversal() {
    assert!(MdzValidator::validate_file_path("a..b/c...d/..e/f..").is_ok());
    assert!(MdzValidator::check_file_path("notes..md").is_empty());
    assert!(MdzValidator::validate_file_path("..").is_err());
    assert!(MdzValidator::validate_file_path("a/..").is_err());
    assert!(MdzValidator::validate_file_path("a/../b").is_err());
    assert!(MdzValidator::validate_file_path("").is_ok());
    assert!(MdzValidator::validate_file_path(".").is_ok());
}

#[test]
fn validate_file_path_names_first_rule() {
    assert_eq!(
        MdzValidator::validate_file_path("../a b"),
        Err(MdzError::Validation("Path traversal not allowed".to_string()))
    );
    assert_eq!(
        MdzValidator::validate_file_path("a b\u{fc}"),
        Err(MdzError::Validation("Spaces in file paths not recommended".to_string()))
    );
    assert_eq!(
        MdzValidator::validate_file_path("stra\u{df}e"),
        Err(MdzError::Validation("Non-ASCII characters not recommended".to_string()))
    );
    assert_eq!(MdzValidator::validate_file_path("img/a.png"), Ok(()));
    assert_eq!(
        MdzValidator::check_file_path("a b\u{fc}"),
        names(&["Spaces in file paths not recommended", "Non-ASCII characters not recommended"])
    );
}

#[test]
fn image_formats() {
    for good in ["a.jpg", "a.JPEG", "img/x.PnG", "x.gif", "x.svg", "x.webp", "a.b.png", "png", "WEBP"] {
        assert!(MdzValidator::is_valid_image_format(good), "{}", good);
    }
    for bad in ["a.bmp", "a.png.txt", "a.", "", "a.tiff", "photo", "a.pn\u{212a}", "x.jpg/"] {
        assert!(!MdzValidator::is_valid_image_format(bad), "{}", bad);
    }
}

#[test]
fn directory_markers_and_flags() {
    let result = MdzValidator::validate_names(&names(&["img/", "css/", "main.md"]));
    assert!(result.has_img_dir);
    assert!(result.has_css_dir);
    assert!(!result.has_main_css);
    assert!(result.image_files.is_empty());
    assert!(result.css_files.is_empty());
    let none = MdzValidator::validate_names(&names(&["image/a.png", "imgs", "CSS/style.css", "Main.md"]));
    assert!(!none.has_img_dir);
    assert!(!none.has_css_dir);
    assert!(!none.has_main_md);
    assert_eq!(none.errors.len(), 1);
}

#[test]
fn validity_ignores_warnings() {
    for has_main in [false, true] {
        for errors in 0..3usize {
            for warnings in 0..3usize {
                let mut result = ValidationResult::new();
                result.has_main_md = has_main;
                result.errors = vec!["e".to_string(); errors];
                result.warnings = vec!["w".to_string(); warnings];
                assert_eq!(result.is_valid(), errors == 0 && has_main);
            }
        }
    }
}

#[test]
fn new_result_is_empty() {
    let result = ValidationResult::new();
    assert!(!result.has_main_md && !result.has_img_dir && !result.has_css_dir && !result.has_main_css);
    assert!(result.image_files.is_empty() && result.css_files.is_empty());
    assert!(result.errors.is_empty() && result.warnings.is_empty());
    assert!(!result.is_valid());
}
