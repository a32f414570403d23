use std::path::Path;
use teststrip::paths::{
    expected_export_path, export_name_for_stem, extension_matches, file_name_or_default, is_cr2,
    is_jpg, session_dir_path,
};
use teststrip::text::{decimal_string, str_eq_ignore_ascii_case, str_le};

#[test]
fn is_cr2_matches_case_insensitively() {
    assert!(is_cr2("photo.CR2"));
    assert!(is_cr2("photo.cr2"));
    assert!(!is_cr2("photo.jpg"));
    assert!(!is_cr2("photo"));
}

#[test]
fn expected_export_path_uses_raw_stem_with_jpg_extension() {
    let export_dir = "C:/exports";
    let raw_path = "C:/archive/IMG_1234.CR2";
    let expected = expected_export_path(export_dir, raw_path);
    assert_eq!(Path::new(&expected), Path::new("C:/exports/IMG_1234.jpg"));
}

#[test]
fn is_cr2_edge_cases() {
    assert!(is_cr2("a/b/x.Cr2"));
    assert!(!is_cr2(".cr2"));
    assert!(!is_cr2("photo.cr2.bak"));
    assert!(!is_cr2("photo.cr"));
    assert!(!is_cr2(""));
    assert!(is_cr2("dir.jpg/img.CR2"));
}

#[test]
fn is_jpg_matches_case_insensitively() {
    assert!(is_jpg("a.JPG"));
    assert!(is_jpg("b.jpg"));
    assert!(is_jpg("c.JpG"));
    assert!(!is_jpg("notes.txt"));
    assert!(!is_jpg("jpg"));
}

#[test]
fn expected_export_path_for_raw_without_extension_or_with_dots() {
    assert_eq!(Path::new(&expected_export_path("out", "raw/IMG")), Path::new("out/IMG.jpg"));
    assert_eq!(Path::new(&expected_export_path("out", "raw/a.b.CR2")), Path::new("out/a.b.jpg"));
    assert_eq!(Path::new(&expected_export_path("out", "raw/.hidden")), Path::new("out/.hidden.jpg"));
}

#[test]
fn export_name_for_stem_appends_jpg() {
    assert_eq!(export_name_for_stem(Some("IMG_1".into())), "IMG_1.jpg");
    assert_eq!(export_name_for_stem(None), ".jpg");
}

#[test]
fn file_name_or_default_takes_last_component() {
    assert_eq!(file_name_or_default("C:/exports/IMG_1.jpg"), "IMG_1.jpg");
    assert_eq!(file_name_or_default("IMG_1.jpg"), "IMG_1.jpg");
    assert_eq!(file_name_or_default("/"), "");
    assert_eq!(file_name_or_default("a/.."), "");
}

#[test]
fn session_dir_path_nests_under_warmups() {
    let dir = session_dir_path("C:/exports", "2026-01-01_09-00-00");
    assert!(Path::new(&dir).ends_with("Warmups/2026-01-01_09-00-00"));
    assert!(Path::new(&dir).starts_with("C:/exports"));
}

#[test]
fn extension_matches_ignores_ascii_case_only() {
    assert!(extension_matches(Some("CR2".into()), "cr2"));
    assert!(!extension_matches(Some("cr3".into()), "cr2"));
    assert!(!extension_matches(None, "cr2"));
}

#[test]
fn ascii_case_comparison() {
    assert!(str_eq_ignore_ascii_case("JPG", "jpg"));
    assert!(str_eq_ignore_ascii_case("", ""));
    assert!(!str_eq_ignore_ascii_case("jpg", "jpeg"));
    assert!(!str_eq_ignore_ascii_case("É", "é"));
    assert!(!str_eq_ignore_ascii_case("[", "{"));
}

#[test]
fn decimal_string_writes_numbers() {
    assert_eq!(decimal_string(0), "0");
    assert_eq!(decimal_string(7), "7");
    assert_eq!(decimal_string(10), "10");
    assert_eq!(decimal_string(1234567), "1234567");
    assert_eq!(decimal_string(usize::MAX), usize::MAX.to_string());
}

#[test]
fn str_le_matches_str_order() {
    let samples = ["", "a", "A", "b", "ab", "a.JPG", "b.jpg", "é", "z", "Z9", "aa"];
    for x in samples.iter() {
        for y in samples.iter() {
            assert_eq!(str_le(x, y), x <= y, "{x} {y}");
        }
    }
}
