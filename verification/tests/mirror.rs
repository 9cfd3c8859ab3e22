use std::path::Path;
use sourcetrait_backup::bak::mirror::{
    determine_mirror_dir, sanitize_path_str, sanitize_windows_path_str, PathStyle,
};

#[test]
fn test_determine_mirror_dir() {
    let base_dir = "/home/dev/.local/share/sourcetrait/bak";
    let src_file = "/home/dev/tmp/source.txt";
    let mirror_dir = determine_mirror_dir(base_dir, src_file, PathStyle::Unix).unwrap();
    assert_eq!(Path::new("/home/dev/.local/share/sourcetrait/bak/home/dev/tmp"), Path::new(&mirror_dir));
}

#[test]
fn test_determine_mirror_dir_windows() {
    // test a windows path with path extensions
    let base_dir = "\\\\?\\C:\\Users\\dev\\AppData\\Local\\sourcetrait\\bak";
    let src_file = "\\\\?\\C:\\Users\\dev\\tmp\\source.txt";
    let mirror_dir = determine_mirror_dir(base_dir, src_file, PathStyle::Windows).unwrap();
    assert_eq!("\\\\?\\C:\\Users\\dev\\AppData\\Local\\sourcetrait\\bak\\C\\Users\\dev\\tmp", mirror_dir.as_str());
}

#[test]
fn mirror_of_relative_source_is_base() {
    let m = determine_mirror_dir("/data/bak", "notes.txt", PathStyle::Unix).unwrap();
    assert_eq!("/data/bak", m);
}

#[test]
fn mirror_normalizes_base_and_skips_dots() {
    let m = determine_mirror_dir("/data//bak/", "/srv/./www/index.html", PathStyle::Unix).unwrap();
    assert_eq!("/data/bak/srv/www", m);
}

#[test]
fn mirror_shortens_drive_like_components_on_unix() {
    let m = determine_mirror_dir("/b", "/C:/x/f", PathStyle::Unix).unwrap();
    assert_eq!("/b/C/x", m);
}

#[test]
fn mirror_strips_verbatim_mark_from_unix_components() {
    let m = determine_mirror_dir("/b", "/\\\\?\\dir/f", PathStyle::Unix).unwrap();
    assert_eq!("/b/dir", m);
}

#[test]
fn mirror_windows_drive_path() {
    let m = determine_mirror_dir("D:\\bak", "C:/work/a.txt", PathStyle::Windows).unwrap();
    assert_eq!("D:\\bak\\C\\work", m);
}

#[test]
fn sanitize_removes_every_leading_verbatim_mark() {
    assert_eq!("C:\\x", sanitize_path_str("\\\\?\\C:\\x"));
    assert_eq!("C:\\x", sanitize_windows_path_str("\\\\?\\\\\\?\\C:\\x"));
    assert_eq!("/plain", sanitize_path_str("/plain"));
}
