use renamer::listing::{extension_is, insert_position_for, list_files_in_directory};
use renamer::order::sorts_before;

fn paths(names: &[&str]) -> Vec<String> {
    names.iter().map(|n| n.to_string()).collect()
}

#[test]
fn test_list_files_in_directory_filters_extension() {
    let found = paths(&["/tmp/in/a.mp3", "/tmp/in/b.mp3", "/tmp/in/c.txt"]);

    let result = list_files_in_directory(&found, "mp3");
    assert_eq!(result.len(), 2);
}

#[test]
fn extension_filter_ignores_case() {
    let found = paths(&["d/one.mp3", "d/two.txt", "d/three.MP3"]);
    let result = list_files_in_directory(&found, "mp3");
    assert_eq!(result, paths(&["d/one.mp3", "d/three.MP3"]));
    let upper = list_files_in_directory(&found, "Mp3");
    assert_eq!(upper, paths(&["d/one.mp3", "d/three.MP3"]));
}

#[test]
fn extension_filter_ignores_leading_dot() {
    let found = paths(&["d/one.mp3", "d/two.txt"]);
    assert_eq!(list_files_in_directory(&found, ".mp3"), paths(&["d/one.mp3"]));
    assert_eq!(list_files_in_directory(&found, ".TXT"), paths(&["d/two.txt"]));
}

#[test]
fn files_come_in_natural_order() {
    let found = paths(&["img2.mp3", "img10.mp3", "img1.mp3"]);
    let result = list_files_in_directory(&found, "mp3");
    assert_eq!(result, paths(&["img1.mp3", "img2.mp3", "img10.mp3"]));
}

#[test]
fn natural_order_goes_by_the_full_path() {
    let found = paths(&["in/b/1.wav", "in/a/10.wav", "in/a/9.wav", "in/a/note.txt"]);
    let result = list_files_in_directory(&found, "wav");
    assert_eq!(result, paths(&["in/a/9.wav", "in/a/10.wav", "in/b/1.wav"]));
}

#[test]
fn no_match_is_an_empty_list() {
    let found = paths(&["a.txt", "b", ".mp3", "dir.mp3/file"]);
    assert!(list_files_in_directory(&found, "mp3").is_empty());
    let nothing: Vec<String> = Vec::new();
    assert!(list_files_in_directory(&nothing, "mp3").is_empty());
}

#[test]
fn equal_paths_are_both_kept() {
    let found = paths(&["x2.mp3", "x1.mp3", "x2.mp3"]);
    let result = list_files_in_directory(&found, "mp3");
    assert_eq!(result, paths(&["x1.mp3", "x2.mp3", "x2.mp3"]));
}

#[test]
fn natural_comparison() {
    assert!(sorts_before("img2.mp3", "img10.mp3"));
    assert!(sorts_before("img10.mp3", "img11.mp3"));
    assert!(!sorts_before("img10.mp3", "img2.mp3"));
    assert!(!sorts_before("same", "same"));
    assert!(sorts_before("a", "b"));
    assert!(sorts_before("B", "a"));
    assert!(sorts_before("abc", "abcd"));
}

#[test]
fn insert_position_from_verdicts() {
    assert_eq!(insert_position_for(&[]), 0);
    assert_eq!(insert_position_for(&[1, 0, -1, -1]), 2);
    assert_eq!(insert_position_for(&[-1, -1]), 0);
    assert_eq!(insert_position_for(&[1, 1]), 2);
    assert_eq!(insert_position_for(&[0]), 1);
    assert_eq!(insert_position_for(&[-1, 1, -1]), 2);
}

#[test]
fn wanted_extension() {
    assert!(extension_is(&Some("mp3".to_string()), "mp3"));
    assert!(!extension_is(&Some("mp4".to_string()), "mp3"));
    assert!(!extension_is(&Some("MP3".to_string()), "mp3"));
    assert!(!extension_is(&None, "mp3"));
    assert!(!extension_is(&None, ""));
    assert!(extension_is(&Some(String::new()), ""));
}
