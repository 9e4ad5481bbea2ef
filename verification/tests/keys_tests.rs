use s3deck::keys::build_s3_key;
use s3deck::models::S3DeckError;

#[test]
fn key_preserves_structure_under_base_path() {
    // With a declared base directory, the key is the path relative to it,
    // all intermediate subdirectories kept, under the current prefix.
    let key = build_s3_key("/home/user/project", "photos", "/home/user/project/sub/dir/file.txt")
        .unwrap();
    assert_eq!(key, "photos/sub/dir/file.txt");
}

#[test]
fn key_under_base_path_at_bucket_root() {
    let key = build_s3_key("/data/up", "", "/data/up/a.txt").unwrap();
    assert_eq!(key, "a.txt");
    let key = build_s3_key("/data/up/", "", "/data/up/nested/b.txt").unwrap();
    assert_eq!(key, "nested/b.txt");
}

#[test]
fn key_prefix_gains_trailing_slash() {
    let key = build_s3_key("/base", "photos/2024", "/base/c.txt").unwrap();
    assert_eq!(key, "photos/2024/c.txt");
    let key = build_s3_key("/base", "photos/2024/", "/base/c.txt").unwrap();
    assert_eq!(key, "photos/2024/c.txt");
}

#[test]
fn key_falls_back_to_filename_when_base_not_ancestor() {
    let key = build_s3_key("/elsewhere", "pre", "/home/user/file.txt").unwrap();
    assert_eq!(key, "pre/file.txt");
}

#[test]
fn key_heuristic_starts_after_anchor_directory() {
    // A segment named Documents/Desktop/Downloads anchors the kept tail.
    let key = build_s3_key("", "", "/home/user/Documents/album/pic.jpg").unwrap();
    assert_eq!(key, "album/pic.jpg");
    let key = build_s3_key("", "dst", "/home/user/Downloads/x.bin").unwrap();
    assert_eq!(key, "dst/x.bin");
}

#[test]
fn key_heuristic_keeps_last_two_segments() {
    // Without an anchor, only the parent directory and filename are kept.
    let key = build_s3_key("", "", "/home/user/secret/tree/file.txt").unwrap();
    assert_eq!(key, "tree/file.txt");
}

#[test]
fn key_heuristic_keeps_short_relative_path() {
    // Exactly two segments and no anchor: the whole path is kept.
    let key = build_s3_key("", "", "dir/file.ext").unwrap();
    assert_eq!(key, "dir/file.ext");
}

#[test]
fn key_bare_filename_without_structure() {
    let key = build_s3_key("", "pre", "file.txt").unwrap();
    assert_eq!(key, "pre/file.txt");
    let key = build_s3_key("", "", "file.txt").unwrap();
    assert_eq!(key, "file.txt");
}

#[test]
fn key_rejects_path_without_filename() {
    let r = build_s3_key("", "pre", "///");
    assert!(matches!(r, Err(S3DeckError::InvalidPath(p)) if p == "///"));
    let r = build_s3_key("", "", "");
    assert!(matches!(r, Err(S3DeckError::InvalidPath(_))));
}
