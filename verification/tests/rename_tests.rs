use s3deck::models::{RenameRequest, S3DeckError};
use s3deck::rename::{
    file_rename_response, folder_rename_response, normalize_prefix, plan_folder_moves,
    validate_rename_request, MoveAccumulator,
};

fn request(old_key: &str, new_key: &str, is_folder: bool) -> RenameRequest {
    RenameRequest {
        bucket_id: String::from("b1"),
        old_key: String::from(old_key),
        new_key: String::from(new_key),
        is_folder,
    }
}

#[test]
fn normalize_adds_single_trailing_slash() {
    assert_eq!(normalize_prefix("photos"), "photos/");
    assert_eq!(normalize_prefix("photos/"), "photos/");
    assert_eq!(normalize_prefix(""), "/");
}

#[test]
fn plan_rejects_empty_enumeration() {
    // Renaming a folder that matches no keys fails as not-found; it is
    // never a silent zero-object success, and not a store failure either.
    let keys: Vec<String> = Vec::new();
    let r = plan_folder_moves("x/y", "x/z", &keys);
    assert!(matches!(r, Err(S3DeckError::NotFound(m)) if m == "Folder not found or is empty"));
}

#[test]
fn plan_maps_keys_under_new_prefix() {
    let keys = vec![
        String::from("old/a.txt"),
        String::from("old/sub/b.png"),
        String::from("old/"),
    ];
    let steps = plan_folder_moves("old", "new", &keys).unwrap();
    assert_eq!(steps.len(), 3);
    assert_eq!(steps[0].source, "old/a.txt");
    assert_eq!(steps[0].destination, "new/a.txt");
    assert_eq!(steps[1].destination, "new/sub/b.png");
    assert_eq!(steps[2].source, "old/");
    assert_eq!(steps[2].destination, "new/");
    assert_eq!(steps[0].content_type, "text/plain");
    assert_eq!(steps[1].content_type, "image/png");
}

#[test]
fn plan_fixes_source_map_content_type() {
    // The content type for a destination ending in .js.map is pinned,
    // whatever the extension table would answer.
    let keys = vec![String::from("old/report.js.map")];
    let steps = plan_folder_moves("old/", "new/", &keys).unwrap();
    assert_eq!(steps[0].destination, "new/report.js.map");
    assert_eq!(steps[0].content_type, "application/json");
}

#[test]
fn folder_rename_full_and_partial_messages() {
    let mut acc = MoveAccumulator::new();
    acc.record_moved("old/a", "new/a");
    acc.record_moved("old/b", "new/b");
    let resp = folder_rename_response("photos/old/", "photos/new/", acc);
    assert_eq!(
        resp.message,
        "Folder renamed from 'old' to 'new'. Moved 2 files."
    );
    assert_eq!(resp.old_key, "photos/old");
    assert_eq!(resp.new_key, "photos/new");
    assert_eq!(
        resp.moved_files.as_deref(),
        Some(&["old/a -> new/a".to_string(), "old/b -> new/b".to_string()][..])
    );
    assert_eq!(resp.total_moved, Some(2));

    let mut acc = MoveAccumulator::new();
    acc.record_moved("old/a", "new/a");
    acc.record_failed("old/b");
    let resp = folder_rename_response("old/", "new/", acc);
    assert_eq!(
        resp.message,
        "Folder partially renamed from 'old' to 'new'. Moved 1 files, 1 failed."
    );
    assert_eq!(resp.total_moved, Some(1));
}

#[test]
fn file_rename_message_uses_bare_names() {
    let resp = file_rename_response("dir/old.txt", "dir/new.txt");
    assert_eq!(resp.message, "File renamed from 'old.txt' to 'new.txt'");
    assert_eq!(resp.old_key, "dir/old.txt");
    assert_eq!(resp.new_key, "dir/new.txt");
    assert_eq!(resp.moved_files, None);
    assert_eq!(resp.total_moved, None);
}

#[test]
fn rename_validation_rejects_bad_name() {
    let r = validate_rename_request(&request("a/b.txt", "a/b?.txt", false));
    assert!(matches!(
        r,
        Err(S3DeckError::InvalidPath(m))
            if m == "Invalid filename: contains invalid characters or reserved names"
    ));
    let r = validate_rename_request(&request("a/b.txt", "a/CON.txt", false));
    assert!(r.is_err());
}

#[test]
fn rename_validation_rejects_same_key() {
    let r = validate_rename_request(&request("a/b.txt", "a/b.txt", false));
    assert!(matches!(
        r,
        Err(S3DeckError::InvalidPath(m))
            if m == "New name must be different from the current name"
    ));
}

#[test]
fn rename_validation_accepts_folder_and_file() {
    assert!(validate_rename_request(&request("a/b.txt", "a/c.txt", false)).is_ok());
    assert!(validate_rename_request(&request("photos/old/", "photos/new/", true)).is_ok());
}

#[test]
fn rename_round_trip_restores_keys() {
    // Moving a key under a new prefix and planning the move back yields the
    // original key again.
    let first = plan_folder_moves("old", "new", &vec![String::from("old/f.txt")]).unwrap();
    assert_eq!(first[0].destination, "new/f.txt");
    let back = plan_folder_moves("new", "old", &vec![first[0].destination.clone()]).unwrap();
    assert_eq!(back[0].destination, "old/f.txt");
}
