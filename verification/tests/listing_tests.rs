use s3deck::is_folder_key;
use s3deck::listing::{browse_entries, ListedObject, PrefixEnumeration};
use s3deck::models::Timestamp;

#[test]
fn browse_separates_folders_and_files() {
    // Listing "photos/" on a bucket holding photos/a.jpg, photos/2024/b.jpg
    // and other.txt: the delimited page reports one common prefix and one
    // object; other.txt is outside the prefix and never appears.
    let prefixes = vec![Some(String::from("photos/2024/"))];
    let objects = vec![ListedObject {
        key: Some(String::from("photos/a.jpg")),
        size: Some(1234),
        last_modified: Some(Timestamp { secs: 1700000000, nanos: 0 }),
    }];
    let items = browse_entries(&prefixes, &objects);
    assert_eq!(items.len(), 2);
    assert_eq!(items[0].key, "photos/2024/");
    assert_eq!(items[0].name, "2024");
    assert!(items[0].is_folder);
    assert_eq!(items[0].size, 0);
    assert_eq!(items[0].last_modified, None);
    assert_eq!(items[1].key, "photos/a.jpg");
    assert_eq!(items[1].name, "a.jpg");
    assert!(!items[1].is_folder);
    assert_eq!(items[1].size, 1234);
    assert_eq!(
        items[1].last_modified,
        Some(Timestamp { secs: 1700000000, nanos: 0 })
    );
}

#[test]
fn browse_hides_folder_markers() {
    // A zero-byte marker object whose key ends in `/` is invisible as a file.
    let prefixes: Vec<Option<String>> = Vec::new();
    let objects = vec![
        ListedObject { key: Some(String::from("docs/")), size: Some(0), last_modified: None },
        ListedObject { key: Some(String::from("docs.txt")), size: None, last_modified: None },
        ListedObject { key: None, size: Some(9), last_modified: None },
    ];
    let items = browse_entries(&prefixes, &objects);
    assert_eq!(items.len(), 1);
    assert_eq!(items[0].key, "docs.txt");
    // a missing size is reported as zero
    assert_eq!(items[0].size, 0);
}

#[test]
fn enumeration_follows_pages_until_done() {
    let mut e = PrefixEnumeration::new();
    assert!(!e.is_done());
    assert_eq!(e.current_token(), None);
    e.absorb_page(
        vec![String::from("p/a"), String::from("p/b")],
        true,
        Some(String::from("tok-1")),
    );
    assert!(!e.is_done());
    assert_eq!(e.current_token(), Some(String::from("tok-1")));
    e.absorb_page(vec![String::from("p/b"), String::from("p/c")], false, None);
    assert!(e.is_done());
    assert_eq!(e.current_token(), None);
    assert_eq!(e.key_count(), 4);
    // keys come out exactly as absorbed: no deduplication, no reordering
    let keys = e.into_keys();
    assert_eq!(keys, vec!["p/a", "p/b", "p/b", "p/c"]);
}

#[test]
fn folder_keys_end_with_slash() {
    assert!(is_folder_key("photos/"));
    assert!(!is_folder_key("photos"));
    assert!(!is_folder_key(""));
}
