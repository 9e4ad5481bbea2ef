use s3deck::deletion::{file_delete_response, folder_delete_response, DeleteTally};

#[test]
fn file_delete_reports_no_count() {
    let resp = file_delete_response(String::from("a/b.txt"));
    assert_eq!(resp.message, "Object deleted successfully");
    assert_eq!(resp.key, "a/b.txt");
    assert_eq!(resp.count, None);
}

#[test]
fn folder_delete_reports_count() {
    let mut tally = DeleteTally::new();
    tally.record(true);
    tally.record(false);
    tally.record(true);
    let resp = folder_delete_response(String::from("x/y/"), tally.count());
    assert_eq!(resp.message, "Deleted folder and 2 objects");
    assert_eq!(resp.key, "x/y/");
    assert_eq!(resp.count, Some(2));
}

#[test]
fn folder_delete_with_zero_matches_is_not_an_error() {
    // Deleting a folder prefix that matches nothing succeeds with count 0.
    let tally = DeleteTally::new();
    let resp = folder_delete_response(String::from("x/y/"), tally.count());
    assert_eq!(resp.message, "Deleted folder and 0 objects");
    assert_eq!(resp.count, Some(0));
}
