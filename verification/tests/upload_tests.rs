use s3deck::upload::UploadAccumulator;

#[test]
fn upload_one_success_one_missing() {
    // Two files attempted: one stored, one absent from disk.
    let mut acc = UploadAccumulator::new();
    acc.record_uploaded(String::from("pre/a.txt"), 42);
    acc.record_missing("/tmp/gone.txt");
    let resp = acc.into_response();
    assert_eq!(resp.total_files, 2);
    assert_eq!(resp.uploaded_files.len(), 1);
    assert_eq!(resp.failed_files.len(), 1);
    assert_eq!(resp.message, "Uploaded 1 file(s), 1 failed");
    assert_eq!(resp.uploaded_files[0].key, "pre/a.txt");
    assert_eq!(resp.uploaded_files[0].size, 42);
    assert_eq!(resp.uploaded_files[0].status, "completed");
    assert_eq!(resp.uploaded_files[0].error, None);
    assert_eq!(resp.failed_files[0].key, "/tmp/gone.txt");
    assert_eq!(resp.failed_files[0].size, 0);
    assert_eq!(resp.failed_files[0].status, "failed");
    assert_eq!(
        resp.failed_files[0].error.as_deref(),
        Some("File does not exist")
    );
}

#[test]
fn upload_all_succeed_message() {
    let mut acc = UploadAccumulator::new();
    acc.record_uploaded(String::from("a"), 1);
    acc.record_uploaded(String::from("b"), 2);
    acc.record_uploaded(String::from("c"), 3);
    let resp = acc.into_response();
    assert_eq!(resp.message, "Successfully uploaded 3 file(s)");
    assert_eq!(resp.uploaded_files.len(), 3);
    assert!(resp.failed_files.is_empty());
    // order of attempts is kept
    assert_eq!(resp.uploaded_files[0].key, "a");
    assert_eq!(resp.uploaded_files[1].key, "b");
    assert_eq!(resp.uploaded_files[2].key, "c");
}

#[test]
fn upload_all_fail_message() {
    let mut acc = UploadAccumulator::new();
    acc.record_failed(String::from("x"), String::from("boom"));
    acc.record_missing("y");
    let resp = acc.into_response();
    assert_eq!(resp.message, "Failed to upload all 2 file(s)");
    assert!(resp.uploaded_files.is_empty());
    assert_eq!(resp.failed_files.len(), 2);
    assert_eq!(resp.failed_files[0].error.as_deref(), Some("boom"));
}

#[test]
fn upload_empty_batch_message() {
    let acc = UploadAccumulator::new();
    let resp = acc.into_response();
    assert_eq!(resp.message, "Successfully uploaded 0 file(s)");
    assert_eq!(resp.total_files, 0);
}

#[test]
fn upload_accounts_for_every_attempt() {
    // Every attempted file lands in exactly one of the two lists.
    let mut acc = UploadAccumulator::new();
    acc.record_uploaded(String::from("k1"), 10);
    acc.record_missing("k2");
    acc.record_uploaded(String::from("k3"), 30);
    acc.record_failed(String::from("k4"), String::from("network down"));
    acc.record_directory_failure("d", "IO error: Cannot read directory: d");
    let resp = acc.into_response();
    assert_eq!(resp.total_files, 5);
    assert_eq!(resp.uploaded_files.len() + resp.failed_files.len(), 5);
    assert_eq!(
        resp.failed_files[2].error.as_deref(),
        Some("Failed to process directory: IO error: Cannot read directory: d")
    );
}

#[test]
fn upload_subdirectory_failure_entry() {
    let mut acc = UploadAccumulator::new();
    acc.record_subdirectory_failure("/top/sub", "denied");
    let resp = acc.into_response();
    assert_eq!(
        resp.failed_files[0].error.as_deref(),
        Some("Failed to process subdirectory: denied")
    );
    assert_eq!(resp.failed_files[0].key, "/top/sub");
}
