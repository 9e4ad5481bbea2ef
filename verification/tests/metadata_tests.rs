use s3deck::metadata::{assemble_object_metadata, format_file_size};
use s3deck::models::Timestamp;

#[test]
fn size_below_one_unit_is_an_integer() {
    assert_eq!(format_file_size(0), "0 B");
    assert_eq!(format_file_size(512), "512 B");
    assert_eq!(format_file_size(1023), "1023 B");
    assert_eq!(format_file_size(-5), "-5 B");
}

#[test]
fn size_tops_out_at_terabytes() {
    assert_eq!(format_file_size(i64::MAX), "8388608.0 TB");
}

#[test]
fn size_above_one_unit_has_one_decimal() {
    assert_eq!(format_file_size(1024), "1.0 KB");
    assert_eq!(format_file_size(1536), "1.5 KB");
    assert_eq!(format_file_size(1024 * 1024), "1.0 MB");
    assert_eq!(format_file_size(5 * 1024 * 1024 * 1024 / 2), "2.5 GB");
    assert_eq!(format_file_size(1024_i64.pow(4)), "1.0 TB");
}

#[test]
fn size_rounds_to_nearest_tenth() {
    // 1126 bytes = 1.0996 KB, displayed as 1.1 KB
    assert_eq!(format_file_size(1126), "1.1 KB");
    // just under the next unit stays in the lower one
    assert_eq!(format_file_size(1024 * 1024 - 1), "1024.0 KB");
}

#[test]
fn metadata_carries_fields_and_formatted_size() {
    let meta = assemble_object_metadata(
        "docs/report.pdf",
        Some(String::from("application/pdf")),
        Some(2048),
        Some(Timestamp { secs: 1700000000, nanos: 5 }),
        Some(String::from("\"etag123\"")),
        Some(String::from("STANDARD")),
        vec![(String::from("owner"), String::from("me"))],
    );
    assert_eq!(meta.key, "docs/report.pdf");
    assert_eq!(meta.content_type.as_deref(), Some("application/pdf"));
    assert_eq!(meta.content_length, 2048);
    assert_eq!(meta.size_formatted, "2.0 KB");
    assert_eq!(meta.last_modified, Some(Timestamp { secs: 1700000000, nanos: 5 }));
    assert_eq!(meta.etag.as_deref(), Some("\"etag123\""));
    assert_eq!(meta.storage_class.as_deref(), Some("STANDARD"));
    assert_eq!(meta.metadata.len(), 1);
    assert_eq!(meta.metadata[0].0, "owner");
    assert_eq!(meta.metadata[0].1, "me");
}

#[test]
fn metadata_defaults_missing_length_to_zero() {
    let meta = assemble_object_metadata("k", None, None, None, None, None, Vec::new());
    assert_eq!(meta.content_length, 0);
    assert_eq!(meta.size_formatted, "0 B");
    assert_eq!(meta.content_type, None);
}
