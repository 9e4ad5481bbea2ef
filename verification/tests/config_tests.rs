use s3deck::config::ConfigManager;
use s3deck::models::{BucketConfig, Config, S3DeckError};

fn bucket(id: &str, name: &str) -> BucketConfig {
    BucketConfig {
        id: String::from(id),
        name: String::from(name),
        display_name: String::from(name),
        region: String::from("eu-west-1"),
        access_key: String::from("AK"),
        secret_key: String::from("SK"),
        endpoint: None,
        aws_profile: None,
    }
}

fn manager_with(buckets: Vec<BucketConfig>) -> ConfigManager {
    ConfigManager::new(Config { buckets })
}

#[test]
fn add_bucket_keeps_given_id() {
    let mut m = manager_with(vec![]);
    let list = m.add_bucket(bucket("b1", "first")).unwrap();
    assert_eq!(list.len(), 1);
    assert_eq!(list[0].id, "b1");
    assert_eq!(list[0].name, "first");
}

#[test]
fn add_bucket_generates_id_when_empty() {
    let mut m = manager_with(vec![]);
    let list = m.add_bucket(bucket("", "anon")).unwrap();
    assert_eq!(list.len(), 1);
    assert_eq!(list[0].id.len(), 36);
    assert_eq!(list[0].name, "anon");
}

#[test]
fn update_bucket_replaces_matching_entry() {
    let mut m = manager_with(vec![bucket("b1", "one"), bucket("b2", "two")]);
    let mut changed = bucket("b2", "two-renamed");
    changed.region = String::from("us-west-2");
    let list = m.update_bucket(changed).unwrap();
    assert_eq!(list.len(), 2);
    assert_eq!(list[0].name, "one");
    assert_eq!(list[1].name, "two-renamed");
    assert_eq!(list[1].region, "us-west-2");
}

#[test]
fn update_bucket_unknown_id_fails() {
    let mut m = manager_with(vec![bucket("b1", "one")]);
    let r = m.update_bucket(bucket("nope", "x"));
    assert!(matches!(r, Err(S3DeckError::BucketNotFound(id)) if id == "nope"));
    // nothing changed
    assert_eq!(m.get_all_buckets().unwrap().len(), 1);
}

#[test]
fn delete_bucket_removes_entry() {
    let mut m = manager_with(vec![bucket("b1", "one"), bucket("b2", "two")]);
    let list = m.delete_bucket("b1").unwrap();
    assert_eq!(list.len(), 1);
    assert_eq!(list[0].id, "b2");
}

#[test]
fn delete_bucket_unknown_id_fails() {
    let mut m = manager_with(vec![bucket("b1", "one")]);
    let r = m.delete_bucket("b9");
    assert!(matches!(r, Err(S3DeckError::BucketNotFound(id)) if id == "b9"));
}

#[test]
fn get_bucket_finds_first_match() {
    let m = manager_with(vec![bucket("b1", "one"), bucket("b2", "two")]);
    let b = m.get_bucket("b2").unwrap();
    assert_eq!(b.name, "two");
    let r = m.get_bucket("zz");
    assert!(matches!(r, Err(S3DeckError::BucketNotFound(id)) if id == "zz"));
}

#[test]
fn error_messages_carry_their_prefix() {
    assert_eq!(
        S3DeckError::Config(String::from("no home")).message(),
        "Configuration error: no home"
    );
    assert_eq!(S3DeckError::S3(String::from("boom")).message(), "S3 error: boom");
    assert_eq!(S3DeckError::Io(String::from("x")).message(), "IO error: x");
    assert_eq!(
        S3DeckError::Serialization(String::from("bad json")).message(),
        "Serialization error: bad json"
    );
    assert_eq!(
        S3DeckError::BucketNotFound(String::from("b7")).message(),
        "Bucket not found: b7"
    );
    assert_eq!(
        S3DeckError::NotFound(String::from("Folder not found or is empty")).message(),
        "Not found: Folder not found or is empty"
    );
    assert_eq!(
        S3DeckError::InvalidPath(String::from("p")).message(),
        "Invalid path: p"
    );
    assert_eq!(
        S3DeckError::AwsProfile(String::from("q")).message(),
        "AWS Profile error: q"
    );
}
