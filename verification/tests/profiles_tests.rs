use s3deck::models::{ProfileBucket, ProfileStatus};
use s3deck::profiles::{
    classify_client_init_error, classify_list_buckets_error, classify_profile_status,
    effective_region, sort_profile_buckets, AwsProfileManager,
};
use s3deck::models::S3DeckError;

#[test]
fn parse_config_reads_profiles_and_regions() {
    let manager = AwsProfileManager::new();
    let content = "\
[default]
region = us-east-1
output = json

# a comment
[profile dev]
region=eu-central-1

[prod]
";
    let profiles = manager.parse_aws_config(content).unwrap();
    assert_eq!(profiles.len(), 3);
    assert_eq!(profiles[0].name, "default");
    assert_eq!(profiles[0].region.as_deref(), Some("us-east-1"));
    assert!(matches!(profiles[0].status, ProfileStatus::Unknown));
    assert_eq!(profiles[1].name, "dev");
    assert_eq!(profiles[1].region.as_deref(), Some("eu-central-1"));
    assert_eq!(profiles[2].name, "prod");
    assert_eq!(profiles[2].region, None);
}

#[test]
fn parse_config_empty_and_headerless() {
    let manager = AwsProfileManager::new();
    assert_eq!(manager.parse_aws_config("").unwrap().len(), 0);
    // keys before any section header belong to no profile
    assert_eq!(manager.parse_aws_config("region = eu-west-1\n").unwrap().len(), 0);
}

#[test]
fn parse_config_last_region_wins() {
    let manager = AwsProfileManager::new();
    let profiles = manager
        .parse_aws_config("[p]\nregion = one\nregion = two\n")
        .unwrap();
    assert_eq!(profiles.len(), 1);
    assert_eq!(profiles[0].region.as_deref(), Some("two"));
}

#[test]
fn profile_status_classification() {
    assert_eq!(
        classify_profile_status("The security token included is EXPIRED"),
        ProfileStatus::Expired
    );
    assert_eq!(
        classify_profile_status("signature invalid"),
        ProfileStatus::Expired
    );
    assert_eq!(
        classify_profile_status("Access Denied for this operation"),
        ProfileStatus::Invalid
    );
    assert_eq!(
        classify_profile_status("403 Forbidden"),
        ProfileStatus::Invalid
    );
    assert_eq!(
        classify_profile_status("something else entirely"),
        ProfileStatus::Unknown
    );
}

#[test]
fn client_init_errors_are_profile_aware() {
    let e = classify_client_init_error("dev", "No credentials in chain");
    assert!(matches!(e, S3DeckError::S3(m)
        if m == "No valid credentials found for profile 'dev'. Please configure your AWS credentials."));
    let e = classify_client_init_error("dev", "the profile was not found");
    assert!(matches!(e, S3DeckError::S3(m)
        if m == "AWS profile 'dev' not found. Please check your AWS configuration."));
    let e = classify_client_init_error("dev", "missing region");
    assert!(matches!(e, S3DeckError::S3(m)
        if m == "Invalid or missing region for profile 'dev'. Please check your AWS configuration."));
    let e = classify_client_init_error("dev", "odd failure");
    assert!(matches!(e, S3DeckError::S3(m)
        if m == "Failed to initialize AWS client for profile 'dev': odd failure"));
}

#[test]
fn list_buckets_errors_are_profile_aware() {
    let e = classify_list_buckets_error("p", "token has expired");
    assert!(matches!(e, S3DeckError::S3(m)
        if m == "Profile 'p' credentials have expired. Please run 'aws sso login' or refresh your credentials."));
    let e = classify_list_buckets_error("p", "Access Denied");
    assert!(matches!(e, S3DeckError::S3(m)
        if m == "Profile 'p' credentials are invalid or access is denied. Please check your AWS permissions."));
    let e = classify_list_buckets_error("p", "connection reset");
    assert!(matches!(e, S3DeckError::S3(m)
        if m == "Network error when connecting with profile 'p'. Please check your internet connection."));
    let e = classify_list_buckets_error("p", "strange");
    assert!(matches!(e, S3DeckError::S3(m)
        if m == "Failed to list buckets for profile 'p': strange. Please check your AWS configuration and credentials."));
}

#[test]
fn effective_region_defaults() {
    assert_eq!(effective_region(None), "us-east-1");
    assert_eq!(effective_region(Some(String::new())), "us-east-1");
    assert_eq!(
        effective_region(Some(String::from("ap-southeast-2"))),
        "ap-southeast-2"
    );
}

#[test]
fn buckets_sort_by_name() {
    let buckets = vec![
        ProfileBucket { name: String::from("zeta"), region: String::from("r"), creation_date: None },
        ProfileBucket { name: String::from("alpha"), region: String::from("r"), creation_date: None },
        ProfileBucket { name: String::from("midway"), region: String::from("r"), creation_date: None },
        ProfileBucket { name: String::from("alpha2"), region: String::from("r"), creation_date: None },
    ];
    let sorted = sort_profile_buckets(buckets);
    let names: Vec<&str> = sorted.iter().map(|b| b.name.as_str()).collect();
    assert_eq!(names, vec!["alpha", "alpha2", "midway", "zeta"]);
}
