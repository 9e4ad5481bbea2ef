//! The data shapes the library exchanges with its callers: bucket profiles,
//! listed entries, per-item transfer outcomes, responses, and the error
//! taxonomy.
use vstd::prelude::*;
use vstd::string::StringExecFns;

verus! {

/// Connection profile for one bucket: identity, region, credentials and an
/// optional custom endpoint for non-AWS-compatible stores.
#[derive(Clone, Debug)]
pub struct BucketConfig {
    pub id: String,
    pub name: String,
    pub display_name: String,
    pub region: String,
    pub access_key: String,
    pub secret_key: String,
    pub endpoint: Option<String>,
    pub aws_profile: Option<String>,
}

/// The persisted set of bucket profiles.
#[derive(Clone, Debug)]
pub struct Config {
    pub buckets: Vec<BucketConfig>,
}

impl Default for Config {
    /// An empty profile set.
    fn default() -> (r: Config)
        ensures
            r.buckets@.len() == 0,
    {
        Config { buckets: Vec::new() }
    }
}

/// A point in time as the store reports it: seconds since the epoch plus a
/// subsecond part in nanoseconds.
#[derive(Clone, Copy, Debug, PartialEq, Eq, Structural)]
pub struct Timestamp {
    pub secs: i64,
    pub nanos: u32,
}

/// One listed entry: a real object, or a synthetic folder derived from a
/// common prefix.
#[derive(Clone, Debug)]
pub struct FileItem {
    pub key: String,
    pub name: String,
    pub size: i64,
    pub is_folder: bool,
    pub last_modified: Option<Timestamp>,
}

/// The mathematical content of a `FileItem`.
pub ghost struct FileItemView {
    pub key: Seq<char>,
    pub name: Seq<char>,
    pub size: int,
    pub is_folder: bool,
    pub last_modified: Option<Timestamp>,
}

impl View for FileItem {
    type V = FileItemView;

    open spec fn view(&self) -> FileItemView {
        FileItemView {
            key: self.key@,
            name: self.name@,
            size: self.size as int,
            is_folder: self.is_folder,
            last_modified: self.last_modified,
        }
    }
}

impl DeepView for FileItem {
    type V = FileItemView;

    open spec fn deep_view(&self) -> FileItemView {
        self.view()
    }
}

/// A bulk-upload request: local paths plus the upload context.
#[derive(Clone, Debug)]
pub struct UploadRequest {
    pub bucket: String,
    pub base_path: String,
    pub current_path: String,
    pub files: Vec<String>,
}

/// Per-item outcome of an upload: destination key, byte size (zero on
/// failure), a status word, and the error detail when it failed.
#[derive(Clone, Debug)]
pub struct UploadFileInfo {
    pub key: String,
    pub size: i64,
    pub status: String,
    pub error: Option<String>,
}

/// The mathematical content of an `UploadFileInfo`.
pub ghost struct UploadFileInfoView {
    pub key: Seq<char>,
    pub size: int,
    pub status: Seq<char>,
    pub error: Option<Seq<char>>,
}

impl View for UploadFileInfo {
    type V = UploadFileInfoView;

    open spec fn view(&self) -> UploadFileInfoView {
        UploadFileInfoView {
            key: self.key@,
            size: self.size as int,
            status: self.status@,
            error: match self.error {
                Some(ref e) => Some(e@),
                None => None,
            },
        }
    }
}

impl DeepView for UploadFileInfo {
    type V = UploadFileInfoView;

    open spec fn deep_view(&self) -> UploadFileInfoView {
        self.view()
    }
}

/// Aggregated outcome of a bulk upload. Partial success is never discarded:
/// both lists are carried in full.
#[derive(Clone, Debug)]
pub struct UploadResponse {
    pub message: String,
    pub uploaded_files: Vec<UploadFileInfo>,
    pub failed_files: Vec<UploadFileInfo>,
    pub total_files: usize,
}

/// Outcome of a delete; `count` is present exactly for folder deletes.
#[derive(Clone, Debug)]
pub struct DeleteResponse {
    pub message: String,
    pub key: String,
    pub count: Option<i32>,
}

/// Metadata of one object as reported by a head lookup.
#[derive(Clone, Debug)]
pub struct ObjectMetadata {
    pub key: String,
    pub content_type: Option<String>,
    pub content_length: i64,
    pub last_modified: Option<Timestamp>,
    pub etag: Option<String>,
    pub storage_class: Option<String>,
    pub size_formatted: String,
    pub metadata: Vec<(String, String)>,
}

/// A rename request for a single object or a whole folder prefix.
#[derive(Clone, Debug)]
pub struct RenameRequest {
    pub bucket_id: String,
    pub old_key: String,
    pub new_key: String,
    pub is_folder: bool,
}

/// Outcome of a rename; for folders, the list of moves actually performed
/// and their count.
#[derive(Clone, Debug)]
pub struct RenameResponse {
    pub message: String,
    pub old_key: String,
    pub new_key: String,
    pub moved_files: Option<Vec<String>>,
    pub total_moved: Option<i32>,
}

/// One profile found in the AWS config file.
#[derive(Clone, Debug)]
pub struct AwsProfile {
    pub name: String,
    pub region: Option<String>,
    pub status: ProfileStatus,
}

/// The mathematical content of an `AwsProfile`.
pub ghost struct AwsProfileView {
    pub name: Seq<char>,
    pub region: Option<Seq<char>>,
    pub status: ProfileStatus,
}

impl View for AwsProfile {
    type V = AwsProfileView;

    open spec fn view(&self) -> AwsProfileView {
        AwsProfileView {
            name: self.name@,
            region: match self.region {
                Some(ref r) => Some(r@),
                None => None,
            },
            status: self.status,
        }
    }
}

impl DeepView for AwsProfile {
    type V = AwsProfileView;

    open spec fn deep_view(&self) -> AwsProfileView {
        self.view()
    }
}

/// Validation state of a profile's credentials.
#[derive(Clone, Copy, Debug, PartialEq, Eq, Structural)]
pub enum ProfileStatus {
    Valid,
    Expired,
    Invalid,
    Unknown,
}

/// A bucket visible to a profile, with its effective region.
#[derive(Clone, Debug)]
pub struct ProfileBucket {
    pub name: String,
    pub region: String,
    pub creation_date: Option<Timestamp>,
}

/// The error taxonomy: configuration, store operation, local I/O,
/// serialization, an absent bucket id, an absent object or folder, invalid
/// input, profile handling. A store operation error means a provider call
/// failed; a lookup that succeeds and finds nothing is `NotFound`, not a
/// store failure.
#[derive(Clone, Debug)]
pub enum S3DeckError {
    Config(String),
    S3(String),
    Io(String),
    Serialization(String),
    BucketNotFound(String),
    NotFound(String),
    InvalidPath(String),
    AwsProfile(String),
}

/// The reader-facing text of an error: a fixed prefix per variant followed
/// by the detail.
pub open spec fn error_text(e: S3DeckError) -> Seq<char> {
    match e {
        S3DeckError::Config(s) => "Configuration error: "@ + s@,
        S3DeckError::S3(s) => "S3 error: "@ + s@,
        S3DeckError::Io(s) => "IO error: "@ + s@,
        S3DeckError::Serialization(s) => "Serialization error: "@ + s@,
        S3DeckError::BucketNotFound(s) => "Bucket not found: "@ + s@,
        S3DeckError::NotFound(s) => "Not found: "@ + s@,
        S3DeckError::InvalidPath(s) => "Invalid path: "@ + s@,
        S3DeckError::AwsProfile(s) => "AWS Profile error: "@ + s@,
    }
}

impl S3DeckError {
    /// The error rendered for the user, variant prefix plus detail.
    pub fn message(&self) -> (r: String)
        ensures
            r@ == error_text(*self),
    {
        match self {
            S3DeckError::Config(s) => {
                let mut out = String::from_str("Configuration error: ");
                out.append(s.as_str());
                out
            },
            S3DeckError::S3(s) => {
                let mut out = String::from_str("S3 error: ");
                out.append(s.as_str());
                out
            },
            S3DeckError::Io(s) => {
                let mut out = String::from_str("IO error: ");
                out.append(s.as_str());
                out
            },
            S3DeckError::Serialization(s) => {
                let mut out = String::from_str("Serialization error: ");
                out.append(s.as_str());
                out
            },
            S3DeckError::BucketNotFound(s) => {
                let mut out = String::from_str("Bucket not found: ");
                out.append(s.as_str());
                out
            },
            S3DeckError::NotFound(s) => {
                let mut out = String::from_str("Not found: ");
                out.append(s.as_str());
                out
            },
            S3DeckError::InvalidPath(s) => {
                let mut out = String::from_str("Invalid path: ");
                out.append(s.as_str());
                out
            },
            S3DeckError::AwsProfile(s) => {
                let mut out = String::from_str("AWS Profile error: ");
                out.append(s.as_str());
                out
            },
        }
    }
}

} // verus!
