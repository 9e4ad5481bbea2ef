//! Client-side orchestration over a flat-namespace object store. The store
//! knows no directories and no rename: a "folder" is a key prefix ending in
//! `/`, and a move is a copy followed by a delete. This library holds the
//! rules of that translation — destination-key resolution for uploads,
//! exhaustive prefix enumeration across pages, bulk rename and delete with
//! per-item failure accounting, content-type assignment, bucket-profile
//! bookkeeping — each stated in a contract and verified. The network calls
//! and the filesystem walks live with the caller, which feeds their results
//! back through the types defined here.
pub mod config;
pub mod content_type;
pub mod deletion;
pub mod keys;
pub mod listing;
pub mod metadata;
pub mod models;
pub mod profiles;
pub mod rename;
pub mod strutil;
pub mod upload;

use vstd::prelude::*;
use vstd::string::StrSliceExecFns;

verus! {

/// A key names a folder, by the store's convention, when it ends with `/`.
pub open spec fn spec_is_folder_key(key: Seq<char>) -> bool {
    key.len() > 0 && key.last() == '/'
}

/// Decides whether a key is a folder key (ends with `/`).
pub fn is_folder_key(key: &str) -> (r: bool)
    ensures
        r == spec_is_folder_key(key@),
{
    let n = key.unicode_len();
    if n == 0 {
        false
    } else {
        key.get_char(n - 1) == '/'
    }
}

} // verus!
