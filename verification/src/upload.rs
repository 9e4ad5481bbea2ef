//! Bulk-upload outcome accounting. Every attempted file — found, missing, or
//! failed mid-transfer — contributes exactly one outcome entry; a failure
//! never cancels or discards another file's result.
use crate::keys::{prefixed, resolved_key, strip_ancestor};
use crate::models::{UploadFileInfo, UploadFileInfoView, UploadResponse};
use crate::strutil::{dec_uint, usize_to_string};
use vstd::prelude::*;
use vstd::string::StringExecFns;

verus! {

/// What happened to one attempted file.
pub ghost enum UploadEvent {
    /// The file was stored under `key` with `size` bytes.
    Uploaded { key: Seq<char>, size: int },
    /// The attempt on `key` failed with the given error detail.
    Failed { key: Seq<char>, error: Seq<char> },
}

/// The destination key an event speaks of.
pub open spec fn event_key(e: UploadEvent) -> Seq<char> {
    match e {
        UploadEvent::Uploaded { key, .. } => key,
        UploadEvent::Failed { key, .. } => key,
    }
}

/// The byte size of a successful event.
pub open spec fn event_size(e: UploadEvent) -> int {
    match e {
        UploadEvent::Uploaded { size, .. } => size,
        UploadEvent::Failed { .. } => 0,
    }
}

/// The outcome entry for a completed upload.
pub open spec fn completed_entry(key: Seq<char>, size: int) -> UploadFileInfoView {
    UploadFileInfoView { key, size, status: "completed"@, error: None }
}

/// The outcome entry for a failed upload: zero size, the error detail kept.
pub open spec fn failed_entry(key: Seq<char>, error: Seq<char>) -> UploadFileInfoView {
    UploadFileInfoView { key, size: 0, status: "failed"@, error: Some(error) }
}

/// The uploaded-files list after a sequence of events, in event order.
pub open spec fn uploaded_after(events: Seq<UploadEvent>) -> Seq<UploadFileInfoView>
    decreases events.len(),
{
    if events.len() == 0 {
        Seq::<UploadFileInfoView>::empty()
    } else {
        uploaded_after(events.drop_last()) + (match events.last() {
            UploadEvent::Uploaded { key, size } => seq![completed_entry(key, size)],
            UploadEvent::Failed { .. } => Seq::<UploadFileInfoView>::empty(),
        })
    }
}

/// The failed-files list after a sequence of events, in event order.
pub open spec fn failed_after(events: Seq<UploadEvent>) -> Seq<UploadFileInfoView>
    decreases events.len(),
{
    if events.len() == 0 {
        Seq::<UploadFileInfoView>::empty()
    } else {
        failed_after(events.drop_last()) + (match events.last() {
            UploadEvent::Uploaded { .. } => Seq::<UploadFileInfoView>::empty(),
            UploadEvent::Failed { key, error } => seq![failed_entry(key, error)],
        })
    }
}

/// The summary line: wording depends on whether all, none, or some of the
/// attempted files succeeded, with the literal counts.
pub open spec fn upload_message(n_ok: int, n_fail: int) -> Seq<char> {
    if n_fail == 0 {
        "Successfully uploaded "@ + dec_uint(n_ok) + " file(s)"@
    } else if n_ok == 0 {
        "Failed to upload all "@ + dec_uint(n_fail) + " file(s)"@
    } else {
        "Uploaded "@ + dec_uint(n_ok) + " file(s), "@ + dec_uint(n_fail) + " failed"@
    }
}

/// Collects per-file outcomes of one bulk upload.
pub struct UploadAccumulator {
    uploaded: Vec<UploadFileInfo>,
    failed: Vec<UploadFileInfo>,
    events: Ghost<Seq<UploadEvent>>,
}

impl UploadAccumulator {
    /// The events recorded so far, in order.
    pub closed spec fn events(self) -> Seq<UploadEvent> {
        self.events@
    }

    /// The two outcome lists are exactly the fold of the recorded events.
    pub closed spec fn inv(self) -> bool {
        &&& self.uploaded.deep_view() == uploaded_after(self.events@)
        &&& self.failed.deep_view() == failed_after(self.events@)
    }

    /// A fresh accumulator with nothing attempted.
    pub fn new() -> (r: Self)
        ensures
            r.inv(),
            r.events() == Seq::<UploadEvent>::empty(),
    {
        let r = UploadAccumulator { uploaded: Vec::new(), failed: Vec::new(), events: Ghost(Seq::empty()) };
        proof {
            assert(r.uploaded.deep_view() =~= uploaded_after(r.events@));
            assert(r.failed.deep_view() =~= failed_after(r.events@));
        }
        r
    }

    /// Records a file stored under `key` with `size` bytes.
    pub fn record_uploaded(&mut self, key: String, size: i64)
        requires
            old(self).inv(),
        ensures
            final(self).inv(),
            final(self).events() == old(self).events().push(
                UploadEvent::Uploaded { key: key@, size: size as int },
            ),
    {
        let ghost before = self.uploaded.deep_view();
        let entry = UploadFileInfo {
            key,
            size,
            status: String::from_str("completed"),
            error: None,
        };
        let ghost ev = UploadEvent::Uploaded { key: entry.key@, size: size as int };
        self.uploaded.push(entry);
        proof {
            self.events@ = self.events@.push(ev);
            assert(self.events@.drop_last() =~= old(self).events@);
            assert(self.uploaded.deep_view() =~~= before + seq![completed_entry(entry.key@, size as int)]);
            assert(self.failed.deep_view() =~~= failed_after(self.events@));
        }
    }

    /// Records a failed attempt on `key` with the error detail kept verbatim.
    pub fn record_failed(&mut self, key: String, error: String)
        requires
            old(self).inv(),
        ensures
            final(self).inv(),
            final(self).events() == old(self).events().push(
                UploadEvent::Failed { key: key@, error: error@ },
            ),
    {
        let ghost before = self.failed.deep_view();
        let ghost ev = UploadEvent::Failed { key: key@, error: error@ };
        let entry = UploadFileInfo {
            key,
            size: 0,
            status: String::from_str("failed"),
            error: Some(error),
        };
        self.failed.push(entry);
        proof {
            self.events@ = self.events@.push(ev);
            assert(self.events@.drop_last() =~= old(self).events@);
            assert(self.failed.deep_view() =~~= before + seq![failed_entry(entry.key@, entry.error->0@)]);
            assert(self.uploaded.deep_view() =~~= uploaded_after(self.events@));
        }
    }

    /// Records an input path that does not exist on disk.
    pub fn record_missing(&mut self, path: &str)
        requires
            old(self).inv(),
        ensures
            final(self).inv(),
            final(self).events() == old(self).events().push(
                UploadEvent::Failed { key: path@, error: "File does not exist"@ },
            ),
    {
        self.record_failed(String::from_str(path), String::from_str("File does not exist"));
    }

    /// Records a directory input whose processing failed as a whole.
    pub fn record_directory_failure(&mut self, path: &str, detail: &str)
        requires
            old(self).inv(),
        ensures
            final(self).inv(),
            final(self).events() == old(self).events().push(
                UploadEvent::Failed {
                    key: path@,
                    error: "Failed to process directory: "@ + detail@,
                },
            ),
    {
        let mut error = String::from_str("Failed to process directory: ");
        error.append(detail);
        self.record_failed(String::from_str(path), error);
    }

    /// Records a subdirectory whose walk failed as a whole.
    pub fn record_subdirectory_failure(&mut self, path: &str, detail: &str)
        requires
            old(self).inv(),
        ensures
            final(self).inv(),
            final(self).events() == old(self).events().push(
                UploadEvent::Failed {
                    key: path@,
                    error: "Failed to process subdirectory: "@ + detail@,
                },
            ),
    {
        let mut error = String::from_str("Failed to process subdirectory: ");
        error.append(detail);
        self.record_failed(String::from_str(path), error);
    }

    /// Closes the batch: both outcome lists in full, the total fixed to the
    /// number of files attempted — every input expanded to individual files,
    /// so the total always equals uploaded plus failed — and the summary
    /// message chosen from the counts.
    pub fn into_response(self) -> (r: UploadResponse)
        requires
            self.inv(),
            uploaded_after(self.events()).len() + failed_after(self.events()).len()
                <= usize::MAX,
        ensures
            r.uploaded_files.deep_view() == uploaded_after(self.events()),
            r.failed_files.deep_view() == failed_after(self.events()),
            r.total_files == uploaded_after(self.events()).len() + failed_after(
                self.events(),
            ).len(),
            r.message@ == upload_message(
                uploaded_after(self.events()).len() as int,
                failed_after(self.events()).len() as int,
            ),
    {
        let n_ok = self.uploaded.len();
        let n_fail = self.failed.len();
        let total_files = n_ok + n_fail;
        let mut message: String;
        if n_fail == 0 {
            message = String::from_str("Successfully uploaded ");
            let num = usize_to_string(n_ok);
            message.append(num.as_str());
            message.append(" file(s)");
        } else if n_ok == 0 {
            message = String::from_str("Failed to upload all ");
            let num = usize_to_string(n_fail);
            message.append(num.as_str());
            message.append(" file(s)");
        } else {
            message = String::from_str("Uploaded ");
            let num_ok = usize_to_string(n_ok);
            message.append(num_ok.as_str());
            message.append(" file(s), ");
            let num_fail = usize_to_string(n_fail);
            message.append(num_fail.as_str());
            message.append(" failed");
        }
        UploadResponse {
            message,
            uploaded_files: self.uploaded,
            failed_files: self.failed,
            total_files,
        }
    }
}

/// Accounting: a bulk upload records exactly one outcome entry per attempted
/// file, so the uploaded and failed lists together account for every attempt
/// and no partial success is ever discarded.
pub proof fn lemma_upload_accounting(events: Seq<UploadEvent>)
    ensures
        uploaded_after(events).len() + failed_after(events).len() == events.len(),
    decreases events.len(),
{
    if events.len() > 0 {
        lemma_upload_accounting(events.drop_last());
    }
}

/// A directory tree uploaded under a declared base directory: when the base
/// is a true ancestor of every file and every upload succeeds, each file
/// appears exactly once in the uploaded list, in walk order, and its
/// destination key is exactly the current prefix followed by the file's
/// path relative to the base.
pub proof fn lemma_upload_tree_keys(
    events: Seq<UploadEvent>,
    base: Seq<char>,
    current: Seq<char>,
    paths: Seq<Seq<char>>,
)
    requires
        base.len() > 0,
        events.len() == paths.len(),
        forall|i: int|
            0 <= i < events.len() ==> #[trigger] events[i] is Uploaded && event_key(events[i])
                == resolved_key(base, current, paths[i]),
        forall|i: int| 0 <= i < paths.len() ==> #[trigger] strip_ancestor(base, paths[i]) is Some,
    ensures
        failed_after(events).len() == 0,
        uploaded_after(events).len() == paths.len(),
        forall|i: int|
            0 <= i < paths.len() ==> #[trigger] uploaded_after(events)[i].key == prefixed(current)
                + strip_ancestor(base, paths[i])->0,
{
    lemma_upload_all_success(events);
}

/// With no failures, every attempted file appears exactly once in the
/// uploaded list, in attempt order, under its resolved key and with its
/// byte size; the failed list is empty.
pub proof fn lemma_upload_all_success(events: Seq<UploadEvent>)
    requires
        forall|i: int| 0 <= i < events.len() ==> events[i] is Uploaded,
    ensures
        failed_after(events).len() == 0,
        uploaded_after(events).len() == events.len(),
        forall|i: int|
            0 <= i < events.len() ==> uploaded_after(events)[i] == completed_entry(
                event_key(events[i]),
                event_size(events[i]),
            ),
    decreases events.len(),
{
    if events.len() > 0 {
        let pre = events.drop_last();
        lemma_upload_all_success(pre);
        assert(forall|i: int|
            0 <= i < pre.len() ==> uploaded_after(events)[i] == uploaded_after(pre)[i]);
    }
}

} // verus!
