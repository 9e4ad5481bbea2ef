//! Folder and single-object delete outcomes. A folder delete attempts every
//! enumerated key and counts successes; a key failure never aborts the rest.
use crate::models::DeleteResponse;
use crate::strutil::{dec_int, i32_to_string};
use vstd::prelude::*;
use vstd::string::StringExecFns;

verus! {

/// Response for the delete of one ordinary object.
pub fn file_delete_response(key: String) -> (r: DeleteResponse)
    ensures
        r.message@ == "Object deleted successfully"@,
        r.key@ == key@,
        r.count is None,
{
    DeleteResponse {
        message: String::from_str("Object deleted successfully"),
        key,
        count: None,
    }
}

/// The message reported after a folder delete.
pub open spec fn folder_delete_message(count: int) -> Seq<char> {
    "Deleted folder and "@ + dec_int(count) + " objects"@
}

/// Response for a folder delete. A zero count is a valid outcome, not an
/// error: deleting an empty folder prefix succeeds with nothing deleted.
pub fn folder_delete_response(key: String, count: i32) -> (r: DeleteResponse)
    ensures
        r.message@ == folder_delete_message(count as int),
        r.key@ == key@,
        r.count == Some(count),
{
    let mut message = String::from_str("Deleted folder and ");
    let num = i32_to_string(count);
    message.append(num.as_str());
    message.append(" objects");
    DeleteResponse { message, key, count: Some(count) }
}

/// How many of the recorded per-key outcomes succeeded.
pub open spec fn count_successes(outcomes: Seq<bool>) -> int
    decreases outcomes.len(),
{
    if outcomes.len() == 0 {
        0
    } else {
        count_successes(outcomes.drop_last()) + if outcomes.last() {
            1int
        } else {
            0int
        }
    }
}

/// Per-key tally of a folder delete: one outcome recorded per attempted key,
/// successes counted, failures tolerated.
pub struct DeleteTally {
    deleted: i32,
    outcomes: Ghost<Seq<bool>>,
}

impl DeleteTally {
    /// The outcomes recorded so far, in order.
    pub closed spec fn outcomes(self) -> Seq<bool> {
        self.outcomes@
    }

    /// The tally is exactly the number of recorded successes.
    pub closed spec fn inv(self) -> bool {
        self.deleted as int == count_successes(self.outcomes@)
    }

    /// A fresh tally with nothing attempted.
    pub fn new() -> (r: Self)
        ensures
            r.inv(),
            r.outcomes() == Seq::<bool>::empty(),
    {
        DeleteTally { deleted: 0, outcomes: Ghost(Seq::empty()) }
    }

    /// Records the outcome of one key's delete.
    pub fn record(&mut self, ok: bool)
        requires
            old(self).inv(),
            count_successes(old(self).outcomes()) < i32::MAX,
        ensures
            final(self).inv(),
            final(self).outcomes() == old(self).outcomes().push(ok),
    {
        if ok {
            self.deleted = self.deleted + 1;
        }
        proof {
            self.outcomes@ = self.outcomes@.push(ok);
            assert(self.outcomes@.drop_last() =~= old(self).outcomes@);
        }
    }

    /// The number of keys deleted.
    pub fn count(&self) -> (r: i32)
        requires
            self.inv(),
        ensures
            r as int == count_successes(self.outcomes()),
    {
        self.deleted
    }
}

/// Counting successes never exceeds the number of attempts, and with every
/// outcome successful it equals it: a folder delete over `n` enumerated keys
/// reports at most `n`, and exactly `n` when nothing failed.
pub proof fn lemma_delete_count_bounds(outcomes: Seq<bool>)
    ensures
        0 <= count_successes(outcomes) <= outcomes.len(),
        (forall|i: int| 0 <= i < outcomes.len() ==> outcomes[i]) ==> count_successes(outcomes)
            == outcomes.len(),
    decreases outcomes.len(),
{
    if outcomes.len() > 0 {
        lemma_delete_count_bounds(outcomes.drop_last());
    }
}

} // verus!
