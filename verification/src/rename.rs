//! Rename of a single object or of a whole folder prefix. A store with no
//! rename primitive moves each object by copy-then-delete; a folder rename
//! enumerates every key under the old prefix, moves each independently, and
//! reports partial success rather than aborting.
use crate::content_type::{get_content_type_from_extension, spec_content_type, spec_valid_filename, validate_filename};
use crate::models::{RenameRequest, RenameResponse, S3DeckError};
use crate::strutil::{
    dec_int, dec_uint, ends_with_char, i32_to_string, last_segment, last_segment_of, split_str,
    starts_with_str, str_eq, trim_end_char, trim_end_str, usize_to_string,
};
use vstd::prelude::*;
use vstd::string::StrSliceExecFns;
use vstd::string::StringExecFns;

verus! {

/// A prefix in its internal form: always ending with `/`.
pub open spec fn normalized_prefix(p: Seq<char>) -> Seq<char> {
    if p.len() > 0 && p.last() == '/' {
        p
    } else {
        p + seq!['/']
    }
}

/// Gives a prefix its trailing slash if it lacks one.
pub fn normalize_prefix(p: &str) -> (r: String)
    ensures
        r@ == normalized_prefix(p@),
{
    let mut out = String::from_str(p);
    if !ends_with_char(p, '/') {
        out.append("/");
        proof {
            reveal_strlit("/");
            assert(out@ =~= p@ + seq!['/']);
        }
    }
    out
}

/// Where a key under the old prefix lands: the new prefix plus the key's
/// remainder after the old prefix; a key not under the old prefix keeps its
/// full text after the new prefix.
pub open spec fn moved_key(oldp: Seq<char>, newp: Seq<char>, k: Seq<char>) -> Seq<char> {
    if oldp.len() <= k.len() && k.take(oldp.len() as int) == oldp {
        newp + k.skip(oldp.len() as int)
    } else {
        newp + k
    }
}

/// The name a rename is validated against: the last path segment of the new
/// key (ignoring trailing slashes), or the key itself when it has none.
pub open spec fn rename_target_name(new_key: Seq<char>) -> Seq<char> {
    let t = last_segment(trim_end_str(new_key, '/'), '/');
    if t.len() > 0 {
        t
    } else {
        new_key
    }
}

/// Checks a rename request before any store call: the new name must be a
/// legal filename and differ from the old key.
pub fn validate_rename_request(request: &RenameRequest) -> (r: Result<(), S3DeckError>)
    ensures
        r is Ok <==> (spec_valid_filename(rename_target_name(request.new_key@))
            && request.old_key@ != request.new_key@),
        !spec_valid_filename(rename_target_name(request.new_key@)) ==> (r matches Err(e)
            && e matches S3DeckError::InvalidPath(m)
            && m@ == "Invalid filename: contains invalid characters or reserved names"@),
        spec_valid_filename(rename_target_name(request.new_key@)) && request.old_key@
            == request.new_key@ ==> (r matches Err(e) && e matches S3DeckError::InvalidPath(m)
            && m@ == "New name must be different from the current name"@),
{
    let trimmed = trim_end_char(request.new_key.as_str(), '/');
    let seg = last_segment_of(trimmed, '/');
    let valid = if seg.unicode_len() > 0 {
        validate_filename(seg.as_str())
    } else {
        validate_filename(request.new_key.as_str())
    };
    if !valid {
        return Err(
            S3DeckError::InvalidPath(
                String::from_str("Invalid filename: contains invalid characters or reserved names"),
            ),
        );
    }
    if str_eq(request.old_key.as_str(), request.new_key.as_str()) {
        return Err(
            S3DeckError::InvalidPath(
                String::from_str("New name must be different from the current name"),
            ),
        );
    }
    Ok(())
}

/// The message after renaming one file: both bare filenames quoted.
pub open spec fn file_rename_message(old_key: Seq<char>, new_key: Seq<char>) -> Seq<char> {
    "File renamed from '"@ + last_segment(old_key, '/') + "' to '"@ + last_segment(new_key, '/')
        + "'"@
}

/// Response for the rename of one ordinary file.
pub fn file_rename_response(old_key: &str, new_key: &str) -> (r: RenameResponse)
    ensures
        r.message@ == file_rename_message(old_key@, new_key@),
        r.old_key@ == old_key@,
        r.new_key@ == new_key@,
        r.moved_files is None,
        r.total_moved is None,
{
    let old_name = last_segment_of(old_key, '/');
    let new_name = last_segment_of(new_key, '/');
    let mut message = String::from_str("File renamed from '");
    message.append(old_name.as_str());
    message.append("' to '");
    message.append(new_name.as_str());
    message.append("'");
    RenameResponse {
        message,
        old_key: String::from_str(old_key),
        new_key: String::from_str(new_key),
        moved_files: None,
        total_moved: None,
    }
}

/// One planned object move: source key, destination key, and the content
/// type recomputed from the destination key's extension.
pub struct MoveStep {
    pub source: String,
    pub destination: String,
    pub content_type: String,
}

/// Plans a folder rename over the exhaustively enumerated keys: both
/// prefixes are normalized with a trailing slash, every key gets its
/// destination under the new prefix, and an empty enumeration is a hard
/// not-found failure — the folder is absent, there is nothing to move. That
/// is a lookup that found nothing, not a store-operation failure.
pub fn plan_folder_moves(old_key: &str, new_key: &str, keys: &Vec<String>) -> (r: Result<
    Vec<MoveStep>,
    S3DeckError,
>)
    ensures
        r is Err <==> keys.len() == 0,
        r matches Err(e) ==> (e matches S3DeckError::NotFound(m) && m@
            == "Folder not found or is empty"@),
        r matches Ok(steps) ==> {
            let oldp = normalized_prefix(old_key@);
            let newp = normalized_prefix(new_key@);
            &&& steps.len() == keys.len()
            &&& forall|i: int|
                0 <= i < steps.len() ==> (#[trigger] steps@[i]).source@ == keys.deep_view()[i]
            &&& forall|i: int|
                0 <= i < steps.len() ==> (#[trigger] steps@[i]).destination@ == moved_key(
                    oldp,
                    newp,
                    keys.deep_view()[i],
                )
            &&& forall|i: int|
                0 <= i < steps.len() ==> (#[trigger] steps@[i]).content_type@ == spec_content_type(
                    moved_key(oldp, newp, keys.deep_view()[i]),
                )
        },
{
    if keys.len() == 0 {
        return Err(S3DeckError::NotFound(String::from_str("Folder not found or is empty")));
    }
    let old_prefix = normalize_prefix(old_key);
    let new_prefix = normalize_prefix(new_key);
    let ghost oldp = old_prefix@;
    let ghost newp = new_prefix@;
    let opn = old_prefix.unicode_len();
    let mut steps: Vec<MoveStep> = Vec::new();
    let mut i: usize = 0;
    while i < keys.len()
        invariant
            oldp == normalized_prefix(old_key@),
            newp == normalized_prefix(new_key@),
            oldp == old_prefix@,
            newp == new_prefix@,
            opn == oldp.len(),
            i <= keys.len(),
            steps.len() == i,
            forall|j: int| 0 <= j < i ==> (#[trigger] steps@[j]).source@ == keys.deep_view()[j],
            forall|j: int|
                0 <= j < i ==> (#[trigger] steps@[j]).destination@ == moved_key(
                    oldp,
                    newp,
                    keys.deep_view()[j],
                ),
            forall|j: int|
                0 <= j < i ==> (#[trigger] steps@[j]).content_type@ == spec_content_type(
                    moved_key(oldp, newp, keys.deep_view()[j]),
                ),
        decreases keys.len() - i,
    {
        let key = &keys[i];
        let kn = key.unicode_len();
        let mut destination = new_prefix.clone();
        if starts_with_str(key.as_str(), old_prefix.as_str()) {
            let rest = key.as_str().substring_char(opn, kn);
            destination.append(rest);
            proof {
                assert(key@.skip(opn as int) =~= key@.subrange(opn as int, kn as int));
                assert(destination@ == moved_key(oldp, newp, keys.deep_view()[i as int]));
            }
        } else {
            destination.append(key.as_str());
            proof {
                assert(destination@ == moved_key(oldp, newp, keys.deep_view()[i as int]));
            }
        }
        let content_type = get_content_type_from_extension(destination.as_str());
        let step = MoveStep { source: key.clone(), destination, content_type };
        steps.push(step);
        proof {
            assert(keys.deep_view()[i as int] == keys@[i as int]@);
        }
        i += 1;
    }
    Ok(steps)
}

/// What happened to one object of a folder rename.
pub ghost enum MoveEvent {
    /// The object was copied to `dst` and its source deleted.
    Moved { src: Seq<char>, dst: Seq<char> },
    /// The copy, or the delete after it, failed; the source key remains.
    Failed { src: Seq<char> },
}

/// The "old -> new" report lines after a sequence of move events.
pub open spec fn moved_after(events: Seq<MoveEvent>) -> Seq<Seq<char>>
    decreases events.len(),
{
    if events.len() == 0 {
        Seq::<Seq<char>>::empty()
    } else {
        moved_after(events.drop_last()) + (match events.last() {
            MoveEvent::Moved { src, dst } => seq![src + " -> "@ + dst],
            MoveEvent::Failed { .. } => Seq::<Seq<char>>::empty(),
        })
    }
}

/// The source keys whose move failed, in event order.
pub open spec fn move_failed_after(events: Seq<MoveEvent>) -> Seq<Seq<char>>
    decreases events.len(),
{
    if events.len() == 0 {
        Seq::<Seq<char>>::empty()
    } else {
        move_failed_after(events.drop_last()) + (match events.last() {
            MoveEvent::Moved { .. } => Seq::<Seq<char>>::empty(),
            MoveEvent::Failed { src } => seq![src],
        })
    }
}

/// Collects per-object outcomes of one folder rename. Objects are
/// independent: a failed object is recorded and the rest continue.
pub struct MoveAccumulator {
    moved: Vec<String>,
    failed: Vec<String>,
    events: Ghost<Seq<MoveEvent>>,
}

impl MoveAccumulator {
    /// The events recorded so far, in order.
    pub closed spec fn events(self) -> Seq<MoveEvent> {
        self.events@
    }

    /// The report lists are exactly the fold of the recorded events.
    pub closed spec fn inv(self) -> bool {
        &&& self.moved.deep_view() == moved_after(self.events@)
        &&& self.failed.deep_view() == move_failed_after(self.events@)
    }

    /// A fresh accumulator with nothing attempted.
    pub fn new() -> (r: Self)
        ensures
            r.inv(),
            r.events() == Seq::<MoveEvent>::empty(),
    {
        let r = MoveAccumulator { moved: Vec::new(), failed: Vec::new(), events: Ghost(Seq::empty()) };
        proof {
            assert(r.moved.deep_view() =~= moved_after(r.events@));
            assert(r.failed.deep_view() =~= move_failed_after(r.events@));
        }
        r
    }

    /// Records one object moved: copied to its destination, source deleted.
    pub fn record_moved(&mut self, src: &str, dst: &str)
        requires
            old(self).inv(),
        ensures
            final(self).inv(),
            final(self).events() == old(self).events().push(
                MoveEvent::Moved { src: src@, dst: dst@ },
            ),
    {
        let ghost before = self.moved.deep_view();
        let mut line = String::from_str(src);
        line.append(" -> ");
        line.append(dst);
        self.moved.push(line);
        proof {
            self.events@ = self.events@.push(MoveEvent::Moved { src: src@, dst: dst@ });
            assert(self.events@.drop_last() =~= old(self).events@);
            assert(self.moved.deep_view() =~~= before + seq![src@ + " -> "@ + dst@]);
            assert(self.failed.deep_view() =~~= move_failed_after(self.events@));
        }
    }

    /// Records one object whose copy, or whose delete after a successful
    /// copy, failed; its source key stays in place.
    pub fn record_failed(&mut self, src: &str)
        requires
            old(self).inv(),
        ensures
            final(self).inv(),
            final(self).events() == old(self).events().push(MoveEvent::Failed { src: src@ }),
    {
        let ghost before = self.failed.deep_view();
        self.failed.push(String::from_str(src));
        proof {
            self.events@ = self.events@.push(MoveEvent::Failed { src: src@ });
            assert(self.events@.drop_last() =~= old(self).events@);
            assert(self.failed.deep_view() =~~= before + seq![src@]);
            assert(self.moved.deep_view() =~~= moved_after(self.events@));
        }
    }

    /// How many objects have moved.
    pub fn moved_count(&self) -> (r: usize)
        requires
            self.inv(),
        ensures
            r == moved_after(self.events()).len(),
    {
        self.moved.len()
    }

    /// How many objects failed.
    pub fn failed_count(&self) -> (r: usize)
        requires
            self.inv(),
        ensures
            r == move_failed_after(self.events()).len(),
    {
        self.failed.len()
    }
}

/// The summary after a folder rename: full or partial wording, the two bare
/// folder names quoted, and the literal counts.
pub open spec fn folder_rename_message(
    oldp: Seq<char>,
    newp: Seq<char>,
    moved: int,
    failed: int,
) -> Seq<char> {
    let o = last_segment(trim_end_str(oldp, '/'), '/');
    let n = last_segment(trim_end_str(newp, '/'), '/');
    if failed == 0 {
        "Folder renamed from '"@ + o + "' to '"@ + n + "'. Moved "@ + dec_int(moved) + " files."@
    } else {
        "Folder partially renamed from '"@ + o + "' to '"@ + n + "'. Moved "@ + dec_int(moved)
            + " files, "@ + dec_uint(failed) + " failed."@
    }
}

/// Closes a folder rename: the presence of failures degrades the wording,
/// never the already-completed moves, which are all reported.
pub fn folder_rename_response(old_prefix: &str, new_prefix: &str, acc: MoveAccumulator) -> (r:
    RenameResponse)
    requires
        acc.inv(),
        moved_after(acc.events()).len() <= i32::MAX,
    ensures
        r.message@ == folder_rename_message(
            old_prefix@,
            new_prefix@,
            moved_after(acc.events()).len() as int,
            move_failed_after(acc.events()).len() as int,
        ),
        r.old_key@ == trim_end_str(old_prefix@, '/'),
        r.new_key@ == trim_end_str(new_prefix@, '/'),
        r.moved_files matches Some(v) && v.deep_view() == moved_after(acc.events()),
        r.total_moved == Some(moved_after(acc.events()).len() as i32),
{
    let old_trimmed = trim_end_char(old_prefix, '/');
    let new_trimmed = trim_end_char(new_prefix, '/');
    let old_name = last_segment_of(old_trimmed, '/');
    let new_name = last_segment_of(new_trimmed, '/');
    let total_moved = acc.moved.len() as i32;
    let n_failed = acc.failed.len();
    let mut message: String;
    if n_failed == 0 {
        message = String::from_str("Folder renamed from '");
        message.append(old_name.as_str());
        message.append("' to '");
        message.append(new_name.as_str());
        message.append("'. Moved ");
        let num = i32_to_string(total_moved);
        message.append(num.as_str());
        message.append(" files.");
    } else {
        message = String::from_str("Folder partially renamed from '");
        message.append(old_name.as_str());
        message.append("' to '");
        message.append(new_name.as_str());
        message.append("'. Moved ");
        let num = i32_to_string(total_moved);
        message.append(num.as_str());
        message.append(" files, ");
        let numf = usize_to_string(n_failed);
        message.append(numf.as_str());
        message.append(" failed.");
    }
    RenameResponse {
        message,
        old_key: String::from_str(old_trimmed),
        new_key: String::from_str(new_trimmed),
        moved_files: Some(acc.moved),
        total_moved: Some(total_moved),
    }
}

/// Model of bucket contents: each live key maps to its object's byte size.
/// One copy-then-delete takes the record at `src` and re-homes it at `dst`.
pub open spec fn apply_move(
    m: Map<Seq<char>, int>,
    src: Seq<char>,
    dst: Seq<char>,
) -> Map<Seq<char>, int> {
    m.remove(src).insert(dst, m[src])
}

/// Renaming an object and renaming it back leaves the bucket contents (keys
/// and sizes) exactly as they were.
pub proof fn lemma_rename_round_trip(m: Map<Seq<char>, int>, src: Seq<char>, dst: Seq<char>)
    requires
        m.dom().contains(src),
        !m.dom().contains(dst),
        src != dst,
    ensures
        apply_move(apply_move(m, src, dst), dst, src) == m,
{
    assert(apply_move(apply_move(m, src, dst), dst, src) =~= m);
}

/// The bucket contents after moving each key, in order, from under the old
/// prefix to under the new one.
pub open spec fn apply_moves(
    m: Map<Seq<char>, int>,
    oldp: Seq<char>,
    newp: Seq<char>,
    keys: Seq<Seq<char>>,
) -> Map<Seq<char>, int>
    decreases keys.len(),
{
    if keys.len() == 0 {
        m
    } else {
        apply_move(
            apply_moves(m, oldp, newp, keys.drop_last()),
            keys.last(),
            moved_key(oldp, newp, keys.last()),
        )
    }
}

/// The subsequence of keys whose flag equals `which`, in order.
pub open spec fn select_keys(
    keys: Seq<Seq<char>>,
    flags: Seq<bool>,
    which: bool,
) -> Seq<Seq<char>>
    recommends
        flags.len() == keys.len(),
    decreases keys.len(),
{
    if keys.len() == 0 {
        Seq::<Seq<char>>::empty()
    } else {
        select_keys(keys.drop_last(), flags.drop_last(), which) + (if flags.last() == which {
            seq![keys.last()]
        } else {
            Seq::<Seq<char>>::empty()
        })
    }
}

/// Every selected key is one of the original keys.
proof fn lemma_select_element(keys: Seq<Seq<char>>, flags: Seq<bool>, which: bool, j: int)
    requires
        flags.len() == keys.len(),
        0 <= j < select_keys(keys, flags, which).len(),
    ensures
        exists|i: int| 0 <= i < keys.len() && select_keys(keys, flags, which)[j] == keys[i],
    decreases keys.len(),
{
    let sel = select_keys(keys, flags, which);
    let pre = select_keys(keys.drop_last(), flags.drop_last(), which);
    if j < pre.len() {
        lemma_select_element(keys.drop_last(), flags.drop_last(), which, j);
        let i = choose|i: int| 0 <= i < keys.drop_last().len() && pre[j] == keys.drop_last()[i];
        assert(sel[j] == keys[i]);
    } else {
        assert(sel[j] == keys[keys.len() - 1]);
    }
}

/// Two moves on unrelated keys and destinations commute.
proof fn lemma_moves_commute(
    m: Map<Seq<char>, int>,
    k1: Seq<char>,
    d1: Seq<char>,
    k2: Seq<char>,
    d2: Seq<char>,
)
    requires
        k1 != k2,
        d1 != d2,
        k1 != d2,
        k2 != d1,
    ensures
        apply_move(apply_move(m, k1, d1), k2, d2) == apply_move(apply_move(m, k2, d2), k1, d1),
{
    assert(apply_move(apply_move(m, k1, d1), k2, d2) =~= apply_move(apply_move(m, k2, d2), k1, d1));
}

/// One move commutes past a whole sequence of unrelated moves.
proof fn lemma_move_commutes_past(
    m: Map<Seq<char>, int>,
    oldp: Seq<char>,
    newp: Seq<char>,
    ks: Seq<Seq<char>>,
    k: Seq<char>,
)
    requires
        k != moved_key(oldp, newp, k),
        forall|i: int| 0 <= i < ks.len() ==> #[trigger] ks[i] != k,
        forall|i: int|
            0 <= i < ks.len() ==> moved_key(oldp, newp, #[trigger] ks[i]) != moved_key(
                oldp,
                newp,
                k,
            ),
        forall|i: int| 0 <= i < ks.len() ==> #[trigger] ks[i] != moved_key(oldp, newp, k),
        forall|i: int| 0 <= i < ks.len() ==> moved_key(oldp, newp, #[trigger] ks[i]) != k,
    ensures
        apply_moves(apply_move(m, k, moved_key(oldp, newp, k)), oldp, newp, ks) == apply_move(
            apply_moves(m, oldp, newp, ks),
            k,
            moved_key(oldp, newp, k),
        ),
    decreases ks.len(),
{
    if ks.len() > 0 {
        lemma_move_commutes_past(m, oldp, newp, ks.drop_last(), k);
        lemma_moves_commute(
            apply_moves(m, oldp, newp, ks.drop_last()),
            k,
            moved_key(oldp, newp, k),
            ks.last(),
            moved_key(oldp, newp, ks.last()),
        );
    }
}

/// Retry merges (stated over the bucket model): when a folder rename moved
/// some keys and failed on the rest, re-invoking the move on exactly the
/// residual failed keys yields the same final bucket contents as one fully
/// successful pass over all keys — provided the enumerated keys are distinct
/// and no computed destination collides with a source or with another
/// destination.
pub proof fn lemma_retry_failed_merges(
    m: Map<Seq<char>, int>,
    oldp: Seq<char>,
    newp: Seq<char>,
    keys: Seq<Seq<char>>,
    flags: Seq<bool>,
)
    requires
        flags.len() == keys.len(),
        forall|i: int, j: int|
            #![trigger keys[i], keys[j]]
            0 <= i < keys.len() && 0 <= j < keys.len() && i != j ==> keys[i] != keys[j],
        forall|i: int, j: int|
            #![trigger keys[i], keys[j]]
            0 <= i < keys.len() && 0 <= j < keys.len() && i != j ==> moved_key(oldp, newp, keys[i])
                != moved_key(oldp, newp, keys[j]),
        forall|i: int, j: int|
            #![trigger keys[i], keys[j]]
            0 <= i < keys.len() && 0 <= j < keys.len() ==> keys[i] != moved_key(
                oldp,
                newp,
                keys[j],
            ),
    ensures
        apply_moves(
            apply_moves(m, oldp, newp, select_keys(keys, flags, true)),
            oldp,
            newp,
            select_keys(keys, flags, false),
        ) == apply_moves(m, oldp, newp, keys),
    decreases keys.len(),
{
    if keys.len() == 0 {
        assert(select_keys(keys, flags, true) =~~= Seq::<Seq<char>>::empty());
        assert(select_keys(keys, flags, false) =~~= Seq::<Seq<char>>::empty());
    } else {
        let n = keys.len();
        let kpre = keys.drop_last();
        let fpre = flags.drop_last();
        let k = keys.last();
        let d = moved_key(oldp, newp, k);
        lemma_retry_failed_merges(m, oldp, newp, kpre, fpre);
        let s_pre = select_keys(kpre, fpre, true);
        let f_pre = select_keys(kpre, fpre, false);
        if flags.last() {
            let s = select_keys(keys, flags, true);
            assert(s =~~= s_pre.push(k));
            assert(select_keys(keys, flags, false) =~~= f_pre);
            assert(s.drop_last() =~~= s_pre);
            let x = apply_moves(m, oldp, newp, s_pre);
            assert(apply_moves(m, oldp, newp, s) == apply_move(x, k, d));
            assert forall|i: int| 0 <= i < f_pre.len() implies #[trigger] f_pre[i] != k && moved_key(
                oldp,
                newp,
                f_pre[i],
            ) != d && f_pre[i] != d && moved_key(oldp, newp, f_pre[i]) != k by {
                lemma_select_element(kpre, fpre, false, i);
                let jj = choose|jj: int| 0 <= jj < kpre.len() && f_pre[i] == kpre[jj];
                assert(f_pre[i] == keys[jj]);
                assert(keys[jj] != keys[n - 1]);
                assert(moved_key(oldp, newp, keys[jj]) != moved_key(oldp, newp, keys[n - 1]));
                assert(keys[jj] != moved_key(oldp, newp, keys[n - 1]));
                assert(keys[n - 1] != moved_key(oldp, newp, keys[jj]));
            }
            assert(k != d) by {
                assert(keys[n - 1] != moved_key(oldp, newp, keys[n - 1]));
            }
            lemma_move_commutes_past(x, oldp, newp, f_pre, k);
        } else {
            let f = select_keys(keys, flags, false);
            assert(f =~~= f_pre.push(k));
            assert(select_keys(keys, flags, true) =~~= s_pre);
            assert(f.drop_last() =~~= f_pre);
            assert(f.last() == k);
        }
    }
}

} // verus!
