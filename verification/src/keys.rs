//! Destination-key resolution: maps a local file path plus an upload context
//! (an optional base directory and the prefix the user is viewing) to the
//! object key the file is stored under. Relative structure is preserved when
//! a base directory is given; otherwise a lossy heuristic keeps at most the
//! tail of the local path so the full local layout never leaks into the
//! bucket.
use crate::models::S3DeckError;
use crate::strutil::{
    ends_with_char, join_str, join_tail, last_segment, last_segment_of, lemma_join_len,
    lemma_split_last_nonempty, lemma_trim_start_keeps_last, split_char, split_str,
    starts_with_str, str_eq, trim_end_char, trim_end_str, trim_start_char, trim_start_str,
};
use vstd::prelude::*;
use vstd::string::StrSliceExecFns;
use vstd::string::StringExecFns;

verus! {

/// The prefix a destination key starts with: the current remote path,
/// given a trailing slash when it is non-empty and lacks one.
pub open spec fn prefixed(current: Seq<char>) -> Seq<char> {
    if current.len() == 0 {
        Seq::<char>::empty()
    } else if current.last() == '/' {
        current
    } else {
        current + seq!['/']
    }
}

/// The bare-filename fallback: the last path segment once trailing slashes
/// are dropped. Empty exactly when the path holds no usable name.
pub open spec fn fallback_name(path: Seq<char>) -> Seq<char> {
    last_segment(trim_end_str(path, '/'), '/')
}

/// The path of `path` relative to the base directory `base`, when `base`
/// (ignoring trailing slashes) is a true ancestor of `path`.
pub open spec fn strip_ancestor(base: Seq<char>, path: Seq<char>) -> Option<Seq<char>> {
    let b = trim_end_str(base, '/');
    if b.len() < path.len() && path.take(b.len() + 1 as int) == b + seq!['/'] {
        Some(trim_start_str(path.skip(b.len() + 1 as int), '/'))
    } else {
        None
    }
}

/// Anchor directory names: a segment with one of these names marks where
/// the preserved relative path begins.
pub open spec fn is_anchor(seg: Seq<char>) -> bool {
    seg == "Documents"@ || seg == "Desktop"@ || seg == "Downloads"@
}

/// Index of the first anchor segment at or after position `i`.
pub open spec fn first_anchor_from(parts: Seq<Seq<char>>, i: int) -> Option<int>
    decreases parts.len() - i,
{
    if i < 0 || i >= parts.len() {
        None
    } else if is_anchor(parts[i]) {
        Some(i)
    } else {
        first_anchor_from(parts, i + 1)
    }
}

/// Where the kept tail of a base-less path starts: right after the first
/// anchor segment; with no anchor, the last two segments when there are more
/// than two; else the whole path.
pub open spec fn heuristic_start(parts: Seq<Seq<char>>) -> int {
    match first_anchor_from(parts, 0) {
        Some(i) => i + 1,
        None => if parts.len() > 2 {
            parts.len() - 2
        } else {
            0
        },
    }
}

/// The resolved destination key for a local file path under the given
/// upload context.
pub open spec fn resolved_key(base: Seq<char>, current: Seq<char>, path: Seq<char>) -> Seq<char> {
    let pre = prefixed(current);
    if base.len() > 0 {
        match strip_ancestor(base, path) {
            Some(rel) => pre + rel,
            None => pre + fallback_name(path),
        }
    } else {
        let parts = split_str(path, '/');
        if parts.len() > 1 && heuristic_start(parts) < parts.len() {
            pre + join_str(parts.skip(heuristic_start(parts)), "/"@)
        } else {
            pre + fallback_name(path)
        }
    }
}

/// The first anchor found lies in range and is an anchor.
proof fn lemma_first_anchor_range(parts: Seq<Seq<char>>, i0: int)
    requires
        0 <= i0,
        first_anchor_from(parts, i0) is Some,
    ensures
        ({
            let i = first_anchor_from(parts, i0)->0;
            i0 <= i < parts.len() && is_anchor(parts[i])
        }),
    decreases parts.len() - i0,
{
    if i0 < parts.len() && !is_anchor(parts[i0]) {
        lemma_first_anchor_range(parts, i0 + 1);
    }
}

/// The resolver never hands back an empty key for a regular file's path —
/// one that is non-empty and does not end in a slash: whatever the context,
/// at least the bare filename survives into the key.
pub proof fn lemma_resolved_key_nonempty(base: Seq<char>, current: Seq<char>, path: Seq<char>)
    requires
        path.len() > 0,
        path.last() != '/',
    ensures
        resolved_key(base, current, path).len() > 0,
{
    assert(trim_end_str(path, '/') == path);
    lemma_split_last_nonempty(path, '/');
    if base.len() > 0 {
        match strip_ancestor(base, path) {
            Some(rel) => {
                let b = trim_end_str(base, '/');
                assert(b.len() + 1 < path.len()) by {
                    if b.len() + 1 == path.len() {
                        assert(path.take(path.len() as int) =~= path);
                        assert(path.last() == (b + seq!['/']).last());
                    }
                }
                let suffix = path.skip(b.len() + 1 as int);
                assert(suffix.len() > 0 && suffix.last() == path.last());
                lemma_trim_start_keeps_last(suffix, '/');
            },
            None => {},
        }
    } else {
        let parts = split_str(path, '/');
        if parts.len() > 1 && heuristic_start(parts) < parts.len() {
            let start = heuristic_start(parts);
            assert(0 <= start) by {
                if first_anchor_from(parts, 0) is Some {
                    lemma_first_anchor_range(parts, 0);
                }
            }
            lemma_join_len(parts.skip(start), "/"@);
            assert(parts.skip(start).last() == parts.last());
        }
    }
}

/// Relative path of `path` under the base directory, when the base is a true
/// ancestor.
fn strip_ancestor_exec(base: &str, path: &str) -> (r: Option<String>)
    ensures
        r is Some <==> strip_ancestor(base@, path@) is Some,
        r matches Some(rel) ==> Some(rel@) == strip_ancestor(base@, path@),
{
    let b = trim_end_char(base, '/');
    let bn = b.unicode_len();
    let pn = path.unicode_len();
    if bn >= pn {
        return None;
    }
    if !starts_with_str(path, b) {
        proof {
            assert(path@.take(bn + 1).subrange(0, bn as int) =~= path@.subrange(0, bn as int));
            assert(path@.take(bn + 1) == b@ + seq!['/'] ==> path@.subrange(0, bn as int) == b@);
        }
        return None;
    }
    if path.get_char(bn) != '/' {
        proof {
            assert(path@.take(bn + 1) == b@ + seq!['/'] ==> path@.take(bn + 1)[bn as int] == '/');
        }
        return None;
    }
    proof {
        assert(path@.take(bn + 1) =~= b@ + seq!['/']);
    }
    let rest = path.substring_char(bn + 1, pn);
    proof {
        assert(rest@ =~= path@.skip(bn + 1));
    }
    let rel = trim_start_char(rest, '/');
    Some(String::from_str(rel))
}

/// Whether a path segment is one of the anchor directory names.
fn is_anchor_exec(seg: &String) -> (r: bool)
    ensures
        r == is_anchor(seg@),
{
    str_eq(seg.as_str(), "Documents") || str_eq(seg.as_str(), "Desktop") || str_eq(
        seg.as_str(),
        "Downloads",
    )
}

/// The start index the heuristic keeps from, over the split path segments.
fn heuristic_start_exec(parts: &Vec<String>) -> (r: usize)
    requires
        parts.len() >= 1,
    ensures
        r as int == heuristic_start(parts.deep_view()),
{
    let ghost dv = parts.deep_view();
    let n = parts.len();
    let mut i: usize = 0;
    while i < n
        invariant
            dv == parts.deep_view(),
            dv.len() == n == parts.len(),
            i <= n,
            first_anchor_from(dv, 0) == first_anchor_from(dv, i as int),
        decreases n - i,
    {
        let hit = is_anchor_exec(&parts[i]);
        proof {
            assert(dv[i as int] == parts@[i as int]@);
        }
        if hit {
            proof {
                assert(first_anchor_from(dv, i as int) == Some(i as int));
            }
            return i + 1;
        }
        i += 1;
    }
    if n > 2 {
        n - 2
    } else {
        0
    }
}

/// Resolves the destination key for one local file (see `resolved_key`).
/// Rejects a path that carries no usable filename; the key is never empty
/// when the current prefix or the path tail is non-empty.
pub fn build_s3_key(base_path: &str, current_path: &str, file_path: &str) -> (r: Result<
    String,
    S3DeckError,
>)
    ensures
        r is Ok <==> fallback_name(file_path@).len() > 0,
        r matches Ok(key) ==> key@ == resolved_key(base_path@, current_path@, file_path@),
        r matches Err(e) ==> (e matches S3DeckError::InvalidPath(p) && p@ == file_path@),
{
    let trimmed = trim_end_char(file_path, '/');
    let file_name = last_segment_of(trimmed, '/');
    if file_name.unicode_len() == 0 {
        return Err(S3DeckError::InvalidPath(String::from_str(file_path)));
    }
    let mut key = String::new();
    if current_path.unicode_len() != 0 {
        key.append(current_path);
        if !ends_with_char(current_path, '/') {
            key.append("/");
            proof {
                reveal_strlit("/");
                assert(key@ =~= prefixed(current_path@));
            }
        }
    }
    proof {
        assert(key@ =~= prefixed(current_path@));
    }
    if base_path.unicode_len() != 0 {
        match strip_ancestor_exec(base_path, file_path) {
            Some(rel) => {
                key.append(rel.as_str());
                return Ok(key);
            },
            None => {},
        }
    } else {
        let parts = split_char(file_path, '/');
        if parts.len() > 1 {
            let start = heuristic_start_exec(&parts);
            if start < parts.len() {
                let joined = join_tail(&parts, start, "/");
                key.append(joined.as_str());
                return Ok(key);
            }
        }
    }
    key.append(file_name.as_str());
    Ok(key)
}

} // verus!
