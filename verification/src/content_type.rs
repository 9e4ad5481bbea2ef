//! Content-type inference for destination keys, and filename legality
//! checks applied before a rename.
use crate::strutil::{lower_char, lower_char_exec, lower_str, eq_lower, split_char, split_str};
use vstd::prelude::*;
use vstd::string::StrSliceExecFns;
use vstd::string::StringExecFns;

verus! {

/// The MIME type the extension table assigns to a path; a pure function of
/// the path text.
pub uninterp spec fn mime_of(path: Seq<char>) -> Seq<char>;

/// Relies on mime_guess::from_path followed by first_or_octet_stream: a
/// lookup in a fixed extension table, depending on the path text alone, with
/// application/octet-stream when the table has no entry.
#[verifier::external_body]
fn guess_mime(path: &str) -> (r: String)
    ensures
        r@ == mime_of(path@),
{
    mime_guess::from_path(path).first_or_octet_stream().to_string()
}

/// `s` ends with the suffix `suf`.
pub open spec fn ends_with_seq(s: Seq<char>, suf: Seq<char>) -> bool {
    s.len() >= suf.len() && s.subrange(s.len() - suf.len(), s.len() as int) == suf
}

/// The content type stored with an object: source-map keys are pinned to
/// application/json whatever the extension table would say; every other key
/// gets the table's answer.
pub open spec fn spec_content_type(path: Seq<char>) -> Seq<char> {
    if ends_with_seq(lower_str(path), ".map"@) {
        "application/json"@
    } else {
        mime_of(path)
    }
}

/// Whether the path ends in `.map`, compared without regard to ASCII case.
fn ends_with_map_ci(s: &str) -> (r: bool)
    ensures
        r == ends_with_seq(lower_str(s@), ".map"@),
{
    proof {
        reveal_strlit(".map");
    }
    let n = s.unicode_len();
    if n < 4 {
        proof {
            assert(lower_str(s@).len() == s@.len());
        }
        return false;
    }
    let c0 = lower_char_exec(s.get_char(n - 4));
    let c1 = lower_char_exec(s.get_char(n - 3));
    let c2 = lower_char_exec(s.get_char(n - 2));
    let c3 = lower_char_exec(s.get_char(n - 1));
    let r = c0 == '.' && c1 == 'm' && c2 == 'a' && c3 == 'p';
    proof {
        let l = lower_str(s@);
        assert(l.len() == s@.len());
        assert(l[n - 4] == lower_char(s@[n - 4]));
        assert(l[n - 3] == lower_char(s@[n - 3]));
        assert(l[n - 2] == lower_char(s@[n - 2]));
        assert(l[n - 1] == lower_char(s@[n - 1]));
        let tail = l.subrange(l.len() - 4, l.len() as int);
        assert(tail[0] == l[n - 4] && tail[1] == l[n - 3] && tail[2] == l[n - 2] && tail[3] == l[n
            - 1]);
        if r {
            assert(tail =~= ".map"@);
        } else {
            assert(tail == ".map"@ ==> (tail[0] == '.' && tail[1] == 'm' && tail[2] == 'a'
                && tail[3] == 'p'));
        }
    }
    r
}

/// Determines the MIME type for a key from its extension; source maps are
/// forced to application/json.
pub fn get_content_type_from_extension(file_path: &str) -> (r: String)
    ensures
        r@ == spec_content_type(file_path@),
{
    let guessed = guess_mime(file_path);
    if ends_with_map_ci(file_path) {
        String::from_str("application/json")
    } else {
        guessed
    }
}

/// A character a filename may not contain.
pub open spec fn is_invalid_filename_char(c: char) -> bool {
    c == '<' || c == '>' || c == ':' || c == '"' || c == '|' || c == '?' || c == '*' || c == '\0'
}

/// A device name that a filename may not begin with (before its first dot),
/// compared without regard to ASCII case.
pub open spec fn is_reserved_name(seg: Seq<char>) -> bool {
    ||| lower_str(seg) == "con"@
    ||| lower_str(seg) == "prn"@
    ||| lower_str(seg) == "aux"@
    ||| lower_str(seg) == "nul"@
    ||| lower_str(seg) == "com1"@
    ||| lower_str(seg) == "com2"@
    ||| lower_str(seg) == "com3"@
    ||| lower_str(seg) == "com4"@
    ||| lower_str(seg) == "com5"@
    ||| lower_str(seg) == "com6"@
    ||| lower_str(seg) == "com7"@
    ||| lower_str(seg) == "com8"@
    ||| lower_str(seg) == "com9"@
    ||| lower_str(seg) == "lpt1"@
    ||| lower_str(seg) == "lpt2"@
    ||| lower_str(seg) == "lpt3"@
    ||| lower_str(seg) == "lpt4"@
    ||| lower_str(seg) == "lpt5"@
    ||| lower_str(seg) == "lpt6"@
    ||| lower_str(seg) == "lpt7"@
    ||| lower_str(seg) == "lpt8"@
    ||| lower_str(seg) == "lpt9"@
}

/// A legal filename: non-empty, free of forbidden characters, not a reserved
/// device name before its first dot, and neither starting nor ending with a
/// space nor starting with a dot.
pub open spec fn spec_valid_filename(s: Seq<char>) -> bool {
    &&& s.len() > 0
    &&& !(exists|i: int| 0 <= i < s.len() && is_invalid_filename_char(s[i]))
    &&& !is_reserved_name(split_str(s, '.')[0])
    &&& s[0] != ' '
    &&& s.last() != ' '
    &&& s[0] != '.'
}

/// Whether the segment is a reserved device name.
fn is_reserved_name_exec(seg: &str) -> (r: bool)
    ensures
        r == is_reserved_name(seg@),
{
    eq_lower(seg, "con") || eq_lower(seg, "prn") || eq_lower(seg, "aux") || eq_lower(seg, "nul")
        || eq_lower(seg, "com1") || eq_lower(seg, "com2") || eq_lower(seg, "com3") || eq_lower(
        seg,
        "com4",
    ) || eq_lower(seg, "com5") || eq_lower(seg, "com6") || eq_lower(seg, "com7") || eq_lower(
        seg,
        "com8",
    ) || eq_lower(seg, "com9") || eq_lower(seg, "lpt1") || eq_lower(seg, "lpt2") || eq_lower(
        seg,
        "lpt3",
    ) || eq_lower(seg, "lpt4") || eq_lower(seg, "lpt5") || eq_lower(seg, "lpt6") || eq_lower(
        seg,
        "lpt7",
    ) || eq_lower(seg, "lpt8") || eq_lower(seg, "lpt9")
}

/// Validates a filename against the rules of `spec_valid_filename`.
pub fn validate_filename(filename: &str) -> (r: bool)
    ensures
        r == spec_valid_filename(filename@),
{
    let n = filename.unicode_len();
    if n == 0 {
        return false;
    }
    let mut i: usize = 0;
    while i < n
        invariant
            n == filename@.len(),
            i <= n,
            forall|j: int| 0 <= j < i ==> !is_invalid_filename_char(filename@[j]),
        decreases n - i,
    {
        let c = filename.get_char(i);
        if c == '<' || c == '>' || c == ':' || c == '"' || c == '|' || c == '?' || c == '*' || c
            == '\0' {
            return false;
        }
        i += 1;
    }
    let parts = split_char(filename, '.');
    let first = &parts[0];
    proof {
        assert(parts.deep_view()[0] == parts@[0]@);
    }
    if is_reserved_name_exec(first.as_str()) {
        return false;
    }
    if filename.get_char(0) == ' ' || filename.get_char(n - 1) == ' ' || filename.get_char(0)
        == '.' {
        return false;
    }
    true
}

} // verus!
