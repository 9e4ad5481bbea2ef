//! Object-metadata assembly, including the human-readable size string:
//! binary units, one decimal place above bytes, an integer count below.
use crate::models::{ObjectMetadata, Timestamp};
use crate::strutil::{dec_digit, dec_int, dec_uint, digit_str, i64_to_string, u128_to_string};
use vstd::prelude::*;
use vstd::string::StringExecFns;

verus! {

/// How many binary-unit steps (none, KB, MB, GB, TB) a byte count climbs.
pub open spec fn size_unit_index(size: int) -> int {
    if size >= 0x10000000000 {
        4
    } else if size >= 0x40000000 {
        3
    } else if size >= 0x100000 {
        2
    } else if size >= 0x400 {
        1
    } else {
        0
    }
}

/// The divisor belonging to a unit step.
pub open spec fn bin_unit(k: int) -> int {
    if k == 4 {
        0x10000000000
    } else if k == 3 {
        0x40000000
    } else if k == 2 {
        0x100000
    } else if k == 1 {
        0x400
    } else {
        1
    }
}

/// The unit text appended after the number.
pub open spec fn unit_suffix(k: int) -> Seq<char> {
    if k == 4 {
        " TB"@
    } else if k == 3 {
        " GB"@
    } else if k == 2 {
        " MB"@
    } else if k == 1 {
        " KB"@
    } else {
        " B"@
    }
}

/// `n / d` rounded to the nearest integer, ties to the even neighbour.
pub open spec fn round_half_even(n: int, d: int) -> int {
    let q = n / d;
    let r = n % d;
    if 2 * r > d {
        q + 1
    } else if 2 * r == d {
        if q % 2 == 0 {
            q
        } else {
            q + 1
        }
    } else {
        q
    }
}

/// The size string: below 1024 the exact byte count with " B"; above, the
/// size scaled by the unit's divisor, rounded to tenths, printed with one
/// decimal place and the unit.
pub open spec fn spec_format_size(size: int) -> Seq<char> {
    let k = size_unit_index(size);
    if k == 0 {
        dec_int(size) + " B"@
    } else {
        let t = round_half_even(size * 10, bin_unit(k));
        dec_uint(t / 10) + "."@ + seq![dec_digit(t % 10)] + unit_suffix(k)
    }
}

/// Renders a byte count for display (see `spec_format_size`).
pub fn format_file_size(size: i64) -> (r: String)
    ensures
        r@ == spec_format_size(size as int),
{
    if size < 0x400 {
        let mut out = i64_to_string(size);
        out.append(" B");
        return out;
    }
    let d: u128;
    let suf: &'static str;
    if size >= 0x10000000000 {
        d = 0x10000000000;
        suf = " TB";
    } else if size >= 0x40000000 {
        d = 0x40000000;
        suf = " GB";
    } else if size >= 0x100000 {
        d = 0x100000;
        suf = " MB";
    } else {
        d = 0x400;
        suf = " KB";
    }
    let n: u128 = (size as u128) * 10;
    let q = n / d;
    let rem = n % d;
    let t: u128 = if 2 * rem > d {
        q + 1
    } else if 2 * rem == d {
        if q % 2 == 0 {
            q
        } else {
            q + 1
        }
    } else {
        q
    };
    proof {
        assert(t as int == round_half_even(size as int * 10, bin_unit(
            size_unit_index(size as int),
        )));
        reveal_strlit(".");
    }
    let mut out = u128_to_string(t / 10);
    out.append(".");
    let frac = digit_str((t % 10) as u64);
    out.append(frac);
    out.append(suf);
    out
}

/// Builds the metadata record handed back for one object: the fields as the
/// store reported them, a content length defaulted to zero when absent, and
/// the formatted size derived from it.
pub fn assemble_object_metadata(
    key: &str,
    content_type: Option<String>,
    content_length: Option<i64>,
    last_modified: Option<Timestamp>,
    etag: Option<String>,
    storage_class: Option<String>,
    metadata: Vec<(String, String)>,
) -> (r: ObjectMetadata)
    ensures
        r.key@ == key@,
        r.content_type == content_type,
        r.content_length == (match content_length {
            Some(v) => v,
            None => 0,
        }),
        r.last_modified == last_modified,
        r.etag == etag,
        r.storage_class == storage_class,
        r.size_formatted@ == spec_format_size(r.content_length as int),
        r.metadata == metadata,
{
    let len = match content_length {
        Some(v) => v,
        None => 0,
    };
    let size_formatted = format_file_size(len);
    ObjectMetadata {
        key: String::from_str(key),
        content_type,
        content_length: len,
        last_modified,
        etag,
        storage_class,
        size_formatted,
        metadata,
    }
}

} // verus!
