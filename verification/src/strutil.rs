//! Verified building blocks for the string work the library does everywhere:
//! splitting keys and paths on `/`, joining segments, trimming, searching,
//! and rendering counts as decimal text.
use vstd::prelude::*;
use vstd::string::StrSliceExecFns;
use vstd::string::StringExecFns;

verus! {

/// Splitting a sequence of characters on a delimiter, head-first: the result
/// always has at least one part, and parts carry no delimiter.
pub open spec fn split_str(s: Seq<char>, c: char) -> Seq<Seq<char>>
    decreases s.len(),
{
    if s.len() == 0 {
        seq![Seq::<char>::empty()]
    } else if s[0] == c {
        seq![Seq::<char>::empty()] + split_str(s.skip(1), c)
    } else {
        let rest = split_str(s.skip(1), c);
        seq![seq![s[0]] + rest[0]] + rest.skip(1)
    }
}

/// Joining parts with a separator string, head-first.
pub open spec fn join_str(parts: Seq<Seq<char>>, sep: Seq<char>) -> Seq<char>
    decreases parts.len(),
{
    if parts.len() == 0 {
        Seq::<char>::empty()
    } else if parts.len() == 1 {
        parts[0]
    } else {
        parts[0] + sep + join_str(parts.skip(1), sep)
    }
}

/// A sequence with every trailing occurrence of `c` removed.
pub open spec fn trim_end_str(s: Seq<char>, c: char) -> Seq<char>
    decreases s.len(),
{
    if s.len() > 0 && s.last() == c {
        trim_end_str(s.drop_last(), c)
    } else {
        s
    }
}

/// The last part of `s` split on `c`: everything after the final delimiter,
/// or all of `s` when the delimiter does not occur.
pub open spec fn last_segment(s: Seq<char>, c: char) -> Seq<char> {
    split_str(s, c).last()
}

/// A sequence with every leading occurrence of `c` removed.
pub open spec fn trim_start_str(s: Seq<char>, c: char) -> Seq<char>
    decreases s.len(),
{
    if s.len() > 0 && s[0] == c {
        trim_start_str(s.skip(1), c)
    } else {
        s
    }
}

/// The first position at or after `i` where `c` occurs.
pub open spec fn find_from(s: Seq<char>, c: char, i: int) -> Option<int>
    decreases s.len() - i,
{
    if i < 0 || i >= s.len() {
        None
    } else if s[i] == c {
        Some(i)
    } else {
        find_from(s, c, i + 1)
    }
}

/// The first position where `c` occurs.
pub open spec fn find_first(s: Seq<char>, c: char) -> Option<int> {
    find_from(s, c, 0)
}

/// A found position lies in range and holds the character searched for.
pub proof fn lemma_find_from_some(s: Seq<char>, c: char, start: int)
    requires
        0 <= start,
        find_from(s, c, start) is Some,
    ensures
        ({
            let i = find_from(s, c, start)->0;
            start <= i < s.len() && s[i] == c
        }),
    decreases s.len() - start,
{
    if start < s.len() && s[start] != c {
        lemma_find_from_some(s, c, start + 1);
    }
}

/// An ASCII whitespace character.
pub open spec fn is_space(c: char) -> bool {
    c == ' ' || c == '\t' || c == '\n' || c == '\r' || c == '\u{b}' || c == '\u{c}'
}

/// A sequence with trailing whitespace removed.
pub open spec fn trim_end_ws(s: Seq<char>) -> Seq<char>
    decreases s.len(),
{
    if s.len() > 0 && is_space(s.last()) {
        trim_end_ws(s.drop_last())
    } else {
        s
    }
}

/// A sequence with leading whitespace removed.
pub open spec fn trim_start_ws(s: Seq<char>) -> Seq<char>
    decreases s.len(),
{
    if s.len() > 0 && is_space(s[0]) {
        trim_start_ws(s.skip(1))
    } else {
        s
    }
}

/// A sequence with whitespace removed from both ends.
pub open spec fn trim_ws(s: Seq<char>) -> Seq<char> {
    trim_start_ws(trim_end_ws(s))
}

/// `needle` occurs in `hay` starting at position `i`.
pub open spec fn matches_at(hay: Seq<char>, needle: Seq<char>, i: int) -> bool {
    &&& 0 <= i
    &&& i + needle.len() <= hay.len()
    &&& hay.subrange(i, i + needle.len() as int) == needle
}

/// `needle` occurs somewhere in `hay`.
pub open spec fn contains_str(hay: Seq<char>, needle: Seq<char>) -> bool {
    exists|i: int| matches_at(hay, needle, i)
}

/// ASCII lower-casing of one character; all others are kept as they are.
pub open spec fn lower_char(c: char) -> char {
    if c == 'A' { 'a' } else if c == 'B' { 'b' } else if c == 'C' { 'c' }
    else if c == 'D' { 'd' } else if c == 'E' { 'e' } else if c == 'F' { 'f' }
    else if c == 'G' { 'g' } else if c == 'H' { 'h' } else if c == 'I' { 'i' }
    else if c == 'J' { 'j' } else if c == 'K' { 'k' } else if c == 'L' { 'l' }
    else if c == 'M' { 'm' } else if c == 'N' { 'n' } else if c == 'O' { 'o' }
    else if c == 'P' { 'p' } else if c == 'Q' { 'q' } else if c == 'R' { 'r' }
    else if c == 'S' { 's' } else if c == 'T' { 't' } else if c == 'U' { 'u' }
    else if c == 'V' { 'v' } else if c == 'W' { 'w' } else if c == 'X' { 'x' }
    else if c == 'Y' { 'y' } else if c == 'Z' { 'z' } else { c }
}

/// ASCII lower-casing of a whole sequence.
pub open spec fn lower_str(s: Seq<char>) -> Seq<char> {
    s.map_values(|c: char| lower_char(c))
}

/// The first position of `c` in `s`, if any.
pub fn find_char(s: &str, c: char) -> (r: Option<usize>)
    ensures
        (match r {
            Some(i) => Some(i as int),
            None => None::<int>,
        }) == find_first(s@, c),
{
    let n = s.unicode_len();
    let mut i: usize = 0;
    while i < n
        invariant
            n == s@.len(),
            i <= n,
            find_first(s@, c) == find_from(s@, c, i as int),
        decreases n - i,
    {
        if s.get_char(i) == c {
            return Some(i);
        }
        i += 1;
    }
    None
}

/// Whether `c` is ASCII whitespace.
fn is_space_exec(c: char) -> (r: bool)
    ensures
        r == is_space(c),
{
    c == ' ' || c == '\t' || c == '\n' || c == '\r' || c == '\u{b}' || c == '\u{c}'
}

/// `s` with whitespace removed from both ends.
pub fn trim_ws_str<'a>(s: &'a str) -> (r: &'a str)
    ensures
        r@ == trim_ws(s@),
{
    let n = s.unicode_len();
    let mut e = n;
    proof {
        assert(s@.subrange(0, n as int) =~= s@);
    }
    while e > 0 && is_space_exec(s.get_char(e - 1))
        invariant
            n == s@.len(),
            e <= n,
            trim_end_ws(s@) == trim_end_ws(s@.subrange(0, e as int)),
        decreases e,
    {
        proof {
            assert(s@.subrange(0, e as int).drop_last() =~= s@.subrange(0, e - 1));
        }
        e -= 1;
    }
    proof {
        assert(trim_end_ws(s@.subrange(0, e as int)) == s@.subrange(0, e as int));
    }
    let mut b: usize = 0;
    while b < e && is_space_exec(s.get_char(b))
        invariant
            n == s@.len(),
            b <= e <= n,
            trim_end_ws(s@) == s@.subrange(0, e as int),
            trim_start_ws(s@.subrange(0, e as int)) == trim_start_ws(
                s@.subrange(b as int, e as int),
            ),
        decreases e - b,
    {
        proof {
            assert(s@.subrange(b as int, e as int).skip(1) =~= s@.subrange(b + 1, e as int));
        }
        b += 1;
    }
    proof {
        assert(trim_start_ws(s@.subrange(b as int, e as int)) == s@.subrange(b as int, e as int));
    }
    s.substring_char(b, e)
}

/// Whether `needle` occurs in the ASCII-lowered text of `hay`.
pub fn contains_lower(hay: &str, needle: &str) -> (r: bool)
    ensures
        r == contains_str(lower_str(hay@), needle@),
{
    let ghost l = lower_str(hay@);
    let hn = hay.unicode_len();
    let nn = needle.unicode_len();
    if nn > hn {
        proof {
            assert(l.len() == hay@.len());
        }
        return false;
    }
    if nn == 0 {
        proof {
            assert(l.subrange(0, 0) =~= needle@);
            assert(matches_at(l, needle@, 0));
        }
        return true;
    }
    let mut i: usize = 0;
    while i <= hn - nn
        invariant
            l == lower_str(hay@),
            l.len() == hn == hay@.len(),
            nn == needle@.len(),
            0 < nn <= hn,
            i <= hn - nn + 1,
            forall|x: int| 0 <= x < i ==> !matches_at(l, needle@, x),
        decreases hn + 1 - nn - i,
    {
        let mut j: usize = 0;
        let mut hit = true;
        while j < nn && hit
            invariant
                l == lower_str(hay@),
                l.len() == hn == hay@.len(),
                nn == needle@.len(),
                i + nn <= hn,
                j <= nn,
                hit ==> forall|y: int| 0 <= y < j ==> l[i + y] == needle@[y],
                !hit ==> !matches_at(l, needle@, i as int),
            decreases nn - j + (if hit {
                1int
            } else {
                0int
            }),
        {
            if lower_char_exec(hay.get_char(i + j)) != needle.get_char(j) {
                proof {
                    assert(l[i + j] == lower_char(hay@[i + j]));
                    assert(l.subrange(i as int, i + nn)[j as int] == l[i + j]);
                }
                hit = false;
                proof {
                    assert(!matches_at(l, needle@, i as int));
                }
            } else {
                j += 1;
            }
        }
        if hit {
            proof {
                assert(l.subrange(i as int, i + nn) =~= needle@);
                assert(matches_at(l, needle@, i as int));
            }
            return true;
        }
        i += 1;
    }
    proof {
        assert forall|x: int| !matches_at(l, needle@, x) by {
            if 0 <= x && x + needle@.len() <= l.len() {
                assert(x < i);
            }
        }
    }
    false
}

/// ASCII lower-casing of one character, executably.
pub fn lower_char_exec(c: char) -> (r: char)
    ensures
        r == lower_char(c),
{
    match c {
        'A' => 'a', 'B' => 'b', 'C' => 'c', 'D' => 'd', 'E' => 'e', 'F' => 'f',
        'G' => 'g', 'H' => 'h', 'I' => 'i', 'J' => 'j', 'K' => 'k', 'L' => 'l',
        'M' => 'm', 'N' => 'n', 'O' => 'o', 'P' => 'p', 'Q' => 'q', 'R' => 'r',
        'S' => 's', 'T' => 't', 'U' => 'u', 'V' => 'v', 'W' => 'w', 'X' => 'x',
        'Y' => 'y', 'Z' => 'z', _ => c,
    }
}

/// Whether `lower_str(seg)` equals the (already lower-case) `lit`.
pub fn eq_lower(seg: &str, lit: &str) -> (r: bool)
    ensures
        r == (lower_str(seg@) == lit@),
{
    let sn = seg.unicode_len();
    let ln = lit.unicode_len();
    if sn != ln {
        proof {
            assert(lower_str(seg@).len() == seg@.len());
        }
        return false;
    }
    let mut i: usize = 0;
    while i < sn
        invariant
            sn == seg@.len() == lit@.len(),
            i <= sn,
            forall|j: int| 0 <= j < i ==> lower_char(seg@[j]) == lit@[j],
        decreases sn - i,
    {
        if lower_char_exec(seg.get_char(i)) != lit.get_char(i) {
            proof {
                assert(lower_str(seg@)[i as int] == lower_char(seg@[i as int]));
            }
            return false;
        }
        i += 1;
    }
    proof {
        assert(lower_str(seg@) =~= lit@);
    }
    true
}

/// The decimal digit character for a value in 0..=9.
pub open spec fn dec_digit(d: int) -> char {
    if d == 0 { '0' } else if d == 1 { '1' } else if d == 2 { '2' }
    else if d == 3 { '3' } else if d == 4 { '4' } else if d == 5 { '5' }
    else if d == 6 { '6' } else if d == 7 { '7' } else if d == 8 { '8' }
    else { '9' }
}

/// Decimal rendering of a non-negative integer, most significant digit first.
pub open spec fn dec_uint(n: int) -> Seq<char>
    recommends
        n >= 0,
    decreases n,
{
    if n < 10 {
        seq![dec_digit(n)]
    } else {
        dec_uint(n / 10).push(dec_digit(n % 10))
    }
}

/// Decimal rendering of a signed integer: a minus sign before the magnitude.
pub open spec fn dec_int(n: int) -> Seq<char> {
    if n < 0 {
        seq!['-'] + dec_uint(-n)
    } else {
        dec_uint(n)
    }
}

/// Splitting never yields an empty list of parts.
pub proof fn lemma_split_len(s: Seq<char>, c: char)
    ensures
        split_str(s, c).len() >= 1,
    decreases s.len(),
{
    if s.len() == 0 {
    } else if s[0] == c {
    } else {
        lemma_split_len(s.skip(1), c);
    }
}

/// When the text does not end with the delimiter, its last part is
/// non-empty.
pub proof fn lemma_split_last_nonempty(s: Seq<char>, c: char)
    requires
        s.len() > 0,
        s.last() != c,
    ensures
        split_str(s, c).last().len() > 0,
    decreases s.len(),
{
    let t = s.skip(1);
    if s[0] == c {
        assert(t.len() > 0 && t.last() == s.last());
        lemma_split_last_nonempty(t, c);
        lemma_split_len(t, c);
        assert(split_str(s, c).last() == split_str(t, c).last());
    } else if s.len() == 1 {
        assert(split_str(t, c) =~~= seq![Seq::<char>::empty()]);
        assert(split_str(s, c).last() == seq![s[0]] + Seq::<char>::empty());
    } else {
        assert(t.len() > 0 && t.last() == s.last());
        lemma_split_last_nonempty(t, c);
        lemma_split_len(t, c);
        let r = split_str(t, c);
        if r.len() == 1 {
            assert(r.last() == r[0]);
            assert(split_str(s, c).last() == seq![s[0]] + r[0]);
        } else {
            assert(split_str(s, c).last() == r.skip(1).last());
            assert(r.skip(1).last() == r.last());
        }
    }
}

/// A join is at least as long as its last part.
pub proof fn lemma_join_len(ps: Seq<Seq<char>>, sep: Seq<char>)
    requires
        ps.len() > 0,
    ensures
        join_str(ps, sep).len() >= ps.last().len(),
    decreases ps.len(),
{
    if ps.len() > 1 {
        lemma_join_len(ps.skip(1), sep);
        assert(ps.skip(1).last() == ps.last());
    }
}

/// Trimming leading delimiters keeps a text whose last character is not the
/// delimiter non-empty.
pub proof fn lemma_trim_start_keeps_last(s: Seq<char>, c: char)
    requires
        s.len() > 0,
        s.last() != c,
    ensures
        trim_start_str(s, c).len() > 0,
    decreases s.len(),
{
    if s[0] == c {
        let t = s.skip(1);
        assert(t.len() > 0 && t.last() == s.last());
        lemma_trim_start_keeps_last(t, c);
    }
}

/// A sequence without the delimiter splits into itself alone.
pub proof fn lemma_split_no_delim(t: Seq<char>, c: char)
    requires
        forall|j: int| 0 <= j < t.len() ==> t[j] != c,
    ensures
        split_str(t, c) == seq![t],
    decreases t.len(),
{
    if t.len() == 0 {
        assert(split_str(t, c) =~~= seq![t]);
    } else {
        lemma_split_no_delim(t.skip(1), c);
        assert(seq![t[0]] + t.skip(1) =~= t);
        assert(split_str(t, c) =~~= seq![t]);
    }
}

/// Splitting at the first delimiter: everything before it is the first part,
/// and the rest splits on its own.
pub proof fn lemma_split_at_delim(t: Seq<char>, c: char, k: int)
    requires
        0 <= k < t.len(),
        t[k] == c,
        forall|j: int| 0 <= j < k ==> t[j] != c,
    ensures
        split_str(t, c) == seq![t.take(k)] + split_str(t.skip(k + 1), c),
    decreases k,
{
    if k == 0 {
        assert(t.skip(1) =~= t.skip(k + 1));
        assert(t.take(0) =~= Seq::<char>::empty());
        assert(split_str(t, c) =~~= seq![t.take(k)] + split_str(t.skip(k + 1), c));
    } else {
        let u = t.skip(1);
        lemma_split_at_delim(u, c, k - 1);
        assert(u.take(k - 1) =~= t.subrange(1, k));
        assert(seq![t[0]] + t.subrange(1, k) =~= t.take(k));
        assert(u.skip(k) =~= t.skip(k + 1));
        assert(split_str(t, c) =~~= seq![t.take(k)] + split_str(t.skip(k + 1), c));
    }
}

/// Joining after adding one more part appends a separator and that part.
pub proof fn lemma_join_push(ps: Seq<Seq<char>>, x: Seq<char>, sep: Seq<char>)
    ensures
        ps.len() == 0 ==> join_str(ps.push(x), sep) == x,
        ps.len() > 0 ==> join_str(ps.push(x), sep) == join_str(ps, sep) + sep + x,
    decreases ps.len(),
{
    if ps.len() == 0 {
        assert(join_str(ps.push(x), sep) == ps.push(x)[0]);
    } else if ps.len() == 1 {
        assert(ps.push(x).skip(1) =~~= seq![x]);
        assert(join_str(seq![x], sep) == x);
        assert(join_str(ps.push(x), sep) =~= join_str(ps, sep) + sep + x);
    } else {
        assert(ps.push(x).skip(1) =~~= ps.skip(1).push(x));
        lemma_join_push(ps.skip(1), x, sep);
        assert(join_str(ps.push(x), sep) =~= (ps[0] + sep + join_str(ps.skip(1), sep)) + sep + x);
    }
}

/// Splits `s` on the character `c`, faithfully to `split_str`.
pub fn split_char(s: &str, c: char) -> (parts: Vec<String>)
    ensures
        parts.deep_view() == split_str(s@, c),
        parts.len() >= 1,
{
    let n = s.unicode_len();
    let mut parts: Vec<String> = Vec::new();
    let mut seg_start: usize = 0;
    let mut i: usize = 0;
    proof {
        assert(parts.deep_view() =~~= Seq::<Seq<char>>::empty());
        assert(s@.skip(0) =~= s@);
        assert(parts.deep_view() + split_str(s@, c) =~~= split_str(s@, c));
    }
    while i < n
        invariant
            n == s@.len(),
            seg_start <= i <= n,
            split_str(s@, c) == parts.deep_view() + split_str(s@.skip(seg_start as int), c),
            forall|j: int| seg_start <= j < i ==> s@[j] != c,
        decreases n - i,
    {
        if s.get_char(i) == c {
            let piece = String::from_str(s.substring_char(seg_start, i));
            let ghost old_parts = parts.deep_view();
            parts.push(piece);
            proof {
                let t = s@.skip(seg_start as int);
                let k = i - seg_start;
                lemma_split_at_delim(t, c, k);
                assert(t.take(k) =~= s@.subrange(seg_start as int, i as int));
                assert(t.skip(k + 1) =~= s@.skip(i + 1));
                assert(parts.deep_view() =~~= old_parts + seq![piece@]);
                assert(split_str(s@, c) =~~= parts.deep_view() + split_str(s@.skip(i + 1), c));
            }
            seg_start = i + 1;
        }
        i += 1;
    }
    let piece = String::from_str(s.substring_char(seg_start, n));
    let ghost old_parts = parts.deep_view();
    parts.push(piece);
    proof {
        let t = s@.skip(seg_start as int);
        lemma_split_no_delim(t, c);
        assert(t =~= s@.subrange(seg_start as int, n as int));
        assert(parts.deep_view() =~~= old_parts + seq![piece@]);
        assert(parts.deep_view() =~~= split_str(s@, c));
    }
    parts
}

/// Joins the parts from index `start` on with the separator `sep`.
pub fn join_tail(parts: &Vec<String>, start: usize, sep: &str) -> (r: String)
    requires
        start <= parts.len(),
    ensures
        r@ == join_str(parts.deep_view().skip(start as int), sep@),
{
    let ghost dv = parts.deep_view();
    let mut out = String::new();
    if start >= parts.len() {
        proof {
            assert(dv.skip(start as int) =~~= Seq::<Seq<char>>::empty());
        }
        return out;
    }
    out.append(parts[start].as_str());
    let mut i = start + 1;
    proof {
        assert(dv.subrange(start as int, i as int) =~~= seq![dv[start as int]]);
        assert(out@ == join_str(dv.subrange(start as int, i as int), sep@));
    }
    while i < parts.len()
        invariant
            dv == parts.deep_view(),
            dv.len() == parts.len(),
            start < i <= parts.len(),
            out@ == join_str(dv.subrange(start as int, i as int), sep@),
        decreases parts.len() - i,
    {
        out.append(sep);
        out.append(parts[i].as_str());
        proof {
            let pre = dv.subrange(start as int, i as int);
            lemma_join_push(pre, dv[i as int], sep@);
            assert(dv.subrange(start as int, i + 1) =~~= pre.push(dv[i as int]));
            assert(out@ == join_str(dv.subrange(start as int, i + 1), sep@));
        }
        i += 1;
    }
    proof {
        assert(dv.subrange(start as int, parts.len() as int) =~~= dv.skip(start as int));
    }
    out
}

/// The last part of `s` split on `c`.
pub fn last_segment_of(s: &str, c: char) -> (r: String)
    ensures
        r@ == last_segment(s@, c),
{
    let parts = split_char(s, c);
    let idx = parts.len() - 1;
    let r = parts[idx].clone();
    proof {
        assert(parts.deep_view()[idx as int] == parts@[idx as int]@);
    }
    r
}

/// Exact character equality of two string slices.
pub fn str_eq(a: &str, b: &str) -> (r: bool)
    ensures
        r == (a@ == b@),
{
    let an = a.unicode_len();
    let bn = b.unicode_len();
    if an != bn {
        return false;
    }
    let mut i: usize = 0;
    while i < an
        invariant
            an == a@.len(),
            an == b@.len(),
            i <= an,
            forall|j: int| 0 <= j < i ==> a@[j] == b@[j],
        decreases an - i,
    {
        if a.get_char(i) != b.get_char(i) {
            return false;
        }
        i += 1;
    }
    proof {
        assert(a@ =~= b@);
    }
    true
}

/// Whether `s` ends with the character `c`.
pub fn ends_with_char(s: &str, c: char) -> (r: bool)
    ensures
        r == (s@.len() > 0 && s@.last() == c),
{
    let n = s.unicode_len();
    if n == 0 {
        false
    } else {
        s.get_char(n - 1) == c
    }
}

/// Whether `s` starts with the string `p`.
pub fn starts_with_str(s: &str, p: &str) -> (r: bool)
    ensures
        r == (p@.len() <= s@.len() && s@.subrange(0, p@.len() as int) == p@),
{
    let sn = s.unicode_len();
    let pn = p.unicode_len();
    if pn > sn {
        return false;
    }
    let mut i: usize = 0;
    while i < pn
        invariant
            sn == s@.len(),
            pn == p@.len(),
            pn <= sn,
            i <= pn,
            forall|j: int| 0 <= j < i ==> s@[j] == p@[j],
        decreases pn - i,
    {
        if s.get_char(i) != p.get_char(i) {
            proof {
                assert(s@.subrange(0, p@.len() as int)[i as int] != p@[i as int]);
            }
            return false;
        }
        i += 1;
    }
    proof {
        assert(s@.subrange(0, p@.len() as int) =~= p@);
    }
    true
}

/// `s` with every trailing occurrence of `c` removed.
pub fn trim_end_char<'a>(s: &'a str, c: char) -> (r: &'a str)
    ensures
        r@ == trim_end_str(s@, c),
{
    let n = s.unicode_len();
    let mut e = n;
    proof {
        assert(s@.subrange(0, n as int) =~= s@);
    }
    while e > 0 && s.get_char(e - 1) == c
        invariant
            n == s@.len(),
            e <= n,
            trim_end_str(s@, c) == trim_end_str(s@.subrange(0, e as int), c),
        decreases e,
    {
        proof {
            assert(s@.subrange(0, e as int).drop_last() =~= s@.subrange(0, e - 1));
        }
        e -= 1;
    }
    proof {
        assert(s@.subrange(0, n as int) =~= s@);
        assert(trim_end_str(s@.subrange(0, e as int), c) == s@.subrange(0, e as int));
    }
    s.substring_char(0, e)
}

/// `s` with every leading occurrence of `c` removed.
pub fn trim_start_char<'a>(s: &'a str, c: char) -> (r: &'a str)
    ensures
        r@ == trim_start_str(s@, c),
{
    let n = s.unicode_len();
    let mut b: usize = 0;
    proof {
        assert(s@.subrange(0, n as int) =~= s@);
    }
    while b < n && s.get_char(b) == c
        invariant
            n == s@.len(),
            b <= n,
            trim_start_str(s@, c) == trim_start_str(s@.subrange(b as int, n as int), c),
        decreases n - b,
    {
        proof {
            assert(s@.subrange(b as int, n as int).skip(1) =~= s@.subrange(b + 1, n as int));
        }
        b += 1;
    }
    proof {
        assert(trim_start_str(s@.subrange(b as int, n as int), c) == s@.subrange(
            b as int,
            n as int,
        ));
    }
    s.substring_char(b, n)
}

/// The decimal digit character for `d`, as a one-character string.
pub fn digit_str(d: u64) -> (r: &'static str)
    requires
        d < 10,
    ensures
        r@ =~= seq![dec_digit(d as int)],
{
    proof {
        reveal_strlit("0");
        reveal_strlit("1");
        reveal_strlit("2");
        reveal_strlit("3");
        reveal_strlit("4");
        reveal_strlit("5");
        reveal_strlit("6");
        reveal_strlit("7");
        reveal_strlit("8");
        reveal_strlit("9");
    }
    if d == 0 { "0" } else if d == 1 { "1" } else if d == 2 { "2" }
    else if d == 3 { "3" } else if d == 4 { "4" } else if d == 5 { "5" }
    else if d == 6 { "6" } else if d == 7 { "7" } else if d == 8 { "8" }
    else { "9" }
}

/// Decimal rendering of an unsigned value.
pub fn u128_to_string(n: u128) -> (r: String)
    ensures
        r@ == dec_uint(n as int),
{
    let mut v = n;
    let mut out = String::new();
    while v >= 10
        invariant
            dec_uint(n as int) == dec_uint(v as int) + out@,
        decreases v,
    {
        let ghost v0 = v as int;
        let d = digit_str((v % 10) as u64);
        let rest = out;
        out = String::from_str(d).concat(rest.as_str());
        v = v / 10;
        proof {
            assert(dec_uint(v0) == dec_uint(v0 / 10).push(dec_digit(v0 % 10)));
            assert(dec_uint(v0 / 10).push(dec_digit(v0 % 10)) =~= dec_uint(v0 / 10) + seq![
                dec_digit(v0 % 10),
            ]);
            assert(dec_uint(n as int) =~= dec_uint(v as int) + out@);
        }
    }
    proof {
        assert(seq![dec_digit(v as int)] == dec_uint(v as int));
    }
    let d = digit_str((v % 10) as u64);
    let rest = out;
    String::from_str(d).concat(rest.as_str())
}

/// Decimal rendering of an unsigned 64-bit value.
pub fn u64_to_string(n: u64) -> (r: String)
    ensures
        r@ == dec_uint(n as int),
{
    u128_to_string(n as u128)
}

/// Decimal rendering of a usize count.
pub fn usize_to_string(n: usize) -> (r: String)
    ensures
        r@ == dec_uint(n as int),
{
    u64_to_string(n as u64)
}

/// Decimal rendering of a signed value.
pub fn i64_to_string(n: i64) -> (r: String)
    ensures
        r@ == dec_int(n as int),
{
    if n >= 0 {
        u64_to_string(n as u64)
    } else {
        let mag: u64 = (-(n as i128)) as u64;
        let rest = u64_to_string(mag);
        proof {
            reveal_strlit("-");
        }
        String::from_str("-").concat(rest.as_str())
    }
}

/// Decimal rendering of an i32 count.
pub fn i32_to_string(n: i32) -> (r: String)
    ensures
        r@ == dec_int(n as int),
{
    i64_to_string(n as i64)
}

} // verus!
