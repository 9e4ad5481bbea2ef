//! Profile handling for the shared credentials configuration: parsing the
//! config file text into profiles, classifying provider errors into
//! actionable messages, and resolving a bucket's effective region.
use crate::models::{AwsProfile, AwsProfileView, ProfileBucket, ProfileStatus, S3DeckError};
use crate::strutil::{
    contains_lower, contains_str, find_char, find_first, lower_str, split_char, split_str, str_eq,
    starts_with_str, trim_ws, trim_ws_str,
};
use vstd::prelude::*;
use vstd::string::StrSliceExecFns;
use vstd::string::StringExecFns;

verus! {

/// Reads profile information out of the shared config file format.
pub struct AwsProfileManager;

/// A parsed profile, not yet validated against the provider.
pub open spec fn profile_view(name: Seq<char>, region: Option<Seq<char>>) -> AwsProfileView {
    AwsProfileView { name, region, status: ProfileStatus::Unknown }
}

/// The profile name borne by a section header's inside: a leading
/// `profile ` marker is dropped, anything else names the profile as is.
pub open spec fn section_name(section: Seq<char>) -> Seq<char> {
    if section.len() >= 8 && section.take(8) == "profile "@ {
        section.skip(8)
    } else {
        section
    }
}

/// The profiles declared from line `i` on, given the section currently open
/// and the region it has declared so far. A section is emitted when the next
/// header begins, or at end of input; only its `region` key is carried.
pub open spec fn parse_from(
    lines: Seq<Seq<char>>,
    i: int,
    current: Option<Seq<char>>,
    region: Option<Seq<char>>,
) -> Seq<AwsProfileView>
    decreases lines.len() - i,
{
    let flushed = match current {
        Some(n) => seq![profile_view(n, region)],
        None => Seq::<AwsProfileView>::empty(),
    };
    if i < 0 || i >= lines.len() {
        flushed
    } else {
        let l = trim_ws(lines[i]);
        if l.len() == 0 || l[0] == '#' {
            parse_from(lines, i + 1, current, region)
        } else if l[0] == '[' && l.last() == ']' {
            flushed + parse_from(
                lines,
                i + 1,
                Some(section_name(l.subrange(1, l.len() - 1))),
                None,
            )
        } else {
            match find_first(l, '=') {
                Some(k) => {
                    if trim_ws(l.take(k)) == "region"@ {
                        parse_from(lines, i + 1, current, Some(trim_ws(l.skip(k + 1))))
                    } else {
                        parse_from(lines, i + 1, current, region)
                    }
                },
                None => parse_from(lines, i + 1, current, region),
            }
        }
    }
}

/// The profiles declared by a whole config text.
pub open spec fn spec_parse_aws_config(content: Seq<char>) -> Seq<AwsProfileView> {
    parse_from(split_str(content, '\n'), 0, None, None)
}

impl AwsProfileManager {
    /// A fresh manager.
    pub fn new() -> (r: Self) {
        AwsProfileManager
    }

    /// Parses the config file text: a profile per section header, named
    /// after the header with any `profile ` marker dropped, carrying the
    /// section's `region` value when one is declared. Comments, blank lines
    /// and unknown keys are ignored; keys before the first header belong to
    /// no profile.
    pub fn parse_aws_config(&self, content: &str) -> (r: Result<Vec<AwsProfile>, S3DeckError>)
        ensures
            r matches Ok(v) && v.deep_view() == spec_parse_aws_config(content@),
    {
        let lines = split_char(content, '\n');
        let ghost ldv = lines.deep_view();
        let mut profiles: Vec<AwsProfile> = Vec::new();
        let mut current: Option<String> = None;
        let mut region: Option<String> = None;
        let mut i: usize = 0;
        proof {
            assert(profiles.deep_view() =~~= Seq::<AwsProfileView>::empty());
            assert(current.deep_view() == None::<Seq<char>>);
            assert(region.deep_view() == None::<Seq<char>>);
            assert(profiles.deep_view() + parse_from(ldv, 0, None, None) =~~= spec_parse_aws_config(
                content@,
            ));
        }
        while i < lines.len()
            invariant
                ldv == lines.deep_view(),
                ldv.len() == lines.len(),
                i <= lines.len(),
                spec_parse_aws_config(content@) == profiles.deep_view() + parse_from(
                    ldv,
                    i as int,
                    current.deep_view(),
                    region.deep_view(),
                ),
            decreases lines.len() - i,
        {
            proof {
                assert(ldv[i as int] == lines@[i as int]@);
            }
            let line = trim_ws_str(lines[i].as_str());
            let n = line.unicode_len();
            let ghost l = trim_ws(ldv[i as int]);
            if n == 0 || line.get_char(0) == '#' {
                // comment or blank: nothing changes
            } else if line.get_char(0) == '[' && line.get_char(n - 1) == ']' {
                let ghost before = profiles.deep_view();
                let previous = current;
                let previous_region = region;
                region = None;
                match previous {
                    Some(name) => {
                        let flushed = AwsProfile {
                            name,
                            region: previous_region,
                            status: ProfileStatus::Unknown,
                        };
                        let ghost fv = flushed@;
                        profiles.push(flushed);
                        proof {
                            assert(profiles.deep_view() =~~= before + seq![fv]);
                        }
                    },
                    None => {},
                }
                let section = line.substring_char(1, n - 1);
                proof {
                    reveal_strlit("profile ");
                    assert(section@ =~= l.subrange(1, l.len() - 1));
                }
                let name = if starts_with_str(section, "profile ") {
                    let sn = section.unicode_len();
                    let tail = section.substring_char(8, sn);
                    proof {
                        assert(tail@ =~= section@.skip(8));
                    }
                    String::from_str(tail)
                } else {
                    String::from_str(section)
                };
                proof {
                    assert(name@ == section_name(l.subrange(1, l.len() - 1)));
                }
                current = Some(name);
            } else {
                match find_char(line, '=') {
                    Some(k) => {
                        proof {
                            crate::strutil::lemma_find_from_some(line@, '=', 0);
                        }
                        let key = trim_ws_str(line.substring_char(0, k));
                        proof {
                            assert(line@.subrange(0, k as int) =~= l.take(k as int));
                        }
                        if str_eq(key, "region") {
                            let value = trim_ws_str(line.substring_char(k + 1, n));
                            proof {
                                assert(line@.subrange(k + 1, n as int) =~= l.skip(k + 1));
                            }
                            region = Some(String::from_str(value));
                        }
                    },
                    None => {},
                }
            }
            i += 1;
        }
        match current {
            Some(name) => {
                let ghost before = profiles.deep_view();
                let flushed = AwsProfile { name, region, status: ProfileStatus::Unknown };
                let ghost fv = flushed@;
                profiles.push(flushed);
                proof {
                    assert(profiles.deep_view() =~~= before + seq![fv]);
                    assert(profiles.deep_view() =~~= spec_parse_aws_config(content@));
                }
            },
            None => {
                proof {
                    assert(profiles.deep_view() =~~= spec_parse_aws_config(content@));
                }
            },
        }
        Ok(profiles)
    }
}

/// How a credential-validation failure reads: expired or invalid wording
/// means the credentials ran out; denied access means they are wrong; any
/// other failure stays unclassified.
pub open spec fn spec_classify_profile_status(msg: Seq<char>) -> ProfileStatus {
    let l = lower_str(msg);
    if contains_str(l, "expired"@) || contains_str(l, "invalid"@) {
        ProfileStatus::Expired
    } else if contains_str(l, "access denied"@) || contains_str(l, "forbidden"@) {
        ProfileStatus::Invalid
    } else {
        ProfileStatus::Unknown
    }
}

/// Classifies the text of a failed bucket-listing call made to validate a
/// profile's credentials.
pub fn classify_profile_status(error_message: &str) -> (r: ProfileStatus)
    ensures
        r == spec_classify_profile_status(error_message@),
{
    if contains_lower(error_message, "expired") || contains_lower(error_message, "invalid") {
        ProfileStatus::Expired
    } else if contains_lower(error_message, "access denied") || contains_lower(
        error_message,
        "forbidden",
    ) {
        ProfileStatus::Invalid
    } else {
        ProfileStatus::Unknown
    }
}

/// The message reported when the provider client for a profile could not be
/// built: credentials first, then an unknown profile, then a bad region, and
/// otherwise the raw failure text.
pub open spec fn client_init_error_text(profile: Seq<char>, msg: Seq<char>) -> Seq<char> {
    let l = lower_str(msg);
    if contains_str(l, "no credentials"@) || contains_str(l, "credential"@) {
        "No valid credentials found for profile '"@ + profile
            + "'. Please configure your AWS credentials."@
    } else if contains_str(l, "profile"@) && contains_str(l, "not found"@) {
        "AWS profile '"@ + profile + "' not found. Please check your AWS configuration."@
    } else if contains_str(l, "region"@) {
        "Invalid or missing region for profile '"@ + profile
            + "'. Please check your AWS configuration."@
    } else {
        "Failed to initialize AWS client for profile '"@ + profile + "': "@ + msg
    }
}

/// Classifies a failure to build the provider client for a profile into a
/// store error with a profile-aware message.
pub fn classify_client_init_error(profile_name: &str, error_message: &str) -> (r: S3DeckError)
    ensures
        r matches S3DeckError::S3(m) && m@ == client_init_error_text(
            profile_name@,
            error_message@,
        ),
{
    let mut m: String;
    if contains_lower(error_message, "no credentials") || contains_lower(
        error_message,
        "credential",
    ) {
        m = String::from_str("No valid credentials found for profile '");
        m.append(profile_name);
        m.append("'. Please configure your AWS credentials.");
    } else if contains_lower(error_message, "profile") && contains_lower(
        error_message,
        "not found",
    ) {
        m = String::from_str("AWS profile '");
        m.append(profile_name);
        m.append("' not found. Please check your AWS configuration.");
    } else if contains_lower(error_message, "region") {
        m = String::from_str("Invalid or missing region for profile '");
        m.append(profile_name);
        m.append("'. Please check your AWS configuration.");
    } else {
        m = String::from_str("Failed to initialize AWS client for profile '");
        m.append(profile_name);
        m.append("': ");
        m.append(error_message);
    }
    S3DeckError::S3(m)
}

/// The message reported when listing the buckets of a profile failed:
/// expired, then denied, then missing credentials, then a network fault,
/// then a bad region, and otherwise the raw failure text.
pub open spec fn list_buckets_error_text(profile: Seq<char>, msg: Seq<char>) -> Seq<char> {
    let l = lower_str(msg);
    if contains_str(l, "expired"@) {
        "Profile '"@ + profile
            + "' credentials have expired. Please run 'aws sso login' or refresh your credentials."@
    } else if contains_str(l, "invalid"@) || contains_str(l, "access denied"@) || contains_str(
        l,
        "forbidden"@,
    ) {
        "Profile '"@ + profile
            + "' credentials are invalid or access is denied. Please check your AWS permissions."@
    } else if contains_str(l, "no credentials"@) || contains_str(l, "credential"@) {
        "No valid credentials found for profile '"@ + profile
            + "'. Please configure your AWS credentials."@
    } else if contains_str(l, "network"@) || contains_str(l, "connection"@) || contains_str(
        l,
        "timeout"@,
    ) {
        "Network error when connecting with profile '"@ + profile
            + "'. Please check your internet connection."@
    } else if contains_str(l, "region"@) {
        "Invalid or missing region for profile '"@ + profile
            + "'. Please check your AWS configuration."@
    } else {
        "Failed to list buckets for profile '"@ + profile + "': "@ + msg
            + ". Please check your AWS configuration and credentials."@
    }
}

/// Classifies a failed bucket-listing call for a profile into a store error
/// with a profile-aware message.
pub fn classify_list_buckets_error(profile_name: &str, error_message: &str) -> (r: S3DeckError)
    ensures
        r matches S3DeckError::S3(m) && m@ == list_buckets_error_text(
            profile_name@,
            error_message@,
        ),
{
    let mut m: String;
    if contains_lower(error_message, "expired") {
        m = String::from_str("Profile '");
        m.append(profile_name);
        m.append("' credentials have expired. Please run 'aws sso login' or refresh your credentials.");
    } else if contains_lower(error_message, "invalid") || contains_lower(
        error_message,
        "access denied",
    ) || contains_lower(error_message, "forbidden") {
        m = String::from_str("Profile '");
        m.append(profile_name);
        m.append("' credentials are invalid or access is denied. Please check your AWS permissions.");
    } else if contains_lower(error_message, "no credentials") || contains_lower(
        error_message,
        "credential",
    ) {
        m = String::from_str("No valid credentials found for profile '");
        m.append(profile_name);
        m.append("'. Please configure your AWS credentials.");
    } else if contains_lower(error_message, "network") || contains_lower(
        error_message,
        "connection",
    ) || contains_lower(error_message, "timeout") {
        m = String::from_str("Network error when connecting with profile '");
        m.append(profile_name);
        m.append("'. Please check your internet connection.");
    } else if contains_lower(error_message, "region") {
        m = String::from_str("Invalid or missing region for profile '");
        m.append(profile_name);
        m.append("'. Please check your AWS configuration.");
    } else {
        m = String::from_str("Failed to list buckets for profile '");
        m.append(profile_name);
        m.append("': ");
        m.append(error_message);
        m.append(". Please check your AWS configuration and credentials.");
    }
    S3DeckError::S3(m)
}

/// The effective region of a bucket: the reported location constraint, or
/// the canonical default when the provider reports none or an empty one.
pub open spec fn spec_effective_region(constraint: Option<Seq<char>>) -> Seq<char> {
    match constraint {
        Some(s) => if s.len() == 0 {
            "us-east-1"@
        } else {
            s
        },
        None => "us-east-1"@,
    }
}

/// Resolves a bucket's effective region from its reported location
/// constraint.
pub fn effective_region(constraint: Option<String>) -> (r: String)
    ensures
        r@ == spec_effective_region(constraint.deep_view()),
{
    match constraint {
        Some(s) => {
            if s.as_str().unicode_len() == 0 {
                String::from_str("us-east-1")
            } else {
                s
            }
        },
        None => String::from_str("us-east-1"),
    }
}

/// Lexicographic order on character sequences by scalar value: the order in
/// which a profile's buckets are presented.
pub open spec fn lex_le(a: Seq<char>, b: Seq<char>) -> bool
    decreases a.len(),
{
    if a.len() == 0 {
        true
    } else if b.len() == 0 {
        false
    } else if (a[0] as u32) == (b[0] as u32) {
        lex_le(a.skip(1), b.skip(1))
    } else {
        (a[0] as u32) < (b[0] as u32)
    }
}

/// The order is total: one of the two directions always holds.
pub proof fn lemma_lex_total(a: Seq<char>, b: Seq<char>)
    ensures
        lex_le(a, b) || lex_le(b, a),
    decreases a.len(),
{
    if a.len() > 0 && b.len() > 0 && (a[0] as u32) == (b[0] as u32) {
        lemma_lex_total(a.skip(1), b.skip(1));
    }
}

/// The order is transitive.
pub proof fn lemma_lex_trans(a: Seq<char>, b: Seq<char>, c: Seq<char>)
    requires
        lex_le(a, b),
        lex_le(b, c),
    ensures
        lex_le(a, c),
    decreases a.len(),
{
    if a.len() > 0 && b.len() > 0 && c.len() > 0 && (a[0] as u32) == (b[0] as u32) && (b[0] as u32)
        == (c[0] as u32) {
        lemma_lex_trans(a.skip(1), b.skip(1), c.skip(1));
    }
}

/// Whether `a` comes no later than `b` in bucket-name order.
fn str_lex_le(a: &str, b: &str) -> (r: bool)
    ensures
        r == lex_le(a@, b@),
{
    let an = a.unicode_len();
    let bn = b.unicode_len();
    let mut i: usize = 0;
    proof {
        assert(a@.skip(0) =~= a@);
        assert(b@.skip(0) =~= b@);
    }
    while i < an && i < bn
        invariant
            an == a@.len(),
            bn == b@.len(),
            i <= an,
            i <= bn,
            lex_le(a@, b@) == lex_le(a@.skip(i as int), b@.skip(i as int)),
        decreases an - i,
    {
        let ca = a.get_char(i) as u32;
        let cb = b.get_char(i) as u32;
        if ca != cb {
            proof {
                assert((a@.skip(i as int)[0] as u32) == ca);
                assert((b@.skip(i as int)[0] as u32) == cb);
            }
            return ca < cb;
        }
        proof {
            assert(a@.skip(i as int).skip(1) =~= a@.skip(i + 1));
            assert(b@.skip(i as int).skip(1) =~= b@.skip(i + 1));
        }
        i += 1;
    }
    proof {
        if i >= an {
            assert(a@.skip(i as int).len() == 0);
        } else {
            assert(b@.skip(i as int).len() == 0);
            assert(a@.skip(i as int).len() > 0);
        }
    }
    i >= an
}

/// The bucket list stands in name order.
pub open spec fn buckets_sorted(s: Seq<ProfileBucket>) -> bool {
    forall|i: int, j: int|
        #![trigger s[i], s[j]]
        0 <= i < j < s.len() ==> lex_le(s[i].name@, s[j].name@)
}

/// A field-for-field copy of one listed bucket.
fn clone_profile_bucket(b: &ProfileBucket) -> (r: ProfileBucket)
    ensures
        r == *b,
{
    ProfileBucket {
        name: b.name.clone(),
        region: b.region.clone(),
        creation_date: b.creation_date,
    }
}

/// Orders a profile's buckets by name: the result holds exactly the given
/// buckets, arranged in name order.
pub fn sort_profile_buckets(buckets: Vec<ProfileBucket>) -> (r: Vec<ProfileBucket>)
    ensures
        r@.to_multiset() == buckets@.to_multiset(),
        r@.len() == buckets@.len(),
        buckets_sorted(r@),
{
    broadcast use vstd::seq_lib::group_to_multiset_ensures;
    broadcast use vstd::seq_lib::lemma_multiset_commutative;
    broadcast use vstd::multiset::group_multiset_axioms;

    let mut out: Vec<ProfileBucket> = Vec::new();
    let mut i: usize = 0;
    proof {
        assert(buckets@.subrange(0, 0) =~= Seq::<ProfileBucket>::empty());
        assert(out@.to_multiset() =~= buckets@.subrange(0, 0).to_multiset());
    }
    while i < buckets.len()
        invariant
            i <= buckets.len(),
            out@.len() == i,
            out@.to_multiset() == buckets@.subrange(0, i as int).to_multiset(),
            buckets_sorted(out@),
        decreases buckets.len() - i,
    {
        let x = clone_profile_bucket(&buckets[i]);
        let ghost xv = x;
        let ghost before = out@;
        let mut p: usize = 0;
        while p < out.len() && str_lex_le(out[p].name.as_str(), x.name.as_str())
            invariant
                out@ == before,
                xv == x,
                p <= out.len(),
                forall|k: int| 0 <= k < p ==> lex_le(out@[k].name@, x.name@),
            decreases out.len() - p,
        {
            p += 1;
        }
        out.insert(p, x);
        proof {
            let t = out@;
            assert(t == before.insert(p as int, xv));
            // name order is kept around the insertion point
            assert forall|k: int, l: int|
                #![trigger t[k], t[l]]
                0 <= k < l < t.len() implies lex_le(t[k].name@, t[l].name@) by {
                if l < p {
                    assert(t[k] == before[k] && t[l] == before[l]);
                } else if k < p && l == p {
                    assert(t[k] == before[k] && t[l] == xv);
                } else if k < p && l > p {
                    assert(t[k] == before[k] && t[l] == before[l - 1]);
                } else if k == p && l > p {
                    assert(t[k] == xv && t[l] == before[l - 1]);
                    if p < before.len() {
                        lemma_lex_total(before[p as int].name@, xv.name@);
                        if l - 1 > p {
                            lemma_lex_trans(
                                xv.name@,
                                before[p as int].name@,
                                before[l - 1].name@,
                            );
                        }
                    }
                } else {
                    assert(t[k] == before[k - 1] && t[l] == before[l - 1]);
                }
            }
            // the inserted list holds the old elements plus the new one
            let left = before.subrange(0, p as int);
            let right = before.subrange(p as int, before.len() as int);
            let single = seq![xv];
            Seq::<ProfileBucket>::empty().to_multiset_ensures();
            buckets@.subrange(0, i as int).to_multiset_ensures();
            vstd::seq_lib::lemma_multiset_commutative(left, single + right);
            vstd::seq_lib::lemma_multiset_commutative(single, right);
            vstd::seq_lib::lemma_multiset_commutative(left, right);
            assert(t =~= left + (single + right));
            assert(before =~= left + right);
            assert(single =~= Seq::<ProfileBucket>::empty().push(xv));
            assert((Seq::<ProfileBucket>::empty().push(xv)).to_multiset()
                =~= Seq::<ProfileBucket>::empty().to_multiset().insert(xv));
            assert(t.to_multiset() =~= before.to_multiset().insert(xv));
            assert((buckets@.subrange(0, i as int).push(buckets@[i as int])).to_multiset()
                =~= buckets@.subrange(0, i as int).to_multiset().insert(buckets@[i as int]));
            assert(buckets@.subrange(0, i + 1) =~= buckets@.subrange(0, i as int).push(
                buckets@[i as int],
            ));
        }
        i += 1;
    }
    proof {
        assert(buckets@.subrange(0, buckets@.len() as int) =~= buckets@);
    }
    out
}

} // verus!
