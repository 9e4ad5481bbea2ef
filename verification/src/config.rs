//! The in-memory bucket-profile store: add, update, delete and look up
//! bucket configurations. The surrounding shell persists the set as a whole;
//! the rules live here.
use crate::models::{BucketConfig, Config, S3DeckError};
use crate::strutil::str_eq;
use vstd::prelude::*;
use vstd::string::StrSliceExecFns;
use vstd::string::StringExecFns;

verus! {

/// Relies on uuid::Uuid::new_v4 and its hyphenated Display form: a freshly
/// drawn random v4 identifier, rendered as 36 characters. Being random,
/// nothing more can be promised of its value.
#[verifier::external_body]
fn generate_bucket_id() -> (r: String)
    ensures
        r@.len() == 36,
{
    uuid::Uuid::new_v4().to_string()
}

/// The first position holding the bucket with this id, searched from `i`.
pub open spec fn find_bucket_from(buckets: Seq<BucketConfig>, id: Seq<char>, i: int) -> Option<
    int,
>
    decreases buckets.len() - i,
{
    if i < 0 || i >= buckets.len() {
        None
    } else if buckets[i].id@ == id {
        Some(i)
    } else {
        find_bucket_from(buckets, id, i + 1)
    }
}

/// The first position holding the bucket with this id.
pub open spec fn find_bucket(buckets: Seq<BucketConfig>, id: Seq<char>) -> Option<int> {
    find_bucket_from(buckets, id, 0)
}

/// A found position lies in range and holds the id searched for.
pub proof fn lemma_find_bucket_some(buckets: Seq<BucketConfig>, id: Seq<char>, start: int)
    requires
        0 <= start,
        find_bucket_from(buckets, id, start) is Some,
    ensures
        ({
            let i = find_bucket_from(buckets, id, start)->0;
            start <= i < buckets.len() && buckets[i].id@ == id
        }),
    decreases buckets.len() - start,
{
    if start < buckets.len() && buckets[start].id@ != id {
        lemma_find_bucket_some(buckets, id, start + 1);
    }
}

/// The bucket list with every entry of this id removed.
pub open spec fn retain_other_buckets(buckets: Seq<BucketConfig>, id: Seq<char>) -> Seq<
    BucketConfig,
>
    decreases buckets.len(),
{
    if buckets.len() == 0 {
        Seq::<BucketConfig>::empty()
    } else {
        retain_other_buckets(buckets.drop_last(), id) + (if buckets.last().id@ == id {
            Seq::<BucketConfig>::empty()
        } else {
            seq![buckets.last()]
        })
    }
}

/// A field-for-field copy of one bucket configuration.
fn clone_bucket(b: &BucketConfig) -> (r: BucketConfig)
    ensures
        r == *b,
{
    let endpoint = match &b.endpoint {
        Some(e) => Some(e.clone()),
        None => None,
    };
    let aws_profile = match &b.aws_profile {
        Some(p) => Some(p.clone()),
        None => None,
    };
    BucketConfig {
        id: b.id.clone(),
        name: b.name.clone(),
        display_name: b.display_name.clone(),
        region: b.region.clone(),
        access_key: b.access_key.clone(),
        secret_key: b.secret_key.clone(),
        endpoint,
        aws_profile,
    }
}

/// Keeps the bucket profiles and answers queries and edits against them.
pub struct ConfigManager {
    pub config: Config,
}

impl ConfigManager {
    /// A manager over the given profile set.
    pub fn new(config: Config) -> (r: Self)
        ensures
            r.config.buckets@ == config.buckets@,
    {
        ConfigManager { config }
    }

    /// A copy of the current bucket list.
    fn snapshot(&self) -> (r: Vec<BucketConfig>)
        ensures
            r@ == self.config.buckets@,
    {
        let mut out: Vec<BucketConfig> = Vec::new();
        let mut i: usize = 0;
        while i < self.config.buckets.len()
            invariant
                i <= self.config.buckets.len(),
                out@ =~= self.config.buckets@.subrange(0, i as int),
            decreases self.config.buckets.len() - i,
        {
            out.push(clone_bucket(&self.config.buckets[i]));
            proof {
                assert(out@ =~= self.config.buckets@.subrange(0, i + 1));
            }
            i += 1;
        }
        proof {
            assert(self.config.buckets@.subrange(0, self.config.buckets@.len() as int)
                =~= self.config.buckets@);
        }
        out
    }

    /// The position of the bucket with this id, if present.
    fn find_index(&self, bucket_id: &str) -> (r: Option<usize>)
        ensures
            (match r {
                Some(i) => Some(i as int),
                None => None::<int>,
            }) == find_bucket(self.config.buckets@, bucket_id@),
    {
        let n = self.config.buckets.len();
        let mut i: usize = 0;
        while i < n
            invariant
                n == self.config.buckets@.len(),
                i <= n,
                find_bucket(self.config.buckets@, bucket_id@) == find_bucket_from(
                    self.config.buckets@,
                    bucket_id@,
                    i as int,
                ),
            decreases n - i,
        {
            if str_eq(self.config.buckets[i].id.as_str(), bucket_id) {
                return Some(i);
            }
            i += 1;
        }
        None
    }

    /// Adds a bucket profile; an empty id is replaced by a freshly generated
    /// one. Returns the updated list.
    pub fn add_bucket(&mut self, bucket: BucketConfig) -> (r: Result<Vec<BucketConfig>, S3DeckError>)
        ensures
            final(self).config.buckets@.len() == old(self).config.buckets@.len() + 1,
            final(self).config.buckets@.drop_last() == old(self).config.buckets@,
            ({
                let added = final(self).config.buckets@.last();
                &&& added.name == bucket.name
                &&& added.display_name == bucket.display_name
                &&& added.region == bucket.region
                &&& added.access_key == bucket.access_key
                &&& added.secret_key == bucket.secret_key
                &&& added.endpoint == bucket.endpoint
                &&& added.aws_profile == bucket.aws_profile
                &&& bucket.id@.len() > 0 ==> added.id == bucket.id
                &&& bucket.id@.len() == 0 ==> added.id@.len() == 36
            }),
            r matches Ok(v) && v@ == final(self).config.buckets@,
    {
        let mut bucket = bucket;
        if bucket.id.as_str().unicode_len() == 0 {
            bucket.id = generate_bucket_id();
        }
        self.config.buckets.push(bucket);
        proof {
            assert(self.config.buckets@.drop_last() =~= old(self).config.buckets@);
        }
        Ok(self.snapshot())
    }

    /// Replaces the first bucket carrying the same id as the given profile;
    /// a missing id is an error. Returns the updated list.
    pub fn update_bucket(&mut self, updated_bucket: BucketConfig) -> (r: Result<
        Vec<BucketConfig>,
        S3DeckError,
    >)
        ensures
            r is Ok <==> find_bucket(old(self).config.buckets@, updated_bucket.id@) is Some,
            (match find_bucket(old(self).config.buckets@, updated_bucket.id@) {
                Some(i) => final(self).config.buckets@ == old(self).config.buckets@.update(
                    i,
                    updated_bucket,
                ),
                None => final(self).config.buckets@ == old(self).config.buckets@,
            }),
            r matches Ok(v) ==> v@ == final(self).config.buckets@,
            r matches Err(e) ==> (e matches S3DeckError::BucketNotFound(m) && m@
                == updated_bucket.id@),
    {
        let idx = self.find_index(updated_bucket.id.as_str());
        match idx {
            Some(i) => {
                proof {
                    lemma_find_bucket_some(self.config.buckets@, updated_bucket.id@, 0);
                }
                let replacement = clone_bucket(&updated_bucket);
                let mut rebuilt: Vec<BucketConfig> = Vec::new();
                let n = self.config.buckets.len();
                let mut j: usize = 0;
                while j < n
                    invariant
                        n == self.config.buckets@.len(),
                        i < n,
                        j <= n,
                        replacement == updated_bucket,
                        rebuilt@ =~= self.config.buckets@.update(i as int, updated_bucket).subrange(
                            0,
                            j as int,
                        ),
                    decreases n - j,
                {
                    if j == i {
                        rebuilt.push(clone_bucket(&replacement));
                    } else {
                        rebuilt.push(clone_bucket(&self.config.buckets[j]));
                    }
                    proof {
                        assert(rebuilt@ =~= self.config.buckets@.update(
                            i as int,
                            updated_bucket,
                        ).subrange(0, j + 1));
                    }
                    j += 1;
                }
                proof {
                    let target = self.config.buckets@.update(i as int, updated_bucket);
                    assert(target.subrange(0, target.len() as int) =~= target);
                }
                self.config.buckets = rebuilt;
                Ok(self.snapshot())
            },
            None => Err(S3DeckError::BucketNotFound(updated_bucket.id)),
        }
    }

    /// Removes every bucket carrying this id; an id matching nothing is an
    /// error. Returns the updated list.
    pub fn delete_bucket(&mut self, bucket_id: &str) -> (r: Result<Vec<BucketConfig>, S3DeckError>)
        ensures
            r is Ok <==> find_bucket(old(self).config.buckets@, bucket_id@) is Some,
            r is Ok ==> final(self).config.buckets@ == retain_other_buckets(
                old(self).config.buckets@,
                bucket_id@,
            ),
            r is Err ==> final(self).config.buckets@ == old(self).config.buckets@,
            r matches Ok(v) ==> v@ == final(self).config.buckets@,
            r matches Err(e) ==> (e matches S3DeckError::BucketNotFound(m) && m@ == bucket_id@),
    {
        let found = match self.find_index(bucket_id) {
            Some(_) => true,
            None => false,
        };
        if !found {
            return Err(S3DeckError::BucketNotFound(String::from_str(bucket_id)));
        }
        let n = self.config.buckets.len();
        let mut kept: Vec<BucketConfig> = Vec::new();
        let mut j: usize = 0;
        while j < n
            invariant
                n == self.config.buckets@.len(),
                j <= n,
                kept@ =~= retain_other_buckets(self.config.buckets@.subrange(0, j as int), bucket_id@),
            decreases n - j,
        {
            let keep = !str_eq(self.config.buckets[j].id.as_str(), bucket_id);
            if keep {
                kept.push(clone_bucket(&self.config.buckets[j]));
            }
            proof {
                assert(self.config.buckets@.subrange(0, j + 1).drop_last()
                    =~= self.config.buckets@.subrange(0, j as int));
                assert(self.config.buckets@.subrange(0, j + 1).last()
                    == self.config.buckets@[j as int]);
                assert(kept@ =~= retain_other_buckets(
                    self.config.buckets@.subrange(0, j + 1),
                    bucket_id@,
                ));
            }
            j += 1;
        }
        proof {
            assert(self.config.buckets@.subrange(0, n as int) =~= self.config.buckets@);
        }
        self.config.buckets = kept;
        Ok(self.snapshot())
    }

    /// Looks up the bucket with this id; the first match is returned.
    pub fn get_bucket(&self, bucket_id: &str) -> (r: Result<BucketConfig, S3DeckError>)
        ensures
            r is Ok <==> find_bucket(self.config.buckets@, bucket_id@) is Some,
            (match find_bucket(self.config.buckets@, bucket_id@) {
                Some(i) => r matches Ok(b) && b == self.config.buckets@[i],
                None => r matches Err(e) && (e matches S3DeckError::BucketNotFound(m) && m@
                    == bucket_id@),
            }),
    {
        match self.find_index(bucket_id) {
            Some(i) => {
                proof {
                    lemma_find_bucket_some(self.config.buckets@, bucket_id@, 0);
                }
                Ok(clone_bucket(&self.config.buckets[i]))
            },
            None => Err(S3DeckError::BucketNotFound(String::from_str(bucket_id))),
        }
    }

    /// The whole bucket list.
    pub fn get_all_buckets(&self) -> (r: Result<Vec<BucketConfig>, S3DeckError>)
        ensures
            r matches Ok(v) && v@ == self.config.buckets@,
    {
        Ok(self.snapshot())
    }
}

} // verus!
