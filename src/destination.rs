use crate::errors::{BlobError, BlobResult};
use vstd::prelude::*;

verus! {

/// Where a copy lands: a bucket and a key inside it.
#[derive(Debug, Clone, PartialEq, Eq)]
pub struct Destination {
    pub bucket: String,
    pub key: String,
}

/// The message of the `CopyError` raised for a destination without a `/`.
pub open spec fn format_message() -> Seq<char> {
    "Format blob_destination_path as {bucket}/{blob_path}"@
}

/// `i` is the position of the first `/` in `s`.
pub open spec fn is_first_slash(s: Seq<char>, i: int) -> bool {
    &&& 0 <= i < s.len()
    &&& s[i] == '/'
    &&& forall|j: int| 0 <= j < i ==> s[j] != '/'
}

/// `s` holds a `/`.
pub open spec fn has_slash(s: Seq<char>) -> bool {
    exists|i: int| 0 <= i < s.len() && s[i] == '/'
}

/// The position of the first `/` in `s`, where there is one.
pub open spec fn first_slash(s: Seq<char>) -> int
    recommends
        has_slash(s),
{
    choose|i: int| is_first_slash(s, i)
}

/// A destination `"{bucket}/{key}"` split at its first `/`: the bucket is
/// everything before it, the key everything after it, further `/` included.
pub open spec fn split_destination(s: Seq<char>) -> Option<(Seq<char>, Seq<char>)> {
    if exists|i: int| is_first_slash(s, i) {
        let i = first_slash(s);
        Some((s.subrange(0, i), s.subrange(i + 1, s.len() as int)))
    } else {
        None
    }
}

/// A destination written from a bucket and a key.
pub open spec fn join_destination(bucket: Seq<char>, key: Seq<char>) -> Seq<char> {
    bucket + seq!['/'] + key
}

/// The first `/` of a string is unique.
pub proof fn lemma_first_slash(s: Seq<char>, i: int)
    requires
        is_first_slash(s, i),
    ensures
        first_slash(s) == i,
{
    let f = first_slash(s);
    assert(is_first_slash(s, f));
    if i < f {
        assert(s[i] != '/');
    } else if f < i {
        assert(s[f] != '/');
    }
}

/// A bucket name without `/`, joined to any key and split again, gives back
/// the same bucket and key: the key may itself hold `/`.
pub proof fn lemma_split_join(bucket: Seq<char>, key: Seq<char>)
    requires
        !has_slash(bucket),
    ensures
        split_destination(join_destination(bucket, key)) == Some((bucket, key)),
{
    let s = join_destination(bucket, key);
    let n = bucket.len() as int;
    assert(s[n] == '/');
    assert forall|j: int| 0 <= j < n implies s[j] != '/' by {
        assert(s[j] == bucket[j]);
    }
    assert(is_first_slash(s, n));
    lemma_first_slash(s, n);
    assert(s.subrange(0, n) =~= bucket);
    assert(s.subrange(n + 1, s.len() as int) =~= key);
}

/// Splits `path` at its first `/` into the destination bucket and key.
/// A path without `/` is refused with a `CopyError` that says how to write it.
pub fn parse_destination(path: &str) -> (r: BlobResult<Destination>)
    ensures
        match split_destination(path@) {
            Some((b, k)) => r matches Ok(d) && d.bucket@ == b && d.key@ == k,
            None => r matches Err(BlobError::CopyError(m)) && m@ == format_message(),
        },
{
    let n = path.unicode_len();
    let mut i: usize = 0;
    while i < n
        invariant
            n == path@.len(),
            0 <= i <= n,
            forall|j: int| 0 <= j < i ==> path@[j] != '/',
        decreases n - i,
    {
        if path.get_char(i) == '/' {
            proof {
                assert(is_first_slash(path@, i as int));
                lemma_first_slash(path@, i as int);
            }
            let bucket = path.substring_char(0, i);
            let key = path.substring_char(i + 1, n);
            return Ok(Destination { bucket: bucket.to_owned(), key: key.to_owned() });
        }
        i = i + 1;
    }
    proof {
        assert(!exists|j: int| is_first_slash(path@, j));
        reveal_strlit("Format blob_destination_path as {bucket}/{blob_path}");
    }
    Err(BlobError::CopyError(String::from_str("Format blob_destination_path as {bucket}/{blob_path}")))
}

/// Whether `s` holds a `/`.
pub fn contains_slash(s: &str) -> (r: bool)
    ensures
        r == has_slash(s@),
{
    let n = s.unicode_len();
    let mut i: usize = 0;
    while i < n
        invariant
            n == s@.len(),
            0 <= i <= n,
            forall|j: int| 0 <= j < i ==> s@[j] != '/',
        decreases n - i,
    {
        if s.get_char(i) == '/' {
            return true;
        }
        i = i + 1;
    }
    false
}

/// Writes a destination `"{bucket}/{key}"` from its two parts.
pub fn join_path(bucket: &str, key: &str) -> (r: String)
    ensures
        r@ == join_destination(bucket@, key@),
{
    let mut s = String::from_str(bucket);
    proof {
        reveal_strlit("/");
    }
    s.append("/");
    s.append(key);
    s
}

/// What a copy sends to the backend: the source as `"{bucket}/{key}"` and
/// where the copy lands.
#[derive(Debug)]
pub struct CopyPlan {
    pub source: String,
    pub destination: Destination,
}

/// Plans the copy of `blob_path` in `bucket` to `blob_destination_path`.
/// A destination without `/` is refused before the backend is asked.
pub fn plan_copy(bucket: &str, blob_path: &str, blob_destination_path: &str) -> (r: BlobResult<CopyPlan>)
    ensures
        match split_destination(blob_destination_path@) {
            Some((b, k)) => r matches Ok(p) && p.source@ == join_destination(bucket@, blob_path@)
                && p.destination.bucket@ == b && p.destination.key@ == k,
            None => r matches Err(BlobError::CopyError(m)) && m@ == format_message(),
        },
{
    match parse_destination(blob_destination_path) {
        Ok(d) => Ok(CopyPlan { source: join_path(bucket, blob_path), destination: d }),
        Err(e) => Err(e),
    }
}

} // verus!
