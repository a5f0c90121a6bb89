use crate::destination::{join_destination, lemma_split_join};
use crate::listing::spec_cursor;
use crate::memory::MemoryBucket;
use crate::model::{
    in_bucket, lemma_in_bucket_distinct, lemma_in_bucket_members, lemma_key_index_distinct,
    lemma_lookup_put, lemma_lookup_without, lemma_names_without, page_end, page_start,
    valid_bucket_name, ObjectView, StoreView,
};
use vstd::prelude::*;

verus! {

/// A bucket exists exactly when a listing of the store, taken in the same
/// state, names it.
pub proof fn law_exists_agrees_with_list(s: StoreView, listed: Seq<MemoryBucket>, name: Seq<char>)
    requires
        listed.len() == s.buckets.len(),
        forall|i: int| 0 <= i < listed.len() ==> listed[i].name@ == s.buckets[i],
    ensures
        s.has_bucket(name) == exists|i: int| 0 <= i < listed.len() && listed[i].name@ == name,
{
    if s.has_bucket(name) {
        let i = choose|i: int| 0 <= i < s.buckets.len() && s.buckets[i] == name;
        assert(listed[i].name@ == name);
    }
    if exists|i: int| 0 <= i < listed.len() && listed[i].name@ == name {
        let i = choose|i: int| 0 <= i < listed.len() && listed[i].name@ == name;
        assert(s.buckets[i] == name);
    }
}

/// What is written at a key of a bucket is what a get of that key then
/// finds, so that reading the fetched blob gives back the content.
pub proof fn law_write_then_get(s: StoreView, bucket: MemoryBucket, key: Seq<char>, content: Seq<u8>)
    requires
        bucket.reaches(s),
    ensures
        ({
            let o = ObjectView { bucket: bucket.name@, key, content, content_type: None };
            bucket.object_in(s.put(o), key) == Some(o)
        }),
{
    let o = ObjectView { bucket: bucket.name@, key, content, content_type: None };
    lemma_lookup_put(s.objects, o, bucket.name@, key);
}

/// Content written at `src` and copied to `"{bucket}/{dst}"` in the same
/// bucket, `dst` being a key, is what a get of `dst` then finds.
pub proof fn law_copy_round_trip(
    s: StoreView,
    bucket: MemoryBucket,
    src: Seq<char>,
    dst: Seq<char>,
    content: Seq<u8>,
)
    requires
        s.wf(),
        bucket.reaches(s),
        dst.len() > 0,
    ensures
        ({
            let w = ObjectView { bucket: bucket.name@, key: src, content, content_type: None };
            let s1 = s.put(w);
            &&& bucket.copied(s1, src, join_destination(bucket.name@, dst), None) matches Some(o)
            &&& o.content == content
            &&& bucket.object_in(s1.put(o), dst) matches Some(found)
            &&& found.content == content
        }),
{
    let w = ObjectView { bucket: bucket.name@, key: src, content, content_type: None };
    let s1 = s.put(w);
    let i = choose|i: int| 0 <= i < s.buckets.len() && s.buckets[i] == bucket.name@;
    assert(valid_bucket_name(s.buckets[i]));
    law_write_then_get(s, bucket, src, content);
    lemma_split_join(bucket.name@, dst);
    let o = bucket.copied(s1, src, join_destination(bucket.name@, dst), None).unwrap();
    assert(o.bucket == bucket.name@ && o.key == dst);
    lemma_lookup_put(s1.objects, o, bucket.name@, dst);
}

/// After a blob is deleted, a get of its key finds nothing.
pub proof fn law_delete_then_get(s: StoreView, bucket: MemoryBucket, key: Seq<char>)
    ensures
        bucket.object_in(s.remove_object(bucket.name@, key), key) is None,
{
    lemma_lookup_without(s.objects, bucket.name@, key, bucket.name@, key);
}

/// A deleted bucket no longer exists, so opening it is refused, while every
/// other bucket stays as it was; a created bucket exists.
pub proof fn law_bucket_lifecycle(s: StoreView, name: Seq<char>, other: Seq<char>)
    ensures
        !s.remove_bucket(name).has_bucket(name),
        other != name ==> s.remove_bucket(name).has_bucket(other) == s.has_bucket(other),
        s.add_bucket(name).has_bucket(name),
{
    lemma_names_without(s.buckets, name, name);
    lemma_names_without(s.buckets, name, other);
    assert(s.add_bucket(name).buckets[s.buckets.len() as int] == name);
}

/// Resuming a listing with the cursor that a page handed out starts exactly
/// where that page ended; the first page starts at the first object. So the
/// pages of a bucket hold each of its objects once, in order.
pub proof fn law_cursor_resumes(s: StoreView, bucket: Seq<char>, start: int)
    requires
        s.wf(),
        0 <= start <= in_bucket(s.objects, bucket).len(),
    ensures
        page_start(in_bucket(s.objects, bucket), spec_cursor(None)) == Some(0int),
        ({
            let m = in_bucket(s.objects, bucket);
            let end = page_end(start, s.page_size, m.len() as int);
            &&& start < end || end == m.len()
            &&& end < m.len() ==> page_start(m, spec_cursor(Some(m[end].key))) == Some(end)
        }),
{
    let m = in_bucket(s.objects, bucket);
    let end = page_end(start, s.page_size, m.len() as int);
    if end < m.len() {
        lemma_in_bucket_members(s.objects, bucket, m[end]);
        assert(m.contains(m[end]));
        let p = choose|p: int| 0 <= p < s.objects.len() && s.objects[p] == m[end];
        assert(s.objects[p].key.len() > 0);
        lemma_in_bucket_distinct(s.objects, bucket);
        lemma_key_index_distinct(m, end);
    }
}

} // verus!
