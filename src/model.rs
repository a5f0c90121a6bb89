use crate::blob::{BlobRef, BlobState};
use crate::destination::has_slash;
use crate::listing::opt_view;
use vstd::prelude::*;

verus! {

/// What the store knows of one object.
pub struct ObjectView {
    pub bucket: Seq<char>,
    pub key: Seq<char>,
    pub content: Seq<u8>,
    pub content_type: Option<Seq<char>>,
}

/// The state of an in-memory backing store: its scope, its buckets in order
/// of creation, its objects in order of their last write, and how many
/// objects one page of a listing holds.
pub struct StoreView {
    pub scope: Seq<char>,
    pub buckets: Seq<Seq<char>>,
    pub objects: Seq<ObjectView>,
    pub page_size: nat,
}

/// `o` is the object at key `k` of bucket `b`.
pub open spec fn is_at(o: ObjectView, b: Seq<char>, k: Seq<char>) -> bool {
    o.bucket == b && o.key == k
}

/// The object at key `k` of bucket `b`: the one written last.
pub open spec fn lookup(objs: Seq<ObjectView>, b: Seq<char>, k: Seq<char>) -> Option<ObjectView>
    decreases objs.len(),
{
    if objs.len() == 0 {
        None
    } else if is_at(objs.last(), b, k) {
        Some(objs.last())
    } else {
        lookup(objs.drop_last(), b, k)
    }
}

/// The objects with the one at key `k` of bucket `b` taken out.
pub open spec fn without(objs: Seq<ObjectView>, b: Seq<char>, k: Seq<char>) -> Seq<ObjectView>
    decreases objs.len(),
{
    if objs.len() == 0 {
        Seq::empty()
    } else if is_at(objs.last(), b, k) {
        without(objs.drop_last(), b, k)
    } else {
        without(objs.drop_last(), b, k).push(objs.last())
    }
}

/// The objects of bucket `b`, in store order.
pub open spec fn in_bucket(objs: Seq<ObjectView>, b: Seq<char>) -> Seq<ObjectView>
    decreases objs.len(),
{
    if objs.len() == 0 {
        Seq::empty()
    } else if objs.last().bucket == b {
        in_bucket(objs.drop_last(), b).push(objs.last())
    } else {
        in_bucket(objs.drop_last(), b)
    }
}

/// The names with `n` taken out.
pub open spec fn names_without(names: Seq<Seq<char>>, n: Seq<char>) -> Seq<Seq<char>>
    decreases names.len(),
{
    if names.len() == 0 {
        Seq::empty()
    } else if names.last() == n {
        names_without(names.drop_last(), n)
    } else {
        names_without(names.drop_last(), n).push(names.last())
    }
}

impl StoreView {
    /// A store holds a positive page size, only bucket names that a create
    /// accepts, and objects at non-empty keys, one at each key of a bucket.
    pub open spec fn wf(self) -> bool {
        &&& self.page_size > 0
        &&& forall|i: int| 0 <= i < self.buckets.len() ==> valid_bucket_name(#[trigger] self.buckets[i])
        &&& forall|i: int| 0 <= i < self.objects.len() ==> (#[trigger] self.objects[i]).key.len() > 0
        &&& keys_unique(self.objects)
    }

    pub open spec fn has_bucket(self, n: Seq<char>) -> bool {
        self.buckets.contains(n)
    }

    /// Bucket `n` holds at least one object.
    pub open spec fn holds_objects(self, n: Seq<char>) -> bool {
        exists|i: int| 0 <= i < self.objects.len() && self.objects[i].bucket == n
    }

    /// The store with `o` written, replacing what stood at its key.
    pub open spec fn put(self, o: ObjectView) -> StoreView {
        StoreView { objects: without(self.objects, o.bucket, o.key).push(o), ..self }
    }

    /// The store with the object at key `k` of bucket `b` removed.
    pub open spec fn remove_object(self, b: Seq<char>, k: Seq<char>) -> StoreView {
        StoreView { objects: without(self.objects, b, k), ..self }
    }

    /// The store with a new bucket `n`.
    pub open spec fn add_bucket(self, n: Seq<char>) -> StoreView {
        StoreView { buckets: self.buckets.push(n), ..self }
    }

    /// The store with bucket `n` removed.
    pub open spec fn remove_bucket(self, n: Seq<char>) -> StoreView {
        StoreView { buckets: names_without(self.buckets, n), ..self }
    }
}

/// Taking an object out leaves every other key as it was and the taken one
/// empty.
pub proof fn lemma_lookup_without(
    objs: Seq<ObjectView>,
    b: Seq<char>,
    k: Seq<char>,
    b2: Seq<char>,
    k2: Seq<char>,
)
    ensures
        lookup(without(objs, b, k), b2, k2) == if b2 == b && k2 == k {
            None
        } else {
            lookup(objs, b2, k2)
        },
    decreases objs.len(),
{
    if objs.len() > 0 {
        lemma_lookup_without(objs.drop_last(), b, k, b2, k2);
        if !is_at(objs.last(), b, k) {
            let w = without(objs.drop_last(), b, k);
            assert(w.push(objs.last()).drop_last() =~= w);
        }
    }
}

/// After a write at a key, the object at that key is the one written, and
/// every other key is as it was.
pub proof fn lemma_lookup_put(objs: Seq<ObjectView>, o: ObjectView, b2: Seq<char>, k2: Seq<char>)
    ensures
        lookup(without(objs, o.bucket, o.key).push(o), b2, k2) == if is_at(o, b2, k2) {
            Some(o)
        } else {
            lookup(objs, b2, k2)
        },
{
    let w = without(objs, o.bucket, o.key);
    assert(w.push(o).drop_last() =~= w);
    lemma_lookup_without(objs, o.bucket, o.key, b2, k2);
}

/// A name taken out is no longer among the names; the others stay.
pub proof fn lemma_names_without(names: Seq<Seq<char>>, n: Seq<char>, m: Seq<char>)
    ensures
        names_without(names, n).contains(m) == (m != n && names.contains(m)),
    decreases names.len(),
{
    if names.len() > 0 {
        let rest = names.drop_last();
        lemma_names_without(rest, n, m);
        let w = names_without(rest, n);
        assert(names =~= rest.push(names.last()));
        if names.contains(m) && m != n {
            let i = choose|i: int| 0 <= i < names.len() && names[i] == m;
            if i < rest.len() {
                assert(rest[i] == m);
            }
        }
        if rest.contains(m) {
            let i = choose|i: int| 0 <= i < rest.len() && rest[i] == m;
            assert(names[i] == m);
        }
        if names.last() != n {
            assert(w.push(names.last())[w.len() as int] == names.last());
            if w.push(names.last()).contains(m) {
                let i = choose|i: int| 0 <= i < w.len() + 1 && w.push(names.last())[i] == m;
                if i < w.len() {
                    assert(w[i] == m);
                }
            }
            if w.contains(m) {
                let i = choose|i: int| 0 <= i < w.len() && w[i] == m;
                assert(w.push(names.last())[i] == m);
            }
        }
    }
}

/// A name that a new bucket may take: not empty, and without `/`, which
/// separates bucket from key in a copy destination.
pub open spec fn valid_bucket_name(n: Seq<char>) -> bool {
    n.len() > 0 && !has_slash(n)
}

/// `r` carries what the store knows of `o` that needs no second look:
/// key, bucket, scope and size.
pub open spec fn describes(r: BlobRef, o: ObjectView, scope: Seq<char>) -> bool {
    &&& r.key@ == o.key
    &&& r.bucket@ == o.bucket
    &&& r.scope@ == scope
    &&& r.size == Some(o.content.len() as i64)
    &&& r.e_tag is None
    &&& r.content_range is None
}

/// `r` is `o` as a listing shows it: metadata only.
pub open spec fn listed_ref(r: BlobRef, o: ObjectView, scope: Seq<char>) -> bool {
    &&& describes(r, o, scope)
    &&& r.wf()
    &&& r.state == BlobState::Listed
    &&& r.content_type is None
    &&& r.body is None
}

/// `r` is `o` as a get returns it: with its content type and its body.
pub open spec fn fetched_ref(r: BlobRef, o: ObjectView, scope: Seq<char>) -> bool {
    &&& describes(r, o, scope)
    &&& r.wf()
    &&& r.state == BlobState::Fetched
    &&& opt_view(r.content_type) == o.content_type
    &&& r.body matches Some(b) && b@ == o.content
}

/// `r` is `o` as a write or a copy leaves it: metadata refreshed, no body.
pub open spec fn written_ref(r: BlobRef, o: ObjectView, scope: Seq<char>) -> bool {
    &&& describes(r, o, scope)
    &&& r.wf()
    &&& r.state == BlobState::Written
    &&& opt_view(r.content_type) == o.content_type
    &&& r.body is None
}

/// Where a listing of `m` resumes: at the start for the first page, else
/// at the last object whose key is the cursor.
pub open spec fn page_start(m: Seq<ObjectView>, cursor: Option<Seq<char>>) -> Option<int> {
    match cursor {
        None => Some(0),
        Some(k) => key_index(m, k),
    }
}

/// The position of the last object of `m` with key `k`.
pub open spec fn key_index(m: Seq<ObjectView>, k: Seq<char>) -> Option<int>
    decreases m.len(),
{
    if m.len() == 0 {
        None
    } else if m.last().key == k {
        Some(m.len() - 1)
    } else {
        key_index(m.drop_last(), k)
    }
}

/// Where one page that starts at `start` ends.
pub open spec fn page_end(start: int, page_size: nat, len: int) -> int {
    if start + page_size < len {
        start + page_size
    } else {
        len
    }
}

/// No two objects sit at the same key of the same bucket.
pub open spec fn keys_unique(objs: Seq<ObjectView>) -> bool {
    forall|i: int, j: int|
        0 <= i < j < objs.len() ==> !is_at(#[trigger] objs[j], #[trigger] objs[i].bucket, objs[i].key)
}

/// No two objects of `m` share a key.
pub open spec fn distinct_keys(m: Seq<ObjectView>) -> bool {
    forall|i: int, j: int| 0 <= i < j < m.len() ==> #[trigger] m[i].key != #[trigger] m[j].key
}

/// Every object left after taking one out was there before, and none sits
/// at the key taken out.
pub proof fn lemma_without_members(objs: Seq<ObjectView>, b: Seq<char>, k: Seq<char>, x: ObjectView)
    ensures
        without(objs, b, k).contains(x) ==> objs.contains(x) && !is_at(x, b, k),
    decreases objs.len(),
{
    if objs.len() > 0 {
        let rest = objs.drop_last();
        lemma_without_members(rest, b, k, x);
        let w = without(rest, b, k);
        if without(objs, b, k).contains(x) {
            if !is_at(objs.last(), b, k) {
                let i = choose|i: int| 0 <= i < w.len() + 1 && w.push(objs.last())[i] == x;
                if i < w.len() {
                    assert(w[i] == x);
                }
            }
            if rest.contains(x) {
                let j = choose|j: int| 0 <= j < rest.len() && rest[j] == x;
                assert(objs[j] == x);
            }
        }
    }
}

/// Taking an object out keeps keys unique.
pub proof fn lemma_without_unique(objs: Seq<ObjectView>, b: Seq<char>, k: Seq<char>)
    requires
        keys_unique(objs),
    ensures
        keys_unique(without(objs, b, k)),
    decreases objs.len(),
{
    if objs.len() > 0 {
        let rest = objs.drop_last();
        assert(keys_unique(rest)) by {
            assert forall|i: int, j: int| 0 <= i < j < rest.len() implies !is_at(
                #[trigger] rest[j],
                #[trigger] rest[i].bucket,
                rest[i].key,
            ) by {
                assert(rest[i] == objs[i] && rest[j] == objs[j]);
            }
        }
        lemma_without_unique(rest, b, k);
        let w = without(rest, b, k);
        if !is_at(objs.last(), b, k) {
            let v = w.push(objs.last());
            assert forall|i: int, j: int| 0 <= i < j < v.len() implies !is_at(
                #[trigger] v[j],
                #[trigger] v[i].bucket,
                v[i].key,
            ) by {
                if j == w.len() {
                    lemma_without_members(rest, b, k, w[i]);
                    assert(w.contains(w[i]));
                    let p = choose|p: int| 0 <= p < rest.len() && rest[p] == w[i];
                    assert(objs[p] == w[i]);
                    assert(!is_at(objs[objs.len() - 1], objs[p].bucket, objs[p].key));
                } else {
                    assert(v[i] == w[i] && v[j] == w[j]);
                }
            }
        }
    }
}

/// Writing an object, after taking out what stood at its key, keeps keys
/// unique.
pub proof fn lemma_put_unique(objs: Seq<ObjectView>, o: ObjectView)
    requires
        keys_unique(objs),
    ensures
        keys_unique(without(objs, o.bucket, o.key).push(o)),
{
    let w = without(objs, o.bucket, o.key);
    lemma_without_unique(objs, o.bucket, o.key);
    let v = w.push(o);
    assert forall|i: int, j: int| 0 <= i < j < v.len() implies !is_at(
        #[trigger] v[j],
        #[trigger] v[i].bucket,
        v[i].key,
    ) by {
        if j == w.len() {
            lemma_without_members(objs, o.bucket, o.key, w[i]);
            assert(w.contains(w[i]));
        } else {
            assert(v[i] == w[i] && v[j] == w[j]);
        }
    }
}

/// Every object of a bucket's listing is an object of the store in that
/// bucket.
pub proof fn lemma_in_bucket_members(objs: Seq<ObjectView>, b: Seq<char>, x: ObjectView)
    ensures
        in_bucket(objs, b).contains(x) ==> objs.contains(x) && x.bucket == b,
    decreases objs.len(),
{
    if objs.len() > 0 {
        let rest = objs.drop_last();
        lemma_in_bucket_members(rest, b, x);
        let m = in_bucket(rest, b);
        if in_bucket(objs, b).contains(x) {
            if objs.last().bucket == b {
                let i = choose|i: int| 0 <= i < m.len() + 1 && m.push(objs.last())[i] == x;
                if i < m.len() {
                    assert(m[i] == x);
                }
            }
            if rest.contains(x) {
                let j = choose|j: int| 0 <= j < rest.len() && rest[j] == x;
                assert(objs[j] == x);
            }
        }
    }
}

/// With keys unique in the store, the objects of one bucket have distinct
/// keys.
pub proof fn lemma_in_bucket_distinct(objs: Seq<ObjectView>, b: Seq<char>)
    requires
        keys_unique(objs),
    ensures
        distinct_keys(in_bucket(objs, b)),
    decreases objs.len(),
{
    if objs.len() > 0 {
        let rest = objs.drop_last();
        assert(keys_unique(rest)) by {
            assert forall|i: int, j: int| 0 <= i < j < rest.len() implies !is_at(
                #[trigger] rest[j],
                #[trigger] rest[i].bucket,
                rest[i].key,
            ) by {
                assert(rest[i] == objs[i] && rest[j] == objs[j]);
            }
        }
        lemma_in_bucket_distinct(rest, b);
        let m = in_bucket(rest, b);
        if objs.last().bucket == b {
            let v = m.push(objs.last());
            assert forall|i: int, j: int| 0 <= i < j < v.len() implies #[trigger] v[i].key
                != #[trigger] v[j].key by {
                if j == m.len() {
                    lemma_in_bucket_members(rest, b, m[i]);
                    assert(m.contains(m[i]));
                    let p = choose|p: int| 0 <= p < rest.len() && rest[p] == m[i];
                    assert(objs[p] == m[i]);
                    assert(!is_at(objs[objs.len() - 1], objs[p].bucket, objs[p].key));
                } else {
                    assert(v[i] == m[i] && v[j] == m[j]);
                }
            }
        }
    }
}

/// Among distinct keys, the key of the object at `e` is found at `e`.
pub proof fn lemma_key_index_distinct(m: Seq<ObjectView>, e: int)
    requires
        distinct_keys(m),
        0 <= e < m.len(),
    ensures
        key_index(m, m[e].key) == Some(e),
    decreases m.len(),
{
    if e < m.len() - 1 {
        let rest = m.drop_last();
        assert(m[e].key != m[m.len() - 1].key);
        assert(distinct_keys(rest)) by {
            assert forall|i: int, j: int| 0 <= i < j < rest.len() implies #[trigger] rest[i].key
                != #[trigger] rest[j].key by {
                assert(rest[i] == m[i] && rest[j] == m[j]);
            }
        }
        lemma_key_index_distinct(rest, e);
        assert(rest[e] == m[e]);
    }
}

/// Writing an object at a non-empty key keeps a store well formed.
pub proof fn lemma_put_wf(s: StoreView, o: ObjectView)
    requires
        s.wf(),
        o.key.len() > 0,
    ensures
        s.put(o).wf(),
{
    lemma_put_unique(s.objects, o);
    lemma_remove_wf(s, o.bucket, o.key);
    let w = without(s.objects, o.bucket, o.key);
    assert forall|i: int| 0 <= i < w.push(o).len() implies (#[trigger] w.push(o)[i]).key.len() > 0 by {
        if i < w.len() {
            assert(w.push(o)[i] == w[i]);
        }
    }
}

/// Removing an object keeps a store well formed.
pub proof fn lemma_remove_wf(s: StoreView, b: Seq<char>, k: Seq<char>)
    requires
        s.wf(),
    ensures
        s.remove_object(b, k).wf(),
{
    lemma_without_unique(s.objects, b, k);
    let w = without(s.objects, b, k);
    assert forall|i: int| 0 <= i < w.len() implies (#[trigger] w[i]).key.len() > 0 by {
        lemma_without_members(s.objects, b, k, w[i]);
        assert(w.contains(w[i]));
        let p = choose|p: int| 0 <= p < s.objects.len() && s.objects[p] == w[i];
        assert(s.objects[p].key.len() > 0);
    }
}

} // verus!
