use crate::blob::{
    bytes_view, content_bytes, copy_bytes, needs_fetch, payload, read_payload, read_result, BlobRef,
    BlobState,
};
use crate::destination::{contains_slash, format_message, parse_destination, split_destination};
use crate::errors::{BlobError, BlobResult, BucketError, BucketResult};
use crate::listing::{contains_name, name_views, normalize_cursor, opt_view, spec_cursor};
use crate::model::{
    describes, fetched_ref, in_bucket, is_at, key_index, lemma_names_without, lemma_put_wf,
    lemma_remove_wf, listed_ref, lookup, names_without,
    page_end, page_start, valid_bucket_name, without, written_ref, ObjectView, StoreView,
};
use vstd::prelude::*;

verus! {

/// One object held by the store.
#[derive(Debug)]
pub struct StoredObject {
    bucket: String,
    key: String,
    content: Vec<u8>,
    content_type: Option<String>,
}

impl View for StoredObject {
    type V = ObjectView;

    closed spec fn view(&self) -> ObjectView {
        ObjectView {
            bucket: self.bucket@,
            key: self.key@,
            content: self.content@,
            content_type: opt_view(self.content_type),
        }
    }
}

/// The views of a sequence of stored objects.
pub open spec fn object_views(s: Seq<StoredObject>) -> Seq<ObjectView> {
    s.map_values(|o: StoredObject| o@)
}

/// An in-memory backing store: a bucket collection for one scope.
#[derive(Debug)]
pub struct MemoryBuckets {
    scope: String,
    names: Vec<String>,
    objects: Vec<StoredObject>,
    page_size: usize,
}

/// The number of objects one page of a listing holds unless set otherwise.
pub const DEFAULT_PAGE_SIZE: usize = 1000;

impl View for MemoryBuckets {
    type V = StoreView;

    closed spec fn view(&self) -> StoreView {
        StoreView {
            scope: self.scope@,
            buckets: name_views(self.names@),
            objects: object_views(self.objects@),
            page_size: self.page_size as nat,
        }
    }
}

/// A handle on one bucket of a store. It holds only the bucket's name and
/// scope: every operation checks the store again.
#[derive(Debug)]
pub struct MemoryBucket {
    pub name: String,
    pub scope: String,
}

fn copy_string(s: &String) -> (r: String)
    ensures
        r@ == s@,
{
    s.clone()
}

fn copy_opt_string(s: &Option<String>) -> (r: Option<String>)
    ensures
        opt_view(r) == opt_view(*s),
{
    match s {
        Some(x) => Some(x.clone()),
        None => None,
    }
}

/// Where no object after position `n` sits at key `k` of bucket `b`, the
/// lookup sees only the objects before `n`.
pub proof fn lemma_lookup_prefix(objs: Seq<ObjectView>, n: int, b: Seq<char>, k: Seq<char>)
    requires
        0 <= n <= objs.len(),
        forall|j: int| n <= j < objs.len() ==> !is_at(objs[j], b, k),
    ensures
        lookup(objs, b, k) == lookup(objs.subrange(0, n), b, k),
    decreases objs.len(),
{
    if objs.len() == n {
        assert(objs.subrange(0, n) =~= objs);
    } else {
        let rest = objs.drop_last();
        lemma_lookup_prefix(rest, n, b, k);
        assert(rest.subrange(0, n) =~= objs.subrange(0, n));
    }
}

fn clone_object(o: &StoredObject) -> (r: StoredObject)
    ensures
        r@ == o@,
{
    StoredObject {
        bucket: copy_string(&o.bucket),
        key: copy_string(&o.key),
        content: copy_bytes(&o.content),
        content_type: copy_opt_string(&o.content_type),
    }
}

/// The position of the object at key `k` of bucket `b`, the one that a
/// lookup finds.
fn find_object(objs: &Vec<StoredObject>, b: &String, k: &String) -> (r: Option<usize>)
    ensures
        match lookup(object_views(objs@), b@, k@) {
            None => r is None,
            Some(o) => r matches Some(i) && i < objs@.len() && objs@[i as int]@ == o,
        },
{
    let ghost v = object_views(objs@);
    let mut i: usize = objs.len();
    while i > 0
        invariant
            0 <= i <= objs@.len(),
            v == object_views(objs@),
            forall|j: int| i <= j < v.len() ==> !is_at(v[j], b@, k@),
        decreases i,
    {
        let j = i - 1;
        if objs[j].bucket == *b && objs[j].key == *k {
            proof {
                lemma_lookup_prefix(v, j + 1, b@, k@);
                assert(v.subrange(0, j + 1).last() == v[j as int]);
            }
            return Some(j);
        }
        i = j;
    }
    proof {
        lemma_lookup_prefix(v, 0, b@, k@);
    }
    None
}

/// The objects with the one at key `k` of bucket `b` taken out.
fn objects_without(objs: &Vec<StoredObject>, b: &String, k: &String) -> (r: Vec<StoredObject>)
    ensures
        object_views(r@) == without(object_views(objs@), b@, k@),
{
    let ghost v = object_views(objs@);
    let mut r: Vec<StoredObject> = Vec::new();
    let mut i: usize = 0;
    proof {
        assert(object_views(r@) =~= without(v.subrange(0, 0), b@, k@));
    }
    while i < objs.len()
        invariant
            0 <= i <= objs@.len(),
            v == object_views(objs@),
            object_views(r@) == without(v.subrange(0, i as int), b@, k@),
        decreases objs@.len() - i,
    {
        let ghost before = r@;
        proof {
            assert(v.subrange(0, i + 1).drop_last() =~= v.subrange(0, i as int));
            assert(v.subrange(0, i + 1).last() == objs@[i as int]@);
        }
        if !(objs[i].bucket == *b && objs[i].key == *k) {
            r.push(clone_object(&objs[i]));
            proof {
                assert(object_views(r@) =~= object_views(before).push(objs@[i as int]@));
            }
        }
        i = i + 1;
    }
    proof {
        assert(v.subrange(0, objs@.len() as int) =~= v);
    }
    r
}

/// The objects of bucket `b`, in store order.
fn objects_in_bucket(objs: &Vec<StoredObject>, b: &String) -> (r: Vec<StoredObject>)
    ensures
        object_views(r@) == in_bucket(object_views(objs@), b@),
{
    let ghost v = object_views(objs@);
    let mut r: Vec<StoredObject> = Vec::new();
    let mut i: usize = 0;
    proof {
        assert(object_views(r@) =~= in_bucket(v.subrange(0, 0), b@));
    }
    while i < objs.len()
        invariant
            0 <= i <= objs@.len(),
            v == object_views(objs@),
            object_views(r@) == in_bucket(v.subrange(0, i as int), b@),
        decreases objs@.len() - i,
    {
        let ghost before = r@;
        proof {
            assert(v.subrange(0, i + 1).drop_last() =~= v.subrange(0, i as int));
            assert(v.subrange(0, i + 1).last() == objs@[i as int]@);
        }
        if objs[i].bucket == *b {
            r.push(clone_object(&objs[i]));
            proof {
                assert(object_views(r@) =~= object_views(before).push(objs@[i as int]@));
            }
        }
        i = i + 1;
    }
    proof {
        assert(v.subrange(0, objs@.len() as int) =~= v);
    }
    r
}

/// The names with `n` taken out.
fn names_without_exec(names: &Vec<String>, n: &String) -> (r: Vec<String>)
    ensures
        name_views(r@) == names_without(name_views(names@), n@),
{
    let ghost v = name_views(names@);
    let mut r: Vec<String> = Vec::new();
    let mut i: usize = 0;
    proof {
        assert(name_views(r@) =~= names_without(v.subrange(0, 0), n@));
    }
    while i < names.len()
        invariant
            0 <= i <= names@.len(),
            v == name_views(names@),
            name_views(r@) == names_without(v.subrange(0, i as int), n@),
        decreases names@.len() - i,
    {
        let ghost before = r@;
        proof {
            assert(v.subrange(0, i + 1).drop_last() =~= v.subrange(0, i as int));
            assert(v.subrange(0, i + 1).last() == names@[i as int]@);
        }
        if !(names[i] == *n) {
            r.push(copy_string(&names[i]));
            proof {
                assert(name_views(r@) =~= name_views(before).push(names@[i as int]@));
            }
        }
        i = i + 1;
    }
    proof {
        assert(v.subrange(0, names@.len() as int) =~= v);
    }
    r
}

/// Whether any object belongs to bucket `n`.
fn bucket_has_objects(objs: &Vec<StoredObject>, n: &String) -> (r: bool)
    ensures
        r == exists|i: int| 0 <= i < objs@.len() && objs@[i]@.bucket == n@,
{
    let mut i: usize = 0;
    while i < objs.len()
        invariant
            0 <= i <= objs@.len(),
            forall|j: int| 0 <= j < i ==> objs@[j]@.bucket != n@,
        decreases objs@.len() - i,
    {
        if objs[i].bucket == *n {
            return true;
        }
        i = i + 1;
    }
    false
}

impl MemoryBuckets {
    /// The store's state is well formed.
    pub open spec fn wf(&self) -> bool {
        self@.wf()
    }

    /// An empty store for `scope`.
    pub fn new(scope: &str) -> (r: MemoryBuckets)
        ensures
            r.wf(),
            r@.scope == scope@,
            r@.buckets.len() == 0,
            r@.objects.len() == 0,
            r@.page_size == DEFAULT_PAGE_SIZE,
    {
        let r = MemoryBuckets {
            scope: scope.to_owned(),
            names: Vec::new(),
            objects: Vec::new(),
            page_size: DEFAULT_PAGE_SIZE,
        };
        proof {
            assert(name_views(r.names@) =~= Seq::<Seq<char>>::empty());
            assert(object_views(r.objects@) =~= Seq::<ObjectView>::empty());
        }
        r
    }

    /// Sets how many objects one page of a listing holds.
    pub fn set_page_size(&mut self, page_size: usize)
        requires
            old(self).wf(),
            page_size > 0,
        ensures
            final(self).wf(),
            final(self)@ == (StoreView { page_size: page_size as nat, ..old(self)@ }),
    {
        self.page_size = page_size;
    }

    /// Whether a bucket named `bucket_name` is in the store.
    pub fn bucket_exists(&self, bucket_name: &str) -> (r: bool)
        ensures
            r == self@.has_bucket(bucket_name@),
    {
        contains_name(&self.names, bucket_name)
    }

    /// A handle on every bucket of the store, in order of creation.
    pub fn list(&self) -> (r: Vec<MemoryBucket>)
        ensures
            r@.len() == self@.buckets.len(),
            forall|i: int| 0 <= i < r@.len() ==> r@[i].name@ == self@.buckets[i],
            forall|i: int| 0 <= i < r@.len() ==> r@[i].scope@ == self@.scope,
    {
        let mut r: Vec<MemoryBucket> = Vec::new();
        let mut i: usize = 0;
        while i < self.names.len()
            invariant
                0 <= i <= self.names@.len(),
                r@.len() == i,
                forall|j: int| 0 <= j < i ==> r@[j].name@ == self.names@[j]@,
                forall|j: int| 0 <= j < i ==> r@[j].scope@ == self.scope@,
            decreases self.names@.len() - i,
        {
            r.push(MemoryBucket { name: copy_string(&self.names[i]), scope: copy_string(&self.scope) });
            i = i + 1;
        }
        r
    }

    /// A handle on bucket `bucket_name`, which must be in the store.
    pub fn open(&self, bucket_name: &str) -> (r: BucketResult<MemoryBucket>)
        ensures
            self@.has_bucket(bucket_name@) ==> (r matches Ok(b) && b.name@ == bucket_name@
                && b.scope@ == self@.scope),
            !self@.has_bucket(bucket_name@) ==> r == Err::<MemoryBucket, BucketError>(
                BucketError::NotFound,
            ),
    {
        if self.bucket_exists(bucket_name) {
            Ok(MemoryBucket { name: bucket_name.to_owned(), scope: copy_string(&self.scope) })
        } else {
            Err(BucketError::NotFound)
        }
    }

    /// Creates bucket `bucket_name`. The store has a single location, so
    /// `location` has no effect. Fails `CreationError` where the name is
    /// taken or is not a valid bucket name.
    pub fn create(&mut self, bucket_name: &str, location: Option<String>) -> (r: BucketResult<
        MemoryBucket,
    >)
        requires
            old(self).wf(),
        ensures
            final(self).wf(),
            valid_bucket_name(bucket_name@) && !old(self)@.has_bucket(bucket_name@) ==> (r matches Ok(
                b,
            ) && b.name@ == bucket_name@ && b.scope@ == old(self)@.scope && final(self)@ == old(self)@.add_bucket(bucket_name@)),
            !valid_bucket_name(bucket_name@) || old(self)@.has_bucket(bucket_name@) ==> (r matches Err(
                BucketError::CreationError(_),
            ) && final(self)@ == old(self)@),
    {
        if bucket_name.unicode_len() == 0 || contains_slash(bucket_name) {
            return Err(BucketError::CreationError(String::from_str("InvalidBucketName")));
        }
        if self.bucket_exists(bucket_name) {
            return Err(BucketError::CreationError(String::from_str("BucketAlreadyExists")));
        }
        let ghost before = self.names@;
        self.names.push(bucket_name.to_owned());
        proof {
            assert(name_views(self.names@) =~= name_views(before).push(bucket_name@));
            assert(self@.buckets[self@.buckets.len() - 1] == bucket_name@);
        }
        Ok(MemoryBucket { name: bucket_name.to_owned(), scope: copy_string(&self.scope) })
    }

    /// Deletes bucket `bucket_name`. Fails `NotFound` where it is absent and
    /// `DeletionError` where it still holds objects.
    pub fn delete(&mut self, bucket_name: &str) -> (r: BucketResult<bool>)
        requires
            old(self).wf(),
        ensures
            final(self).wf(),
            !old(self)@.has_bucket(bucket_name@) ==> r == Err::<bool, BucketError>(
                BucketError::NotFound,
            ) && final(self)@ == old(self)@,
            old(self)@.has_bucket(bucket_name@) && old(self)@.holds_objects(bucket_name@) ==> (r matches Err(
                BucketError::DeletionError(_),
            ) && final(self)@ == old(self)@),
            old(self)@.has_bucket(bucket_name@) && !old(self)@.holds_objects(bucket_name@) ==> r == Ok::<
                bool,
                BucketError,
            >(true) && final(self)@ == old(self)@.remove_bucket(bucket_name@),
    {
        if !self.bucket_exists(bucket_name) {
            return Err(BucketError::NotFound);
        }
        let name = bucket_name.to_owned();
        if bucket_has_objects(&self.objects, &name) {
            proof {
                let i = choose|i: int| 0 <= i < self.objects@.len() && self.objects@[i]@.bucket == name@;
                assert(self@.objects[i].bucket == bucket_name@);
            }
            return Err(BucketError::DeletionError(String::from_str("BucketNotEmpty")));
        }
        proof {
            if self@.holds_objects(bucket_name@) {
                let i = choose|i: int| 0 <= i < self@.objects.len() && self@.objects[i].bucket == bucket_name@;
                assert(self.objects@[i]@.bucket == name@);
            }
        }
        let ghost old_buckets = self@.buckets;
        self.names = names_without_exec(&self.names, &name);
        proof {
            assert forall|i: int| 0 <= i < self@.buckets.len() implies valid_bucket_name(
                #[trigger] self@.buckets[i],
            ) by {
                let m = self@.buckets[i];
                lemma_names_without(old_buckets, name@, m);
                assert(self@.buckets.contains(m));
                let j = choose|j: int| 0 <= j < old_buckets.len() && old_buckets[j] == m;
                assert(valid_bucket_name(old_buckets[j]));
            }
        }
        Ok(true)
    }

    /// Writes `o`, replacing what stood at its key.
    fn put_object(&mut self, o: StoredObject)
        requires
            old(self).wf(),
            o@.key.len() > 0,
        ensures
            final(self).wf(),
            final(self)@ == old(self)@.put(o@),
    {
        proof {
            lemma_put_wf(self@, o@);
        }
        let w = objects_without(&self.objects, &o.bucket, &o.key);
        let ghost wv = w@;
        self.objects = w;
        self.objects.push(o);
        proof {
            assert(object_views(self.objects@) =~= object_views(wv).push(o@));
        }
    }

    /// Removes the object at key `k` of bucket `b`.
    fn remove_object(&mut self, b: &String, k: &String)
        requires
            old(self).wf(),
        ensures
            final(self).wf(),
            final(self)@ == old(self)@.remove_object(b@, k@),
    {
        proof {
            lemma_remove_wf(self@, b@, k@);
        }
        self.objects = objects_without(&self.objects, b, k);
    }
}

proof fn lemma_key_index_prefix(m: Seq<ObjectView>, n: int, k: Seq<char>)
    requires
        0 <= n <= m.len(),
        forall|j: int| n <= j < m.len() ==> m[j].key != k,
    ensures
        key_index(m, k) == key_index(m.subrange(0, n), k),
    decreases m.len(),
{
    if m.len() == n {
        assert(m.subrange(0, n) =~= m);
    } else {
        let rest = m.drop_last();
        lemma_key_index_prefix(rest, n, k);
        assert(rest.subrange(0, n) =~= m.subrange(0, n));
    }
}

proof fn lemma_key_index_bound(m: Seq<ObjectView>, k: Seq<char>)
    ensures
        key_index(m, k) matches Some(i) ==> 0 <= i < m.len() && m[i].key == k,
    decreases m.len(),
{
    if m.len() > 0 {
        lemma_key_index_bound(m.drop_last(), k);
    }
}

/// The position of the last object of `m` with key `k`.
fn find_key(m: &Vec<StoredObject>, k: &String) -> (r: Option<usize>)
    ensures
        match key_index(object_views(m@), k@) {
            None => r is None,
            Some(i) => r == Some(i as usize),
        },
{
    let ghost v = object_views(m@);
    let mut i: usize = m.len();
    while i > 0
        invariant
            0 <= i <= m@.len(),
            v == object_views(m@),
            forall|j: int| i <= j < v.len() ==> v[j].key != k@,
        decreases i,
    {
        let j = i - 1;
        if m[j].key == *k {
            proof {
                lemma_key_index_prefix(v, j + 1, k@);
                assert(v.subrange(0, j + 1).last() == v[j as int]);
            }
            return Some(j);
        }
        i = j;
    }
    proof {
        lemma_key_index_prefix(v, 0, k@);
    }
    None
}

fn blob_ref_of(o: &StoredObject, scope: &String, state: BlobState) -> (r: BlobRef)
    ensures
        describes(r, o@, scope@),
        r.state == state,
        state == BlobState::Listed ==> r.content_type is None && r.body is None,
        state == BlobState::Fetched ==> opt_view(r.content_type) == o@.content_type && (r.body matches Some(
            b,
        ) && b@ == o@.content),
        state == BlobState::Written ==> opt_view(r.content_type) == o@.content_type && r.body is None,
{
    let content_type = match state {
        BlobState::Listed => None,
        _ => copy_opt_string(&o.content_type),
    };
    let body = match state {
        BlobState::Fetched => Some(copy_bytes(&o.content)),
        _ => None,
    };
    BlobRef {
        key: copy_string(&o.key),
        e_tag: None,
        size: Some(o.content.len() as i64),
        content_type,
        content_range: None,
        body,
        bucket: copy_string(&o.bucket),
        scope: copy_string(scope),
        state,
    }
}

impl MemoryBucket {
    /// The handle names a bucket of store `s`, in the store's scope.
    pub open spec fn reaches(&self, s: StoreView) -> bool {
        s.has_bucket(self.name@) && self.scope@ == s.scope
    }

    /// The object at `key` in this bucket of store `s`.
    pub open spec fn object_in(&self, s: StoreView, key: Seq<char>) -> Option<ObjectView> {
        if self.reaches(s) {
            lookup(s.objects, self.name@, key)
        } else {
            None
        }
    }

    /// The object that copying `path` to `dest` writes, with `content_type`
    /// given or inherited; none where the copy fails.
    pub open spec fn copied(
        &self,
        s: StoreView,
        path: Seq<char>,
        dest: Seq<char>,
        content_type: Option<Seq<char>>,
    ) -> Option<ObjectView> {
        match split_destination(dest) {
            None => None,
            Some((db, dk)) => match self.object_in(s, path) {
                None => None,
                Some(src) => if s.has_bucket(db) && dk.len() > 0 {
                    Some(
                        ObjectView {
                            bucket: db,
                            key: dk,
                            content: src.content,
                            content_type: if content_type is Some {
                                content_type
                            } else {
                                src.content_type
                            },
                        },
                    )
                } else {
                    None
                },
            },
        }
    }

    fn check_reaches(&self, store: &MemoryBuckets) -> (r: bool)
        ensures
            r == self.reaches(store@),
    {
        self.scope == store.scope && store.bucket_exists(self.name.as_str())
    }

    /// One page of this bucket's blobs, each as a listing shows it, and the
    /// cursor of the next page, absent after the last one. An absent or
    /// empty `marker` asks for the first page; any other must be a cursor
    /// that an earlier page handed out.
    pub fn list_blobs(&self, store: &MemoryBuckets, marker: Option<String>) -> (r: BucketResult<
        (Vec<BlobRef>, Option<String>),
    >)
        requires
            store.wf(),
        ensures
            !self.reaches(store@) ==> (r matches Err(BucketError::ListError(_))),
            self.reaches(store@) ==> ({
                let m = in_bucket(store@.objects, self.name@);
                match page_start(m, spec_cursor(opt_view(marker))) {
                    None => r matches Err(BucketError::ListError(_)),
                    Some(start) => {
                        let end = page_end(start, store@.page_size, m.len() as int);
                        &&& r matches Ok((v, next))
                        &&& v@.len() == end - start
                        &&& forall|i: int|
                            0 <= i < v@.len() ==> listed_ref(
                                #[trigger] v@[i],
                                m[start + i],
                                store@.scope,
                            )
                        &&& opt_view(next) == if end < m.len() {
                            Some(m[end].key)
                        } else {
                            None
                        }
                    },
                }
            }),
    {
        if !self.check_reaches(store) {
            return Err(BucketError::ListError(String::from_str("NotFound")));
        }
        let members = objects_in_bucket(&store.objects, &self.name);
        let ghost m = object_views(members@);
        let start: usize = match normalize_cursor(marker) {
            None => 0,
            Some(k) => match find_key(&members, &k) {
                Some(i) => i,
                None => {
                    return Err(BucketError::ListError(String::from_str("UnknownCursor")));
                },
            },
        };
        proof {
            match spec_cursor(opt_view(marker)) {
                Some(k) => lemma_key_index_bound(m, k),
                None => {},
            }
        }
        let n = members.len();
        let end: usize = if store.page_size < n - start {
            start + store.page_size
        } else {
            n
        };
        let mut v: Vec<BlobRef> = Vec::new();
        let mut i: usize = start;
        while i < end
            invariant
                start <= i <= end <= n,
                n == members@.len(),
                m == object_views(members@),
                v@.len() == i - start,
                forall|j: int|
                    0 <= j < v@.len() ==> listed_ref(#[trigger] v@[j], m[start + j], store@.scope),
            decreases end - i,
        {
            v.push(blob_ref_of(&members[i], &store.scope, BlobState::Listed));
            i = i + 1;
        }
        let next = if end < n {
            Some(copy_string(&members[end].key))
        } else {
            None
        };
        Ok((v, next))
    }

    /// The blob at `blob_path` with its body attached. The store always
    /// returns the whole object, so `content_range` has no effect. Fails
    /// `GetError` where the bucket or the object is absent.
    pub fn get_blob(&self, store: &MemoryBuckets, blob_path: &str, content_range: Option<String>) -> (r:
        BlobResult<BlobRef>)
        ensures
            match self.object_in(store@, blob_path@) {
                None => r matches Err(BlobError::GetError(_)),
                Some(o) => r matches Ok(b) && fetched_ref(b, o, store@.scope),
            },
    {
        if !self.check_reaches(store) {
            return Err(BlobError::GetError(String::from_str("NotFound")));
        }
        let key = blob_path.to_owned();
        match find_object(&store.objects, &self.name, &key) {
            Some(i) => Ok(blob_ref_of(&store.objects[i], &store.scope, BlobState::Fetched)),
            None => Err(BlobError::GetError(String::from_str("NoSuchKey"))),
        }
    }

    /// Writes `content` at `blob_name`, a zero-length object where it is
    /// absent, and returns the written blob's refreshed metadata. Fails
    /// `WriteError` where the bucket is absent or the name is empty.
    pub fn write_blob(&self, store: &mut MemoryBuckets, blob_name: &str, content: Option<Vec<u8>>) -> (r:
        BlobResult<BlobRef>)
        requires
            old(store).wf(),
        ensures
            final(store).wf(),
            !self.reaches(old(store)@) || blob_name@.len() == 0 ==> (r matches Err(BlobError::WriteError(_))
                && final(store)@ == old(store)@),
            self.reaches(old(store)@) && blob_name@.len() > 0 ==> ({
                let o = ObjectView {
                    bucket: self.name@,
                    key: blob_name@,
                    content: content_bytes(content),
                    content_type: None,
                };
                &&& final(store)@ == old(store)@.put(o)
                &&& r matches Ok(b) && written_ref(b, o, old(store)@.scope)
            }),
    {
        if !self.check_reaches(store) {
            return Err(BlobError::WriteError(String::from_str("NotFound")));
        }
        if blob_name.unicode_len() == 0 {
            return Err(BlobError::WriteError(String::from_str("InvalidKey")));
        }
        let bytes = payload(content);
        let o = StoredObject {
            bucket: copy_string(&self.name),
            key: blob_name.to_owned(),
            content: bytes,
            content_type: None,
        };
        let r = blob_ref_of(&o, &store.scope, BlobState::Written);
        store.put_object(o);
        Ok(r)
    }

    /// Copies the blob at `blob_path` to `blob_destination_path`, written
    /// `"{bucket}/{key}"` and split at its first `/`. The copy takes
    /// `content_type` where it is given, else the source's. Fails
    /// `CopyError` where the destination has no `/` or an empty key, or the
    /// source or the destination bucket is absent.
    pub fn copy_blob(
        &self,
        store: &mut MemoryBuckets,
        blob_path: &str,
        blob_destination_path: &str,
        content_type: Option<String>,
    ) -> (r: BlobResult<BlobRef>)
        requires
            old(store).wf(),
        ensures
            final(store).wf(),
            match self.copied(old(store)@, blob_path@, blob_destination_path@, opt_view(content_type)) {
                Some(o) => final(store)@ == old(store)@.put(o) && (r matches Ok(b) && written_ref(
                    b,
                    o,
                    old(store)@.scope,
                )),
                None => (r matches Err(BlobError::CopyError(_))) && final(store)@ == old(store)@,
            },
            split_destination(blob_destination_path@) is None ==> (r matches Err(
                BlobError::CopyError(m),
            ) && m@ == format_message()),
    {
        let dest = match parse_destination(blob_destination_path) {
            Ok(d) => d,
            Err(e) => {
                return Err(e);
            },
        };
        if !self.check_reaches(store) {
            return Err(BlobError::CopyError(String::from_str("NotFound")));
        }
        let key = blob_path.to_owned();
        let i = match find_object(&store.objects, &self.name, &key) {
            Some(i) => i,
            None => {
                return Err(BlobError::CopyError(String::from_str("NoSuchKey")));
            },
        };
        if !store.bucket_exists(dest.bucket.as_str()) {
            return Err(BlobError::CopyError(String::from_str("NoSuchBucket")));
        }
        if dest.key.as_str().unicode_len() == 0 {
            return Err(BlobError::CopyError(String::from_str("InvalidKey")));
        }
        let src = &store.objects[i];
        let ct = match content_type {
            Some(c) => Some(c),
            None => copy_opt_string(&src.content_type),
        };
        let o = StoredObject { bucket: dest.bucket, key: dest.key, content: copy_bytes(&src.content), content_type: ct };
        let r = blob_ref_of(&o, &store.scope, BlobState::Written);
        store.put_object(o);
        Ok(r)
    }

    /// Deletes the blob at `blob_path`: `true` where there was one, `false`
    /// where the key was already absent. Fails `DeletionError` where the
    /// bucket is absent.
    pub fn delete_blob(&self, store: &mut MemoryBuckets, blob_path: &str) -> (r: BlobResult<bool>)
        requires
            old(store).wf(),
        ensures
            final(store).wf(),
            !self.reaches(old(store)@) ==> (r matches Err(BlobError::DeletionError(_))) && final(store)@
                == old(store)@,
            self.reaches(old(store)@) ==> r == Ok::<bool, BlobError>(
                self.object_in(old(store)@, blob_path@) is Some,
            ) && final(store)@ == old(store)@.remove_object(self.name@, blob_path@),
    {
        if !self.check_reaches(store) {
            return Err(BlobError::DeletionError(String::from_str("NotFound")));
        }
        let key = blob_path.to_owned();
        let found = find_object(&store.objects, &self.name, &key);
        store.remove_object(&self.name, &key);
        Ok(found.is_some())
    }
}

impl BlobRef {
    /// The handle on the bucket that holds this blob.
    pub open spec fn spec_owner(&self) -> MemoryBucket {
        MemoryBucket { name: self.bucket, scope: self.scope }
    }

    /// The handle on the bucket that holds this blob, made afresh: the blob
    /// does not keep its bucket alive.
    pub fn owner(&self) -> (r: MemoryBucket)
        ensures
            r.name@ == self.bucket@,
            r.scope@ == self.scope@,
    {
        MemoryBucket { name: copy_string(&self.bucket), scope: copy_string(&self.scope) }
    }

    /// Reads this blob: a fetched one gives its body, a written one the
    /// object now stored at its key, and a listed one, which must be got
    /// first, fails `ReadError`, as does a written one whose object is gone.
    pub fn read(&self, store: &MemoryBuckets) -> (r: BlobResult<Vec<u8>>)
        ensures
            match read_result(
                bytes_view(self.body),
                self.state,
                match self.spec_owner().object_in(store@, self.key@) {
                    Some(o) => Some(o.content),
                    None => None,
                },
            ) {
                Some(v) => r matches Ok(x) && x@ == v,
                None => r == Err::<Vec<u8>, BlobError>(BlobError::ReadError),
            },
    {
        let fetched = if needs_fetch(&self.body, self.state) {
            match self.owner().get_blob(store, self.key.as_str(), None) {
                Ok(b) => b.body,
                Err(_) => None,
            }
        } else {
            None
        };
        read_payload(&self.body, self.state, fetched)
    }

    /// Opens `bucket` of `store` and gets the blob at `blob_path` from it.
    /// Fails `GetError` where either is absent; where the bucket is absent,
    /// the detail is the rendered bucket error.
    pub fn get(store: &MemoryBuckets, bucket: &str, blob_path: &str, content_range: Option<String>) -> (r:
        BlobResult<BlobRef>)
        ensures
            !store@.has_bucket(bucket@) ==> (r matches Err(BlobError::GetError(d)) && d@ == "NotFound"@),
            store@.has_bucket(bucket@) ==> match lookup(store@.objects, bucket@, blob_path@) {
                None => r matches Err(BlobError::GetError(_)),
                Some(o) => r matches Ok(b) && fetched_ref(b, o, store@.scope),
            },
    {
        match store.open(bucket) {
            Ok(b) => b.get_blob(store, blob_path, content_range),
            Err(e) => Err(BlobError::GetError(e.to_string())),
        }
    }

    /// Writes `content` at this blob's key in its own bucket. Fails
    /// `WriteError` where that bucket is gone.
    pub fn write(&self, store: &mut MemoryBuckets, content: Option<Vec<u8>>) -> (r: BlobResult<bool>)
        requires
            old(store).wf(),
        ensures
            final(store).wf(),
            self.spec_owner().reaches(old(store)@) && self.key@.len() > 0 ==> r == Ok::<bool, BlobError>(
                true,
            ) && final(store)@ == old(store)@.put(
                ObjectView {
                    bucket: self.bucket@,
                    key: self.key@,
                    content: content_bytes(content),
                    content_type: None,
                },
            ),
            !self.spec_owner().reaches(old(store)@) || self.key@.len() == 0 ==> (r matches Err(
                BlobError::WriteError(d),
            ) && d@ == "WriteError"@) && final(store)@ == old(store)@,
    {
        let bucket = self.owner();
        match bucket.write_blob(store, self.key.as_str(), content) {
            Ok(_) => Ok(true),
            Err(e) => Err(BlobError::WriteError(e.to_string())),
        }
    }

    /// Copies this blob to `blob_destination_path`, written
    /// `"{bucket}/{key}"`. Fails `CopyError` where the copy does.
    pub fn copy(&self, store: &mut MemoryBuckets, blob_destination_path: &str, content_type: Option<
        String,
    >) -> (r: BlobResult<bool>)
        requires
            old(store).wf(),
        ensures
            final(store).wf(),
            match self.spec_owner().copied(
                old(store)@,
                self.key@,
                blob_destination_path@,
                opt_view(content_type),
            ) {
                Some(o) => r == Ok::<bool, BlobError>(true) && final(store)@ == old(store)@.put(o),
                None => (r matches Err(BlobError::CopyError(d)) && d@ == "CopyError"@) && final(store)@
                    == old(store)@,
            },
    {
        let bucket = self.owner();
        match bucket.copy_blob(store, self.key.as_str(), blob_destination_path, content_type) {
            Ok(_) => Ok(true),
            Err(e) => Err(BlobError::CopyError(e.to_string())),
        }
    }

    /// Deletes this blob from its own bucket. Fails `DeletionError` where
    /// that bucket is gone.
    pub fn delete(&self, store: &mut MemoryBuckets) -> (r: BlobResult<bool>)
        requires
            old(store).wf(),
        ensures
            final(store).wf(),
            self.spec_owner().reaches(old(store)@) ==> r == Ok::<bool, BlobError>(true) && final(store)@
                == old(store)@.remove_object(self.bucket@, self.key@),
            !self.spec_owner().reaches(old(store)@) ==> (r matches Err(BlobError::DeletionError(d)) && d@
                == "DeletionError"@) && final(store)@ == old(store)@,
    {
        let bucket = self.owner();
        match bucket.delete_blob(store, self.key.as_str()) {
            Ok(_) => Ok(true),
            Err(e) => Err(BlobError::DeletionError(e.to_string())),
        }
    }
}

} // verus!
