use waihona::blob::{BlobRef, BlobState};
use waihona::errors::{BlobError, BucketError};
use waihona::memory::{MemoryBucket, MemoryBuckets, DEFAULT_PAGE_SIZE};

fn store_with(bucket: &str) -> (MemoryBuckets, MemoryBucket) {
    let mut store = MemoryBuckets::new("waihona");
    let b = store.create(bucket, None).unwrap();
    (store, b)
}

fn keys(blobs: &[BlobRef]) -> Vec<String> {
    blobs.iter().map(|b| b.key.clone()).collect()
}

#[test]
fn open_absent_bucket_is_not_found() {
    let (store, _) = store_with("mythra");
    assert!(matches!(store.open("fake-bucket"), Err(BucketError::NotFound)));
    let empty = MemoryBuckets::new("waihona");
    assert!(matches!(empty.open("mythra"), Err(BucketError::NotFound)));
    let b = store.open("mythra").unwrap();
    assert_eq!(b.name, "mythra");
    assert_eq!(b.scope, "waihona");
}

#[test]
fn exists_agrees_with_listing() {
    let mut store = MemoryBuckets::new("waihona");
    store.create("mythra", None).unwrap();
    store.create("waihona", Some("us-east-2".to_owned())).unwrap();
    let listed: Vec<String> = store.list().iter().map(|b| b.name.clone()).collect();
    assert_eq!(listed, vec!["mythra".to_owned(), "waihona".to_owned()]);
    for name in ["mythra", "waihona", "fake-bucket", ""] {
        assert_eq!(store.bucket_exists(name), listed.iter().any(|n| n == name));
    }
    assert!(store.list().iter().all(|b| b.scope == "waihona"));
}

#[test]
fn create_refuses_taken_and_invalid_names() {
    let (mut store, _) = store_with("mythra");
    assert!(matches!(store.create("mythra", None), Err(BucketError::CreationError(_))));
    assert!(matches!(store.create("a/b", None), Err(BucketError::CreationError(_))));
    assert!(matches!(store.create("", None), Err(BucketError::CreationError(_))));
    assert_eq!(store.list().len(), 1);
}

#[test]
fn delete_bucket_cases() {
    let (mut store, b) = store_with("mythra");
    assert_eq!(store.delete("fake-bucket"), Err(BucketError::NotFound));
    b.write_blob(&mut store, "a.txt", Some(b"a".to_vec())).unwrap();
    assert!(matches!(store.delete("mythra"), Err(BucketError::DeletionError(_))));
    assert!(store.bucket_exists("mythra"));
    assert_eq!(b.delete_blob(&mut store, "a.txt"), Ok(true));
    assert_eq!(store.delete("mythra"), Ok(true));
    assert!(!store.bucket_exists("mythra"));
    assert!(matches!(store.open("mythra"), Err(BucketError::NotFound)));
}

#[test]
fn write_get_read_round_trip() {
    let (mut store, b) = store_with("mythra");
    let content = b"Hello world".to_vec();
    b.write_blob(&mut store, "k", Some(content.clone())).unwrap();
    let fetched = b.get_blob(&store, "k", None).unwrap();
    assert_eq!(fetched.state, BlobState::Fetched);
    assert_eq!(fetched.read(&store), Ok(content));
}

#[test]
fn copy_round_trip() {
    let (mut store, b) = store_with("bucket");
    let content = vec![0u8, 255, 10, 13];
    b.write_blob(&mut store, "src", Some(content.clone())).unwrap();
    let copied = b.copy_blob(&mut store, "src", "bucket/dst", None).unwrap();
    assert_eq!(copied.key, "dst");
    assert_eq!(copied.bucket, "bucket");
    assert_eq!(copied.state, BlobState::Written);
    let fetched = b.get_blob(&store, "dst", None).unwrap();
    assert_eq!(fetched.read(&store), Ok(content.clone()));
    assert_eq!(b.get_blob(&store, "src", None).unwrap().read(&store), Ok(content));
}

#[test]
fn delete_then_get_fails() {
    let (mut store, b) = store_with("mythra");
    b.write_blob(&mut store, "k", Some(b"x".to_vec())).unwrap();
    assert_eq!(b.delete_blob(&mut store, "k"), Ok(true));
    assert!(matches!(b.get_blob(&store, "k", None), Err(BlobError::GetError(_))));
    assert_eq!(b.delete_blob(&mut store, "k"), Ok(false));
}

#[test]
fn copy_to_malformed_destination_fails() {
    let (mut store, b) = store_with("mythra");
    b.write_blob(&mut store, "src", Some(b"x".to_vec())).unwrap();
    match b.copy_blob(&mut store, "src", "no-slash-here", None) {
        Err(BlobError::CopyError(m)) => {
            assert_eq!(m, "Format blob_destination_path as {bucket}/{blob_path}")
        }
        other => panic!("unexpected {:?}", other),
    }
    let (listed, _) = b.list_blobs(&store, None).unwrap();
    assert_eq!(keys(&listed), vec!["src".to_owned()]);
}

#[test]
fn written_json_reads_back() {
    let (mut store, b) = store_with("mythra");
    let written = b
        .write_blob(&mut store, "new.json", Some(b"{\"example\": 1}".to_vec()))
        .unwrap();
    assert_eq!(written.state, BlobState::Written);
    assert_eq!(written.key, "new.json");
    assert_eq!(written.size, Some(14));
    assert_eq!(written.body, None);
    assert_eq!(written.read(&store), Ok(b"{\"example\": 1}".to_vec()));
    let fetched = BlobRef::get(&store, &written.bucket, &written.key, None).unwrap();
    assert_eq!(fetched.read(&store), Ok(b"{\"example\": 1}".to_vec()));
}

#[test]
fn listing_empty_bucket() {
    let (store, b) = store_with("mythra");
    let (blobs, next) = b.list_blobs(&store, None).unwrap();
    assert!(blobs.is_empty());
    assert_eq!(next, None);
}

#[test]
fn listing_pages_through_cursor() {
    let (mut store, b) = store_with("mythra");
    store.set_page_size(2);
    for k in ["a", "b", "c", "d", "e"] {
        b.write_blob(&mut store, k, Some(k.as_bytes().to_vec())).unwrap();
    }
    let (p1, c1) = b.list_blobs(&store, None).unwrap();
    assert_eq!(keys(&p1), vec!["a".to_owned(), "b".to_owned()]);
    assert_eq!(c1, Some("c".to_owned()));
    let (p2, c2) = b.list_blobs(&store, c1).unwrap();
    assert_eq!(keys(&p2), vec!["c".to_owned(), "d".to_owned()]);
    assert_eq!(c2, Some("e".to_owned()));
    let (p3, c3) = b.list_blobs(&store, c2).unwrap();
    assert_eq!(keys(&p3), vec!["e".to_owned()]);
    assert_eq!(c3, None);
    let (again, _) = b.list_blobs(&store, Some(String::new())).unwrap();
    assert_eq!(keys(&again), vec!["a".to_owned(), "b".to_owned()]);
    assert!(matches!(
        b.list_blobs(&store, Some("zzz".to_owned())),
        Err(BucketError::ListError(_))
    ));
}

#[test]
fn listed_blobs_carry_metadata_only() {
    let (mut store, b) = store_with("mythra");
    b.copy_blob(&mut store, "x", "mythra/y", None).unwrap_err();
    b.write_blob(&mut store, "x", Some(vec![1u8, 2, 3])).unwrap();
    b.copy_blob(&mut store, "x", "mythra/y", Some("image/png".to_owned())).unwrap();
    let (blobs, next) = b.list_blobs(&store, None).unwrap();
    assert_eq!(next, None);
    assert_eq!(blobs.len(), 2);
    for blob in &blobs {
        assert_eq!(blob.state, BlobState::Listed);
        assert_eq!(blob.body, None);
        assert_eq!(blob.content_type, None);
        assert_eq!(blob.size, Some(3));
        assert_eq!(blob.bucket, "mythra");
        assert_eq!(blob.read(&store), Err(BlobError::ReadError));
    }
    let y = b.get_blob(&store, "y", None).unwrap();
    assert_eq!(y.content_type, Some("image/png".to_owned()));
}

#[test]
fn default_page_holds_a_thousand() {
    let (mut store, b) = store_with("mythra");
    for i in 0..(DEFAULT_PAGE_SIZE + 1) {
        b.write_blob(&mut store, &format!("k{}", i), None).unwrap();
    }
    let (p1, c1) = b.list_blobs(&store, None).unwrap();
    assert_eq!(p1.len(), DEFAULT_PAGE_SIZE);
    assert_eq!(c1, Some(format!("k{}", DEFAULT_PAGE_SIZE)));
    let (p2, c2) = b.list_blobs(&store, c1).unwrap();
    assert_eq!(p2.len(), 1);
    assert_eq!(c2, None);
}

#[test]
fn write_without_content_is_zero_length() {
    let (mut store, b) = store_with("mythra");
    let w = b.write_blob(&mut store, "empty", None).unwrap();
    assert_eq!(w.size, Some(0));
    assert_eq!(b.get_blob(&store, "empty", None).unwrap().read(&store), Ok(Vec::new()));
}

#[test]
fn overwrite_replaces_content() {
    let (mut store, b) = store_with("mythra");
    b.write_blob(&mut store, "k", Some(b"one".to_vec())).unwrap();
    b.write_blob(&mut store, "k", Some(b"two".to_vec())).unwrap();
    assert_eq!(b.get_blob(&store, "k", None).unwrap().read(&store), Ok(b"two".to_vec()));
    let (blobs, _) = b.list_blobs(&store, None).unwrap();
    assert_eq!(keys(&blobs), vec!["k".to_owned()]);
}

#[test]
fn copy_failures() {
    let mut store = MemoryBuckets::new("waihona");
    let b = store.create("mythra", None).unwrap();
    let other = store.create("archive", None).unwrap();
    assert!(matches!(
        b.copy_blob(&mut store, "missing", "archive/x", None),
        Err(BlobError::CopyError(_))
    ));
    b.write_blob(&mut store, "src", Some(b"data".to_vec())).unwrap();
    assert!(matches!(
        b.copy_blob(&mut store, "src", "nowhere/x", None),
        Err(BlobError::CopyError(_))
    ));
    let c = b.copy_blob(&mut store, "src", "archive/2021/x", None).unwrap();
    assert_eq!(c.bucket, "archive");
    assert_eq!(c.key, "2021/x");
    assert_eq!(other.get_blob(&store, "2021/x", None).unwrap().read(&store), Ok(b"data".to_vec()));
}

#[test]
fn operations_on_removed_bucket_fail() {
    let (mut store, b) = store_with("mythra");
    store.delete("mythra").unwrap();
    assert!(matches!(b.write_blob(&mut store, "k", None), Err(BlobError::WriteError(_))));
    assert!(matches!(b.get_blob(&store, "k", None), Err(BlobError::GetError(_))));
    assert!(matches!(b.delete_blob(&mut store, "k"), Err(BlobError::DeletionError(_))));
    assert!(matches!(b.list_blobs(&store, None), Err(BucketError::ListError(_))));
}

#[test]
fn handle_from_other_scope_is_refused() {
    let (mut store, _) = store_with("mythra");
    let stranger = MemoryBucket { name: "mythra".to_owned(), scope: "elsewhere".to_owned() };
    assert!(matches!(stranger.write_blob(&mut store, "k", None), Err(BlobError::WriteError(_))));
}

#[test]
fn blob_handle_operations_forward() {
    let (mut store, b) = store_with("mythra");
    let w = b.write_blob(&mut store, "k", Some(b"v1".to_vec())).unwrap();
    assert_eq!(w.write(&mut store, Some(b"v2".to_vec())), Ok(true));
    assert_eq!(b.get_blob(&store, "k", None).unwrap().read(&store), Ok(b"v2".to_vec()));
    assert_eq!(w.copy(&mut store, "mythra/k2", None), Ok(true));
    assert_eq!(b.get_blob(&store, "k2", None).unwrap().read(&store), Ok(b"v2".to_vec()));
    assert_eq!(w.copy(&mut store, "no-slash-here", None), Err(BlobError::CopyError("CopyError".to_owned())));
    assert_eq!(w.delete(&mut store), Ok(true));
    assert!(matches!(b.get_blob(&store, "k", None), Err(BlobError::GetError(_))));
    assert_eq!(w.owner().name, "mythra");
    assert_eq!(w.owner().scope, "waihona");
}

#[test]
fn blob_handle_on_removed_bucket() {
    let (mut store, b) = store_with("mythra");
    let w = b.write_blob(&mut store, "k", None).unwrap();
    w.delete(&mut store).unwrap();
    store.delete("mythra").unwrap();
    assert_eq!(w.write(&mut store, None), Err(BlobError::WriteError("WriteError".to_owned())));
    assert_eq!(w.delete(&mut store), Err(BlobError::DeletionError("DeletionError".to_owned())));
}

#[test]
fn static_get_reports_bucket_error() {
    let (mut store, b) = store_with("mythra");
    b.write_blob(&mut store, "k", Some(b"z".to_vec())).unwrap();
    assert!(matches!(
        BlobRef::get(&store, "fake-bucket", "k", None),
        Err(BlobError::GetError(ref d)) if d == "NotFound"
    ));
    assert!(matches!(BlobRef::get(&store, "mythra", "nope", None), Err(BlobError::GetError(_))));
    let got = BlobRef::get(&store, "mythra", "k", Some("bytes=0-0".to_owned())).unwrap();
    assert_eq!(got.read(&store), Ok(b"z".to_vec()));
    assert_eq!(got.scope, "waihona");
}

#[test]
fn empty_keys_are_refused() {
    let (mut store, b) = store_with("mythra");
    assert!(matches!(b.write_blob(&mut store, "", None), Err(BlobError::WriteError(_))));
    b.write_blob(&mut store, "src", Some(b"x".to_vec())).unwrap();
    assert!(matches!(b.copy_blob(&mut store, "src", "mythra/", None), Err(BlobError::CopyError(_))));
    let (blobs, _) = b.list_blobs(&store, None).unwrap();
    assert_eq!(keys(&blobs), vec!["src".to_owned()]);
}

#[test]
fn pages_cover_each_object_once() {
    let (mut store, b) = store_with("mythra");
    store.set_page_size(3);
    let names: Vec<String> = (0..10).map(|i| format!("obj-{}", i)).collect();
    for n in &names {
        b.write_blob(&mut store, n, Some(n.as_bytes().to_vec())).unwrap();
    }
    b.write_blob(&mut store, "obj-4", Some(b"again".to_vec())).unwrap();
    let mut seen: Vec<String> = Vec::new();
    let mut cursor: Option<String> = None;
    let mut pages = 0;
    loop {
        let (page, next) = b.list_blobs(&store, cursor).unwrap();
        assert!(page.len() <= 3);
        seen.extend(keys(&page));
        pages += 1;
        match next {
            Some(c) => cursor = Some(c),
            None => break,
        }
    }
    assert_eq!(pages, 4);
    let mut expected: Vec<String> = names.iter().filter(|n| *n != "obj-4").cloned().collect();
    expected.push("obj-4".to_owned());
    assert_eq!(seen, expected);
}

#[test]
fn written_blob_reads_current_object() {
    let (mut store, b) = store_with("mythra");
    let w = b.write_blob(&mut store, "k", Some(b"one".to_vec())).unwrap();
    b.write_blob(&mut store, "k", Some(b"two".to_vec())).unwrap();
    assert_eq!(w.read(&store), Ok(b"two".to_vec()));
    let c = b.copy_blob(&mut store, "k", "mythra/c", None).unwrap();
    assert_eq!(c.read(&store), Ok(b"two".to_vec()));
    b.delete_blob(&mut store, "k").unwrap();
    assert_eq!(w.read(&store), Err(BlobError::ReadError));
    let fetched_before_delete = b.get_blob(&store, "c", None).unwrap();
    b.delete_blob(&mut store, "c").unwrap();
    assert_eq!(fetched_before_delete.read(&store), Ok(b"two".to_vec()));
}
