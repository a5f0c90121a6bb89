use waihona::blob::{concat_chunks, payload, BlobRef, BlobState};
use waihona::destination::{contains_slash, join_path, parse_destination, plan_copy};
use waihona::errors::{BlobError, BucketError, ProviderError};
use waihona::listing::{contains_name, normalize_cursor};
use waihona::memory::MemoryBuckets;
use waihona::providers::aws::{string_to_region, AwsBlob, Region};
use waihona::providers::azure::AzureBlob;
use waihona::providers::gcp::GcpBlob;

const FORMAT_MESSAGE: &str = "Format blob_destination_path as {bucket}/{blob_path}";

#[test]
fn bucket_errors_render_as_variant_names() {
    assert_eq!(BucketError::NotFound.to_string(), "NotFound");
    assert_eq!(BucketError::CreationError("x".to_owned()).to_string(), "CreationError");
    assert_eq!(BucketError::DeletionError("x".to_owned()).to_string(), "DeletionError");
    assert_eq!(BucketError::ListError("x".to_owned()).to_string(), "ListError");
    assert_eq!(BucketError::OpenError("x".to_owned()).to_string(), "OpenError");
    assert_eq!(BucketError::CredentialError("x".to_owned()).to_string(), "CredentialError");
}

#[test]
fn blob_errors_render_as_variant_names() {
    assert_eq!(BlobError::NotFound.to_string(), "NotFound");
    assert_eq!(BlobError::GetError("x".to_owned()).to_string(), "GetError");
    assert_eq!(BlobError::ReadError.to_string(), "ReadError");
    assert_eq!(BlobError::DeletionError("x".to_owned()).to_string(), "DeletionError");
    assert_eq!(BlobError::CopyError("x".to_owned()).to_string(), "CopyError");
    assert_eq!(BlobError::WriteError("x".to_owned()).to_string(), "WriteError");
    assert_eq!(ProviderError::NotFound.to_string(), "NotFound");
}

#[test]
fn destination_splits_at_first_slash() {
    let d = parse_destination("bucket/dir/file.txt").unwrap();
    assert_eq!(d.bucket, "bucket");
    assert_eq!(d.key, "dir/file.txt");
}

#[test]
fn destination_with_empty_parts() {
    let d = parse_destination("/key").unwrap();
    assert_eq!(d.bucket, "");
    assert_eq!(d.key, "key");
    let d = parse_destination("bucket/").unwrap();
    assert_eq!(d.bucket, "bucket");
    assert_eq!(d.key, "");
}

#[test]
fn destination_without_slash_is_refused() {
    assert_eq!(
        parse_destination("no-slash-here"),
        Err(BlobError::CopyError(FORMAT_MESSAGE.to_owned()))
    );
    assert_eq!(parse_destination(""), Err(BlobError::CopyError(FORMAT_MESSAGE.to_owned())));
}

#[test]
fn join_then_parse_gives_parts_back() {
    let joined = join_path("mythra", "copied/image.png");
    assert_eq!(joined, "mythra/copied/image.png");
    let d = parse_destination(&joined).unwrap();
    assert_eq!(d.bucket, "mythra");
    assert_eq!(d.key, "copied/image.png");
}

#[test]
fn slash_detection() {
    assert!(contains_slash("a/b"));
    assert!(!contains_slash("ab"));
    assert!(!contains_slash(""));
}

#[test]
fn copy_plan_names_source_and_destination() {
    let p = plan_copy("waihona", "reka-store.txt", "other/copy-reka.txt").unwrap();
    assert_eq!(p.source, "waihona/reka-store.txt");
    assert_eq!(p.destination.bucket, "other");
    assert_eq!(p.destination.key, "copy-reka.txt");
    match plan_copy("waihona", "reka-store.txt", "copy-reka.txt") {
        Err(BlobError::CopyError(m)) => assert_eq!(m, FORMAT_MESSAGE),
        other => panic!("unexpected {:?}", other),
    }
}

#[test]
fn empty_marker_asks_for_first_page() {
    assert_eq!(normalize_cursor(None), None);
    assert_eq!(normalize_cursor(Some(String::new())), None);
    assert_eq!(normalize_cursor(Some("next".to_owned())), Some("next".to_owned()));
}

#[test]
fn name_scan_finds_listed_names() {
    let names = vec!["waihona".to_owned(), "mythra".to_owned()];
    assert!(contains_name(&names, "mythra"));
    assert!(!contains_name(&names, "fake-bucket"));
    assert!(!contains_name(&Vec::new(), "waihona"));
}

#[test]
fn chunks_join_in_arrival_order() {
    let chunks = vec![vec![1u8, 2], vec![], vec![3u8], vec![4u8, 5]];
    assert_eq!(concat_chunks(&chunks), vec![1u8, 2, 3, 4, 5]);
    assert_eq!(concat_chunks(&Vec::new()), Vec::<u8>::new());
}

#[test]
fn payload_of_absent_content_is_empty() {
    assert_eq!(payload(None), Vec::<u8>::new());
    assert_eq!(payload(Some(vec![7u8, 8])), vec![7u8, 8]);
}

#[test]
fn blob_ref_read_needs_a_body() {
    let store = MemoryBuckets::new("s");
    let mut blob = BlobRef {
        key: "k".to_owned(),
        e_tag: None,
        size: Some(3),
        content_type: None,
        content_range: None,
        body: Some(vec![1u8, 2, 3]),
        bucket: "b".to_owned(),
        scope: "s".to_owned(),
        state: BlobState::Fetched,
    };
    assert_eq!(blob.read(&store), Ok(vec![1u8, 2, 3]));
    blob.body = None;
    blob.state = BlobState::Listed;
    assert_eq!(blob.read(&store), Err(BlobError::ReadError));
    blob.state = BlobState::Written;
    assert_eq!(blob.read(&store), Err(BlobError::ReadError));
}

#[test]
fn region_identifiers_map_to_regions() {
    assert_eq!(string_to_region("us-east-2"), Ok(Region::UsEast2));
    assert_eq!(string_to_region("ap-east-1"), Ok(Region::ApEast1));
    assert_eq!(string_to_region("af-south-1"), Ok(Region::AfSouth1));
    assert_eq!(string_to_region("us-goveast-1"), Ok(Region::UsGovEast1));
    assert_eq!(string_to_region("cn-northwest-1"), Ok(Region::CnNorthwest1));
}

#[test]
fn unknown_region_is_not_found() {
    assert_eq!(string_to_region("us-gov-east-1"), Err(BucketError::NotFound));
    assert_eq!(string_to_region(""), Err(BucketError::NotFound));
    assert_eq!(string_to_region("US-EAST-2"), Err(BucketError::NotFound));
}

#[test]
fn aws_blob_reads_streamed_chunks() {
    let blob = AwsBlob::new(
        Some("reka-store.txt".to_owned()),
        Some("\"etag\"".to_owned()),
        Some(5),
        Some(vec![b"Hel".to_vec(), b"lo".to_vec()]),
        Some("text/plain".to_owned()),
        None,
        "waihona".to_owned(),
    );
    assert_eq!(blob.read(None), Ok(b"Hello".to_vec()));
    assert_eq!(blob.state, BlobState::Fetched);
    assert!(!blob.needs_fetch());
    assert_eq!(blob.key, Some("reka-store.txt".to_owned()));
    assert_eq!(blob.bucket, "waihona");
    let listed = AwsBlob::new(Some("k".to_owned()), None, Some(1), None, None, None, "b".to_owned());
    assert_eq!(listed.state, BlobState::Listed);
    assert!(!listed.needs_fetch());
    assert_eq!(listed.read(Some(vec![b"x".to_vec()])), Err(BlobError::ReadError));
    let written = listed.written();
    assert!(written.needs_fetch());
    assert_eq!(written.read(Some(vec![b"ab".to_vec(), b"c".to_vec()])), Ok(b"abc".to_vec()));
    assert_eq!(written.read(None), Err(BlobError::ReadError));
}

#[test]
fn azure_blob_reads_its_body() {
    let blob = AzureBlob::new(
        "new.json".to_owned(),
        "0x8D".to_owned(),
        Some(b"{'example': 1}".to_vec()),
        "application/json".to_owned(),
        14,
        "waihona".to_owned(),
        "waihona".to_owned(),
    );
    assert_eq!(blob.read(None), Ok(b"{'example': 1}".to_vec()));
    assert_eq!(blob.content_length, 14);
    let bare = AzureBlob::new(
        "k".to_owned(),
        "e".to_owned(),
        None,
        String::new(),
        0,
        "c".to_owned(),
        "a".to_owned(),
    );
    assert_eq!(bare.read(None), Err(BlobError::ReadError));
    let written = bare.written();
    assert_eq!(written.state, BlobState::Written);
    assert_eq!(written.read(Some(b"{'example': 1}".to_vec())), Ok(b"{'example': 1}".to_vec()));
}

#[test]
fn copy_across_buckets_names_destination_bucket_and_bare_key() {
    let d = parse_destination("archive/2021/copied.pdf").unwrap();
    assert_eq!(d.bucket, "archive");
    assert_eq!(d.key, "2021/copied.pdf");
    let p = plan_copy("waihona", "CV latest.pdf", "archive/x").unwrap();
    assert_eq!(p.source, "waihona/CV latest.pdf");
    assert_eq!(p.destination.bucket, "archive");
    assert_eq!(p.destination.key, "x");
}

#[test]
fn gcp_blob_new_keeps_fields() {
    let blob = GcpBlob::new(
        Some("Screenshot.png".to_owned()),
        Some("CJ".to_owned()),
        Some(4),
        Some(vec![0x89u8, 0x50, 0x4e, 0x47]),
        Some("image/png".to_owned()),
        Some("bytes=0-3".to_owned()),
        "mythra".to_owned(),
        "psyched-myth-306812".to_owned(),
    );
    assert_eq!(blob.key, Some("Screenshot.png".to_owned()));
    assert_eq!(blob.e_tag, Some("CJ".to_owned()));
    assert_eq!(blob.size, Some(4));
    assert_eq!(blob.content_type, Some("image/png".to_owned()));
    assert_eq!(blob.content_range, Some("bytes=0-3".to_owned()));
    assert_eq!(blob.bucket, "mythra");
    assert_eq!(blob.project, "psyched-myth-306812");
    assert_eq!(blob.read(None), Ok(vec![0x89u8, 0x50, 0x4e, 0x47]));
    let listed = GcpBlob::new(None, None, None, None, None, None, "b".to_owned(), "p".to_owned());
    assert_eq!(listed.read(Some(vec![1u8])), Err(BlobError::ReadError));
    let written = listed.written();
    assert!(written.needs_fetch());
    assert_eq!(written.read(Some(b"{\"example\": 1}".to_vec())), Ok(b"{\"example\": 1}".to_vec()));
    assert_eq!(written.read(None), Err(BlobError::ReadError));
}
