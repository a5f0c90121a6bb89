use crate::blob::{
    chunk_views, concat_chunks, join_chunks, read_result, reads_by_fetch, BlobState,
};
use crate::errors::{BlobError, BlobResult, BucketError, BucketResult};
use vstd::prelude::*;

verus! {

/// The S3 regions that a bucket collection can be scoped to.
#[derive(Debug, Clone, Copy, PartialEq, Eq)]
pub enum Region {
    ApEast1,
    ApNortheast1,
    ApNortheast2,
    ApNortheast3,
    ApSouth1,
    ApSoutheast1,
    ApSoutheast2,
    CaCentral1,
    EuCentral1,
    EuWest1,
    EuWest2,
    EuWest3,
    EuNorth1,
    EuSouth1,
    MeSouth1,
    SaEast1,
    UsEast1,
    UsEast2,
    UsWest1,
    UsWest2,
    UsGovEast1,
    UsGovWest1,
    CnNorth1,
    CnNorthwest1,
    AfSouth1,
}

/// The region that a region identifier names, if any.
pub open spec fn region_of(s: Seq<char>) -> Option<Region> {
    if s == "ap-east-1"@ {
        Some(Region::ApEast1)
    } else if s == "ap-northeast-1"@ {
        Some(Region::ApNortheast1)
    } else if s == "ap-northeast-2"@ {
        Some(Region::ApNortheast2)
    } else if s == "ap-northeast-3"@ {
        Some(Region::ApNortheast3)
    } else if s == "ap-south-1"@ {
        Some(Region::ApSouth1)
    } else if s == "ap-southeast-1"@ {
        Some(Region::ApSoutheast1)
    } else if s == "ap-southeast-2"@ {
        Some(Region::ApSoutheast2)
    } else if s == "ca-central-1"@ {
        Some(Region::CaCentral1)
    } else if s == "eu-central-1"@ {
        Some(Region::EuCentral1)
    } else if s == "eu-west-1"@ {
        Some(Region::EuWest1)
    } else if s == "eu-west-2"@ {
        Some(Region::EuWest2)
    } else if s == "eu-west-3"@ {
        Some(Region::EuWest3)
    } else if s == "eu-north-1"@ {
        Some(Region::EuNorth1)
    } else if s == "eu-south-1"@ {
        Some(Region::EuSouth1)
    } else if s == "me-south-1"@ {
        Some(Region::MeSouth1)
    } else if s == "sa-east-1"@ {
        Some(Region::SaEast1)
    } else if s == "us-east-1"@ {
        Some(Region::UsEast1)
    } else if s == "us-east-2"@ {
        Some(Region::UsEast2)
    } else if s == "us-west-1"@ {
        Some(Region::UsWest1)
    } else if s == "us-west-2"@ {
        Some(Region::UsWest2)
    } else if s == "us-goveast-1"@ {
        Some(Region::UsGovEast1)
    } else if s == "us-govwest-1"@ {
        Some(Region::UsGovWest1)
    } else if s == "cn-north-1"@ {
        Some(Region::CnNorth1)
    } else if s == "cn-northwest-1"@ {
        Some(Region::CnNorthwest1)
    } else if s == "af-south-1"@ {
        Some(Region::AfSouth1)
    } else {
        None
    }
}

/// Whether `s` reads `lit`.
fn text_is(s: &String, lit: &str) -> (r: bool)
    ensures
        r == (s@ == lit@),
{
    *s == String::from_str(lit)
}

/// The region that `reg` names. An identifier that names none fails
/// `NotFound`.
pub fn string_to_region(reg: &str) -> (r: BucketResult<Region>)
    ensures
        match region_of(reg@) {
            Some(g) => r == Ok::<Region, BucketError>(g),
            None => r == Err::<Region, BucketError>(BucketError::NotFound),
        },
{
    let r = reg.to_owned();
    if text_is(&r, "ap-east-1") {
        Ok(Region::ApEast1)
    } else if text_is(&r, "ap-northeast-1") {
        Ok(Region::ApNortheast1)
    } else if text_is(&r, "ap-northeast-2") {
        Ok(Region::ApNortheast2)
    } else if text_is(&r, "ap-northeast-3") {
        Ok(Region::ApNortheast3)
    } else if text_is(&r, "ap-south-1") {
        Ok(Region::ApSouth1)
    } else if text_is(&r, "ap-southeast-1") {
        Ok(Region::ApSoutheast1)
    } else if text_is(&r, "ap-southeast-2") {
        Ok(Region::ApSoutheast2)
    } else if text_is(&r, "ca-central-1") {
        Ok(Region::CaCentral1)
    } else if text_is(&r, "eu-central-1") {
        Ok(Region::EuCentral1)
    } else if text_is(&r, "eu-west-1") {
        Ok(Region::EuWest1)
    } else if text_is(&r, "eu-west-2") {
        Ok(Region::EuWest2)
    } else if text_is(&r, "eu-west-3") {
        Ok(Region::EuWest3)
    } else if text_is(&r, "eu-north-1") {
        Ok(Region::EuNorth1)
    } else if text_is(&r, "eu-south-1") {
        Ok(Region::EuSouth1)
    } else if text_is(&r, "me-south-1") {
        Ok(Region::MeSouth1)
    } else if text_is(&r, "sa-east-1") {
        Ok(Region::SaEast1)
    } else if text_is(&r, "us-east-1") {
        Ok(Region::UsEast1)
    } else if text_is(&r, "us-east-2") {
        Ok(Region::UsEast2)
    } else if text_is(&r, "us-west-1") {
        Ok(Region::UsWest1)
    } else if text_is(&r, "us-west-2") {
        Ok(Region::UsWest2)
    } else if text_is(&r, "us-goveast-1") {
        Ok(Region::UsGovEast1)
    } else if text_is(&r, "us-govwest-1") {
        Ok(Region::UsGovWest1)
    } else if text_is(&r, "cn-north-1") {
        Ok(Region::CnNorth1)
    } else if text_is(&r, "cn-northwest-1") {
        Ok(Region::CnNorthwest1)
    } else if text_is(&r, "af-south-1") {
        Ok(Region::AfSouth1)
    } else {
        Err(BucketError::NotFound)
    }
}

/// An S3 object reference. Its body, where attached, is held as the chunks
/// in which the backend streamed it.
#[derive(Debug)]
pub struct AwsBlob {
    pub key: Option<String>,
    pub e_tag: Option<String>,
    pub size: Option<i64>,
    pub body: Option<Vec<Vec<u8>>>,
    pub content_type: Option<String>,
    pub content_range: Option<String>,
    pub bucket: String,
    pub state: BlobState,
}

/// The payload of an optional chunked body: its chunks joined in order.
pub open spec fn chunks_payload(o: Option<Vec<Vec<u8>>>) -> Option<Seq<u8>> {
    match o {
        Some(c) => Some(join_chunks(chunk_views(c@))),
        None => None,
    }
}

impl AwsBlob {
    pub fn new(
        key: Option<String>,
        e_tag: Option<String>,
        size: Option<i64>,
        body: Option<Vec<Vec<u8>>>,
        content_type: Option<String>,
        content_range: Option<String>,
        bucket: String,
    ) -> (r: Self)
        ensures
            r.key == key,
            r.e_tag == e_tag,
            r.size == size,
            r.body == body,
            r.content_type == content_type,
            r.content_range == content_range,
            r.bucket == bucket,
            r.state == if body is Some {
                BlobState::Fetched
            } else {
                BlobState::Listed
            },
    {
        let state = match &body {
            Some(_) => BlobState::Fetched,
            None => BlobState::Listed,
        };
        AwsBlob { key, e_tag, size, body, content_type, content_range, bucket, state }
    }

    /// The reference as a write or a copy leaves it: metadata refreshed,
    /// no body.
    pub fn written(self) -> (r: Self)
        ensures
            r == (Self { body: None, state: BlobState::Written, ..self }),
    {
        Self { body: None, state: BlobState::Written, ..self }
    }

    /// Whether reading this reference takes a fetch of the object: it is a
    /// written one without a body.
    pub fn needs_fetch(&self) -> (r: bool)
        ensures
            r == reads_by_fetch(self.body is Some, self.state),
    {
        match &self.body {
            Some(_) => false,
            None => match self.state {
                BlobState::Written => true,
                _ => false,
            },
        }
    }

    /// Reads the blob: the attached body's chunks joined in arrival order;
    /// for a written reference, the chunks `fetched` from the backend where
    /// the fetch succeeded. A listed reference, which must be got first,
    /// fails `ReadError`.
    pub fn read(&self, fetched: Option<Vec<Vec<u8>>>) -> (r: BlobResult<Vec<u8>>)
        ensures
            match read_result(chunks_payload(self.body), self.state, chunks_payload(fetched)) {
                Some(v) => r matches Ok(x) && x@ == v,
                None => r == Err::<Vec<u8>, BlobError>(BlobError::ReadError),
            },
    {
        match &self.body {
            Some(chunks) => Ok(concat_chunks(chunks)),
            None => match self.state {
                BlobState::Written => match &fetched {
                    Some(chunks) => Ok(concat_chunks(chunks)),
                    None => Err(BlobError::ReadError),
                },
                _ => Err(BlobError::ReadError),
            },
        }
    }
}

} // verus!
