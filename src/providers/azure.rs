use crate::blob::{
    bytes_view, needs_fetch, read_payload, read_result, reads_by_fetch, BlobState,
};
use crate::errors::{BlobError, BlobResult};
use vstd::prelude::*;

verus! {

/// An Azure blob reference.
#[derive(Debug)]
pub struct AzureBlob {
    pub key: String,
    pub e_tag: String,
    pub body: Option<Vec<u8>>,
    pub content_type: String,
    pub content_length: u64,
    pub container: String,
    pub storage_account: String,
    pub state: BlobState,
}

impl AzureBlob {
    pub fn new(
        key: String,
        e_tag: String,
        body: Option<Vec<u8>>,
        content_type: String,
        content_length: u64,
        container: String,
        storage_account: String,
    ) -> (r: Self)
        ensures
            r.key == key,
            r.e_tag == e_tag,
            r.body == body,
            r.content_type == content_type,
            r.content_length == content_length,
            r.container == container,
            r.storage_account == storage_account,
            r.state == if body is Some {
                BlobState::Fetched
            } else {
                BlobState::Listed
            },
    {
        let state = match &body {
            Some(_) => BlobState::Fetched,
            None => BlobState::Listed,
        };
        AzureBlob { key, e_tag, body, content_type, content_length, container, storage_account, state }
    }

    /// The reference as a write or a copy leaves it: metadata refreshed,
    /// no body.
    pub fn written(self) -> (r: Self)
        ensures
            r == (Self { body: None, state: BlobState::Written, ..self }),
    {
        Self { body: None, state: BlobState::Written, ..self }
    }

    /// Whether reading this reference takes a fetch of the object: it is a
    /// written one without a body.
    pub fn needs_fetch(&self) -> (r: bool)
        ensures
            r == reads_by_fetch(self.body is Some, self.state),
    {
        needs_fetch(&self.body, self.state)
    }

    /// Reads the blob: the attached body; for a written reference, the
    /// bytes `fetched` from the backend where the fetch succeeded. A listed
    /// reference, which must be got first, fails `ReadError`.
    pub fn read(&self, fetched: Option<Vec<u8>>) -> (r: BlobResult<Vec<u8>>)
        ensures
            match read_result(bytes_view(self.body), self.state, bytes_view(fetched)) {
                Some(v) => r matches Ok(x) && x@ == v,
                None => r == Err::<Vec<u8>, BlobError>(BlobError::ReadError),
            },
    {
        read_payload(&self.body, self.state, fetched)
    }
}

} // verus!
