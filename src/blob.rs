use crate::errors::{BlobError, BlobResult};
use vstd::prelude::*;

verus! {

/// How far a blob reference has been hydrated.
#[derive(Debug, Clone, Copy, PartialEq, Eq)]
pub enum BlobState {
    /// Obtained from a listing: metadata only, no body.
    Listed,
    /// Obtained from a get: the body is attached.
    Fetched,
    /// Metadata refreshed after a write or a copy; no body.
    Written,
}

/// A reference to one object in a bucket. It is a projection of remote state:
/// it holds no lock on the object and is not kept in step with it.
#[derive(Debug)]
pub struct BlobRef {
    pub key: String,
    pub e_tag: Option<String>,
    pub size: Option<i64>,
    pub content_type: Option<String>,
    pub content_range: Option<String>,
    pub body: Option<Vec<u8>>,
    pub bucket: String,
    pub scope: String,
    pub state: BlobState,
}

impl BlobRef {
    /// A fetched reference carries a body; a listed or written one does not,
    /// and a listed one carries no content type either.
    pub open spec fn wf(&self) -> bool {
        &&& (self.state == BlobState::Fetched) == (self.body is Some)
        &&& self.state == BlobState::Listed ==> self.content_type is None
    }

}

/// The view of an optional byte vector.
pub open spec fn bytes_view(o: Option<Vec<u8>>) -> Option<Seq<u8>> {
    match o {
        Some(v) => Some(v@),
        None => None,
    }
}

/// A reference in this state, without a body, is read by fetching the
/// object: only a written one is; a listed one must be got first.
pub open spec fn reads_by_fetch(has_body: bool, state: BlobState) -> bool {
    !has_body && state == BlobState::Written
}

/// What reading a reference yields: its attached body; for a written
/// reference without one, what an explicit fetch of the object brought;
/// else nothing, which is a `ReadError`.
pub open spec fn read_result(body: Option<Seq<u8>>, state: BlobState, fetched: Option<Seq<u8>>) -> Option<
    Seq<u8>,
> {
    match body {
        Some(b) => Some(b),
        None => if state == BlobState::Written {
            fetched
        } else {
            None
        },
    }
}

/// Whether a reference in `state` whose body is `body` is read by fetching.
pub fn needs_fetch(body: &Option<Vec<u8>>, state: BlobState) -> (r: bool)
    ensures
        r == reads_by_fetch(body is Some, state),
{
    match body {
        Some(_) => false,
        None => match state {
            BlobState::Written => true,
            _ => false,
        },
    }
}

/// Reads a reference: its body, else for a written reference the bytes
/// `fetched` from the backend, where the fetch succeeded.
pub fn read_payload(body: &Option<Vec<u8>>, state: BlobState, fetched: Option<Vec<u8>>) -> (r: BlobResult<
    Vec<u8>,
>)
    ensures
        match read_result(bytes_view(*body), state, bytes_view(fetched)) {
            Some(v) => r matches Ok(x) && x@ == v,
            None => r == Err::<Vec<u8>, BlobError>(BlobError::ReadError),
        },
{
    match body {
        Some(b) => Ok(copy_bytes(b)),
        None => match state {
            BlobState::Written => match fetched {
                Some(f) => Ok(f),
                None => Err(BlobError::ReadError),
            },
            _ => Err(BlobError::ReadError),
        },
    }
}

/// The bytes of an optional content: none stands for a zero-length object.
pub open spec fn content_bytes(content: Option<Vec<u8>>) -> Seq<u8> {
    match content {
        Some(c) => c@,
        None => Seq::empty(),
    }
}

/// The payload that a write sends: the content, or nothing for a
/// zero-length object.
pub fn payload(content: Option<Vec<u8>>) -> (r: Vec<u8>)
    ensures
        r@ == content_bytes(content),
{
    match content {
        Some(c) => c,
        None => Vec::new(),
    }
}

/// The chunks of a streamed body joined in the order in which they arrived.
pub open spec fn join_chunks(chunks: Seq<Seq<u8>>) -> Seq<u8>
    decreases chunks.len(),
{
    if chunks.len() == 0 {
        Seq::empty()
    } else {
        join_chunks(chunks.drop_last()) + chunks.last()
    }
}

/// The views of a sequence of byte vectors.
pub open spec fn chunk_views(chunks: Seq<Vec<u8>>) -> Seq<Seq<u8>> {
    chunks.map_values(|c: Vec<u8>| c@)
}

/// Appends `src` to `dst`.
fn append_bytes(dst: &mut Vec<u8>, src: &Vec<u8>)
    ensures
        final(dst)@ == old(dst)@ + src@,
{
    let ghost start = dst@;
    let mut i: usize = 0;
    while i < src.len()
        invariant
            0 <= i <= src@.len(),
            dst@ == start + src@.subrange(0, i as int),
        decreases src@.len() - i,
    {
        dst.push(src[i]);
        i = i + 1;
        proof {
            assert(start + src@.subrange(0, i as int) =~= (start + src@.subrange(0, i - 1)).push(src@[i - 1]));
        }
    }
    proof {
        assert(src@.subrange(0, src@.len() as int) =~= src@);
    }
}

/// A copy of `src`.
pub fn copy_bytes(src: &Vec<u8>) -> (r: Vec<u8>)
    ensures
        r@ == src@,
{
    let mut r: Vec<u8> = Vec::new();
    append_bytes(&mut r, src);
    proof {
        assert(Seq::<u8>::empty() + src@ =~= src@);
    }
    r
}

/// Drains a body that came in chunks: the payload is the chunks joined in
/// arrival order.
pub fn concat_chunks(chunks: &Vec<Vec<u8>>) -> (r: Vec<u8>)
    ensures
        r@ == join_chunks(chunk_views(chunks@)),
{
    let mut r: Vec<u8> = Vec::new();
    let mut i: usize = 0;
    while i < chunks.len()
        invariant
            0 <= i <= chunks@.len(),
            r@ == join_chunks(chunk_views(chunks@.subrange(0, i as int))),
        decreases chunks@.len() - i,
    {
        append_bytes(&mut r, &chunks[i]);
        i = i + 1;
        proof {
            let s = chunk_views(chunks@.subrange(0, i as int));
            assert(s.drop_last() =~= chunk_views(chunks@.subrange(0, i - 1)));
            assert(s.last() == chunks@[i - 1]@);
        }
    }
    proof {
        assert(chunks@.subrange(0, chunks@.len() as int) =~= chunks@);
    }
    r
}

} // verus!
