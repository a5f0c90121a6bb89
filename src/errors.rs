use vstd::prelude::*;

verus! {

/// Bucket based errors.
#[derive(Debug, Clone, PartialEq, Eq)]
pub enum BucketError {
    /// Bucket specified was not found
    NotFound,
    /// Bucket error during creation
    CreationError(String),
    /// Bucket deletion error
    DeletionError(String),
    /// Bucket listing error
    ListError(String),
    /// Bucket exists but could not be opened
    OpenError(String),
    /// Credential for the provider could not be resolved
    CredentialError(String),
}

/// Blob based errors.
#[derive(Debug, Clone, PartialEq, Eq)]
pub enum BlobError {
    /// Blob specified was not found
    NotFound,
    /// Blob could not be gotten
    GetError(String),
    /// Blob could not be read
    ReadError,
    /// Could not delete blob
    DeletionError(String),
    /// Could not copy blob
    CopyError(String),
    /// Could not write blob
    WriteError(String),
}

/// Provider based errors.
#[derive(Debug, Clone, Copy, PartialEq, Eq)]
pub enum ProviderError {
    /// Provider specified was not found
    NotFound,
}

/// Result of a bucket-level operation.
pub type BucketResult<T> = Result<T, BucketError>;

/// Result of a blob-level operation.
pub type BlobResult<T> = Result<T, BlobError>;

impl BucketError {
    /// The name of the variant, which is how an error of this kind renders.
    pub open spec fn spec_name(&self) -> Seq<char> {
        match self {
            BucketError::NotFound => "NotFound"@,
            BucketError::CreationError(_) => "CreationError"@,
            BucketError::DeletionError(_) => "DeletionError"@,
            BucketError::ListError(_) => "ListError"@,
            BucketError::OpenError(_) => "OpenError"@,
            BucketError::CredentialError(_) => "CredentialError"@,
        }
    }

    /// Renders the error as the name of its variant; the detail is not shown.
    pub fn to_string(&self) -> (r: String)
        ensures
            r@ == self.spec_name(),
    {
        match self {
            BucketError::NotFound => String::from_str("NotFound"),
            BucketError::CreationError(_) => String::from_str("CreationError"),
            BucketError::DeletionError(_) => String::from_str("DeletionError"),
            BucketError::ListError(_) => String::from_str("ListError"),
            BucketError::OpenError(_) => String::from_str("OpenError"),
            BucketError::CredentialError(_) => String::from_str("CredentialError"),
        }
    }
}

impl BlobError {
    /// The name of the variant, which is how an error of this kind renders.
    pub open spec fn spec_name(&self) -> Seq<char> {
        match self {
            BlobError::NotFound => "NotFound"@,
            BlobError::GetError(_) => "GetError"@,
            BlobError::ReadError => "ReadError"@,
            BlobError::DeletionError(_) => "DeletionError"@,
            BlobError::CopyError(_) => "CopyError"@,
            BlobError::WriteError(_) => "WriteError"@,
        }
    }

    /// Renders the error as the name of its variant; the detail is not shown.
    pub fn to_string(&self) -> (r: String)
        ensures
            r@ == self.spec_name(),
    {
        match self {
            BlobError::NotFound => String::from_str("NotFound"),
            BlobError::GetError(_) => String::from_str("GetError"),
            BlobError::ReadError => String::from_str("ReadError"),
            BlobError::DeletionError(_) => String::from_str("DeletionError"),
            BlobError::CopyError(_) => String::from_str("CopyError"),
            BlobError::WriteError(_) => String::from_str("WriteError"),
        }
    }
}

impl ProviderError {
    /// Renders the error as the name of its variant.
    pub fn to_string(&self) -> (r: String)
        ensures
            r@ == "NotFound"@,
    {
        String::from_str("NotFound")
    }
}

} // verus!
