//! The plain-value side of each backend: what its references hold and the
//! decisions its adapter takes before and after calling the backend.
pub mod aws;
pub mod azure;
pub mod gcp;
