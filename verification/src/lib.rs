//! Request signing for the EdgeGrid authentication scheme: a time-scoped key
//! derived from the client secret, the canonical form of an HTTP request, and
//! the `Authorization` header value that carries the signature.

pub mod clock;
pub mod digest;
pub mod encoding;
pub mod error;
pub mod guarantees;
pub mod method;
pub mod nonce;
pub mod purge;
pub mod signer;
pub mod target;
pub mod text;

pub use error::SignError;
pub use method::HttpMethod;
pub use purge::{purge_request, purge_request_at, PurgeRequest};
pub use signer::{authorization_header, sign_at, sign_with};
pub use target::ParsedUrl;
