//! HTTP Basic authentication scheme (RFC 7617): decoding a base64-encoded
//! `user-id:password` pair from an `Authorization` header value, and encoding
//! a credential pair back into that header format.

pub mod codec;
pub mod credentials;
pub mod error;
pub mod text;

pub use credentials::Credentials;
pub use error::AuthBasicError;
