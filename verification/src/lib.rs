//! Digital signing of PDF documents through the VIDaaS cloud-signature
//! service (ICP-Brasil).
//!
//! The crate holds the logic of the signing flow: the PKCE verifier and
//! challenge, the requests sent to the provider and the interpretation of
//! its replies, the preparation of documents for signing and the
//! validation of the signed PDFs that come back, the routing between
//! providers, and the mapping of errors onto HTTP answers. Sending requests
//! and reading replies is left to the caller, which hands the plain results
//! to the functions here.

pub mod adapter;
pub mod api;
pub mod client;
pub mod codec;
pub mod config;
pub mod dispatcher;
pub mod error;
pub mod pkce;
pub mod port;
pub mod signer;
pub mod text;

pub use adapter::VidaasSigningAdapter;
pub use config::VidaasConfig;
pub use dispatcher::SigningDispatcher;
pub use error::SigningError;
pub use pkce::generate_code_verifier;
pub use port::{DocumentSigningError, SignedDocument, UnsignedDocument};
pub use signer::{AccessToken, Approval, PushAuthorization};
