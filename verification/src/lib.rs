//! One HTTP request, two ways to carry it out.
//!
//! A [`Request`] is either handed to a native client or passed through a
//! host callback that does the transfer on the caller's behalf. Both paths
//! share one request and response model, one header codec and one error
//! type; this crate holds that shared part and proves what it promises.
//!
//! - [`model`]: the request and the response, and their wire forms.
//! - [`headers`]: the codec between a header map and wire pairs, with its
//!   round-trip laws.
//! - [`wire`]: the shapes that cross the host boundary.
//! - [`bridge`]: what a call through the host callback amounts to.
//! - [`direct`]: what a native client is asked to do.
//! - [`error`]: the one error type.
//! - [`grammar`]: header names and values as sequences.
//! - [`http_types`]: what is taken as given about the `http` and `url`
//!   crates.

pub mod bridge;
pub mod direct;
pub mod error;
pub mod grammar;
pub mod headers;
pub mod http_types;
pub mod model;
pub mod wire;

pub use error::FetcherError;
pub use http::{HeaderMap, HeaderName, Method};
pub use model::{Request, Response};
pub use url::Url;
