//! Tells when responses can be reused from a cache, taking into account
//! [HTTP RFC 7234](http://httpwg.org/specs/rfc7234.html) rules for user agents and shared caches.
//! It's aware of many tricky details such as the `Vary` header, proxy revalidation, and
//! authenticated responses.
//!
//! A [`CachePolicy`] is made from a request and the response to it. What it decides is stated over
//! its view, a [`model::PolicyModel`]: when the response can be stored, how old it is and how long
//! it is fresh, for which requests it can be reused, which fields are passed on, and how a stale
//! response is revalidated. The laws that these decisions keep stand in [`laws`].

pub mod dates;
pub mod directives;
pub mod fields;
pub mod forwarding;
pub mod heuristic;
pub mod laws;
pub mod message;
pub mod model;
pub mod options;
pub mod policy;
pub mod text;
pub mod time;
pub mod updating;

pub use crate::heuristic::Fraction;
pub use crate::message::{RequestLike, RequestParts, ResponseLike, ResponseParts};
pub use crate::model::Dates;
pub use crate::options::CachePolicyOptions;
pub use crate::policy::{CachePolicy, RevalidatedPolicy};
pub use crate::time::{Duration, SystemTime};
