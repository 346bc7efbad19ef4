//! Requests and responses, as far as a cache reads them.

use http::HeaderMap;
use vstd::prelude::*;

use crate::fields;
use crate::fields::Fields;
use crate::text;

verus! {

/// Whether two texts both write a URI, and write the same one.
pub uninterp spec fn uris_equal(a: Seq<char>, b: Seq<char>) -> bool;

/// `Uri::eq`, on the URIs that two texts write (`Uri::from_str`). The result depends on the texts
/// alone, and is `false` where one of them writes no URI.
#[verifier::external_body]
pub(crate) fn same_uri(a: &str, b: &str) -> (r: bool)
    ensures
        r == uris_equal(a@, b@),
{
    match (a.parse::<http::Uri>(), b.parse::<http::Uri>()) {
        (Ok(a), Ok(b)) => a == b,
        _ => false,
    }
}

/// What a cache reads of a request, besides the answers of [`RequestLike::is_same_uri`].
pub struct RequestModel {
    /// The method.
    pub method: Seq<char>,
    /// The URI.
    pub uri: Seq<char>,
    /// The header fields.
    pub fields: Fields,
}

/// What a cache reads of a response.
pub struct ResponseModel {
    /// The status code.
    pub status: u16,
    /// The header fields.
    pub fields: Fields,
}

/// Allows using any type of request.
pub trait RequestLike {
    /// What a cache reads of the request: what the other methods return.
    open spec fn model(&self) -> RequestModel {
        arbitrary()
    }

    /// What [`RequestLike::is_same_uri`] answers.
    open spec fn has_uri(&self, other: Seq<char>) -> bool {
        self.model().uri == other || uris_equal(self.model().uri, other)
    }

    /// The URI of the request
    fn uri(&self) -> (r: String)
        ensures
            r@ == self.model().uri,
    ;

    /// Whether the effective request URI matches the other URI
    ///
    /// It can be naive string comparison, nothing fancy
    fn is_same_uri(&self, other: &str) -> (r: bool)
        ensures
            r == self.has_uri(other@),
    ;

    /// The method of the request
    fn method(&self) -> (r: &str)
        ensures
            r@ == self.model().method,
    ;

    /// The header fields of the request
    fn headers(&self) -> (r: &HeaderMap)
        ensures
            fields::fields_of(*r) == self.model().fields,
    ;
}

/// Allows using any type of response.
pub trait ResponseLike {
    /// What a cache reads of the response: what the other methods return.
    open spec fn model(&self) -> ResponseModel {
        arbitrary()
    }

    /// The status code of the response
    fn status(&self) -> (r: u16)
        ensures
            r == self.model().status,
    ;

    /// The header fields of the response
    fn headers(&self) -> (r: &HeaderMap)
        ensures
            fields::fields_of(*r) == self.model().fields,
    ;
}

/// The parts of a request without its body.
#[derive(Debug)]
pub struct RequestParts {
    /// The method.
    pub method: String,
    /// The URI.
    pub uri: String,
    /// The header fields.
    pub headers: HeaderMap,
}

/// The parts of a response without its body.
#[derive(Debug)]
pub struct ResponseParts {
    /// The status code.
    pub status: u16,
    /// The header fields.
    pub headers: HeaderMap,
}

impl RequestLike for RequestParts {
    open spec fn model(&self) -> RequestModel {
        RequestModel {
            method: self.method@,
            uri: self.uri@,
            fields: fields::fields_of(self.headers),
        }
    }

    open spec fn has_uri(&self, other: Seq<char>) -> bool {
        self.uri@ == other || uris_equal(self.uri@, other)
    }

    fn uri(&self) -> String {
        self.uri.clone()
    }

    fn is_same_uri(&self, other: &str) -> bool {
        text::text_equal(self.uri.as_str(), other) || same_uri(self.uri.as_str(), other)
    }

    fn method(&self) -> &str {
        self.method.as_str()
    }

    fn headers(&self) -> &HeaderMap {
        &self.headers
    }
}

impl ResponseLike for ResponseParts {
    open spec fn model(&self) -> ResponseModel {
        ResponseModel { status: self.status, fields: fields::fields_of(self.headers) }
    }

    fn status(&self) -> u16 {
        self.status
    }

    fn headers(&self) -> &HeaderMap {
        &self.headers
    }
}

} // verus!
