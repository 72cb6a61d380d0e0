//! Outside types the library carries, and the one outside call it makes.
use vstd::prelude::*;

verus! {

/// The HTTP client of the `reqwest` crate, kept by a chain for the calls
/// the caller makes on its behalf.
#[verifier::external_type_specification]
#[verifier::external_body]
pub struct ExClient(reqwest::Client);

/// The error that `reqwest` reports when a client cannot be built.
#[verifier::external_type_specification]
#[verifier::external_body]
pub struct ExReqwestError(reqwest::Error);

/// A JSON value of the `serde_json` crate: a page's frontmatter, carried
/// through the chain without being read.
#[verifier::external_type_specification]
#[verifier::external_body]
pub struct ExJsonValue(serde_json::Value);

/// `Clone` of `reqwest::Client`: the copy shares the original's connection
/// pool (the client is a reference-counted handle). Nothing is stated of
/// the copy, which the library only hands on.
pub assume_specification[ <reqwest::Client as Clone>::clone ](client: &reqwest::Client) -> reqwest::Client;

/// Builds an HTTP client with `reqwest::Client::builder()` and
/// `reqwest::ClientBuilder::build` in its default configuration (TLS
/// through rustls with the bundled web PKI roots). The builder reports an
/// error when the TLS set-up fails or the configuration holds one; nothing
/// is stated of which of the two outcomes comes back.
#[verifier::external_body]
pub(crate) fn build_http_client() -> (r: Result<reqwest::Client, reqwest::Error>) {
    reqwest::Client::builder().build()
}

} // verus!
