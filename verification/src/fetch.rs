//! The per-domain fetch: its request target and its possible outcomes.
//!
//! The HTTP GET itself is I/O and happens outside the library; what comes
//! back is classified into a [`FetchResult`] and handed to the dispatcher.
//! A response body is taken as a success whatever its HTTP status code: a
//! 404 page is persisted and counted like any other body.  That quirk is
//! kept deliberately, since changing it would change the success-rate
//! semantics of a run.

use vstd::prelude::*;

verus! {

/// The outcome of one fetch attempt.  Exactly one attempt is made per domain
/// per run: there are no retries.
pub enum FetchResult {
    /// The raw response bytes, written verbatim to disk on persist.
    Success(Vec<u8>),
    /// The fixed client-side deadline (connection plus full body read)
    /// elapsed first.
    Timeout,
    /// DNS failure, connection refused, TLS error, or an unparseable
    /// response.
    Transport,
}

impl FetchResult {
    /// The body carried by a successful fetch.
    pub open spec fn body(&self) -> Seq<u8>
        recommends
            self is Success,
    {
        match self {
            FetchResult::Success(b) => b@,
            _ => Seq::empty(),
        }
    }
}

/// The request target for one domain: `http://{domain}/.well-known/security.txt`.
pub fn security_txt_url(domain: &str) -> (url: String)
    ensures
        url@ == "http://"@ + domain@ + "/.well-known/security.txt"@,
{
    let mut url = String::from_str("http://");
    url.append(domain);
    url.append("/.well-known/security.txt");
    url
}

} // verus!
