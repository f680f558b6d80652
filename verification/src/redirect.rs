//! The plaintext-to-TLS redirect.
//!
//! The plaintext listener answers every request with a permanent redirect
//! to the same host and path-and-query under the secure scheme. A request
//! whose Host header is not a well-formed authority cannot name a
//! redirect target and is answered with a bad-request status instead.

use vstd::prelude::*;

verus! {

/// Whether a Host header value is a well-formed URI authority: the
/// verdict of http's authority parser, a pure function of the
/// characters of the value.
pub uninterp spec fn authority_ok(s: Seq<char>) -> bool;

/// Relies on `Authority::from_str` of the http crate (re-exported by
/// axum): its verdict depends on the characters of the input alone, and
/// it returns an error rather than panicking on malformed input.
#[verifier::external_body]
fn host_is_authority(host: &str) -> (r: bool)
    ensures
        r == authority_ok(host@),
{
    host.parse::<axum::http::uri::Authority>().is_ok()
}

/// The absolute secure URL a plaintext request is redirected to: the
/// `https` scheme, the request's own host, and its path-and-query,
/// defaulting to `/` when the request URI has none.
pub open spec fn https_url(host: Seq<char>, path_query: Option<Seq<char>>) -> Seq<char> {
    seq!['h', 't', 't', 'p', 's', ':', '/', '/'] + host + (match path_query {
        Some(pq) => pq,
        None => seq!['/'],
    })
}

/// Build the permanent-redirect target for a plaintext request.
/// Returns `None` exactly when the Host header value is not a
/// well-formed authority; the caller answers that with a bad-request
/// status, never with a crash.
pub fn https_redirect_url(host: &str, path_and_query: Option<&str>) -> (r: Option<String>)
    ensures
        match r {
            Some(url) => authority_ok(host@) && url@ == https_url(
                host@,
                crate::rewrite::opt_view(path_and_query),
            ),
            None => !authority_ok(host@),
        },
{
    if !host_is_authority(host) {
        return None;
    }
    let prefix: String = "https://".to_owned();
    proof {
        reveal_strlit("https://");
        assert(prefix@ =~= seq!['h', 't', 't', 'p', 's', ':', '/', '/']);
    }
    let with_host = prefix.concat(host);
    match path_and_query {
        Some(pq) => Some(with_host.concat(pq)),
        None => {
            proof {
                reveal_strlit("/");
                assert("/"@ =~= seq!['/']);
            }
            Some(with_host.concat("/"))
        },
    }
}

} // verus!
