//! The WebSocket tool's opening request, built with tungstenite from the
//! URL the tool was given.

use vstd::prelude::*;
use tungstenite::client::IntoClientRequest;
use tungstenite::handshake::client::Request;
use crate::args::{handshake_url, handshake_url_text, WsTarget};

verus! {

#[verifier::external_type_specification]
#[verifier::external_body]
#[verifier::reject_recursive_types(T)]
pub struct ExHttpRequest<T>(tungstenite::http::Request<T>);

#[verifier::external_type_specification]
#[verifier::external_body]
pub struct ExWsError(tungstenite::Error);

#[verifier::external_type_specification]
#[verifier::external_body]
pub struct ExUri(tungstenite::http::Uri);

/// The URI that http's parser makes of `url`.
pub uninterp spec fn uri_of(url: Seq<char>) -> tungstenite::http::Uri;

/// The URI a request is addressed to.
pub uninterp spec fn request_uri(req: Request) -> tungstenite::http::Uri;

/// Whether tungstenite makes an opening request of `url`: the text
/// parses as a URI that has a non-empty host.
pub uninterp spec fn ws_request_accepted(url: Seq<char>) -> bool;

/// `<&str as IntoClientRequest>::into_client_request`: the GET request
/// that opens a WebSocket at `url` (its key is random), or the error
/// when the URL does not parse or names no host. The request is
/// addressed to the URI parsed from `url`, as it is.
#[verifier::external_body]
fn into_client_request(url: &str) -> (r: Result<Request, tungstenite::Error>)
    ensures
        r is Ok == ws_request_accepted(url@),
        r matches Ok(req) ==> request_uri(req) == uri_of(url@),
{
    url.into_client_request()
}

/// Why the opening request could not be made.
#[derive(Debug)]
pub enum WsSetupError {
    /// The handshake URL was refused (tungstenite's reason).
    InvalidUrl(tungstenite::Error),
}

/// The opening request for a target: its handshake URL (scheme, host,
/// port, path) made into a request addressed to that URL.
pub fn opening_request(t: &WsTarget) -> (r: Result<Request, WsSetupError>)
    ensures
        r is Ok == ws_request_accepted(handshake_url_text(*t)),
        r matches Ok(req) ==> request_uri(req) == uri_of(handshake_url_text(*t)),
{
    let url = handshake_url(t);
    match into_client_request(url.as_str()) {
        Ok(req) => Ok(req),
        Err(e) => Err(WsSetupError::InvalidUrl(e)),
    }
}

} // verus!
