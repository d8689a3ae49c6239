//! The authenticated transport client: an opaque HTTP client handle bound
//! to one set of connection parameters, trusting exactly one pinned root
//! certificate, and carrying the derived authorization header by default.
use vstd::prelude::*;

verus! {

/// reqwest's client handle, opaque to verification; one handle exists per
/// installed set of connection parameters and is replaced wholesale on
/// rotation.
#[verifier::external_type_specification]
#[verifier::external_body]
pub struct ExClient(reqwest::Client);

/// Why building a client failed. Construction failures are fatal for one
/// reconciliation attempt only; the supervisor reports them and returns to
/// the disconnected state.
#[derive(Debug, Clone, Copy, PartialEq, Eq, Structural)]
pub enum ClientBuildError {
    /// The authorization header value was rejected.
    InvalidHeader,
    /// The pinned root certificate was rejected.
    InvalidCertificate,
    /// The transport could not be assembled.
    Build,
}

/// Relies on reqwest's `ClientBuilder`, `Certificate::from_pem` and http's
/// `HeaderValue::from_str`: builds an HTTPS-only client that trusts exactly
/// the given PEM root certificate (the built-in trust store is disabled)
/// and sends `auth_header` as its default `Authorization` header. Whether
/// construction succeeds depends on the TLS backend, so nothing is promised
/// of the outcome; callers handle every case.
#[verifier::external_body]
pub(crate) fn build_client(auth_header: &str, root_cert_pem: &[u8]) -> Result<
    reqwest::Client,
    ClientBuildError,
> {
    let auth = match reqwest::header::HeaderValue::from_str(auth_header) {
        Ok(v) => v,
        Err(_) => return Err(ClientBuildError::InvalidHeader),
    };
    let cert = match reqwest::Certificate::from_pem(root_cert_pem) {
        Ok(c) => c,
        Err(_) => return Err(ClientBuildError::InvalidCertificate),
    };
    let headers = reqwest::header::HeaderMap::from_iter([(reqwest::header::AUTHORIZATION, auth)]);
    match reqwest::ClientBuilder::new().https_only(true).tls_built_in_root_certs(
        false,
    ).add_root_certificate(cert).default_headers(headers).build() {
        Ok(c) => Ok(c),
        Err(_) => Err(ClientBuildError::Build),
    }
}

} // verus!
