//! URLs of the upstream services: validation, and moving a request URL onto
//! another service's scheme, host and port.
use vstd::prelude::*;

verus! {

#[verifier::external_type_specification]
#[verifier::external_body]
pub struct ExUrl(url::Url);

#[verifier::external_type_specification]
#[verifier::external_body]
pub struct ExParseError(url::ParseError);

/// Whether a text parses as an absolute URL.
pub uninterp spec fn url_parses(s: Seq<char>) -> bool;

/// Why a URL could not be moved onto an endpoint.
#[derive(PartialEq, Eq, Structural, Clone, Copy, Debug)]
pub enum EndpointError {
    /// The URL to move does not parse.
    InvalidUrl,
    /// The endpoint does not parse.
    InvalidEndpoint,
    /// The URL cannot take the endpoint's scheme.
    SchemeRejected,
    /// The endpoint has no host.
    MissingHost,
    /// The URL cannot take the endpoint's host.
    HostRejected,
    /// The URL cannot take the endpoint's port.
    PortRejected,
}

impl EndpointError {
    /// A short description of the error.
    pub fn message(&self) -> (r: String)
        ensures
            r@ == match *self {
                EndpointError::InvalidUrl => "Invalid URL"@,
                EndpointError::InvalidEndpoint => "Invalid endpoint"@,
                EndpointError::SchemeRejected => "Failed to set scheme"@,
                EndpointError::MissingHost => "No host in endpoint"@,
                EndpointError::HostRejected => "Failed to set host"@,
                EndpointError::PortRejected => "Failed to set port"@,
            },
    {
        match self {
            EndpointError::InvalidUrl => String::from_str("Invalid URL"),
            EndpointError::InvalidEndpoint => String::from_str("Invalid endpoint"),
            EndpointError::SchemeRejected => String::from_str("Failed to set scheme"),
            EndpointError::MissingHost => String::from_str("No host in endpoint"),
            EndpointError::HostRejected => String::from_str("Failed to set host"),
            EndpointError::PortRejected => String::from_str("Failed to set port"),
        }
    }
}

/// Relies on url::Url::parse: parsing depends on the text alone.
#[verifier::external_body]
fn parse_url(s: &str) -> (r: Result<url::Url, url::ParseError>)
    ensures
        r is Ok <==> url_parses(s@),
{
    url::Url::parse(s)
}

/// The scheme of the URL that a text parses as.
pub uninterp spec fn url_scheme_of(s: Seq<char>) -> Seq<char>;

/// The host of the URL that a text parses as, if it has one.
pub uninterp spec fn url_host_of(s: Seq<char>) -> Option<Seq<char>>;

/// The explicit port of the URL that a text parses as, if it names one.
pub uninterp spec fn url_port_of(s: Seq<char>) -> Option<u16>;

/// What moving a URL onto an endpoint reads of the endpoint.
pub struct UrlParts {
    pub scheme: String,
    pub host: Option<String>,
    pub port: Option<u16>,
}

/// Relies on url::Url::parse with url::Url::scheme, url::Url::host_str and
/// url::Url::port: each depends on the parsed text alone. The scheme is
/// lower case without `:`; the port is `None` where the text names none or
/// names its scheme's default.
#[verifier::external_body]
fn url_parts(s: &str) -> (r: Result<UrlParts, url::ParseError>)
    ensures
        r is Ok <==> url_parses(s@),
        r matches Ok(p) ==> p.scheme@ == url_scheme_of(s@) && match p.host {
            Some(h) => url_host_of(s@) == Some(h@),
            None => url_host_of(s@) is None,
        } && p.port == url_port_of(s@),
{
    let u = url::Url::parse(s)?;
    Ok(
        UrlParts {
            scheme: u.scheme().to_string(),
            host: u.host_str().map(String::from),
            port: u.port(),
        },
    )
}

/// Relies on url::Url::set_scheme: changes the scheme, or leaves the URL
/// as it was and fails.
#[verifier::external_body]
fn url_set_scheme(u: &mut url::Url, scheme: &str) -> Result<(), ()> {
    u.set_scheme(scheme)
}

/// Relies on url::Url::set_host: changes the host, or fails.
#[verifier::external_body]
fn url_set_host(u: &mut url::Url, host: &str) -> Result<(), url::ParseError> {
    u.set_host(Some(host))
}

/// Relies on url::Url::set_port: sets the port, or fails.
#[verifier::external_body]
fn url_set_port(u: &mut url::Url, port: u16) -> Result<(), ()> {
    u.set_port(Some(port))
}

/// Relies on url::Url::as_str: the URL's serialization.
#[verifier::external_body]
fn url_text(u: &url::Url) -> String {
    u.as_str().to_string()
}

/// Accepts `url` as it was given when it parses as a URL.
pub fn validate_url(url: &str) -> (r: Result<String, String>)
    ensures
        match r {
            Ok(s) => url_parses(url@) && s@ == url@,
            Err(e) => !url_parses(url@) && e@ == "Invalid URL"@,
        },
{
    match parse_url(url) {
        Ok(_) => Ok(url.to_owned()),
        Err(_) => Err(String::from_str("Invalid URL")),
    }
}

/// The longest URL text, in characters, that moving onto an endpoint takes:
/// far below the size at which the url crate's `u32` positions overflow.
pub const MAX_URL_CHARS: usize = 0x1000_0000;

/// Moves `url` onto `endpoint`: the result is `url` with the scheme and the
/// host of `endpoint`, and its port too where `endpoint` names one. Path,
/// query and fragment stay those of `url`.
pub fn convert_to_custom_endpoint(url: &str, endpoint: &str) -> (r: Result<String, EndpointError>)
    requires
        url@.len() <= MAX_URL_CHARS,
        endpoint@.len() <= MAX_URL_CHARS,
    ensures
        !url_parses(url@) ==> r == Err::<String, EndpointError>(EndpointError::InvalidUrl),
        url_parses(url@) && !url_parses(endpoint@) ==> r == Err::<String, EndpointError>(
            EndpointError::InvalidEndpoint,
        ),
        url_parses(url@) && url_parses(endpoint@) && url_host_of(endpoint@) is None ==> r is Err,
        r == Err::<String, EndpointError>(EndpointError::MissingHost) ==> url_host_of(endpoint@) is None,
        r == Err::<String, EndpointError>(EndpointError::PortRejected) ==> url_port_of(endpoint@) is Some,
        r is Ok ==> url_parses(url@) && url_parses(endpoint@) && url_host_of(endpoint@) is Some,
{
    let mut new_url = match parse_url(url) {
        Ok(u) => u,
        Err(_) => return Err(EndpointError::InvalidUrl),
    };
    let parts = match url_parts(endpoint) {
        Ok(p) => p,
        Err(_) => return Err(EndpointError::InvalidEndpoint),
    };
    if url_set_scheme(&mut new_url, parts.scheme.as_str()).is_err() {
        return Err(EndpointError::SchemeRejected);
    }
    let host = match parts.host {
        Some(h) => h,
        None => return Err(EndpointError::MissingHost),
    };
    if url_set_host(&mut new_url, host.as_str()).is_err() {
        return Err(EndpointError::HostRejected);
    }
    match parts.port {
        Some(port) => {
            if url_set_port(&mut new_url, port).is_err() {
                return Err(EndpointError::PortRejected);
            }
        },
        None => {},
    }
    Ok(url_text(&new_url))
}

} // verus!
