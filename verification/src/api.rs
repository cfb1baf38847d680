//! What the client sends to the coordination API: addresses of the endpoints,
//! the authorization header, the WebSocket address, and how responses are read.
use vstd::prelude::*;

use crate::config::{clean_api_url_text, PROTOCOL_VERSION};
use crate::paths::file_name;
use crate::text::{chars_of, push_decimal, push_str, str_eq, string_from_chars};

verus! {

/// Why a request could not be formed.
#[derive(Debug, Clone, Copy, PartialEq, Eq, Structural)]
pub enum ApiError {
    /// No API address is configured.
    NotConfigured,
    /// No authentication token is held yet.
    MissingAuthToken,
    /// The API address does not parse as a URL.
    InvalidUrl,
    /// The API address uses a scheme other than `http` or `https`.
    UnsupportedScheme,
    /// The API address has no host.
    MissingHost,
}

/// The token the API issues for a device.
#[derive(Debug)]
pub struct AuthResponse {
    pub token: String,
    pub device_id: String,
    pub protocol_version: u32,
}

/// A sync graph the API registered for a folder.
#[derive(Debug)]
pub struct GraphRegistration {
    pub graph_id: String,
    pub name: String,
}

/// The parts of a URL the client reads: the scheme, the host, and the port when
/// it is not the scheme's default.
#[derive(Debug)]
pub struct UrlParts {
    pub scheme: String,
    pub host: Option<String>,
    pub port: Option<u16>,
}

/// How `url::Url::parse` reads a text: `None` when it does not parse, else
/// its scheme, host and explicit port.
pub uninterp spec fn parsed_url(s: Seq<char>) -> Option<(Seq<char>, Option<Seq<char>>, Option<u16>)>;

/// The view of parsed URL parts.
pub open spec fn url_parts_view(u: UrlParts) -> (Seq<char>, Option<Seq<char>>, Option<u16>) {
    (
        u.scheme@,
        match u.host {
            Some(h) => Some(h@),
            None => None,
        },
        u.port,
    )
}

/// Parses a URL through `url::Url::parse` and reads its `scheme`, `host_str`
/// and `port`. Trusted: the result is what `parsed_url` names for the text.
#[verifier::external_body]
pub(crate) fn parse_url(s: &str) -> (r: Option<UrlParts>)
    ensures
        match r {
            Some(u) => parsed_url(s@) == Some(url_parts_view(u)),
            None => parsed_url(s@) is None,
        },
{
    url::Url::parse(s).ok().map(
        |u| UrlParts {
            scheme: u.scheme().to_owned(),
            host: u.host_str().map(|h| h.to_owned()),
            port: u.port(),
        },
    )
}

/// The base address of the API: the configured address, trimmed and without
/// trailing `/`; refused when nothing is left.
pub open spec fn base_url_of(api_url: Seq<char>) -> Result<Seq<char>, ApiError> {
    let c = crate::config::clean_api_url(api_url);
    if c.len() == 0 {
        Err(ApiError::NotConfigured)
    } else {
        Ok(c)
    }
}

/// The base address of the API, or `NotConfigured` when there is none.
pub fn base_url(api_url: &str) -> (r: Result<String, ApiError>)
    ensures
        crate::paths::result_view(r) == base_url_of(api_url@),
{
    let c = clean_api_url_text(api_url);
    if c.as_str().is_empty() {
        Err(ApiError::NotConfigured)
    } else {
        Ok(c)
    }
}

/// An API address of nothing but white space counts as not configured: no
/// endpoint address and no WebSocket address is formed from it.
pub proof fn lemma_blank_api_url_not_configured(api_url: Seq<char>, route: Seq<char>, device_id: Seq<char>)
    requires
        forall|i: int| 0 <= i < api_url.len() ==> crate::config::is_white_space(#[trigger] api_url[i]),
    ensures
        base_url_of(api_url) == Err::<Seq<char>, ApiError>(ApiError::NotConfigured),
        endpoint_of(api_url, route) == Err::<Seq<char>, ApiError>(ApiError::NotConfigured),
        ws_url_of(api_url, device_id) == Err::<Seq<char>, ApiError>(ApiError::NotConfigured),
{
    crate::config::lemma_blank_trims_to_nothing(api_url);
}

/// The address of an API route: the base address followed by the route.
pub open spec fn endpoint_of(api_url: Seq<char>, route: Seq<char>) -> Result<Seq<char>, ApiError> {
    match base_url_of(api_url) {
        Ok(b) => Ok(b + route),
        Err(e) => Err(e),
    }
}

/// The address of an API route such as `/auth/device`.
pub fn endpoint(api_url: &str, route: &str) -> (r: Result<String, ApiError>)
    ensures
        crate::paths::result_view(r) == endpoint_of(api_url@, route@),
{
    match base_url(api_url) {
        Ok(b) => {
            let mut v = chars_of(b.as_str());
            push_str(&mut v, route);
            Ok(string_from_chars(v.as_slice()))
        },
        Err(e) => Err(e),
    }
}

/// The address of the manifest of a graph: `/sync/manifest/<graph_id>`.
pub fn manifest_endpoint(api_url: &str, graph_id: &str) -> (r: Result<String, ApiError>)
    ensures
        crate::paths::result_view(r) == endpoint_of(api_url@, "/sync/manifest/"@ + graph_id@),
{
    match base_url(api_url) {
        Ok(b) => {
            let mut v = chars_of(b.as_str());
            push_str(&mut v, "/sync/manifest/");
            push_str(&mut v, graph_id);
            assert(v@ =~= b@ + ("/sync/manifest/"@ + graph_id@));
            Ok(string_from_chars(v.as_slice()))
        },
        Err(e) => Err(e),
    }
}

/// The text of a URL with query pairs appended (what `url::Url::parse`
/// followed by `query_pairs_mut().extend_pairs` with the pairs, in order, and
/// `to_string` give); `None` when the base does not parse.
pub uninterp spec fn url_with_query(base: Seq<char>, pairs: Seq<(Seq<char>, Seq<char>)>) -> Option<Seq<char>>;

/// The views of query pairs.
pub open spec fn pair_views(pairs: Seq<(String, String)>) -> Seq<(Seq<char>, Seq<char>)> {
    pairs.map_values(|p: (String, String)| (p.0@, p.1@))
}

/// Appends query pairs to a URL through `url::Url::parse` and
/// `query_pairs_mut().extend_pairs`, which percent-encode them. Trusted: the
/// result is what `url_with_query` names for the base and the pairs.
#[verifier::external_body]
fn append_query(base: &str, pairs: &Vec<(String, String)>) -> (r: Option<String>)
    ensures
        match r {
            Some(u) => url_with_query(base@, pair_views(pairs@)) == Some(u@),
            None => url_with_query(base@, pair_views(pairs@)) is None,
        },
{
    match url::Url::parse(base) {
        Ok(mut url) => {
            url.query_pairs_mut().extend_pairs(pairs.iter());
            Some(url.to_string())
        },
        Err(_) => None,
    }
}

/// The query of an events request: the graph, the protocol version, and the
/// cursor when one is given.
pub open spec fn events_query(graph_id: Seq<char>, cursor: Option<Seq<char>>) -> Seq<(Seq<char>, Seq<char>)> {
    let base = seq![
        ("graph_id"@, graph_id),
        ("protocol_version"@, crate::text::decimal(PROTOCOL_VERSION as nat)),
    ];
    match cursor {
        Some(c) => base.push(("cursor"@, c)),
        None => base,
    }
}

/// The address that lists the sync events of a graph:
/// `/sync/events?graph_id=<id>&protocol_version=<version>[&cursor=<cursor>]`.
pub open spec fn events_url_of(api_url: Seq<char>, graph_id: Seq<char>, cursor: Option<Seq<char>>) -> Result<
    Seq<char>,
    ApiError,
> {
    match endpoint_of(api_url, "/sync/events"@) {
        Err(e) => Err(e),
        Ok(base) => match url_with_query(base, events_query(graph_id, cursor)) {
            Some(u) => Ok(u),
            None => Err(ApiError::InvalidUrl),
        },
    }
}

/// The address that lists the sync events of a graph (see `events_url_of`).
pub fn sync_events_url(api_url: &str, graph_id: &str, cursor: Option<&str>) -> (r: Result<String, ApiError>)
    ensures
        crate::paths::result_view(r) == events_url_of(
            api_url@,
            graph_id@,
            match cursor {
                Some(c) => Some(c@),
                None => None,
            },
        ),
{
    let base = match endpoint(api_url, "/sync/events") {
        Ok(b) => b,
        Err(e) => return Err(e),
    };
    let mut version: Vec<char> = Vec::new();
    push_decimal(&mut version, PROTOCOL_VERSION as u64);
    let mut pairs: Vec<(String, String)> = Vec::new();
    pairs.push(("graph_id".to_owned(), graph_id.to_owned()));
    pairs.push(("protocol_version".to_owned(), string_from_chars(version.as_slice())));
    match cursor {
        Some(c) => pairs.push(("cursor".to_owned(), c.to_owned())),
        None => {},
    }
    let ghost c = match cursor {
        Some(c) => Some(c@),
        None => None,
    };
    assert(pair_views(pairs@) =~= events_query(graph_id@, c));
    match append_query(base.as_str(), &pairs) {
        Some(u) => Ok(u),
        None => Err(ApiError::InvalidUrl),
    }
}

/// The authorization header for a held token: `Bearer <token>`.
pub fn auth_header(token: &Option<String>) -> (r: Result<String, ApiError>)
    ensures
        match token {
            Some(t) => crate::paths::result_view(r) == Ok::<Seq<char>, ApiError>("Bearer "@ + t@),
            None => r == Err::<String, ApiError>(ApiError::MissingAuthToken),
        },
{
    match token {
        Some(t) => {
            let mut v = chars_of("Bearer ");
            push_str(&mut v, t.as_str());
            Ok(string_from_chars(v.as_slice()))
        },
        None => Err(ApiError::MissingAuthToken),
    }
}

/// The WebSocket address for a device, given how the API base address parses:
/// `wss` for an `https` API, `ws` for an `http` one, the API host and explicit
/// port, then `/ws?device_id=<id>&protocol_version=<version>`.
pub open spec fn ws_url_from(
    parsed: Option<(Seq<char>, Option<Seq<char>>, Option<u16>)>,
    device_id: Seq<char>,
) -> Result<Seq<char>, ApiError> {
    match parsed {
        None => Err(ApiError::InvalidUrl),
        Some((scheme, host, port)) => if scheme != "https"@ && scheme != "http"@ {
            Err(ApiError::UnsupportedScheme)
        } else {
            match host {
                None => Err(ApiError::MissingHost),
                Some(h) => {
                    let ws = if scheme == "https"@ {
                        "wss"@
                    } else {
                        "ws"@
                    };
                    let authority = match port {
                        Some(p) => h + ":"@ + crate::text::decimal(p as nat),
                        None => h,
                    };
                    Ok(ws + "://"@ + authority + "/ws?device_id="@ + device_id + "&protocol_version="@
                        + crate::text::decimal(PROTOCOL_VERSION as nat))
                },
            }
        },
    }
}

/// The WebSocket address for a configured API address and a device.
pub open spec fn ws_url_of(api_url: Seq<char>, device_id: Seq<char>) -> Result<Seq<char>, ApiError> {
    match base_url_of(api_url) {
        Err(e) => Err(e),
        Ok(base) => ws_url_from(parsed_url(base), device_id),
    }
}

/// The WebSocket address for a device, given the parts of the parsed API base
/// address (see `ws_url_from`).
pub fn ws_url_from_parts(parts: &Option<UrlParts>, device_id: &str) -> (r: Result<String, ApiError>)
    ensures
        crate::paths::result_view(r) == ws_url_from(
            match parts {
                Some(u) => Some(url_parts_view(*u)),
                None => None,
            },
            device_id@,
        ),
{
    let parts = match parts {
        Some(p) => p,
        None => return Err(ApiError::InvalidUrl),
    };
    let secure = str_eq(parts.scheme.as_str(), "https");
    let plain = str_eq(parts.scheme.as_str(), "http");
    if !secure && !plain {
        return Err(ApiError::UnsupportedScheme);
    }
    let host = match &parts.host {
        Some(h) => h,
        None => return Err(ApiError::MissingHost),
    };
    let mut v: Vec<char> = Vec::new();
    if secure {
        push_str(&mut v, "wss");
    } else {
        push_str(&mut v, "ws");
    }
    push_str(&mut v, "://");
    push_str(&mut v, host.as_str());
    match parts.port {
        Some(p) => {
            push_str(&mut v, ":");
            push_decimal(&mut v, p as u64);
        },
        None => {},
    }
    push_str(&mut v, "/ws?device_id=");
    push_str(&mut v, device_id);
    push_str(&mut v, "&protocol_version=");
    push_decimal(&mut v, PROTOCOL_VERSION as u64);
    let ghost authority = match parts.port {
        Some(p) => host@ + ":"@ + crate::text::decimal(p as nat),
        None => host@,
    };
    let ghost ws = if secure {
        "wss"@
    } else {
        "ws"@
    };
    assert(v@ =~= ws + "://"@ + authority + "/ws?device_id="@ + device_id@ + "&protocol_version="@
        + crate::text::decimal(PROTOCOL_VERSION as nat));
    Ok(string_from_chars(v.as_slice()))
}

/// The WebSocket address on which the API pushes events to this device.
pub fn ws_url(api_url: &str, device_id: &str) -> (r: Result<String, ApiError>)
    ensures
        crate::paths::result_view(r) == ws_url_of(api_url@, device_id@),
{
    let base = match base_url(api_url) {
        Ok(b) => b,
        Err(e) => return Err(e),
    };
    let parts = parse_url(base.as_str());
    ws_url_from_parts(&parts, device_id)
}

/// The name a graph is registered under: the folder's last component, or
/// `GraphSync Folder` when it has none.
pub fn graph_name(folder: &str) -> (r: String)
    ensures
        match crate::paths::file_name_of(folder@) {
            Some(n) => r@ == n,
            None => r@ == "GraphSync Folder"@,
        },
{
    match file_name(folder) {
        Some(n) => n,
        None => "GraphSync Folder".to_owned(),
    }
}

/// How the client reads an API response.
#[derive(Debug, Clone, Copy, PartialEq, Eq, Structural)]
pub enum ResponseOutcome {
    /// A success status: the body is read.
    Success,
    /// Not found on a listing route: read as an empty list.
    Empty,
    /// Unauthorized on device registration: authenticate again and retry.
    Reauthenticate,
    /// Any other status: the request failed.
    Failure,
}

/// How a response status is read. Listing routes read `404` as an empty list;
/// device registration answers `401` by authenticating again.
pub open spec fn outcome_of(status: u16, listing: bool, registration: bool) -> ResponseOutcome {
    if registration && status == 401 {
        ResponseOutcome::Reauthenticate
    } else if listing && status == 404 {
        ResponseOutcome::Empty
    } else if 200 <= status <= 299 {
        ResponseOutcome::Success
    } else {
        ResponseOutcome::Failure
    }
}

/// How a response status is read (see `outcome_of`).
pub fn response_outcome(status: u16, listing: bool, registration: bool) -> (r: ResponseOutcome)
    ensures
        r == outcome_of(status, listing, registration),
{
    if registration && status == 401 {
        ResponseOutcome::Reauthenticate
    } else if listing && status == 404 {
        ResponseOutcome::Empty
    } else if 200 <= status && status <= 299 {
        ResponseOutcome::Success
    } else {
        ResponseOutcome::Failure
    }
}

/// How every response status reads. A status from 200 to 299 is a success.
/// Only `404` on a listing route reads as an empty list, and only `401` on
/// device registration asks to authenticate again; every other status outside
/// 200 to 299 (an unauthorized listing among them) is a failure.
pub proof fn lemma_response_statuses(status: u16, listing: bool, registration: bool)
    ensures
        (outcome_of(status, listing, registration) == ResponseOutcome::Success) <==> (200 <= status
            <= 299),
        (outcome_of(status, listing, registration) == ResponseOutcome::Empty) <==> (listing && status
            == 404),
        (outcome_of(status, listing, registration) == ResponseOutcome::Reauthenticate) <==> (
        registration && status == 401),
        (outcome_of(status, listing, registration) == ResponseOutcome::Failure) <==> (!(200 <= status
            <= 299) && !(listing && status == 404) && !(registration && status == 401)),
{
}

} // verus!
