use graphsync::api::{
    auth_header, base_url, endpoint, sync_events_url, graph_name, manifest_endpoint, response_outcome,
    ws_url, ApiError, ResponseOutcome,
};
use graphsync::device::{validate_api_url, validate_sync_folder, SetupError};

#[test]
fn base_url_trims() {
    assert_eq!(base_url(" https://api.example.com/ ").unwrap(), "https://api.example.com");
    assert_eq!(base_url("   "), Err(ApiError::NotConfigured));
    assert_eq!(base_url("///"), Err(ApiError::NotConfigured));
}

#[test]
fn endpoints() {
    assert_eq!(endpoint("https://a.b/", "/auth/device").unwrap(), "https://a.b/auth/device");
    assert_eq!(manifest_endpoint("https://a.b", "g1").unwrap(), "https://a.b/sync/manifest/g1");
    assert_eq!(endpoint("", "/x"), Err(ApiError::NotConfigured));
}

#[test]
fn bearer_header() {
    assert_eq!(auth_header(&Some("tok".into())).unwrap(), "Bearer tok");
    assert_eq!(auth_header(&None), Err(ApiError::MissingAuthToken));
}

#[test]
fn websocket_address() {
    assert_eq!(ws_url("https://sync.example.com", "dev1").unwrap(), "wss://sync.example.com/ws?device_id=dev1&protocol_version=1");
    assert_eq!(ws_url("http://localhost:8080/", "d").unwrap(), "ws://localhost:8080/ws?device_id=d&protocol_version=1");
    assert_eq!(ws_url("https://h:443", "d").unwrap(), "wss://h/ws?device_id=d&protocol_version=1");
    assert_eq!(ws_url("ftp://h", "d"), Err(ApiError::UnsupportedScheme));
    assert_eq!(ws_url("not a url", "d"), Err(ApiError::InvalidUrl));
    assert_eq!(ws_url("", "d"), Err(ApiError::NotConfigured));
}

#[test]
fn url_parts() {
    assert_eq!(ws_url("HTTPS://Example.com:8443/x", "d").unwrap(), "wss://example.com:8443/ws?device_id=d&protocol_version=1");
    assert_eq!(validate_api_url("nope"), Err(SetupError::InvalidApiUrl));
}

#[test]
fn graph_names() {
    assert_eq!(graph_name("/home/u/MyGraph"), "MyGraph");
    assert_eq!(graph_name("/"), "GraphSync Folder");
}

#[test]
fn response_statuses() {
    assert_eq!(response_outcome(200, false, false), ResponseOutcome::Success);
    assert_eq!(response_outcome(204, true, false), ResponseOutcome::Success);
    assert_eq!(response_outcome(404, true, false), ResponseOutcome::Empty);
    assert_eq!(response_outcome(404, false, false), ResponseOutcome::Failure);
    assert_eq!(response_outcome(401, false, true), ResponseOutcome::Reauthenticate);
    assert_eq!(response_outcome(401, false, false), ResponseOutcome::Failure);
    assert_eq!(response_outcome(500, true, true), ResponseOutcome::Failure);
}

#[test]
fn api_url_validation() {
    assert_eq!(validate_api_url("https://x.y"), Ok(()));
    assert_eq!(validate_api_url("http://x.y"), Ok(()));
    assert_eq!(validate_api_url("ws://x.y"), Err(SetupError::UnsupportedScheme));
    assert_eq!(validate_api_url("x.y"), Err(SetupError::InvalidApiUrl));
}

#[test]
fn folder_validation() {
    assert_eq!(validate_sync_folder("/a", true, true), Ok(()));
    assert_eq!(validate_sync_folder("a", true, true), Err(SetupError::FolderNotAbsolute));
    assert_eq!(validate_sync_folder("/a", false, false), Err(SetupError::FolderMissing));
    assert_eq!(validate_sync_folder("/a", true, false), Err(SetupError::FolderNotDirectory));
}

#[test]
fn events_address_is_encoded() {
    assert_eq!(sync_events_url("https://a.b/", "g 1", None).unwrap(), "https://a.b/sync/events?graph_id=g+1&protocol_version=1");
    assert_eq!(sync_events_url("https://a.b", "g", Some("c&d")).unwrap(), "https://a.b/sync/events?graph_id=g&protocol_version=1&cursor=c%26d");
    assert_eq!(sync_events_url("", "g", None), Err(ApiError::NotConfigured));
}

#[test]
fn blank_api_address_is_not_configured() {
    assert_eq!(base_url(" \t\n\u{3000}\u{a0}"), Err(ApiError::NotConfigured));
    assert_eq!(ws_url("\u{2003}\u{85}", "d"), Err(ApiError::NotConfigured));
    assert_eq!(base_url("\u{2003}https://h/\u{3000}").unwrap(), "https://h");
}
