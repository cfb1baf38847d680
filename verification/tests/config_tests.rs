use graphsync::device::SetupError;
use graphsync::config::{
    clean_api_url_text, config_path, default_enabled, default_protocol_version, default_stun,
    device_name_or_default, public_config, state_path, Config, TurnServer,
    PROTOCOL_VERSION,
};

#[test]
fn defaults() {
    assert!(default_enabled());
    assert_eq!(default_protocol_version(), 1);
    assert_eq!(default_stun(), vec!["stun:stun.l.google.com:19302".to_string()]);
    let c = Config::default();
    assert_eq!(c.device_id.len(), 36);
    assert_eq!(c.api_url, "");
    assert!(c.enabled && !c.paused && !c.setup_complete);
    assert_eq!(c.protocol_version, PROTOCOL_VERSION);
    assert!(c.turn_servers.is_empty());
    assert!(c.auth_token.is_none() && c.graph_id.is_none() && c.sync_folder.is_none());
}

#[test]
fn fresh_ids_differ() {
    let a = Config::default().device_id;
    let b = Config::default().device_id;
    assert_eq!(a.len(), 36);
    assert_ne!(a, b);
}

#[test]
fn device_name_fallback() {
    assert_eq!(device_name_or_default(Some("laptop".into())), "laptop");
    assert_eq!(device_name_or_default(None), "GraphSync Device");
}

#[test]
fn config_and_state_files() {
    assert_eq!(config_path("/data/GraphSync"), "/data/GraphSync/config.json");
    assert_eq!(state_path("/data/GraphSync/"), "/data/GraphSync/sync_state.json");
}

#[test]
fn api_url_is_cleaned() {
    assert_eq!(clean_api_url_text("  x \n"), "x");
    assert_eq!(clean_api_url_text("  https://sync.example.com//  "), "https://sync.example.com");
    let mut c = Config::with_identity("id".into(), "dev".into());
    c.apply_setup(" https://api.example.com/ ", "/home/u/g".into(), "Laptop".into());
    assert_eq!(c.api_url, "https://api.example.com");
    assert_eq!(c.sync_folder.as_deref(), Some("/home/u/g"));
    assert_eq!(c.device_name, "Laptop");
    assert!(c.setup_complete && c.enabled);
    c.set_api_url("http://h:8080/");
    assert_eq!(c.api_url, "http://h:8080");
}

#[test]
fn loaded_config_identity_filled() {
    let mut c = Config::with_identity(String::new(), String::new());
    c.api_url = "https://a".into();
    let c = c.complete_loaded();
    assert_eq!(c.device_id.len(), 36);
    assert_eq!(c.api_url, "https://a");
    let c2 = Config::with_identity("keep".into(), "name".into()).with_identity_filled("new".into(), "host".into());
    assert_eq!(c2.device_id, "keep");
    assert_eq!(c2.device_name, "name");
    let c3 = Config::with_identity(String::new(), String::new()).with_identity_filled("new".into(), "host".into());
    assert_eq!(c3.device_id, "new");
    assert_eq!(c3.device_name, "host");
}

#[test]
fn reset_identity_forgets_graph_and_token() {
    let mut c = Config::with_identity("old".into(), "dev".into());
    c.graph_id = Some("g".into());
    c.auth_token = Some("t".into());
    c.setup_complete = true;
    c.api_url = "https://a".into();
    c.reset_identity();
    assert_ne!(c.device_id, "old");
    assert_eq!(c.device_id.len(), 36);
    assert!(c.graph_id.is_none() && c.auth_token.is_none() && !c.setup_complete);
    assert_eq!(c.api_url, "https://a");
}

#[test]
fn public_config_hides_token() {
    let mut c = Config::with_identity("id".into(), "dev".into());
    c.auth_token = Some("secret".into());
    c.turn_servers.push(TurnServer { urls: vec!["turn:x".into()], username: Some("u".into()), credential: None });
    let p = public_config(&c);
    assert_eq!(p.device_id, "id");
    assert_eq!(p.device_name, "dev");
    assert_eq!(p.turn_servers.len(), 1);
    assert_eq!(p.turn_servers[0].urls, vec!["turn:x".to_string()]);
    assert_eq!(p.turn_servers[0].username.as_deref(), Some("u"));
    assert_eq!(p.stun_servers, c.stun_servers);
    assert!(!format!("{p:?}").contains("secret"));
}

#[test]
fn checked_setup_refuses_first_bad_value() {
    let mut c = Config::with_identity("id".into(), "dev".into());
    assert_eq!(c.setup_checked("ftp://h", "/g".into(), true, true, "L".into()), Err(SetupError::UnsupportedScheme));
    assert_eq!(c.setup_checked("nope", "g".into(), true, true, "L".into()), Err(SetupError::InvalidApiUrl));
    assert_eq!(c.setup_checked("https://h", "g".into(), true, true, "L".into()), Err(SetupError::FolderNotAbsolute));
    assert_eq!(c.setup_checked("https://h", "/g".into(), false, false, "L".into()), Err(SetupError::FolderMissing));
    assert_eq!(c.setup_checked("https://h", "/g".into(), true, false, "L".into()), Err(SetupError::FolderNotDirectory));
    assert_eq!(c.api_url, "");
    assert!(c.sync_folder.is_none() && !c.setup_complete);
    assert_eq!(c.setup_checked(" https://h/ ", "/g".into(), true, true, "L".into()), Ok(()));
    assert_eq!(c.api_url, "https://h");
    assert_eq!(c.sync_folder.as_deref(), Some("/g"));
    assert_eq!(c.device_name, "L");
    assert!(c.setup_complete && c.enabled);
}

#[test]
fn settings_update_in_order() {
    let mut c = Config::with_identity("id".into(), "dev".into());
    c.api_url = "https://old".into();
    assert_eq!(c.update_settings(Some("ws://x".into()), Some("/f".into()), true, true, Some("n".into())),
               Err(SetupError::UnsupportedScheme));
    assert_eq!(c.api_url, "https://old");
    assert!(c.sync_folder.is_none());
    assert_eq!(c.update_settings(Some("https://new/".into()), Some("/f".into()), false, false, Some("n".into())),
               Err(SetupError::FolderMissing));
    assert_eq!(c.api_url, "https://new");
    assert!(c.sync_folder.is_none());
    assert_eq!(c.device_name, "dev");
    assert_eq!(c.update_settings(None, Some("/f".into()), true, true, Some("n".into())), Ok(()));
    assert_eq!(c.api_url, "https://new");
    assert_eq!(c.sync_folder.as_deref(), Some("/f"));
    assert_eq!(c.device_name, "n");
    assert_eq!(c.update_settings(None, None, false, false, None), Ok(()));
    assert_eq!(c.sync_folder.as_deref(), Some("/f"));
}

#[test]
fn api_address_trims_unicode_white_space() {
    assert_eq!(clean_api_url_text("\u{a0}\u{2028} https://h// \u{3000}\t"), "https://h");
    assert_eq!(clean_api_url_text("\u{200b}https://h"), "\u{200b}https://h");
    assert_eq!(clean_api_url_text(" \u{85} "), "");
}
