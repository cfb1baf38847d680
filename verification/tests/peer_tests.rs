use graphsync::config::{Config, TurnServer};
use graphsync::peer::{ice_servers, peer_candidates, request_key, text_message_action, TextAction, TransferBuffer};
use graphsync::signaling::{FileRequestMessage, SignalingAction, SignalingMessage, signaling_action};
use graphsync::tray::{tray_action, TrayAction};

#[test]
fn request_keys() {
    assert_eq!(request_key("dev", "a/b.md", "abc"), "dev:a/b.md:abc");
}

#[test]
fn candidates_skip_self() {
    let ids = vec!["a".to_string(), "me".to_string(), "b".to_string()];
    assert_eq!(peer_candidates(&ids, "me"), vec!["a".to_string(), "b".to_string()]);
}

#[test]
fn ice_server_list() {
    let mut c = Config::with_identity("id".into(), "d".into());
    c.turn_servers.push(TurnServer { urls: vec!["turn:t".into()], username: None, credential: Some("pw".into()) });
    let s = ice_servers(&c);
    assert_eq!(s.len(), 2);
    assert_eq!(s[0].urls, vec!["stun:stun.l.google.com:19302".to_string()]);
    assert_eq!((s[1].username.as_str(), s[1].credential.as_str()), ("", "pw"));
    c.stun_servers.clear();
    assert_eq!(ice_servers(&c).len(), 1);
}

#[test]
fn transfer_messages() {
    let mut b = TransferBuffer::new();
    b.append(&[1, 2]);
    b.append(&[3]);
    assert_eq!(b.data, vec![1, 2, 3]);
    let req = FileRequestMessage { path: "x.md".into(), sha256: "h".into() };
    assert!(matches!(text_message_action("{..}", Some(req), ""), TextAction::Serve(p) if p == "x.md"));
    assert!(matches!(text_message_action("EOF", None, "k"), TextAction::Complete));
    assert!(matches!(text_message_action("EOF", None, ""), TextAction::Ignore));
    assert!(matches!(text_message_action("hello", None, "k"), TextAction::Ignore));
}

#[test]
fn signaling_targets() {
    let offer = SignalingMessage::Offer { session_id: "s".into(), graph_id: "g".into(), source_device_id: "a".into(), target_device_id: "me".into(), sdp: "x".into() };
    assert_eq!(signaling_action(&offer, "me"), SignalingAction::AnswerOffer);
    assert_eq!(signaling_action(&offer, "other"), SignalingAction::Ignore);
    let answer = SignalingMessage::Answer { session_id: "s".into(), source_device_id: "a".into(), target_device_id: "me".into(), sdp: "x".into() };
    assert_eq!(signaling_action(&answer, "me"), SignalingAction::ApplyAnswer);
    assert_eq!(signaling_action(&answer, "x"), SignalingAction::Ignore);
    let ice = SignalingMessage::Ice { session_id: "s".into(), source_device_id: "a".into(), candidate: "c".into(), sdp_mid: None, sdp_mline_index: Some(0) };
    assert_eq!(signaling_action(&ice, "anyone"), SignalingAction::AddIceCandidate);
}

#[test]
fn tray_entries() {
    assert_eq!(tray_action("open"), TrayAction::Open);
    assert_eq!(tray_action("pause"), TrayAction::Pause);
    assert_eq!(tray_action("resume"), TrayAction::Resume);
    assert_eq!(tray_action("folder"), TrayAction::OpenFolder);
    assert_eq!(tray_action("settings"), TrayAction::Settings);
    assert_eq!(tray_action("quit"), TrayAction::Nothing);
}
