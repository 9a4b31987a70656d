use deaddrop::cli::{looks_like_refused, object_prefix, parse_mode, sync_target, SyncTarget};
use deaddrop::discovery::{beacon_locator, Endpoint};
use deaddrop::ids::PeerId;
use deaddrop::mode::NodeMode;
use deaddrop::control::{
    authorized, chunk_progress, control_request, http_head, is_shutdown, reply_body, request_path,
    transfer_state, TransferState,
};

#[test]
fn client_requests_are_authorized_and_routed() {
    let req = control_request("/v1/status", "abc123");
    assert_eq!(req, "GET /v1/status HTTP/1.0\r\nAuthorization: Bearer abc123\r\n\r\n");
    assert!(authorized(&req, "abc123"));
    assert!(!authorized(&req, "abc124"));
    assert_eq!(request_path(&req), "/v1/status");
}

#[test]
fn token_on_its_own_line_is_accepted() {
    assert!(authorized("GET /v1/peers HTTP/1.0\r\n  tok  \r\n", "tok"));
    assert!(!authorized("GET /v1/peers HTTP/1.0\r\n", "tok"));
}

#[test]
fn request_path_defaults_to_root() {
    assert_eq!(request_path(""), "/");
    assert_eq!(request_path("GET"), "/");
    assert_eq!(request_path("  GET   /x  y\nrest"), "/x");
    assert!(is_shutdown("/v1/shutdown"));
    assert!(is_shutdown("/v1/shutdown?now"));
    assert!(!is_shutdown("/v1/status"));
}

#[test]
fn reply_framing() {
    assert_eq!(
        http_head(200, 11),
        "HTTP/1.0 200 OK\r\nContent-Type: application/json\r\nContent-Length: 11\r\n\r\n"
    );
    assert_eq!(reply_body("HTTP/1.0 200 OK\r\n\r\n{\"ok\":true}"), "{\"ok\":true}");
    assert_eq!(reply_body("no blank line"), "{}");
    assert_eq!(reply_body("h\r\n\r\nbody\r\n\r\nmore"), "body");
}

#[test]
fn transfer_summaries() {
    assert_eq!(transfer_state(true, 0), TransferState::Completed);
    assert_eq!(transfer_state(false, 2), TransferState::Active);
    assert_eq!(transfer_state(false, 0), TransferState::Queued);
    assert_eq!(chunk_progress(&[true, false, true]), (2, 3));
    assert_eq!(chunk_progress(&[]), (0, 1));
}

#[test]
fn cli_decisions() {
    assert_eq!(parse_mode("relay-only"), Some(NodeMode::RelayOnly));
    assert_eq!(parse_mode("relay"), Some(NodeMode::RelayOnly));
    assert_eq!(parse_mode("Battery"), None);
    assert!(looks_like_refused("Connection Refused (os error 111)"));
    assert!(!looks_like_refused("timed out"));
    assert_eq!(object_prefix("ddo:b3:ABCdef"), "abcdef");
    assert_eq!(object_prefix("abc"), "abc");
    assert_eq!(beacon_locator("10.0.0.2", 7947), "10.0.0.2:7947");
    let me = PeerId::from_digest([1u8; 32]);
    let a = PeerId::from_digest([2u8; 32]);
    let b = PeerId::from_digest([3u8; 32]);
    let scan = vec![
        Endpoint { peer: Some(me), locator: "10.0.0.1:7947".into() },
        Endpoint { peer: Some(a), locator: "10.0.0.2:7947".into() },
    ];
    assert!(matches!(sync_target(&scan, &me, None, None, None), SyncTarget::Locator(l) if l == "10.0.0.2:7947"));
    assert!(matches!(sync_target(&scan, &me, Some(b), None, None), SyncTarget::NoAddressFor));
    assert!(matches!(sync_target(&scan, &me, Some(b), Some("10.0.0.9:1".into()), None), SyncTarget::Locator(l) if l == "10.0.0.9:1"));
    assert!(matches!(sync_target(&scan[..1], &me, None, None, None), SyncTarget::NoBeacons));
    assert!(matches!(sync_target(&scan[..1], &me, None, None, Some("x:1".into())), SyncTarget::Locator(l) if l == "x:1"));
    let mut two = scan.clone();
    two.push(Endpoint { peer: Some(b), locator: "10.0.0.3:7947".into() });
    assert!(matches!(sync_target(&two, &me, None, None, None), SyncTarget::Several(v) if v.len() == 2));
}
