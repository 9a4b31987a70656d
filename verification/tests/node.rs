use deaddrop::cli::{erasure_arg, seal_time};
use deaddrop::store::{hist_from, hist_key, hist_touch, hour_of_day};
use deaddrop::caps::{CapabilityDoc, RelayCapacity};
use deaddrop::config::Config;
use deaddrop::crypto::PrivateIdentity;
use deaddrop::envelope::RoutingPolicyKind;
use deaddrop::identity::{Contact, ContactBook, ContactCard};
use deaddrop::mode::NodeMode;
use deaddrop::node::{for_inbox, send_request, SendOpts};
use deaddrop::protocol::{build_drop, open_drop};
use deaddrop::report::{
    civil_seconds, disk_nearly_full, format_uptime, frame_payload_start, is_leap, parse_time_spec,
    size_unit, stale_peers, TimeSpec,
};
use deaddrop::routing::{adaptive_step, AdaptiveStep, Direct, Epidemic, RouteReason, SprayAndWait};
use deaddrop::scheduler::{can_finish, estimated_window_secs};
use deaddrop::sdk::{erasure, DeadDropBuilder, Recipient};
use deaddrop::service::{launchd_plist, systemd_unit, LAUNCH_LABEL};
use deaddrop::store::admit_object;
use deaddrop::sync::SyncStats;
use deaddrop::transport::TcpTransport;
use deaddrop::trust::TrustState;
use deaddrop::{Destination, ErrorCode, Priority};

fn opts(to: &str, public: bool, body: &[u8]) -> SendOpts {
    SendOpts {
        to: to.to_string(),
        plaintext: body.to_vec(),
        public,
        ttl: Some(600),
        priority: Priority::Important,
        application: "dd.chat".to_string(),
        topic: None,
        trusted_only: false,
        seal_until: None,
        seal_quorum: None,
        erasure: None,
    }
}

#[test]
fn send_request_resolves_the_recipient() {
    let me = PrivateIdentity::generate().unwrap();
    let bob = PrivateIdentity::generate().unwrap();
    let mut book = ContactBook::default();
    book.insert(Contact {
        card: ContactCard::from_public(Some("bob".into()), bob.public.clone()).unwrap(),
        trust: TrustState::Known,
    })
    .unwrap();
    let cfg = Config::default();
    let req = send_request(&me, &book, opts("bob", false, b"hi bob"), &cfg, 1_700_000_000).unwrap();
    assert_eq!(req.recipients.len(), 1);
    assert!(matches!(req.destination, Destination::One { peer } if peer == bob.peer_id));
    assert_eq!(req.hop_limit, 16);
    assert_eq!(req.routing.kind, RoutingPolicyKind::Adaptive);
    assert_eq!(req.routing.replication_budget, 8);
    let built = build_drop(req).unwrap();
    assert!(for_inbox(&built.envelope, &bob.peer_id));
    assert!(!for_inbox(&built.envelope, &me.peer_id));
    assert_eq!(open_drop(&bob, &built.envelope, &built.manifest, &built.chunks).unwrap(), b"hi bob");
}

#[test]
fn send_request_public_and_unknown() {
    let me = PrivateIdentity::generate().unwrap();
    let book = ContactBook::default();
    let cfg = Config::default();
    let req = send_request(&me, &book, opts("", true, b"all"), &cfg, 5).unwrap();
    assert!(matches!(req.destination, Destination::Public));
    assert!(req.recipients.is_empty());
    let e = send_request(&me, &book, opts("nobody", false, b"x"), &cfg, 5).err().unwrap();
    assert_eq!(e.code(), ErrorCode::Ddi5001UnknownContact);
}

#[test]
fn admission_checks_quota_and_envelope() {
    let me = PrivateIdentity::generate().unwrap();
    let cfg = Config::default();
    let req = send_request(&me, &ContactBook::default(), opts("", true, b"x"), &cfg, 1_700_000_000).unwrap();
    let built = build_drop(req).unwrap();
    assert!(admit_object(&built.envelope, 10, 10, 20, 1_700_000_001).is_ok());
    assert_eq!(
        admit_object(&built.envelope, 10, 11, 20, 1_700_000_001).unwrap_err().code(),
        ErrorCode::Dds2001StoreFull
    );
    assert_eq!(
        admit_object(&built.envelope, u64::MAX, u64::MAX, 20, 1_700_000_001).unwrap_err().code(),
        ErrorCode::Dds2001StoreFull
    );
    assert_eq!(
        admit_object(&built.envelope, 0, 0, 20, 1_700_000_000 + 600).unwrap_err().code(),
        ErrorCode::Ddp1007Expired
    );
}

#[test]
fn routing_strategies_decide() {
    let me = PrivateIdentity::generate().unwrap();
    let bob = PrivateIdentity::generate().unwrap();
    let carol = PrivateIdentity::generate().unwrap();
    let mut book = ContactBook::default();
    book.insert(Contact {
        card: ContactCard::from_public(Some("bob".into()), bob.public.clone()).unwrap(),
        trust: TrustState::Known,
    })
    .unwrap();
    let req = send_request(&me, &book, opts("bob", false, b"x"), &Config::default(), 1_000).unwrap();
    let env = build_drop(req).unwrap().envelope;
    let d = Direct.decide(&env, bob.peer_id, NodeMode::Balanced, RelayCapacity::Full);
    assert!(d.forward && d.reason == RouteReason::DirectMatch);
    let d = Direct.decide(&env, carol.peer_id, NodeMode::Private, RelayCapacity::Full);
    assert!(!d.forward && d.reason == RouteReason::PrivateMode);
    let e = Epidemic.decide(&env, carol.peer_id, me.peer_id, 1_001, NodeMode::Balanced, RelayCapacity::Full);
    assert!(e.forward);
    let e = Epidemic.decide(&env, me.peer_id, me.peer_id, 1_001, NodeMode::Balanced, RelayCapacity::Full);
    assert!(!e.forward && e.reason == RouteReason::Ineligible);
    let s = SprayAndWait.decide(&env, carol.peer_id, me.peer_id, 1_001, NodeMode::Balanced, RelayCapacity::Full, 1);
    assert!(!s.forward && s.reason == RouteReason::Wait);
    let s = SprayAndWait.decide(&env, carol.peer_id, me.peer_id, 1_001, NodeMode::Balanced, RelayCapacity::Full, 4);
    assert!(s.forward && s.reason == RouteReason::SprayBudget);
    assert_eq!(Direct.name(), "direct");
    assert_eq!(adaptive_step(Some(TrustState::Unknown), false, None, 10), AdaptiveStep::Deny);
    assert_eq!(adaptive_step(None, true, None, 10), AdaptiveStep::Direct);
    assert_eq!(adaptive_step(None, false, Some(3), 10), AdaptiveStep::Encounter);
    assert_eq!(adaptive_step(None, false, Some(2), 3), AdaptiveStep::Epidemic);
    assert_eq!(adaptive_step(None, false, None, 4), AdaptiveStep::Spray);
}

#[test]
fn scheduler_windows() {
    assert_eq!(estimated_window_secs(60, 90_000), 8);
    assert_eq!(estimated_window_secs(2, 10), 5);
    assert_eq!(estimated_window_secs(500, 10), 120);
    assert!(can_finish(1000, 10, 100));
    assert!(!can_finish(1001, 10, 100));
}

#[test]
fn uptime_and_calendar() {
    assert_eq!(format_uptime(3661), "01:01:01");
    assert_eq!(format_uptime(360_000), "100:00:00");
    assert_eq!(format_uptime(0), "00:00:00");
    assert!(is_leap(2000) && is_leap(2024) && !is_leap(1900) && !is_leap(2023));
    assert_eq!(civil_seconds(2024, 1, 1, 0, 0, 0), Some(1_704_067_200));
    assert_eq!(civil_seconds(2024, 3, 1, 12, 30, 15), Some(1_709_296_215));
    assert_eq!(civil_seconds(2024, 13, 1, 0, 0, 0), None);
    assert_eq!(civil_seconds(1960, 1, 1, 0, 0, 0), Some(0));
}

#[test]
fn time_arguments() {
    assert!(matches!(parse_time_spec(" 2d "), TimeSpec::Seconds(172_800)));
    assert!(matches!(parse_time_spec("3h"), TimeSpec::Seconds(10_800)));
    assert!(matches!(parse_time_spec("+5m"), TimeSpec::Seconds(300)));
    assert!(matches!(parse_time_spec("45s"), TimeSpec::Seconds(45)));
    assert!(matches!(parse_time_spec("12345"), TimeSpec::Seconds(12345)));
    assert!(matches!(parse_time_spec("xd"), TimeSpec::Invalid));
    assert!(matches!(parse_time_spec("99999999999999999d"), TimeSpec::Overflow));
    match parse_time_spec("2024-03-01T12:30:15.5ZZ") {
        TimeSpec::Calendar { year, month, day, hour, minute, second_text } => {
            assert_eq!((year, month, day, hour, minute), (2024, 3, 1, 12, 30));
            assert_eq!(second_text, "15.5");
        }
        other => panic!("unexpected {other:?}"),
    }
    assert!(matches!(parse_time_spec("2024-03T12:30:15"), TimeSpec::Invalid));
    assert!(matches!(parse_time_spec("-5-01-01T00:00:00"), TimeSpec::Invalid));
}

#[test]
fn doctor_checks() {
    assert!(disk_nearly_full(10, 64 * 1024 * 1024));
    assert!(!disk_nearly_full(10, 0));
    assert!(!disk_nearly_full(0, 64 * 1024 * 1024 + 1));
    assert_eq!(stale_peers(&[0, 100_000, 2_600_000], 2_600_000), 1);
    let (n, m) = size_unit(" 20gb ");
    assert_eq!((n.as_str(), m), ("20", 1_073_741_824));
    let (n, m) = size_unit("512");
    assert_eq!((n.as_str(), m), ("512", 1));
    assert_eq!(frame_payload_start(&[0, 0, 0, 2, 9, 9]), 4);
    assert_eq!(frame_payload_start(&[0, 0, 0, 3, 9, 9]), 0);
}

#[test]
fn systemd_unit_mentions_listen() {
    let u = systemd_unit("/usr/bin/dd-daemon", "dd-daemon", "/var/lib/deaddrop", "0.0.0.0:7947");
    assert!(u.contains("0.0.0.0:7947"));
    assert!(u.contains("/var/lib/deaddrop"));
}

#[test]
fn launchd_plist_is_xml() {
    let p = launchd_plist("/usr/local/bin/dd-daemon", "dd-daemon", "/tmp/dd", "/tmp/dd/daemon.log", "127.0.0.1:7947");
    assert!(p.contains(LAUNCH_LABEL));
    assert!(p.contains("127.0.0.1:7947"));
}

#[test]
fn dd_front_end_starts_the_daemon() {
    let u = systemd_unit("/usr/bin/dd", "dd", "/data", "127.0.0.1:1");
    assert!(u.contains("ExecStart=/usr/bin/dd --data-dir /data daemon start --foreground --listen 127.0.0.1:1\n"));
}

#[test]
fn capability_negotiation() {
    let a = CapabilityDoc::local_v2();
    let n = a.negotiate(&a).unwrap();
    assert_eq!(n.prefer_inventory(), "bloom-v1");
    let mut old = CapabilityDoc::local_v2();
    old.protocol = 1;
    assert_eq!(a.negotiate(&old).unwrap_err().code(), ErrorCode::Ddp1002UnsupportedVersion);
}

#[test]
fn sdk_and_transport_values() {
    let b = DeadDropBuilder::new().data_dir("/tmp/x".to_string()).mode(NodeMode::Battery);
    assert_eq!(b.dir.as_deref(), Some("/tmp/x"));
    assert_eq!(b.mode, Some(NodeMode::Battery));
    assert!(DeadDropBuilder::default().dir.is_none());
    assert_eq!(Recipient::from("bob".to_string()).0, "bob");
    let e = erasure(4, 2);
    assert_eq!((e.data_shards, e.parity_shards), (4, 2));
    assert_eq!(TcpTransport.name(), "tcp");
    assert!(!TcpTransport.capabilities().encrypted);
    let s = SyncStats::default();
    assert_eq!((s.envelopes, s.chunks), (0, 0));
}

#[test]
fn metrics_snapshot_copies_counters() {
    let mut m = deaddrop::event::Metrics::default();
    assert_eq!(m.snapshot().chunks_transferred, 0);
    m.chunks_transferred = 3;
    m.bytes_transferred = 4096;
    let s = m.snapshot();
    assert_eq!(s.chunks_transferred, 3);
    assert_eq!(s.bytes_transferred, 4096);
    assert_eq!(s.drops_created, 0);
}

#[test]
fn object_queries_match_text_or_hex_prefix() {
    let id = deaddrop::ObjectId::blake3([0xabu8; 32]);
    let text = id.to_string();
    assert!(deaddrop::cli::object_matches(&id, "abab"));
    assert!(deaddrop::cli::object_matches(&id, &text[..6]));
    assert!(!deaddrop::cli::object_matches(&id, "cd"));
    assert!(deaddrop::cli::hex_prefixed(&id, "abab"));
    assert!(!deaddrop::cli::hex_prefixed(&id, "ABAB"));
    assert!(deaddrop::cli::hex_prefixed(&id, &deaddrop::cli::object_prefix("ddo:b3:ABAB")));
}

#[test]
fn hour_histogram_counts_by_hour() {
    assert_eq!(hour_of_day(86_400 + 3 * 3600 + 59), 3);
    let h = hist_from(&[5, 6]);
    assert_eq!(h[0], 5);
    assert_eq!(h[1], 6);
    assert_eq!(h[2], 0);
    let h = hist_touch(h, 3600 + 10);
    assert_eq!(h[1], 7);
    let mut full = [0u32; 24];
    full[0] = u32::MAX;
    assert_eq!(hist_touch(full, 5)[0], u32::MAX);
    let long: Vec<u32> = (0..30).collect();
    assert_eq!(hist_from(&long)[23], 23);
    assert!(hist_key(&deaddrop::PeerId([0xab; 32])).starts_with("eh:abab"));
}

#[test]
fn send_arguments_read_like_the_cli() {
    let e = erasure_arg(" 4 , 2 ,9");
    assert_eq!((e.data_shards, e.parity_shards), (4, 2));
    let e = erasure_arg("x");
    assert_eq!((e.data_shards, e.parity_shards), (10, 1));
    let e = erasure_arg("+6");
    assert_eq!((e.data_shards, e.parity_shards), (6, 1));
    assert_eq!(seal_time("2030-01-01T00:00:00Z", Some(1_893_456_000), 5), Some(1_893_456_000));
    assert_eq!(seal_time("1h", Some(3600), 100), Some(3700));
    assert_eq!(seal_time("1h", Some(3600), u64::MAX - 1), Some(u64::MAX));
    assert_eq!(seal_time("junk", None, 100), None);
}
