use deaddrop::crypto::PrivateIdentity;
use deaddrop::discovery::Endpoint;
use deaddrop::identity::{Contact, ContactCard};
use deaddrop::ids::PeerId;
use deaddrop::peers::{lan_split, peer_header, peer_line, peer_rows, trust_label, PeerRow};
use deaddrop::trust::TrustState;

fn ep(peer: Option<PeerId>, loc: &str) -> Endpoint {
    Endpoint { peer, locator: loc.to_string() }
}

#[test]
fn lan_split_skips_self_and_keeps_last_locator() {
    let me = PeerId([1u8; 32]);
    let b = PeerId([2u8; 32]);
    let c = PeerId([3u8; 32]);
    let beacons = vec![
        ep(Some(me), "10.0.0.1:7000"),
        ep(Some(b), "10.0.0.2:7000"),
        ep(None, "10.0.0.9:7000"),
        ep(Some(b), "10.0.0.2:7001"),
        ep(Some(c), "10.0.0.3:7000"),
    ];
    let (live, unmatched) = lan_split(Some(me), &beacons);
    assert_eq!(live, vec![(b, "10.0.0.2:7001".to_string()), (c, "10.0.0.3:7000".to_string())]);
    assert_eq!(unmatched, vec!["10.0.0.9:7000".to_string()]);
}

#[test]
fn lan_split_without_identity_drops_anonymous_beacons() {
    let b = PeerId([2u8; 32]);
    let beacons = vec![ep(None, "10.0.0.9:7000"), ep(Some(b), "10.0.0.2:7000")];
    let (live, unmatched) = lan_split(None, &beacons);
    assert_eq!(live, vec![(b, "10.0.0.2:7000".to_string())]);
    assert!(unmatched.is_empty());
}

#[test]
fn peer_rows_merge_contacts_and_lan() {
    let bob = PrivateIdentity::generate().unwrap();
    let dee = PrivateIdentity::generate().unwrap();
    let stranger = PeerId([7u8; 32]);
    let contacts = vec![
        (
            bob.peer_id,
            Contact {
                card: ContactCard::from_public(Some("bob".into()), bob.public.clone()).unwrap(),
                trust: TrustState::Known,
            },
        ),
        (
            dee.peer_id,
            Contact {
                card: ContactCard::from_public(None, dee.public.clone()).unwrap(),
                trust: TrustState::Verified,
            },
        ),
    ];
    let remembered = vec![Some("10.0.0.5:7000".to_string()), Some("10.0.0.6:7000".to_string())];
    let live = vec![(stranger, "10.0.0.7:7000".to_string()), (bob.peer_id, "10.0.0.8:7000".to_string())];
    let unmatched = vec!["10.0.0.9:7000".to_string()];
    let rows = peer_rows(&contacts, &remembered, &live, &unmatched);
    assert_eq!(rows.len(), 4);
    assert_eq!(rows[0].id, Some(bob.peer_id));
    assert_eq!(rows[0].trust, TrustState::Known);
    assert_eq!(rows[0].name.as_deref(), Some("bob"));
    assert_eq!(rows[0].locator.as_deref(), Some("10.0.0.8:7000"));
    assert!(rows[0].live);
    assert_eq!(rows[1].id, Some(dee.peer_id));
    assert_eq!(rows[1].trust, TrustState::Verified);
    assert_eq!(rows[1].name, None);
    assert_eq!(rows[1].locator.as_deref(), Some("10.0.0.6:7000"));
    assert!(!rows[1].live);
    assert_eq!(rows[2].id, Some(stranger));
    assert_eq!(rows[2].trust, TrustState::Observed);
    assert_eq!(rows[2].locator.as_deref(), Some("10.0.0.7:7000"));
    assert!(rows[2].live);
    assert_eq!(rows[3].id, None);
    assert_eq!(rows[3].trust, TrustState::Observed);
    assert_eq!(rows[3].locator.as_deref(), Some("10.0.0.9:7000"));
}

#[test]
fn lan_lines_are_only_observed() {
    let live = vec![(PeerId([4u8; 32]), "a:1".to_string()), (PeerId([5u8; 32]), "b:2".to_string())];
    let unmatched = vec!["c:3".to_string()];
    let rows = peer_rows(&[], &[], &live, &unmatched);
    assert_eq!(rows.len(), 3);
    assert!(rows.iter().all(|r| r.trust == TrustState::Observed && r.live));
}

#[test]
fn peer_table_lines_are_padded_columns() {
    let id = PeerId([0xabu8; 32]);
    let row = PeerRow {
        id: Some(id),
        trust: TrustState::Verified,
        name: None,
        locator: Some("10.0.0.6:7000".to_string()),
        live: false,
    };
    let want = format!("{:<14} {:<10} {:<22} {}", "(lan)", "Verified", "10.0.0.6:7000", id.to_string());
    assert_eq!(peer_line(&row), want);
    let anon = PeerRow { id: None, trust: TrustState::Observed, name: Some("a-very-long-name-here".into()), locator: None, live: true };
    assert_eq!(peer_line(&anon), format!("{:<14} {:<10} {:<22} ", "a-very-long-name-here", "Observed", "\u{2014}"));
    assert_eq!(peer_header(), format!("{:<14} {:<10} {:<22} ID", "NAME", "TRUST", "REACHABLE"));
    assert_eq!(trust_label(TrustState::Blocked), "Blocked");
}
