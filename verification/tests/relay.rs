use libp2p::PeerId;
use nestri_server::p2p::p2p::{connect_plan, ConnectError, ConnectPlan};
use nestri_server::DEFAULT_RELAY;
use std::str::FromStr;

#[test]
fn relay_address_names_its_peer() {
    let expected = PeerId::from_str("12D3KooWPK4v5wKYNYx9oXWjqLM8Xix6nm13o91j1Feqq98fLBsw").unwrap().to_bytes();
    match connect_plan(DEFAULT_RELAY) {
        Ok(ConnectPlan::Dial { addr, peer }) => {
            assert_eq!(peer, expected);
            assert_eq!(addr.to_string(), DEFAULT_RELAY);
        }
        other => panic!("unexpected plan {:?}", other),
    }
}

#[test]
fn address_without_peer_is_dialled_then_refused() {
    match connect_plan("/ip4/127.0.0.1/tcp/4001") {
        Ok(ConnectPlan::DialThenMissingPeer { addr }) => assert_eq!(addr.to_string(), "/ip4/127.0.0.1/tcp/4001"),
        other => panic!("unexpected plan {:?}", other),
    }
    assert_eq!(ConnectError::MissingPeerId.message(), "Invalid multiaddr: missing /p2p/<peer_id>");
}

#[test]
fn text_that_is_no_multiaddr_is_refused() {
    assert!(matches!(connect_plan("relay.example.com:4001"), Err(ConnectError::InvalidMultiaddr)));
    assert!(matches!(connect_plan("/ip4/not-an-ip"), Err(ConnectError::InvalidMultiaddr)));
}
