use gann_peer::address::{SocketAddress, V4Address, V6Address};
use gann_peer::error::PeerError;
use gann_peer::offer::{build_offer, offer_candidates, Offer};

fn bound() -> SocketAddress {
    SocketAddress::V4(V4Address { a: 127, b: 0, c: 0, d: 1, port: 5000 })
}

#[test]
fn omitted_candidates_use_bound_address() {
    assert_eq!(offer_candidates(bound(), None), Ok(vec![bound()]));
}

#[test]
fn advertised_candidates_are_used_verbatim() {
    let list = vec!["10.0.0.2:7000".to_string(), "192.168.1.1:9".to_string()];
    let got = offer_candidates(bound(), Some(list)).unwrap();
    assert_eq!(
        got,
        vec![
            SocketAddress::V4(V4Address { a: 10, b: 0, c: 0, d: 2, port: 7000 }),
            SocketAddress::V4(V4Address { a: 192, b: 168, c: 1, d: 1, port: 9 }),
        ]
    );
}

#[test]
fn malformed_candidate_is_rejected() {
    let list = vec!["10.0.0.2:7000".to_string(), "not-an-address".to_string()];
    assert_eq!(offer_candidates(bound(), Some(list)), Err(PeerError::InvalidCandidate));
}

#[test]
fn empty_advertised_list_is_kept_empty() {
    assert_eq!(offer_candidates(bound(), Some(vec![])), Ok(vec![]));
}

#[test]
fn offer_parts_round_trip() {
    let list = vec!["10.0.0.2:7000".to_string(), "1.1.1.1:1".to_string()];
    let offer = build_offer(bound(), Some(list.clone()), vec![1, 2, 3]).unwrap();
    let texts = offer.candidate_texts();
    assert_eq!(texts, list);
    let back = Offer::from_parts(&texts, offer.transport_credentials.clone()).unwrap();
    assert_eq!(back.candidates, offer.candidates);
    assert_eq!(back.transport_credentials, vec![1, 2, 3]);
}

#[test]
fn offer_without_candidates_round_trips() {
    let offer = build_offer(bound(), None, vec![9]).unwrap();
    let texts = offer.candidate_texts();
    assert_eq!(texts, vec!["127.0.0.1:5000".to_string()]);
    let back = Offer::from_parts(&texts, vec![9]).unwrap();
    assert_eq!(back.candidates, vec![bound()]);
    let empty = Offer::from_parts(&vec![], vec![]).unwrap();
    assert!(empty.candidates.is_empty());
}

#[test]
fn malformed_offer_candidate_is_malformed_message() {
    let r = Offer::from_parts(&vec!["1.2.3.4".to_string()], vec![]);
    assert_eq!(r.err(), Some(PeerError::MalformedMessage));
}

#[test]
fn ipv6_candidates_round_trip() {
    let list = vec!["[::1]:7000".to_string(), "10.0.0.1:1".to_string()];
    let offer = build_offer(bound(), Some(list), vec![]).unwrap();
    assert_eq!(offer.candidates[0], SocketAddress::V6(V6Address { ip: 1, scope_id: 0, port: 7000 }));
    let back = Offer::from_parts(&offer.candidate_texts(), vec![]).unwrap();
    assert_eq!(back.candidates, offer.candidates);
}
