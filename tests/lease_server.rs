use vtg::dhcp::{DhcpReply, DhcpRequest, LeaseServer, MessageKind, LEASE_DURATION_SECS, POOL_START};

const A: u64 = 0x0011_2233_4455;
const B: u64 = 0x00aa_bbcc_ddee;

fn msg(kind: MessageKind, chaddr: u64, requested_ip: Option<u32>) -> DhcpRequest {
    DhcpRequest { kind, chaddr, requested_ip, ciaddr: 0, for_this_server: true }
}

#[test]
fn held_address_is_refused_to_another_client() {
    let mut s = LeaseServer::new();
    let ack = s.handle_request(&msg(MessageKind::Request, A, Some(POOL_START)), 100);
    assert_eq!(ack, Some(DhcpReply::Ack(POOL_START)));
    let offer = s.handle_request(&msg(MessageKind::Discover, B, Some(POOL_START)), 200);
    assert_eq!(offer, None);
    let nak = s.handle_request(&msg(MessageKind::Request, B, Some(POOL_START)), 200);
    assert_eq!(nak, Some(DhcpReply::Nak));
}

#[test]
fn acknowledged_lease_is_offered_again() {
    let mut s = LeaseServer::new();
    let offer = s.handle_request(&msg(MessageKind::Discover, A, None), 10);
    assert_eq!(offer, Some(DhcpReply::Offer(POOL_START)));
    let ack = s.handle_request(&msg(MessageKind::Request, A, Some(POOL_START)), 11);
    assert_eq!(ack, Some(DhcpReply::Ack(POOL_START)));
    let again = s.handle_request(&msg(MessageKind::Discover, A, None), 50_000);
    assert_eq!(again, Some(DhcpReply::Offer(POOL_START)));
    assert_eq!(s.current_lease(A), Some(POOL_START));
    assert_eq!(s.lease_on(POOL_START).unwrap().expires, 11 + LEASE_DURATION_SECS as u64);
}

#[test]
fn expired_lease_frees_the_address() {
    let mut s = LeaseServer::new();
    s.handle_request(&msg(MessageKind::Request, A, Some(POOL_START)), 0);
    let later = LEASE_DURATION_SECS as u64 + 1;
    assert!(s.available(B, POOL_START, later));
    assert!(!s.available(B, POOL_START, later - 1));
    assert_eq!(
        s.handle_request(&msg(MessageKind::Discover, B, None), later),
        Some(DhcpReply::Offer(POOL_START))
    );
}

#[test]
fn request_uses_client_address_without_option() {
    let mut s = LeaseServer::new();
    let mut req = msg(MessageKind::Request, A, None);
    req.ciaddr = POOL_START;
    assert_eq!(s.handle_request(&req, 5), Some(DhcpReply::Ack(POOL_START)));
    let mut outside = msg(MessageKind::Request, B, None);
    outside.ciaddr = POOL_START + 1;
    assert_eq!(s.handle_request(&outside, 5), Some(DhcpReply::Nak));
}

#[test]
fn requests_for_other_servers_are_ignored() {
    let mut s = LeaseServer::new();
    let mut req = msg(MessageKind::Request, A, Some(POOL_START));
    req.for_this_server = false;
    assert_eq!(s.handle_request(&req, 1), None);
    assert_eq!(s.current_lease(A), None);
}

#[test]
fn release_and_decline_drop_the_lease() {
    let mut s = LeaseServer::new();
    s.handle_request(&msg(MessageKind::Request, A, Some(POOL_START)), 1);
    assert_eq!(s.handle_request(&msg(MessageKind::Release, A, None), 2), None);
    assert_eq!(s.current_lease(A), None);
    s.handle_request(&msg(MessageKind::Request, A, Some(POOL_START)), 3);
    s.handle_request(&msg(MessageKind::Decline, B, None), 4);
    assert_eq!(s.current_lease(A), Some(POOL_START));
    s.handle_request(&msg(MessageKind::Decline, A, None), 4);
    assert_eq!(s.lease_on(POOL_START), None);
    assert_eq!(s.handle_request(&msg(MessageKind::Other, A, None), 5), None);
}
