use catnip::event::{fail_to_errno, Event, EventCode, Fail, Icmpv4ErrorId, Status, UdpDatagram};
use catnip::options::{MacAddress, Options};

#[test]
fn ipv4_setter_refuses_unspecified_and_broadcast() {
    let mut o = Options::default();
    assert_eq!(o.set_my_ipv4_addr(0), Status::Invalid);
    assert_eq!(o.set_my_ipv4_addr(0xFFFF_FFFF), Status::Invalid);
    assert_eq!(o.my_ipv4_addr, 0);
    assert_eq!(o.set_my_ipv4_addr(0x0A00_0001), Status::Success);
    assert_eq!(o.my_ipv4_addr, 0x0A00_0001);
}

#[test]
fn link_setter_refuses_nil_and_group_addresses() {
    let mut o = Options::default();
    assert_eq!(o.set_my_link_addr(&[0, 0, 0, 0, 0, 0]), Status::Invalid);
    assert_eq!(o.set_my_link_addr(&[0x01, 0x00, 0x5e, 0, 0, 1]), Status::Invalid);
    assert_eq!(o.my_link_addr.0, [0u8; 6]);
    assert_eq!(o.set_my_link_addr(&[0x02, 0x11, 0x22, 0x33, 0x44, 0x55]), Status::Success);
    assert_eq!(o.my_link_addr.0, [0x02, 0x11, 0x22, 0x33, 0x44, 0x55]);
}

#[test]
fn mac_address_predicates() {
    let m = MacAddress::from_bytes(&[0x03, 0, 0, 0, 0, 0]);
    assert!(!m.is_nil());
    assert!(!m.is_unicast());
    assert!(MacAddress([0; 6]).is_nil());
}

#[test]
fn options_validity() {
    let mut o = Options::default();
    assert!(!o.is_valid());
    o.set_my_ipv4_addr(0xC0A8_0001);
    assert!(!o.is_valid());
    o.set_my_link_addr(&[0x02, 0, 0, 0, 0, 1]);
    assert!(o.is_valid());
}

#[test]
fn failures_map_to_their_statuses() {
    let cases = [
        (Fail::ConnectionRefused, Status::ConnRefused),
        (Fail::ForeignError, Status::Child),
        (Fail::Ignored, Status::Success),
        (Fail::Malformed, Status::IllegalSequence),
        (Fail::Misdelivered, Status::HostUnreachable),
        (Fail::OutOfRange, Status::Range),
        (Fail::ResourceBusy, Status::Busy),
        (Fail::ResourceExhausted, Status::NoMemory),
        (Fail::ResourceNotFound, Status::NoEntry),
        (Fail::Timeout, Status::TimedOut),
        (Fail::TypeMismatch, Status::NotPermitted),
        (Fail::Underflow, Status::Overflow),
        (Fail::Unsupported, Status::NotSupported),
    ];
    for (fail, status) in cases.iter() {
        assert_eq!(fail_to_errno(fail), *status);
    }
}

#[test]
fn event_codes_are_stable() {
    let events = vec![
        Event::Icmpv4Error { id: Icmpv4ErrorId { icmp_type: 3, code: 4 }, next_hop_mtu: 576, context: vec![] },
        Event::TcpBytesAvailable(1),
        Event::TcpConnectionClosed { handle: 1, error: Some(Fail::Timeout) },
        Event::TcpConnectionEstablished(1),
        Event::Transmit(vec![1, 2]),
        Event::UdpDatagramReceived(UdpDatagram { src_ipv4_addr: 1, src_port: 2, dest_port: 3, payload: vec![] }),
    ];
    for (i, e) in events.iter().enumerate() {
        assert_eq!(EventCode::from_event(e).number(), i as i32);
    }
    assert_eq!(EventCode::from_event(&events[4]), EventCode::Transmit);
}

#[test]
fn icmp_error_id_encodes_type_and_code() {
    assert_eq!(Icmpv4ErrorId { icmp_type: 3, code: 4 }.encode(), (3, 4));
}
