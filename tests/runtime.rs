use catnip::event::{Event, EventCode, Fail, Icmpv4ErrorId, Status, UdpDatagram};
use catnip::interop::{drop_event, get_icmpv4_error_event, get_transmit_event, poll_event};
use catnip::options::Options;
use catnip::rng::Rng;
use catnip::runtime::{Coroutine, Resumption, Runtime};

/// A coroutine that plays back a fixed list of steps.
struct Script {
    steps: Vec<(Resumption, Vec<Event>)>,
    resumed_at: Vec<u64>,
}

impl Script {
    fn new(steps: Vec<(Resumption, Vec<Event>)>) -> Script {
        Script { steps, resumed_at: Vec::new() }
    }
}

impl Coroutine for Script {
    fn resume(&mut self, now: u64) -> (Resumption, Vec<Event>) {
        self.resumed_at.push(now);
        if self.steps.is_empty() {
            (Resumption::Complete(Ok(0)), Vec::new())
        } else {
            self.steps.remove(0)
        }
    }
}

fn udp(port: u16) -> Event {
    Event::UdpDatagramReceived(UdpDatagram { src_ipv4_addr: 0x0A00_0002, src_port: 9, dest_port: port, payload: vec![1, 2, 3] })
}

fn runtime() -> Runtime<Script> {
    Runtime::from_options(0, Options::default())
}

#[test]
fn peek_then_poll_return_the_same_event() {
    let mut rt = runtime();
    rt.emit_event(Event::TcpBytesAvailable(1));
    rt.emit_event(Event::TcpBytesAvailable(2));
    assert_eq!(rt.peek(5), Some(&Event::TcpBytesAvailable(1)));
    assert_eq!(rt.poll(5), Some(Event::TcpBytesAvailable(1)));
    assert_eq!(rt.peek(5), Some(&Event::TcpBytesAvailable(2)));
    assert_eq!(rt.poll(5), Some(Event::TcpBytesAvailable(2)));
    assert_eq!(rt.peek(5), None);
    assert_eq!(rt.poll(5), None);
}

#[test]
fn coroutines_due_together_emit_in_start_order() {
    let mut rt = runtime();
    let a = rt.start_coroutine(Script::new(vec![(Resumption::Complete(Ok(0)), vec![udp(1), udp(2)])]));
    let b = rt.start_coroutine(Script::new(vec![(Resumption::Complete(Ok(0)), vec![udp(3)])]));
    assert_eq!(a.id, 0);
    assert_eq!(b.id, 1);
    assert_eq!(rt.poll(0), Some(udp(1)));
    assert_eq!(rt.poll(0), Some(udp(2)));
    assert_eq!(rt.poll(0), Some(udp(3)));
    assert_eq!(rt.poll(0), None);
}

#[test]
fn yielded_coroutine_waits_for_its_deadline() {
    let mut rt = runtime();
    rt.start_coroutine(Script::new(vec![
        (Resumption::Yield(Some(10)), vec![]),
        (Resumption::Complete(Ok(0)), vec![Event::TcpConnectionEstablished(7)]),
    ]));
    assert_eq!(rt.peek(0), None);
    assert_eq!(rt.peek(9), None);
    assert_eq!(rt.now(), 9);
    assert_eq!(rt.peek(10), Some(&Event::TcpConnectionEstablished(7)));
}

#[test]
fn run_ready_reports_whether_anything_ran() {
    let mut rt = runtime();
    rt.start_coroutine(Script::new(vec![(Resumption::Yield(None), vec![]), (Resumption::Yield(Some(0)), vec![])]));
    assert!(rt.run_ready(0));
    assert!(!rt.run_ready(0));
    assert!(rt.run_ready(1));
    assert!(!rt.run_ready(1));
    assert!(rt.run_ready(2));
}

#[test]
fn options_and_clock_are_kept() {
    let mut o = Options::default();
    o.set_my_ipv4_addr(0x0A00_0001);
    let rt: Runtime<Script> = Runtime::from_options(42, o);
    assert_eq!(rt.now(), 42);
    assert_eq!(rt.options().my_ipv4_addr, 0x0A00_0001);
}

#[test]
fn rng_is_reproducible_from_seed() {
    let mut rt = runtime();
    let x = rt.rng_mut().next_u64();
    assert_eq!(x, 0xE220_A839_7B1D_CDAF);
    let mut r = Rng::from_seed([0u8; 32]);
    assert_eq!(r.next_u64(), 0xE220_A839_7B1D_CDAF);
    assert_eq!(rt.rng_mut().next_u64(), r.next_u64());
}

#[test]
fn rng_seed_words_are_read_little_endian_and_folded() {
    let mut s1 = [0u8; 32];
    s1[0] = 1;
    let mut s2 = [0u8; 32];
    s2[8] = 1;
    let mut s3 = [0u8; 32];
    s3[7] = 1;
    let x1 = Rng::from_seed(s1).next_u64();
    assert_eq!(x1, Rng::from_seed(s2).next_u64());
    assert_ne!(x1, Rng::from_seed([0u8; 32]).next_u64());
    assert_ne!(x1, Rng::from_seed(s3).next_u64());
}

#[test]
fn transmit_getter_refuses_other_heads_and_leaves_queue() {
    let mut rt = runtime();
    rt.emit_event(udp(5));
    rt.emit_event(Event::Transmit(vec![9, 9]));
    assert_eq!(get_transmit_event(&mut rt, 1), Err(Status::NotPermitted));
    assert_eq!(poll_event(&mut rt, 1), Ok(EventCode::UdpDatagramReceived));
    assert_eq!(drop_event(&mut rt, 1), Status::Success);
    assert_eq!(get_transmit_event(&mut rt, 1), Ok(&vec![9u8, 9]));
    assert_eq!(drop_event(&mut rt, 1), Status::Success);
    assert_eq!(get_transmit_event(&mut rt, 1), Err(Status::Again));
}

#[test]
fn poll_then_drop_advances_by_one() {
    let mut rt = runtime();
    rt.emit_event(udp(5));
    rt.emit_event(Event::TcpConnectionClosed { handle: 3, error: Some(Fail::Timeout) });
    assert_eq!(poll_event(&mut rt, 0).map(|c| c.number()), Ok(5));
    assert_eq!(drop_event(&mut rt, 0), Status::Success);
    assert_eq!(poll_event(&mut rt, 0).map(|c| c.number()), Ok(2));
    assert_eq!(drop_event(&mut rt, 0), Status::Success);
    assert_eq!(poll_event(&mut rt, 0), Err(Status::Again));
    assert_eq!(drop_event(&mut rt, 0), Status::Again);
}

#[test]
fn udp_head_then_drop_leaves_nothing() {
    let mut rt = runtime();
    rt.start_coroutine(Script::new(vec![(Resumption::Complete(Ok(0)), vec![udp(53)])]));
    assert_eq!(poll_event(&mut rt, 0), Ok(EventCode::UdpDatagramReceived));
    assert_eq!(drop_event(&mut rt, 0), Status::Success);
    assert_eq!(poll_event(&mut rt, 0), Err(Status::Again));
}

#[test]
fn icmp_getter_hands_out_type_code_mtu_and_context() {
    let mut rt = runtime();
    rt.emit_event(Event::Icmpv4Error { id: Icmpv4ErrorId { icmp_type: 3, code: 4 }, next_hop_mtu: 1400, context: vec![0x45, 0] });
    rt.emit_event(udp(1));
    let (t, c, mtu, ctx) = get_icmpv4_error_event(&mut rt, 0).unwrap();
    assert_eq!((t, c, mtu), (3, 4, 1400));
    assert_eq!(ctx, &vec![0x45u8, 0]);
    assert_eq!(drop_event(&mut rt, 0), Status::Success);
    assert_eq!(get_icmpv4_error_event(&mut rt, 0), Err(Status::NotPermitted));
}

#[test]
fn completed_coroutine_leaves_its_result() {
    let mut rt = runtime();
    let a = rt.start_coroutine(Script::new(vec![(Resumption::Yield(Some(3)), vec![]), (Resumption::Complete(Err(Fail::Timeout)), vec![])]));
    let b = rt.start_coroutine(Script::new(vec![(Resumption::Complete(Ok(42)), vec![])]));
    assert!(rt.run_ready(0));
    assert_eq!(rt.coroutine_result(a), None);
    assert_eq!(rt.coroutine_result(b), Some(Ok(42)));
    assert!(rt.run_ready(3));
    assert_eq!(rt.coroutine_result(a), Some(Err(Fail::Timeout)));
}

#[test]
fn cancelled_coroutine_is_never_resumed() {
    let mut rt = runtime();
    let a = rt.start_coroutine(Script::new(vec![(Resumption::Complete(Ok(0)), vec![udp(1)])]));
    let b = rt.start_coroutine(Script::new(vec![(Resumption::Complete(Ok(0)), vec![udp(2)])]));
    assert!(rt.cancel(a));
    assert!(!rt.cancel(a));
    assert_eq!(rt.poll(0), Some(udp(2)));
    assert_eq!(rt.poll(0), None);
    assert_eq!(rt.coroutine_result(a), None);
    assert_eq!(rt.coroutine_result(b), Some(Ok(0)));
}
