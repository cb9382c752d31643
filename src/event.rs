//! The events that the engine hands to its host, the failures that it reports,
//! and the integer-free status kinds in which both cross the host boundary.
use vstd::prelude::*;

verus! {

/// The kinds of failure that a protocol operation reports.
#[derive(PartialEq, Eq, Structural, Clone, Copy, Debug)]
pub enum Fail {
    ConnectionRefused,
    ForeignError,
    Ignored,
    Malformed,
    Misdelivered,
    OutOfRange,
    ResourceBusy,
    ResourceExhausted,
    ResourceNotFound,
    Timeout,
    TypeMismatch,
    Underflow,
    Unsupported,
}

/// The outcome of a host-boundary call, one kind per POSIX error number that
/// the boundary returns (`Success` is zero).
#[derive(PartialEq, Eq, Structural, Clone, Copy, Debug)]
pub enum Status {
    Success,
    ConnRefused,
    Child,
    IllegalSequence,
    HostUnreachable,
    Range,
    Busy,
    NoMemory,
    NoEntry,
    TimedOut,
    NotPermitted,
    Overflow,
    NotSupported,
    Invalid,
    Again,
}

/// The identity of an ICMPv4 error, as its type and code octets.
#[derive(PartialEq, Eq, Structural, Clone, Copy, Debug)]
pub struct Icmpv4ErrorId {
    pub icmp_type: u8,
    pub code: u8,
}

impl Icmpv4ErrorId {
    /// The type and code octets of the error.
    pub fn encode(&self) -> (r: (u8, u8))
        ensures
            r == (self.icmp_type, self.code),
    {
        (self.icmp_type, self.code)
    }
}

/// A UDP datagram delivered to a bound port.
#[derive(Clone, Debug, PartialEq, Eq)]
pub struct UdpDatagram {
    pub src_ipv4_addr: u32,
    pub src_port: u16,
    pub dest_port: u16,
    pub payload: Vec<u8>,
}

/// Something the engine has for its host.
#[derive(Clone, Debug, PartialEq, Eq)]
pub enum Event {
    Icmpv4Error { id: Icmpv4ErrorId, next_hop_mtu: u16, context: Vec<u8> },
    TcpBytesAvailable(u64),
    TcpConnectionClosed { handle: u64, error: Option<Fail> },
    TcpConnectionEstablished(u64),
    Transmit(Vec<u8>),
    UdpDatagramReceived(UdpDatagram),
}

/// The stable code of each kind of event at the host boundary.
#[derive(PartialEq, Eq, Structural, Clone, Copy, Debug)]
pub enum EventCode {
    Icmpv4Error,
    TcpBytesAvailable,
    TcpConnectionClosed,
    TcpConnectionEstablished,
    Transmit,
    UdpDatagramReceived,
}

pub open spec fn code_of(event: Event) -> EventCode {
    match event {
        Event::Icmpv4Error { .. } => EventCode::Icmpv4Error,
        Event::TcpBytesAvailable(_) => EventCode::TcpBytesAvailable,
        Event::TcpConnectionClosed { .. } => EventCode::TcpConnectionClosed,
        Event::TcpConnectionEstablished(_) => EventCode::TcpConnectionEstablished,
        Event::Transmit(_) => EventCode::Transmit,
        Event::UdpDatagramReceived(_) => EventCode::UdpDatagramReceived,
    }
}

pub open spec fn code_number(code: EventCode) -> int {
    match code {
        EventCode::Icmpv4Error => 0,
        EventCode::TcpBytesAvailable => 1,
        EventCode::TcpConnectionClosed => 2,
        EventCode::TcpConnectionEstablished => 3,
        EventCode::Transmit => 4,
        EventCode::UdpDatagramReceived => 5,
    }
}

impl EventCode {
    /// The code of the kind of `event`.
    pub fn from_event(event: &Event) -> (r: EventCode)
        ensures
            r == code_of(*event),
    {
        match event {
            Event::Icmpv4Error { .. } => EventCode::Icmpv4Error,
            Event::TcpBytesAvailable(_) => EventCode::TcpBytesAvailable,
            Event::TcpConnectionClosed { .. } => EventCode::TcpConnectionClosed,
            Event::TcpConnectionEstablished(_) => EventCode::TcpConnectionEstablished,
            Event::Transmit(_) => EventCode::Transmit,
            Event::UdpDatagramReceived(_) => EventCode::UdpDatagramReceived,
        }
    }

    /// The integer that stands for the code at the host boundary.
    pub fn number(self) -> (r: i32)
        ensures
            r as int == code_number(self),
    {
        match self {
            EventCode::Icmpv4Error => 0,
            EventCode::TcpBytesAvailable => 1,
            EventCode::TcpConnectionClosed => 2,
            EventCode::TcpConnectionEstablished => 3,
            EventCode::Transmit => 4,
            EventCode::UdpDatagramReceived => 5,
        }
    }
}

pub open spec fn status_of_fail(fail: Fail) -> Status {
    match fail {
        Fail::ConnectionRefused => Status::ConnRefused,
        Fail::ForeignError => Status::Child,
        Fail::Ignored => Status::Success,
        Fail::Malformed => Status::IllegalSequence,
        Fail::Misdelivered => Status::HostUnreachable,
        Fail::OutOfRange => Status::Range,
        Fail::ResourceBusy => Status::Busy,
        Fail::ResourceExhausted => Status::NoMemory,
        Fail::ResourceNotFound => Status::NoEntry,
        Fail::Timeout => Status::TimedOut,
        Fail::TypeMismatch => Status::NotPermitted,
        Fail::Underflow => Status::Overflow,
        Fail::Unsupported => Status::NotSupported,
    }
}

/// The status in which a failure crosses the host boundary: an ignored
/// failure is no error there.
pub fn fail_to_errno(fail: &Fail) -> (r: Status)
    ensures
        r == status_of_fail(*fail),
{
    match fail {
        Fail::ConnectionRefused => Status::ConnRefused,
        Fail::ForeignError => Status::Child,
        Fail::Ignored => Status::Success,
        Fail::Malformed => Status::IllegalSequence,
        Fail::Misdelivered => Status::HostUnreachable,
        Fail::OutOfRange => Status::Range,
        Fail::ResourceBusy => Status::Busy,
        Fail::ResourceExhausted => Status::NoMemory,
        Fail::ResourceNotFound => Status::NoEntry,
        Fail::Timeout => Status::TimedOut,
        Fail::TypeMismatch => Status::NotPermitted,
        Fail::Underflow => Status::Overflow,
        Fail::Unsupported => Status::NotSupported,
    }
}

} // verus!
