//! The decisions of the host boundary: which status each call reports, and
//! what it hands out, given the engine's runtime. Pointer handling stays with
//! the caller.
use crate::event::{code_of, Event, EventCode, Status};
use crate::runtime::{front, rest, Coroutine, Runtime};
use vstd::prelude::*;

verus! {

/// Reports the code of the oldest queued event, after running what is due at
/// `now`; `Again` when the queue is empty. The event stays queued.
pub fn poll_event<C: Coroutine>(runtime: &mut Runtime<C>, now: u64) -> (r: Result<EventCode, Status>)
    requires
        old(runtime).well_formed(),
        old(runtime).clock() <= now,
        now < u64::MAX,
    ensures
        Runtime::peek_post(old(runtime), final(runtime), now, front(final(runtime).events())),
        final(runtime).events().len() == 0 ==> r == Err::<EventCode, Status>(Status::Again),
        final(runtime).events().len() > 0 ==> r == Ok::<EventCode, Status>(
            code_of(final(runtime).events()[0]),
        ),
{
    match runtime.peek(now) {
        Some(event) => Ok(EventCode::from_event(event)),
        None => Err(Status::Again),
    }
}

/// Takes the oldest queued event off the queue, after running what is due at
/// `now`; `Again` when there is none.
pub fn drop_event<C: Coroutine>(runtime: &mut Runtime<C>, now: u64) -> (r: Status)
    requires
        old(runtime).well_formed(),
        old(runtime).clock() <= now,
        now < u64::MAX,
    ensures
        exists|taken: Option<Event>|
            Runtime::poll_post(old(runtime), final(runtime), now, taken) && (r == if taken is Some {
                Status::Success
            } else {
                Status::Again
            }),
{
    match runtime.poll(now) {
        Some(_) => Status::Success,
        None => Status::Again,
    }
}

/// The frame of the oldest queued event if it is a `Transmit`; `NotPermitted`
/// for an event of another kind, `Again` for an empty queue. The event stays
/// queued.
pub fn get_transmit_event<C: Coroutine>(runtime: &mut Runtime<C>, now: u64) -> (r: Result<
    &Vec<u8>,
    Status,
>)
    requires
        old(runtime).well_formed(),
        old(runtime).clock() <= now,
        now < u64::MAX,
    ensures
        Runtime::peek_post(old(runtime), final(runtime), now, front(final(runtime).events())),
        final(runtime).events().len() == 0 ==> r == Err::<&Vec<u8>, Status>(Status::Again),
        final(runtime).events().len() > 0 ==> match final(runtime).events()[0] {
            Event::Transmit(bytes) => r == Ok::<&Vec<u8>, Status>(&bytes),
            _ => r == Err::<&Vec<u8>, Status>(Status::NotPermitted),
        },
{
    match runtime.peek(now) {
        Some(event) => match event {
            Event::Transmit(bytes) => Ok(bytes),
            _ => Err(Status::NotPermitted),
        },
        None => Err(Status::Again),
    }
}

/// The ICMPv4 type, code, next-hop MTU and context of the oldest queued event
/// if it is an `Icmpv4Error`; `NotPermitted` for an event of another kind,
/// `Again` for an empty queue. The event stays queued.
pub fn get_icmpv4_error_event<C: Coroutine>(runtime: &mut Runtime<C>, now: u64) -> (r: Result<
    (u8, u8, u16, &Vec<u8>),
    Status,
>)
    requires
        old(runtime).well_formed(),
        old(runtime).clock() <= now,
        now < u64::MAX,
    ensures
        Runtime::peek_post(old(runtime), final(runtime), now, front(final(runtime).events())),
        final(runtime).events().len() == 0 ==> r == Err::<(u8, u8, u16, &Vec<u8>), Status>(
            Status::Again,
        ),
        final(runtime).events().len() > 0 ==> match final(runtime).events()[0] {
            Event::Icmpv4Error { id, next_hop_mtu, context } => r == Ok::<
                (u8, u8, u16, &Vec<u8>),
                Status,
            >((id.icmp_type, id.code, next_hop_mtu, &context)),
            _ => r == Err::<(u8, u8, u16, &Vec<u8>), Status>(Status::NotPermitted),
        },
{
    match runtime.peek(now) {
        Some(event) => match event {
            Event::Icmpv4Error { id, next_hop_mtu, context } => {
                let (icmp_type, code) = id.encode();
                Ok((icmp_type, code, *next_hop_mtu, context))
            },
            _ => Err(Status::NotPermitted),
        },
        None => Err(Status::Again),
    }
}

/// `poll_event`, then `drop_event`, then `poll_event` again at one instant: the
/// drop takes exactly the event whose code was reported, and the second report
/// speaks of the event after it, or finds the queue empty.
pub proof fn lemma_poll_drop_poll<C: Coroutine>(
    s0: &Runtime<C>,
    s1: &Runtime<C>,
    s2: &Runtime<C>,
    s3: &Runtime<C>,
    now: u64,
    dropped: Option<Event>,
)
    requires
        Runtime::peek_post(s0, s1, now, front(s1.events())),
        Runtime::poll_post(s1, s2, now, dropped),
        Runtime::peek_post(s2, s3, now, front(s3.events())),
    ensures
        dropped == front(s1.events()),
        s3.events() == rest(s1.events()),
        s3.consumed() == s1.consumed() + (if s1.events().len() > 0 { 1nat } else { 0nat }),
{
    Runtime::lemma_peek_then_poll(s0, s1, s2, s3, now, front(s1.events()), dropped, front(s3.events()));
}

} // verus!
