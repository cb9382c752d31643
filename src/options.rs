//! The engine's configuration, and the checks that the host's settings pass
//! before they are staged.
use crate::event::Status;
use vstd::prelude::*;

verus! {

/// A link-layer (MAC) address.
#[derive(Clone, Copy, Debug)]
pub struct MacAddress(pub [u8; 6]);

impl MacAddress {
    pub open spec fn nil_spec(self) -> bool {
        forall|i: int| 0 <= i < 6 ==> #[trigger] self.0@[i] == 0
    }

    /// The group bit, the low bit of the first octet, is clear.
    pub open spec fn unicast_spec(self) -> bool {
        self.0@[0] % 2 == 0
    }

    pub fn from_bytes(bytes: &[u8; 6]) -> (r: MacAddress)
        ensures
            r == MacAddress(*bytes),
    {
        MacAddress(*bytes)
    }

    /// Every octet is zero.
    pub fn is_nil(&self) -> (r: bool)
        ensures
            r == self.nil_spec(),
    {
        let mut i: usize = 0;
        while i < 6
            invariant
                i <= 6,
                forall|j: int| 0 <= j < i ==> #[trigger] self.0@[j] == 0,
            decreases 6 - i,
        {
            if self.0[i] != 0 {
                return false;
            }
            i = i + 1;
        }
        true
    }

    pub fn is_unicast(&self) -> (r: bool)
        ensures
            r == self.unicast_spec(),
    {
        self.0[0] % 2 == 0
    }
}

/// What the engine is configured with.
#[derive(Clone, Copy, Debug)]
pub struct Options {
    pub my_ipv4_addr: u32,
    pub my_link_addr: MacAddress,
    pub rng_seed: [u8; 32],
}

/// An IPv4 address that is neither unspecified nor the broadcast address.
pub open spec fn ipv4_addr_ok(addr: u32) -> bool {
    addr != 0 && addr != 0xFFFF_FFFFu32
}

/// A link address that is not nil and not a group address.
pub open spec fn link_addr_ok(addr: MacAddress) -> bool {
    !addr.nil_spec() && addr.unicast_spec()
}

impl Default for Options {
    fn default() -> (r: Options)
        ensures
            r.my_ipv4_addr == 0,
            r.my_link_addr.0@ == seq![0u8; 6],
            r.rng_seed@ == seq![0u8; 32],
    {
        let r = Options { my_ipv4_addr: 0, my_link_addr: MacAddress([0u8; 6]), rng_seed: [0u8; 32] };
        assert(r.my_link_addr.0@ =~= seq![0u8; 6]);
        assert(r.rng_seed@ =~= seq![0u8; 32]);
        r
    }
}

impl Options {
    /// The options are fit to build an engine from.
    pub open spec fn valid(self) -> bool {
        ipv4_addr_ok(self.my_ipv4_addr) && link_addr_ok(self.my_link_addr)
    }

    pub fn is_valid(&self) -> (r: bool)
        ensures
            r == self.valid(),
    {
        self.my_ipv4_addr != 0 && self.my_ipv4_addr != 0xFFFF_FFFFu32 && !self.my_link_addr.is_nil()
            && self.my_link_addr.is_unicast()
    }

    /// Stages the local IPv4 address; the unspecified and the broadcast address
    /// are refused and change nothing.
    pub fn set_my_ipv4_addr(&mut self, addr: u32) -> (r: Status)
        ensures
            ipv4_addr_ok(addr) ==> r == Status::Success && *final(self) == (Options {
                my_ipv4_addr: addr,
                ..*old(self)
            }),
            !ipv4_addr_ok(addr) ==> r == Status::Invalid && *final(self) == *old(self),
    {
        if addr == 0 || addr == 0xFFFF_FFFFu32 {
            return Status::Invalid;
        }
        self.my_ipv4_addr = addr;
        Status::Success
    }

    /// Stages the local link address; a nil or a group address is refused and
    /// changes nothing.
    pub fn set_my_link_addr(&mut self, bytes: &[u8; 6]) -> (r: Status)
        ensures
            link_addr_ok(MacAddress(*bytes)) ==> r == Status::Success && *final(self) == (Options {
                my_link_addr: MacAddress(*bytes),
                ..*old(self)
            }),
            !link_addr_ok(MacAddress(*bytes)) ==> r == Status::Invalid && *final(self) == *old(self),
    {
        let addr = MacAddress::from_bytes(bytes);
        if addr.is_nil() || !addr.is_unicast() {
            return Status::Invalid;
        }
        self.my_link_addr = addr;
        Status::Success
    }
}

} // verus!
