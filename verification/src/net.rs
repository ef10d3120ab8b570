//! Plain-value network addresses.

use vstd::prelude::*;

verus! {

/// An IPv4 address, as its four octets in network order.
#[derive(Clone, Copy, Debug, PartialEq, Eq, Hash)]
pub struct Ipv4Address {
    pub octets: [u8; 4],
}

/// An IPv6 address, as its eight 16-bit segments in network order.
#[derive(Clone, Copy, Debug, PartialEq, Eq, Hash)]
pub struct Ipv6Address {
    pub segments: [u16; 8],
}

/// An IP address of either family.
#[derive(Clone, Copy, Debug, PartialEq, Eq, Hash)]
pub enum IpAddress {
    V4(Ipv4Address),
    V6(Ipv6Address),
}

/// An IP address together with a port.
#[derive(Clone, Copy, Debug, PartialEq, Eq, Hash)]
pub struct SocketAddress {
    pub ip: IpAddress,
    pub port: u16,
}

impl Ipv4Address {
    /// The address `a.b.c.d`.
    pub fn new(a: u8, b: u8, c: u8, d: u8) -> (ip: Ipv4Address)
        ensures
            ip.octets@ == seq![a, b, c, d],
    {
        Ipv4Address { octets: [a, b, c, d] }
    }

    /// The address as a number below 2^32, most significant octet first.
    pub open spec fn value(self) -> nat {
        (self.octets[0] as nat) * 0x100_0000 + (self.octets[1] as nat) * 0x1_0000
            + (self.octets[2] as nat) * 0x100 + (self.octets[3] as nat)
    }
}

impl Ipv6Address {
    /// The address `s0:s1:s2:s3:s4:s5:s6:s7`.
    pub fn new(s0: u16, s1: u16, s2: u16, s3: u16, s4: u16, s5: u16, s6: u16, s7: u16) -> (ip:
        Ipv6Address)
        ensures
            ip.segments@ == seq![s0, s1, s2, s3, s4, s5, s6, s7],
    {
        Ipv6Address { segments: [s0, s1, s2, s3, s4, s5, s6, s7] }
    }

    /// The loopback address `::1`.
    pub fn localhost() -> (ip: Ipv6Address)
        ensures
            ip.segments@ == seq![0u16, 0, 0, 0, 0, 0, 0, 1],
    {
        Ipv6Address { segments: [0, 0, 0, 0, 0, 0, 0, 1] }
    }

    /// The unspecified address `::`.
    pub fn unspecified() -> (ip: Ipv6Address)
        ensures
            ip.segments@ == seq![0u16, 0, 0, 0, 0, 0, 0, 0],
    {
        Ipv6Address { segments: [0, 0, 0, 0, 0, 0, 0, 0] }
    }

    /// Whether every segment but the last is zero and the last is one.
    pub open spec fn is_loopback_spec(&self) -> bool {
        self.segments@ == seq![0u16, 0, 0, 0, 0, 0, 0, 1]
    }

    /// Whether every segment is zero.
    pub open spec fn is_unspecified_spec(&self) -> bool {
        self.segments@ == seq![0u16, 0, 0, 0, 0, 0, 0, 0]
    }

    /// Whether the address has the form `::ffff:a.b.c.d`.
    pub open spec fn is_ipv4_mapped(self) -> bool {
        &&& self.segments[0] == 0
        &&& self.segments[1] == 0
        &&& self.segments[2] == 0
        &&& self.segments[3] == 0
        &&& self.segments[4] == 0
        &&& self.segments[5] == 0xffff
    }

    /// The IPv4 address `a.b.c.d` carried in the last two segments.
    pub open spec fn embedded_ipv4(self) -> Ipv4Address {
        Ipv4Address {
            octets: [
                (self.segments[6] / 256) as u8,
                (self.segments[6] % 256) as u8,
                (self.segments[7] / 256) as u8,
                (self.segments[7] % 256) as u8,
            ],
        }
    }

    #[verifier::when_used_as_spec(is_loopback_spec)]
    pub fn is_loopback(&self) -> (b: bool)
        ensures
            b == self.is_loopback_spec(),
    {
        let s = &self.segments;
        let b = s[0] == 0 && s[1] == 0 && s[2] == 0 && s[3] == 0 && s[4] == 0 && s[5] == 0 && s[6]
            == 0 && s[7] == 1;
        proof {
            if b {
                assert(self.segments@ =~= seq![0u16, 0, 0, 0, 0, 0, 0, 1]);
            }
        }
        b
    }

    #[verifier::when_used_as_spec(is_unspecified_spec)]
    pub fn is_unspecified(&self) -> (b: bool)
        ensures
            b == self.is_unspecified_spec(),
    {
        let s = &self.segments;
        let b = s[0] == 0 && s[1] == 0 && s[2] == 0 && s[3] == 0 && s[4] == 0 && s[5] == 0 && s[6]
            == 0 && s[7] == 0;
        proof {
            if b {
                assert(self.segments@ =~= seq![0u16, 0, 0, 0, 0, 0, 0, 0]);
            }
        }
        b
    }

    /// The IPv4 address that an address of the form `::ffff:a.b.c.d` carries.
    pub fn to_ipv4_mapped(&self) -> (v4: Option<Ipv4Address>)
        ensures
            v4 is Some <==> self.is_ipv4_mapped(),
            v4 is Some ==> v4->0 == self.embedded_ipv4(),
    {
        let s = &self.segments;
        if s[0] == 0 && s[1] == 0 && s[2] == 0 && s[3] == 0 && s[4] == 0 && s[5] == 0xffff {
            let a: u8 = (s[6] / 256) as u8;
            let b: u8 = (s[6] % 256) as u8;
            let c: u8 = (s[7] / 256) as u8;
            let d: u8 = (s[7] % 256) as u8;
            let v4 = Ipv4Address::new(a, b, c, d);
            assert(v4.octets@ =~= self.embedded_ipv4().octets@);
            assert(v4.octets == self.embedded_ipv4().octets);
            Some(v4)
        } else {
            None
        }
    }
}

impl SocketAddress {
    pub fn new(ip: IpAddress, port: u16) -> (addr: SocketAddress)
        ensures
            addr.ip == ip,
            addr.port == port,
    {
        SocketAddress { ip, port }
    }
}

} // verus!
