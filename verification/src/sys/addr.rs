//! Socket addresses, and how they lie in memory for the kernel.

use vstd::prelude::*;

verus! {

/// An internet address with a port.
#[derive(Clone, Copy, Debug, PartialEq, Eq)]
pub enum SocketAddr {
    V4(SocketAddrV4),
    V6(SocketAddrV6),
}

/// An IPv4 address with a port.
#[derive(Clone, Copy, Debug, PartialEq, Eq)]
pub struct SocketAddrV4 {
    pub octets: [u8; 4],
    pub port: u16,
}

/// An IPv6 address with a port, flow information and a scope.
#[derive(Clone, Copy, Debug, PartialEq, Eq)]
pub struct SocketAddrV6 {
    pub octets: [u8; 16],
    pub port: u16,
    pub flowinfo: u32,
    pub scope_id: u32,
}

/// The numbers by which a platform tells the address families apart.
#[derive(Clone, Copy, Debug, PartialEq, Eq)]
pub struct Families {
    pub inet: u16,
    pub inet6: u16,
}

/// A socket address as the kernel holds it: the fields of its IPv4 and of its IPv6 layout side by
/// side. Which of them count depends on the family. Byte arrays are in the order of memory, the
/// integers in that of the host.
#[derive(Clone, Copy, Debug, PartialEq, Eq)]
pub struct RawSockAddr {
    pub family: u16,
    /// The port in network order, in both layouts.
    pub port: [u8; 2],
    /// The address in the IPv4 layout.
    pub v4_addr: [u8; 4],
    /// The flow information in the IPv6 layout.
    pub v6_flowinfo: u32,
    /// The address in the IPv6 layout.
    pub v6_addr: [u8; 16],
    /// The scope in the IPv6 layout.
    pub v6_scope_id: u32,
}

/// The address family of a raw address is neither of the two that are known.
#[derive(Clone, Copy, Debug, PartialEq, Eq, Structural)]
pub struct UnknownFamily {
    pub family: u16,
}

/// Bytes of the IPv4 layout: family, port, address, and eight bytes of zero.
pub const SOCKADDR_IN_LEN: u32 = 16;

/// Bytes of the IPv6 layout: family, port, flow information, address and scope.
pub const SOCKADDR_IN6_LEN: u32 = 28;

impl Families {
    /// The two families can be told apart.
    pub open spec fn wf(self) -> bool {
        self.inet != self.inet6
    }
}

impl SocketAddr {
    /// The family number of the address.
    pub open spec fn family(self, families: Families) -> u16 {
        match self {
            SocketAddr::V4(_) => families.inet,
            SocketAddr::V6(_) => families.inet6,
        }
    }

    pub open spec fn port(self) -> u16 {
        match self {
            SocketAddr::V4(v4) => v4.port,
            SocketAddr::V6(v6) => v6.port,
        }
    }
}

/// The number whose bytes in network order are `bytes`.
pub open spec fn from_network(bytes: [u8; 2]) -> int {
    bytes@[0] * 256 + bytes@[1]
}

/// `raw` is what the kernel holds for `addr`; what its layout does not use is zero.
pub open spec fn encodes(raw: RawSockAddr, addr: SocketAddr, families: Families) -> bool {
    &&& raw.family == addr.family(families)
    &&& from_network(raw.port) == addr.port()
    &&& match addr {
        SocketAddr::V4(v4) => {
            &&& raw.v4_addr == v4.octets
            &&& raw.v6_flowinfo == 0
            &&& raw.v6_addr@ == Seq::new(16, |i: int| 0u8)
            &&& raw.v6_scope_id == 0
        },
        SocketAddr::V6(v6) => {
            &&& raw.v4_addr@ == Seq::new(4, |i: int| 0u8)
            &&& raw.v6_flowinfo == v6.flowinfo
            &&& raw.v6_addr == v6.octets
            &&& raw.v6_scope_id == v6.scope_id
        },
    }
}

/// What `raw` stands for.
pub open spec fn decoded(raw: RawSockAddr, families: Families) -> Result<
    SocketAddr,
    UnknownFamily,
> {
    if raw.family == families.inet {
        Ok(
            SocketAddr::V4(
                SocketAddrV4 { octets: raw.v4_addr, port: from_network(raw.port) as u16 },
            ),
        )
    } else if raw.family == families.inet6 {
        Ok(
            SocketAddr::V6(
                SocketAddrV6 {
                    octets: raw.v6_addr,
                    port: from_network(raw.port) as u16,
                    flowinfo: raw.v6_flowinfo,
                    scope_id: raw.v6_scope_id,
                },
            ),
        )
    } else {
        Err(UnknownFamily { family: raw.family })
    }
}

fn port_to_network(port: u16) -> (bytes: [u8; 2])
    ensures
        from_network(bytes) == port,
{
    [(port / 256) as u8, (port % 256) as u8]
}

fn port_from_network(bytes: [u8; 2]) -> (port: u16)
    ensures
        port == from_network(bytes),
{
    bytes[0] as u16 * 256 + bytes[1] as u16
}

/// The layout of `addr` for the kernel, and its length in bytes.
pub fn sockaddr_storage_from(addr: SocketAddr, families: Families) -> (raw: (RawSockAddr, u32))
    ensures
        encodes(raw.0, addr, families),
        raw.1 == match addr {
            SocketAddr::V4(_) => SOCKADDR_IN_LEN,
            SocketAddr::V6(_) => SOCKADDR_IN6_LEN,
        },
{
    match addr {
        SocketAddr::V4(v4) => (write_sockaddr_in(v4, families), SOCKADDR_IN_LEN),
        SocketAddr::V6(v6) => (write_sockaddr_in6(v6, families), SOCKADDR_IN6_LEN),
    }
}

fn write_sockaddr_in(addr: SocketAddrV4, families: Families) -> (raw: RawSockAddr)
    ensures
        encodes(raw, SocketAddr::V4(addr), families),
{
    let v6_addr: [u8; 16] = [0; 16];
    proof {
        assert(v6_addr@ =~= Seq::new(16, |i: int| 0u8));
    }
    RawSockAddr {
        family: families.inet,
        port: port_to_network(addr.port),
        v4_addr: addr.octets,
        v6_flowinfo: 0,
        v6_addr,
        v6_scope_id: 0,
    }
}

fn write_sockaddr_in6(addr: SocketAddrV6, families: Families) -> (raw: RawSockAddr)
    ensures
        encodes(raw, SocketAddr::V6(addr), families),
{
    let v4_addr: [u8; 4] = [0; 4];
    proof {
        assert(v4_addr@ =~= Seq::new(4, |i: int| 0u8));
    }
    RawSockAddr {
        family: families.inet6,
        port: port_to_network(addr.port),
        v4_addr,
        v6_flowinfo: addr.flowinfo,
        v6_addr: addr.octets,
        v6_scope_id: addr.scope_id,
    }
}

/// Read an address that the kernel has filled in.
pub fn sockaddr_to_socketaddr(raw: RawSockAddr, families: Families) -> (addr: Result<
    SocketAddr,
    UnknownFamily,
>)
    ensures
        addr == decoded(raw, families),
{
    if raw.family == families.inet {
        Ok(
            SocketAddr::V4(
                SocketAddrV4 { octets: raw.v4_addr, port: port_from_network(raw.port) },
            ),
        )
    } else if raw.family == families.inet6 {
        Ok(
            SocketAddr::V6(
                SocketAddrV6 {
                    octets: raw.v6_addr,
                    port: port_from_network(raw.port),
                    flowinfo: raw.v6_flowinfo,
                    scope_id: raw.v6_scope_id,
                },
            ),
        )
    } else {
        Err(UnknownFamily { family: raw.family })
    }
}

/// An address that is laid out for the kernel is read back as it was.
pub proof fn law_address_round_trip(addr: SocketAddr, raw: RawSockAddr, families: Families)
    requires
        families.wf(),
        encodes(raw, addr, families),
    ensures
        decoded(raw, families) == Ok::<SocketAddr, UnknownFamily>(addr),
{
}

/// Two addresses with the same layout are the same address.
pub proof fn law_layout_tells_addresses_apart(
    a: SocketAddr,
    b: SocketAddr,
    raw: RawSockAddr,
    families: Families,
)
    requires
        families.wf(),
        encodes(raw, a, families),
        encodes(raw, b, families),
    ensures
        a == b,
{
    law_address_round_trip(a, raw, families);
    law_address_round_trip(b, raw, families);
}

} // verus!
