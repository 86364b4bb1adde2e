use vstd::prelude::*;

verus! {

/// The remote endpoint of a connection: the key under which the registry
/// holds it. Two addresses are equal when all their fields are.
#[derive(Clone, Copy, Debug, PartialEq, Eq, Hash, Structural)]
pub enum Address {
    /// An IPv4 endpoint: the four octets as one big-endian number, and the port.
    V4 { ip: u32, port: u16 },
    /// An IPv6 endpoint: the sixteen octets as one big-endian number, the
    /// port, the flow information and the scope.
    V6 { ip6: u128, port: u16, flowinfo: u32, scope_id: u32 },
}

} // verus!
