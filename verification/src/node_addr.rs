//! Where a node can be reached.

use vstd::prelude::*;

use crate::cbor::{big_endian, big_endian_bytes};

verus! {

/// An IP address, as the number that its octets make in network order.
#[derive(Clone, Copy, PartialEq, Eq, Structural, Debug, Hash)]
pub enum IpAddr {
    /// An IPv4 address, of four octets.
    V4(u32),
    /// An IPv6 address, of sixteen octets.
    V6(u128),
}

impl IpAddr {
    /// The octets of the address, in network order.
    pub open spec fn octets_spec(self) -> Seq<u8> {
        match self {
            IpAddr::V4(bits) => big_endian(bits as nat, 4),
            IpAddr::V6(bits) => big_endian(bits as nat, 16),
        }
    }

    /// The octets of the address, in network order.
    pub fn octets(&self) -> (octets: Vec<u8>)
        ensures
            octets@ == self.octets_spec(),
    {
        match *self {
            IpAddr::V4(bits) => big_endian_bytes(bits as u128, 4),
            IpAddr::V6(bits) => big_endian_bytes(bits, 16),
        }
    }
}

/// An IP address and the ports that are open there.
#[derive(Debug, Hash)]
pub struct NodeAddr {
    ip_addr: IpAddr,
    ports: Vec<u16>,
}

/// What a [`NodeAddr`] says.
#[verifier::ext_equal]
pub struct NodeAddrView {
    pub ip_addr: IpAddr,
    pub ports: Seq<u16>,
}

impl View for NodeAddr {
    type V = NodeAddrView;

    closed spec fn view(&self) -> NodeAddrView {
        NodeAddrView { ip_addr: self.ip_addr, ports: self.ports@ }
    }
}

/// What an optional address says.
pub open spec fn addr_view(node_addr_opt: Option<NodeAddr>) -> Option<NodeAddrView> {
    match node_addr_opt {
        Some(node_addr) => Some(node_addr@),
        None => None,
    }
}

impl NodeAddr {
    /// The address with this IP address and these ports.
    pub fn new(ip_addr: &IpAddr, ports: &Vec<u16>) -> (node_addr: NodeAddr)
        ensures
            node_addr@ == (NodeAddrView { ip_addr: *ip_addr, ports: ports@ }),
    {
        NodeAddr { ip_addr: *ip_addr, ports: ports.clone() }
    }

    /// The ports of an address are no more than memory holds.
    pub proof fn lemma_ports_len(node_addr: NodeAddr)
        ensures
            node_addr@.ports.len() <= usize::MAX,
    {
        assert(node_addr.ports.len() == node_addr@.ports.len());
    }

    /// The IP address.
    pub fn ip_addr(&self) -> (ip_addr: IpAddr)
        ensures
            ip_addr == self@.ip_addr,
    {
        self.ip_addr
    }

    /// The ports.
    pub fn ports(&self) -> (ports: &Vec<u16>)
        ensures
            ports@ == self@.ports,
    {
        &self.ports
    }
}

impl Clone for NodeAddr {
    fn clone(&self) -> (copy: NodeAddr)
        ensures
            copy@ == self@,
    {
        NodeAddr { ip_addr: self.ip_addr, ports: self.ports.clone() }
    }
}

/// Two addresses are the same when they have the same IP address and the same
/// ports in the same order.
impl PartialEq for NodeAddr {
    fn eq(&self, other: &NodeAddr) -> (same: bool) {
        let same = self.ip_addr == other.ip_addr && self.ports == other.ports;
        proof {
            if same {
                assert(self@ =~= other@);
            }
        }
        same
    }
}

impl vstd::std_specs::cmp::PartialEqSpecImpl for NodeAddr {
    open spec fn obeys_eq_spec() -> bool {
        true
    }

    open spec fn eq_spec(&self, other: &NodeAddr) -> bool {
        self@ == other@
    }
}

impl Eq for NodeAddr {

}

} // verus!
