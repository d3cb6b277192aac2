//! The part of a node's record that is signed, its CBOR form and its signature.

use vstd::prelude::*;

use crate::cbor::{
    array_head, boolean, byte_numbers, byte_string, byte_string_items, map_head, null, push_bool,
    push_bytes, push_none, push_seq, push_struct, push_text, push_u16, push_variant, text_string,
    unsigned_items,
};
use crate::cryptde::{key_bytes, CryptDE, CryptData, Key};
use crate::node_addr::{addr_view, IpAddr, NodeAddr, NodeAddrView};
use crate::signing::{may_sign, outcome_bytes, sign_message, SigningError};

verus! {

/// The part of a node's record that is signed.
#[derive(Debug, Hash)]
pub struct NodeRecordInner {
    /// The node's public key.
    pub public_key: Key,
    /// Where the node can be reached, if that is known.
    pub node_addr_opt: Option<NodeAddr>,
    /// Whether the node is there for others to join the network through.
    pub is_bootstrap_node: bool,
    /// The nodes that this one is connected to.
    pub neighbors: Vec<Key>,
}

/// What a [`NodeRecordInner`] says.
#[verifier::ext_equal]
pub struct NodeRecordInnerView {
    pub public_key: Seq<u8>,
    pub node_addr_opt: Option<NodeAddrView>,
    pub is_bootstrap_node: bool,
    pub neighbors: Seq<Seq<u8>>,
}

impl View for NodeRecordInner {
    type V = NodeRecordInnerView;

    open spec fn view(&self) -> NodeRecordInnerView {
        NodeRecordInnerView {
            public_key: self.public_key@,
            node_addr_opt: addr_view(self.node_addr_opt),
            is_bootstrap_node: self.is_bootstrap_node,
            neighbors: key_bytes(self.neighbors@),
        }
    }
}

impl Clone for NodeRecordInner {
    fn clone(&self) -> (copy: NodeRecordInner)
        ensures
            copy@ == self@,
    {
        let copy = NodeRecordInner {
            public_key: self.public_key.clone(),
            node_addr_opt: self.node_addr_opt.clone(),
            is_bootstrap_node: self.is_bootstrap_node,
            neighbors: self.neighbors.clone(),
        };
        assert(copy@ =~= self@) by {
            assert(copy@.neighbors =~= self@.neighbors);
        }
        copy
    }
}

/// Two records are the same when they say the same, with the neighbors in the
/// same order.
impl PartialEq for NodeRecordInner {
    fn eq(&self, other: &NodeRecordInner) -> (same: bool) {
        let same = self.public_key == other.public_key && self.node_addr_opt
            == other.node_addr_opt && self.is_bootstrap_node == other.is_bootstrap_node
            && self.neighbors == other.neighbors;
        proof {
            let mine = key_bytes(self.neighbors@);
            let others = key_bytes(other.neighbors@);
            if same {
                assert(mine =~= others);
            } else if mine == others {
                assert(mine.len() == others.len());
                assert forall|i: int| 0 <= i < mine.len() implies self.neighbors@[i]@
                    == other.neighbors@[i]@ by {
                    assert(mine[i] == others[i]);
                }
            }
        }
        same
    }
}

impl vstd::std_specs::cmp::PartialEqSpecImpl for NodeRecordInner {
    open spec fn obeys_eq_spec() -> bool {
        true
    }

    open spec fn eq_spec(&self, other: &NodeRecordInner) -> bool {
        self@ == other@
    }
}

impl Eq for NodeRecordInner {

}

/// An IP address in CBOR: the name of its kind and its octets.
pub open spec fn ip_addr_cbor(ip_addr: IpAddr) -> Seq<u8> {
    array_head(2) + text_string(
        match ip_addr {
            IpAddr::V4(_) => "V4"@,
            IpAddr::V6(_) => "V6"@,
        },
    ) + array_head(ip_addr.octets_spec().len()) + unsigned_items(
        byte_numbers(ip_addr.octets_spec()),
    )
}

/// The numbers that ports are.
pub open spec fn port_numbers(ports: Seq<u16>) -> Seq<nat> {
    Seq::new(ports.len(), |i: int| ports[i] as nat)
}

/// A node's address in CBOR: a map of its two fields.
pub open spec fn node_addr_cbor(node_addr: NodeAddrView) -> Seq<u8> {
    map_head(2) + text_string("ip_addr"@) + ip_addr_cbor(node_addr.ip_addr) + text_string("ports"@)
        + array_head(node_addr.ports.len()) + unsigned_items(port_numbers(node_addr.ports))
}

/// An optional address in CBOR.
pub open spec fn node_addr_opt_cbor(node_addr_opt: Option<NodeAddrView>) -> Seq<u8> {
    match node_addr_opt {
        Some(node_addr) => node_addr_cbor(node_addr),
        None => null(),
    }
}

impl NodeRecordInnerView {
    /// The record in CBOR: a map of its four fields.
    pub open spec fn cbor(self) -> Seq<u8> {
        map_head(4) + text_string("public_key"@) + byte_string(self.public_key) + text_string(
            "node_addr_opt"@,
        ) + node_addr_opt_cbor(self.node_addr_opt) + text_string("is_bootstrap_node"@) + boolean(
            self.is_bootstrap_node,
        ) + text_string("neighbors"@) + array_head(self.neighbors.len()) + byte_string_items(
            self.neighbors,
        )
    }

    /// The record without the node's address.
    pub open spec fn obscured(self) -> NodeRecordInnerView {
        NodeRecordInnerView { node_addr_opt: None, ..self }
    }
}

/// Appends an IP address in CBOR.
fn push_ip_addr(out: &mut Vec<u8>, ip_addr: IpAddr)
    ensures
        final(out)@ == old(out)@ + ip_addr_cbor(ip_addr),
{
    let octets = ip_addr.octets();
    match ip_addr {
        IpAddr::V4(_) => push_variant(out, "IpAddr", 0, "V4", octets.as_slice()),
        IpAddr::V6(_) => push_variant(out, "IpAddr", 1, "V6", octets.as_slice()),
    }
    assert(out@ =~= old(out)@ + ip_addr_cbor(ip_addr));
}

/// Appends ports in CBOR.
fn push_ports(out: &mut Vec<u8>, ports: &Vec<u16>)
    ensures
        final(out)@ == old(out)@ + array_head(ports@.len()) + unsigned_items(port_numbers(ports@)),
{
    push_seq(out, ports.len());
    let ghost start = out@;
    let ghost numbers = port_numbers(ports@);
    let mut i: usize = 0;
    assert(out@ =~= start + unsigned_items(numbers.take(0)));
    while i < ports.len()
        invariant
            i <= ports@.len(),
            numbers == port_numbers(ports@),
            out@ == start + unsigned_items(numbers.take(i as int)),
        decreases ports@.len() - i,
    {
        push_u16(out, ports[i]);
        proof {
            let next = numbers.take(i + 1);
            assert(next.drop_last() =~= numbers.take(i as int));
            assert(next.last() == ports@[i as int] as nat);
            assert(out@ =~= start + unsigned_items(next));
        }
        i += 1;
    }
    assert(numbers.take(i as int) =~= numbers);
}

/// Appends keys in CBOR.
fn push_keys(out: &mut Vec<u8>, keys: &Vec<Key>)
    ensures
        final(out)@ == old(out)@ + array_head(keys@.len()) + byte_string_items(key_bytes(keys@)),
{
    push_seq(out, keys.len());
    let ghost start = out@;
    let ghost list = key_bytes(keys@);
    let mut i: usize = 0;
    assert(out@ =~= start + byte_string_items(list.take(0)));
    while i < keys.len()
        invariant
            i <= keys@.len(),
            list == key_bytes(keys@),
            out@ == start + byte_string_items(list.take(i as int)),
        decreases keys@.len() - i,
    {
        push_bytes(out, keys[i].data.as_slice());
        proof {
            let next = list.take(i + 1);
            assert(next.drop_last() =~= list.take(i as int));
            assert(next.last() == keys@[i as int]@);
            assert(out@ =~= start + byte_string_items(next));
        }
        i += 1;
    }
    assert(list.take(i as int) =~= list);
}

/// Appends an optional address in CBOR.
fn push_node_addr_opt(out: &mut Vec<u8>, node_addr_opt: &Option<NodeAddr>)
    ensures
        final(out)@ == old(out)@ + node_addr_opt_cbor(addr_view(*node_addr_opt)),
{
    match node_addr_opt {
        Some(node_addr) => {
            push_struct(out, "NodeAddr", 2);
            push_text(out, "ip_addr");
            push_ip_addr(out, node_addr.ip_addr());
            push_text(out, "ports");
            push_ports(out, node_addr.ports());
            assert(out@ =~= old(out)@ + node_addr_cbor(node_addr@));
        },
        None => push_none(out),
    }
}

impl NodeRecordInner {
    /// The record in CBOR: the bytes that are signed.
    pub fn serialized(&self) -> (bytes: Vec<u8>)
        ensures
            bytes@ == self@.cbor(),
    {
        let mut out: Vec<u8> = Vec::new();
        push_struct(&mut out, "NodeRecordInner", 4);
        push_text(&mut out, "public_key");
        push_bytes(&mut out, self.public_key.data.as_slice());
        push_text(&mut out, "node_addr_opt");
        push_node_addr_opt(&mut out, &self.node_addr_opt);
        push_text(&mut out, "is_bootstrap_node");
        push_bool(&mut out, self.is_bootstrap_node);
        push_text(&mut out, "neighbors");
        push_keys(&mut out, &self.neighbors);
        assert(out@ =~= self@.cbor());
        out
    }

    /// A signature of the record: of the SHA-1 digest of its CBOR form.
    pub fn generate_signature<C: CryptDE + ?Sized>(&self, cryptde: &C) -> (signature: Result<
        CryptData,
        SigningError,
    >)
        ensures
            may_sign(cryptde, self@.cbor(), outcome_bytes(signature)),
    {
        let serialized = self.serialized();
        sign_message(cryptde, serialized.as_slice())
    }
}

} // verus!
