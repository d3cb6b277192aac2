//! What holds of node records and of the values they are made of: when two are the same, what
//! they give back of what they were made with, and what each change leaves as it was.

use vstd::prelude::*;

use crate::cryptde::{CryptData, Key, PlainData};
use crate::neighborhood_database::NeighborhoodDatabaseError;
use crate::node_addr::{addr_view, IpAddr, NodeAddr};
use crate::node_record::NodeRecord;
use crate::node_record_inner::NodeRecordInner;
use crate::node_signatures::{signatures_view, NodeSignatures};

verus! {

/// Keys and data have the bytes they were made of, and so have their copies.
pub proof fn law_bytes_are_kept(
    data: &[u8],
    key: Key,
    plain: PlainData,
    crypt: CryptData,
    key_copy: Key,
    crypt_copy: CryptData,
)
    requires
        call_ensures(Key::new, (data,), key),
        call_ensures(PlainData::new, (data,), plain),
        call_ensures(CryptData::new, (data,), crypt),
        call_ensures(<Key as Clone>::clone, (&key,), key_copy),
        call_ensures(<CryptData as Clone>::clone, (&crypt,), crypt_copy),
    ensures
        key.data@ == data@,
        plain.data@ == data@,
        crypt.data@ == data@,
        key_copy.data@ == data@,
        crypt_copy.data@ == data@,
{
}

/// Two keys, and two pieces of data, are the same if and only if they have the same bytes.
pub proof fn law_same_bytes(
    a: &Key,
    b: &Key,
    same_key: bool,
    c: &CryptData,
    d: &CryptData,
    same_data: bool,
)
    requires
        call_ensures(<Key as PartialEq>::eq, (a, b), same_key),
        call_ensures(<CryptData as PartialEq>::eq, (c, d), same_data),
    ensures
        same_key <==> a.data@ == b.data@,
        same_data <==> c.data@ == d.data@,
{
}

/// An address gives back the IP address and the ports that it was made of, and so does a copy.
pub proof fn law_address_is_what_it_was_made_of(
    ip_addr: &IpAddr,
    ports: &Vec<u16>,
    node_addr: NodeAddr,
    copy: NodeAddr,
    kept_ip_addr: IpAddr,
    kept_ports: &Vec<u16>,
)
    requires
        call_ensures(NodeAddr::new, (ip_addr, ports), node_addr),
        call_ensures(<NodeAddr as Clone>::clone, (&node_addr,), copy),
        call_ensures(NodeAddr::ip_addr, (&copy,), kept_ip_addr),
        call_ensures(NodeAddr::ports, (&copy,), kept_ports),
    ensures
        node_addr@.ip_addr == *ip_addr,
        node_addr@.ports == ports@,
        kept_ip_addr == *ip_addr,
        kept_ports@ == ports@,
{
}

/// Two addresses are the same if and only if they have the same IP address and the same ports in
/// the same order.
pub proof fn law_same_address(a: &NodeAddr, b: &NodeAddr, same: bool)
    requires
        call_ensures(<NodeAddr as PartialEq>::eq, (a, b), same),
    ensures
        same <==> a@.ip_addr == b@.ip_addr && a@.ports == b@.ports,
{
    assert(a@ == b@ <==> a@.ip_addr == b@.ip_addr && a@.ports == b@.ports);
}

/// Two pairs of signatures are the same if and only if both signatures have the same bytes; a copy
/// has them.
pub proof fn law_same_signatures(a: &NodeSignatures, b: &NodeSignatures, same: bool, copy: NodeSignatures)
    requires
        call_ensures(<NodeSignatures as PartialEq>::eq, (a, b), same),
        call_ensures(<NodeSignatures as Clone>::clone, (a,), copy),
    ensures
        same <==> a@.complete == b@.complete && a@.obscured == b@.obscured,
        copy@.complete == a@.complete,
        copy@.obscured == a@.obscured,
{
    assert(a@ == b@ <==> a@.complete == b@.complete && a@.obscured == b@.obscured);
}

/// The part of a record that is signed says what its fields hold, and so does a copy.
pub proof fn law_signed_part_says_what_it_holds(inner: &NodeRecordInner, copy: NodeRecordInner)
    requires
        call_ensures(<NodeRecordInner as Clone>::clone, (inner,), copy),
    ensures
        inner@.public_key == inner.public_key.data@,
        inner.node_addr_opt is None <==> inner@.node_addr_opt is None,
        inner.node_addr_opt matches Some(node_addr) ==> inner@.node_addr_opt == Some(node_addr@),
        inner@.is_bootstrap_node == inner.is_bootstrap_node,
        inner@.neighbors.len() == inner.neighbors@.len(),
        forall|i: int|
            0 <= i < inner.neighbors@.len() ==> #[trigger] inner@.neighbors[i]
                == inner.neighbors@[i].data@,
        copy.public_key.data@ == inner.public_key.data@,
        addr_view(copy.node_addr_opt) == addr_view(inner.node_addr_opt),
        copy.is_bootstrap_node == inner.is_bootstrap_node,
        copy.neighbors@.len() == inner.neighbors@.len(),
        forall|i: int|
            0 <= i < inner.neighbors@.len() ==> #[trigger] copy.neighbors@[i].data@
                == inner.neighbors@[i].data@,
{
    assert(copy@.neighbors.len() == inner@.neighbors.len());
    assert forall|i: int| 0 <= i < inner.neighbors@.len() implies #[trigger] copy.neighbors@[i].data@
        == inner.neighbors@[i].data@ by {
        assert(copy@.neighbors[i] == inner@.neighbors[i]);
    }
}

/// An optional value says something if and only if it is there, and then what the value says.
pub proof fn law_optional_values_say_what_they_hold(
    node_addr_opt: Option<NodeAddr>,
    signatures: Option<NodeSignatures>,
)
    ensures
        node_addr_opt is None <==> addr_view(node_addr_opt) is None,
        node_addr_opt matches Some(node_addr) ==> addr_view(node_addr_opt) == Some(node_addr@),
        signatures is None <==> signatures_view(signatures) is None,
        signatures matches Some(pair) ==> signatures_view(signatures) == Some(pair@),
{
}

/// The signed parts of two records are the same if and only if they have the same key, the same
/// address or none, the same flag, and the same neighbors in the same order.
pub proof fn law_same_signed_part(a: &NodeRecordInner, b: &NodeRecordInner, same: bool)
    requires
        call_ensures(<NodeRecordInner as PartialEq>::eq, (a, b), same),
    ensures
        same <==> {
            &&& a@.public_key == b@.public_key
            &&& a@.node_addr_opt == b@.node_addr_opt
            &&& a@.is_bootstrap_node == b@.is_bootstrap_node
            &&& a@.neighbors == b@.neighbors
        },
{
    if {
        &&& a@.public_key == b@.public_key
        &&& a@.node_addr_opt == b@.node_addr_opt
        &&& a@.is_bootstrap_node == b@.is_bootstrap_node
        &&& a@.neighbors == b@.neighbors
    } {
        assert(a@ == b@);
    }
}

/// Two records are the same if and only if they say the same of the node and have the same
/// signatures or none, byte for byte.
pub proof fn law_same_record(a: &NodeRecord, b: &NodeRecord, same: bool)
    requires
        call_ensures(<NodeRecord as PartialEq>::eq, (a, b), same),
    ensures
        same <==> {
            &&& a@.inner.public_key == b@.inner.public_key
            &&& a@.inner.node_addr_opt == b@.inner.node_addr_opt
            &&& a@.inner.is_bootstrap_node == b@.inner.is_bootstrap_node
            &&& a@.inner.neighbors == b@.inner.neighbors
            &&& a@.signatures is None == b@.signatures is None
            &&& (a@.signatures matches Some(of_a) ==> b@.signatures matches Some(of_b)
                ==> of_a.complete == of_b.complete && of_a.obscured == of_b.obscured)
        },
{
    if {
        &&& a@.inner.public_key == b@.inner.public_key
        &&& a@.inner.node_addr_opt == b@.inner.node_addr_opt
        &&& a@.inner.is_bootstrap_node == b@.inner.is_bootstrap_node
        &&& a@.inner.neighbors == b@.inner.neighbors
        &&& a@.signatures is None == b@.signatures is None
        &&& (a@.signatures matches Some(of_a) ==> b@.signatures matches Some(of_b)
            ==> of_a.complete == of_b.complete && of_a.obscured == of_b.obscured)
    } {
        if a@.signatures is Some {
            assert(a@.signatures->0 =~= b@.signatures->0);
        }
        assert(a@.inner =~= b@.inner);
        assert(a@ == b@);
    }
}

/// A record gives back what it was made with, and has no neighbors.
pub proof fn law_new_record_is_what_it_was_made_with(
    public_key: &Key,
    node_addr_opt: Option<&NodeAddr>,
    is_bootstrap_node: bool,
    signatures: Option<NodeSignatures>,
    record: NodeRecord,
    neighbors: &Vec<Key>,
    kept_signatures: Option<NodeSignatures>,
)
    requires
        call_ensures(
            NodeRecord::new,
            (public_key, node_addr_opt, is_bootstrap_node, signatures),
            record,
        ),
        call_ensures(NodeRecord::neighbors, (&record,), neighbors),
        call_ensures(NodeRecord::signatures, (&record,), kept_signatures),
    ensures
        record@.inner.public_key == public_key.data@,
        node_addr_opt is None <==> record@.inner.node_addr_opt is None,
        node_addr_opt matches Some(node_addr) ==> record@.inner.node_addr_opt == Some(node_addr@),
        record@.inner.is_bootstrap_node == is_bootstrap_node,
        record@.inner.neighbors.len() == 0,
        neighbors@.len() == 0,
        signatures is None <==> kept_signatures is None,
        signatures is None <==> record@.signatures is None,
        signatures matches Some(pair) ==> {
            &&& record@.signatures == Some(pair@)
            &&& kept_signatures matches Some(kept)
            &&& kept@ == pair@
        },
{
    assert(record@.inner.neighbors.len() == neighbors@.len());
}

/// What is read of a record is what it says.
pub proof fn law_record_is_read_as_it_is(
    record: &NodeRecord,
    public_key: &Key,
    node_addr_opt: Option<NodeAddr>,
    is_bootstrap_node: bool,
    neighbors: &Vec<Key>,
    signatures: Option<NodeSignatures>,
    copy: NodeRecord,
)
    requires
        call_ensures(NodeRecord::public_key, (record,), public_key),
        call_ensures(NodeRecord::node_addr_opt, (record,), node_addr_opt),
        call_ensures(NodeRecord::is_bootstrap_node, (record,), is_bootstrap_node),
        call_ensures(NodeRecord::neighbors, (record,), neighbors),
        call_ensures(NodeRecord::signatures, (record,), signatures),
        call_ensures(<NodeRecord as Clone>::clone, (record,), copy),
    ensures
        public_key.data@ == record@.inner.public_key,
        node_addr_opt is None <==> record@.inner.node_addr_opt is None,
        node_addr_opt matches Some(node_addr) ==> record@.inner.node_addr_opt == Some(node_addr@),
        is_bootstrap_node == record@.inner.is_bootstrap_node,
        neighbors@.len() == record@.inner.neighbors.len(),
        forall|i: int|
            0 <= i < neighbors@.len() ==> #[trigger] neighbors@[i].data@
                == record@.inner.neighbors[i],
        signatures is None <==> record@.signatures is None,
        signatures matches Some(pair) ==> record@.signatures == Some(pair@),
        copy@ == record@,
{
}

/// An address goes into a record that has none, and nothing else of the record changes; where
/// there is one it stays, and is what the refusal names.
pub proof fn law_address_goes_in_where_there_is_none(
    record: &mut NodeRecord,
    node_addr: &NodeAddr,
    result: Result<(), NeighborhoodDatabaseError>,
)
    requires
        call_ensures(NodeRecord::set_node_addr, (record, node_addr), result),
    ensures
        final(record)@.inner.public_key == old(record)@.inner.public_key,
        final(record)@.inner.is_bootstrap_node == old(record)@.inner.is_bootstrap_node,
        final(record)@.inner.neighbors == old(record)@.inner.neighbors,
        final(record)@.signatures == old(record)@.signatures,
        old(record)@.inner.node_addr_opt is None ==> result is Ok
            && final(record)@.inner.node_addr_opt == Some(node_addr@),
        old(record)@.inner.node_addr_opt matches Some(present) ==> {
            &&& result matches Err(NeighborhoodDatabaseError::NodeAddrAlreadySet(kept))
            &&& kept@ == present
            &&& final(record)@.inner.node_addr_opt == Some(present)
        },
{
}

/// Taking the address out of a record leaves the rest.
pub proof fn law_address_goes_out(record: &mut NodeRecord)
    requires
        call_ensures(NodeRecord::unset_node_addr, (record,), ()),
    ensures
        final(record)@.inner.node_addr_opt is None,
        final(record)@.inner.public_key == old(record)@.inner.public_key,
        final(record)@.inner.is_bootstrap_node == old(record)@.inner.is_bootstrap_node,
        final(record)@.inner.neighbors == old(record)@.inner.neighbors,
        final(record)@.signatures == old(record)@.signatures,
{
}

/// Signatures go into a record that has none; those that are there stay, and others are refused.
/// What the record says of the node does not change.
pub proof fn law_signatures_go_in_where_there_are_none(
    record: &mut NodeRecord,
    signatures: NodeSignatures,
    result: Result<bool, NeighborhoodDatabaseError>,
)
    requires
        call_ensures(NodeRecord::set_signatures, (record, signatures), result),
    ensures
        final(record)@.inner == old(record)@.inner,
        old(record)@.signatures is None ==> {
            &&& result matches Ok(changed)
            &&& changed
            &&& final(record)@.signatures == Some(signatures@)
        },
        old(record)@.signatures matches Some(present) ==> {
            &&& final(record)@.signatures == Some(present)
            &&& present.complete == signatures@.complete && present.obscured == signatures@.obscured
                ==> (result matches Ok(changed) && !changed)
            &&& present.complete != signatures@.complete || present.obscured != signatures@.obscured
                ==> {
                &&& result matches Err(NeighborhoodDatabaseError::NodeSignaturesAlreadySet(kept))
                &&& kept@.complete == present.complete
                &&& kept@.obscured == present.obscured
            }
        },
{
    if old(record)@.signatures is Some {
        let present = old(record)@.signatures->0;
        if present.complete == signatures@.complete && present.obscured == signatures@.obscured {
            assert(present =~= signatures@);
        }
    }
}

/// The neighbors of a record can be changed for any others, and nothing else of it changes.
pub proof fn law_neighbors_can_be_changed(record: &mut NodeRecord, neighbors: &mut Vec<Key>)
    requires
        call_ensures(NodeRecord::neighbors_mut, (record,), neighbors),
    ensures
        old(neighbors)@.len() == old(record)@.inner.neighbors.len(),
        forall|i: int|
            0 <= i < old(neighbors)@.len() ==> #[trigger] old(neighbors)@[i].data@
                == old(record)@.inner.neighbors[i],
        final(record)@.inner.neighbors.len() == final(neighbors)@.len(),
        forall|i: int|
            0 <= i < final(neighbors)@.len() ==> #[trigger] final(record)@.inner.neighbors[i]
                == final(neighbors)@[i].data@,
        final(record)@.inner.public_key == old(record)@.inner.public_key,
        final(record)@.inner.node_addr_opt == old(record)@.inner.node_addr_opt,
        final(record)@.inner.is_bootstrap_node == old(record)@.inner.is_bootstrap_node,
        final(record)@.signatures == old(record)@.signatures,
{
}

/// A record is connected to a node if and only if that node's key is somewhere in its list.
pub proof fn law_record_is_connected_to_those_in_its_list(
    record: &NodeRecord,
    public_key: &Key,
    connected: bool,
)
    requires
        call_ensures(NodeRecord::has_neighbor, (record, public_key), connected),
    ensures
        connected <==> exists|i: int|
            0 <= i < record@.inner.neighbors.len() && #[trigger] record@.inner.neighbors[i]
                == public_key.data@,
{
}

/// Removing a neighbor takes the first place where its key is out of the list and no other, and
/// the others stay in their order; nothing else of the record changes.
pub proof fn law_first_mention_leaves_a_record(
    record: &mut NodeRecord,
    public_key: &Key,
    first: int,
    removed: bool,
)
    requires
        0 <= first < old(record)@.inner.neighbors.len(),
        old(record)@.inner.neighbors[first] == public_key.data@,
        forall|i: int|
            0 <= i < first ==> #[trigger] old(record)@.inner.neighbors[i] != public_key.data@,
        call_ensures(NodeRecord::remove_neighbor, (record, public_key), removed),
    ensures
        removed,
        final(record)@.inner.neighbors.len() == old(record)@.inner.neighbors.len() - 1,
        forall|i: int|
            0 <= i < first ==> #[trigger] final(record)@.inner.neighbors[i] == old(record)@.inner.neighbors[i],
        forall|i: int|
            first <= i < final(record)@.inner.neighbors.len() ==> #[trigger] final(record)@.inner.neighbors[i] == old(record)@.inner.neighbors[i + 1],
        final(record)@.inner.public_key == old(record)@.inner.public_key,
        final(record)@.inner.node_addr_opt == old(record)@.inner.node_addr_opt,
        final(record)@.inner.is_bootstrap_node == old(record)@.inner.is_bootstrap_node,
        final(record)@.signatures == old(record)@.signatures,
{
    let list = old(record)@.inner.neighbors;
    list.index_of_first_ensures(public_key@);
    assert(list.contains(public_key@));
    assert(list.index_of_first(public_key@) == Some(first));
}

/// Removing a neighbor that is not in the list changes nothing.
pub proof fn law_unmentioned_neighbor_is_not_removed(
    record: &mut NodeRecord,
    public_key: &Key,
    removed: bool,
)
    requires
        forall|i: int|
            0 <= i < old(record)@.inner.neighbors.len() ==> #[trigger] old(record)@.inner.neighbors[i] != public_key.data@,
        call_ensures(NodeRecord::remove_neighbor, (record, public_key), removed),
    ensures
        !removed,
        final(record)@ == old(record)@,
{
    let list = old(record)@.inner.neighbors;
    list.index_of_first_ensures(public_key@);
    assert(!list.contains(public_key@));
    assert(final(record)@ =~= old(record)@);
}

} // verus!
