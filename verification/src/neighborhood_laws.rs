//! What holds of a neighborhood across the requests that are made to it.

use vstd::prelude::*;

use crate::neighborhood::{lone_root, NeighborhoodView};
use crate::node_addr::{IpAddr, NodeAddrView};
use crate::node_record::{without_first, NodeRecordView};
use crate::node_signatures::NodeSignaturesView;

verus! {

/// A new neighborhood is sound: it knows its root and no other node, and finds it at its own
/// address and no other.
pub proof fn law_new_neighborhood_knows_its_root_alone(root: NodeRecordView, node_addr: NodeAddrView)
    requires
        root.inner.node_addr_opt == Some(node_addr),
    ensures
        lone_root(root).wf(),
        lone_root(root).root() == root,
        forall|key: Seq<u8>| #[trigger]
            lone_root(root).node_by_key(key) == if key == root.inner.public_key {
                Some(root)
            } else {
                None
            },
        forall|ip_addr: IpAddr| #[trigger]
            lone_root(root).node_by_ip(ip_addr) == if ip_addr == node_addr.ip_addr {
                Some(root)
            } else {
                None
            },
{
}

/// Every IP address that is found leads to a node, and the root is always there.
pub proof fn law_lookups_lead_to_nodes(n: NeighborhoodView)
    requires
        n.wf(),
    ensures
        n.node_by_key(n.this_node) == Some(n.root()),
        forall|ip_addr: IpAddr| #[trigger]
            n.by_ip_addr.contains_key(ip_addr) <==> n.node_by_ip(ip_addr) is Some,
{
}

/// A neighborhood stays sound whatever is asked of it.
pub proof fn law_requests_keep_a_neighborhood_sound(
    n: NeighborhoodView,
    key: Seq<u8>,
    to: Seq<u8>,
    record: NodeRecordView,
)
    requires
        n.wf(),
    ensures
        n.with_node(record).wf(),
        n.by_public_key.contains_key(key) ==> n.with_record(key, record).wf(),
        n.by_public_key.contains_key(key) ==> n.with_neighbor(key, to).wf(),
        n.by_public_key.contains_key(key) ==> n.without_neighbor(key).wf(),
{
}

/// No request takes a node away or changes which one is the root.
pub proof fn law_nodes_never_leave(
    n: NeighborhoodView,
    key: Seq<u8>,
    to: Seq<u8>,
    record: NodeRecordView,
)
    requires
        n.wf(),
    ensures
        n.by_public_key.dom().subset_of(n.with_node(record).by_public_key.dom()),
        n.by_public_key.dom().subset_of(n.with_record(key, record).by_public_key.dom()),
        n.by_public_key.dom().subset_of(n.with_neighbor(key, to).by_public_key.dom()),
        n.by_public_key.dom().subset_of(n.without_neighbor(key).by_public_key.dom()),
        n.with_node(record).this_node == n.this_node,
        n.with_record(key, record).this_node == n.this_node,
        n.with_neighbor(key, to).this_node == n.this_node,
        n.without_neighbor(key).this_node == n.this_node,
{
}

/// A node that was added is found by its key and, if it has an address, at its IP address;
/// what else was found is found as before, and no other record with its key can be added.
pub proof fn law_added_node_is_found(n: NeighborhoodView, record: NodeRecordView)
    requires
        n.wf(),
        !n.by_public_key.contains_key(record.inner.public_key),
    ensures
        n.with_node(record).by_public_key.contains_key(record.inner.public_key),
        n.with_node(record).node_by_key(record.inner.public_key) == Some(record),
        forall|key: Seq<u8>|
            key != record.inner.public_key ==> #[trigger] n.with_node(record).node_by_key(key)
                == n.node_by_key(key),
        record.inner.node_addr_opt matches Some(node_addr) ==> n.with_node(record).node_by_ip(
            node_addr.ip_addr,
        ) == Some(record),
        forall|ip_addr: IpAddr|
            (record.inner.node_addr_opt matches Some(node_addr) ==> node_addr.ip_addr != ip_addr)
                ==> #[trigger] n.with_node(record).node_by_ip(ip_addr) == n.node_by_ip(ip_addr),
{
}

/// A connection that was added is there, in its own direction only; all others are as they
/// were, and so is what is found at each IP address.
pub proof fn law_added_neighbor_is_connected(n: NeighborhoodView, from: Seq<u8>, to: Seq<u8>)
    requires
        n.wf(),
        n.by_public_key.contains_key(from),
    ensures
        n.with_neighbor(from, to).has_neighbor(from, to),
        forall|a: Seq<u8>, b: Seq<u8>|
            (a != from || b != to) ==> #[trigger] n.with_neighbor(from, to).has_neighbor(a, b)
                == n.has_neighbor(a, b),
        n.with_neighbor(from, to).by_ip_addr == n.by_ip_addr,
        n.with_neighbor(from, to).by_public_key.dom() == n.by_public_key.dom(),
{
    let before = n.by_public_key[from].inner.neighbors;
    let after = before.push(to);
    assert(n.with_neighbor(from, to).by_public_key[from].inner.neighbors == after);
    assert(after[before.len() as int] == to);
    assert forall|a: Seq<u8>, b: Seq<u8>| (a != from || b != to) implies #[trigger] n.with_neighbor(
        from,
        to,
    ).has_neighbor(a, b) == n.has_neighbor(a, b) by {
        if a == from && n.has_neighbor(a, b) {
            let i = choose|i: int| 0 <= i < before.len() && before[i] == b;
            assert(after[i] == b);
        }
        if a == from && n.with_neighbor(from, to).has_neighbor(a, b) {
            let i = choose|i: int| 0 <= i < after.len() && after[i] == b;
            assert(before[i] == b);
        }
    }
    assert(n.with_neighbor(from, to).by_public_key.dom() =~= n.by_public_key.dom());
}

/// Connecting a node only to those that it is not connected to leaves no connection twice.
pub proof fn law_no_connection_is_added_twice(n: NeighborhoodView, from: Seq<u8>, to: Seq<u8>)
    requires
        n.wf(),
        n.by_public_key.contains_key(from),
        n.by_public_key[from].inner.neighbors.no_duplicates(),
        !n.has_neighbor(from, to),
    ensures
        n.with_neighbor(from, to).by_public_key[from].inner.neighbors.no_duplicates(),
{
    let before = n.by_public_key[from].inner.neighbors;
    let after = before.push(to);
    assert forall|i: int, j: int|
        0 <= i < after.len() && 0 <= j < after.len() && i != j implies after[i] != after[j] by {
        if i < before.len() && j == before.len() {
            assert(before.contains(before[i]));
        }
        if j < before.len() && i == before.len() {
            assert(before.contains(before[j]));
        }
    }
}

/// Without its first mention a key is mentioned once less, and every other as often as before.
pub proof fn law_one_mention_is_removed(keys: Seq<Seq<u8>>, key: Seq<u8>)
    ensures
        keys.contains(key) ==> without_first(keys, key).to_multiset() == keys.to_multiset().remove(
            key,
        ),
        !keys.contains(key) ==> without_first(keys, key) == keys,
        keys.to_multiset().count(key) <= 1 ==> !without_first(keys, key).contains(key),
        keys.no_duplicates() ==> without_first(keys, key).no_duplicates(),
        forall|other: Seq<u8>|
            other != key ==> #[trigger] without_first(keys, key).contains(other) == keys.contains(
                other,
            ),
{
    keys.index_of_first_ensures(key);
    if keys.contains(key) {
        let index = keys.index_of_first(key).unwrap();
        let after = keys.remove(index);
        assert(without_first(keys, key) == after);
        keys.to_multiset_ensures();
        assert(after.to_multiset() =~= keys.to_multiset().remove(key));
        assert forall|other: Seq<u8>| other != key implies #[trigger] after.contains(other)
            == keys.contains(other) by {
            if keys.contains(other) {
                let i = choose|i: int| 0 <= i < keys.len() && keys[i] == other;
                assert(after[if i < index { i } else { i - 1 }] == other);
            }
            if after.contains(other) {
                let i = choose|i: int| 0 <= i < after.len() && after[i] == other;
                assert(keys[if i < index { i } else { i + 1 }] == other);
            }
        }
        after.to_multiset_ensures();
        assert(after.contains(key) == (after.to_multiset().count(key) > 0));
        if keys.no_duplicates() {
            assert forall|i: int, j: int|
                0 <= i < after.len() && 0 <= j < after.len() && i != j implies after[i]
                != after[j] by {
                assert(keys[if i < index { i } else { i + 1 }] == after[i]);
                assert(keys[if j < index { j } else { j + 1 }] == after[j]);
            }
        }
    }
}

/// A neighbor that was removed stays known but has no address and is not found at the one it
/// had. Every other connection, and what is found at every other IP address, is as it was.
pub proof fn law_removed_neighbor_has_no_address(n: NeighborhoodView, key: Seq<u8>)
    requires
        n.wf(),
        n.by_public_key.contains_key(key),
    ensures
        n.without_neighbor(key).node_by_key(key) matches Some(record)
            && record.inner.node_addr_opt is None,
        n.by_public_key[key].inner.node_addr_opt matches Some(node_addr) ==> n.without_neighbor(
            key,
        ).node_by_ip(node_addr.ip_addr) is None,
        forall|ip_addr: IpAddr|
            (n.by_public_key[key].inner.node_addr_opt matches Some(node_addr) ==> node_addr.ip_addr
                != ip_addr) ==> {
                &&& #[trigger] n.without_neighbor(key).by_ip_addr.contains_key(ip_addr)
                    == n.by_ip_addr.contains_key(ip_addr)
                &&& n.by_ip_addr.contains_key(ip_addr) ==> n.without_neighbor(
                    key,
                ).by_ip_addr[ip_addr] == n.by_ip_addr[ip_addr]
            },
        forall|a: Seq<u8>, b: Seq<u8>|
            (a != n.this_node || b != key) ==> #[trigger] n.without_neighbor(key).has_neighbor(a, b)
                == n.has_neighbor(a, b),
        forall|other: Seq<u8>|
            other != key && other != n.this_node ==> #[trigger] n.without_neighbor(key).node_by_key(
                other,
            ) == n.node_by_key(other),
{
    law_one_mention_is_removed(n.root().inner.neighbors, key);
    assert(n.without_address(key).root().inner.neighbors == n.root().inner.neighbors);
}

/// A neighbor that was removed is not connected to the root any more, where the root was not
/// connected to it twice; and a root that was connected to no node twice still is not.
pub proof fn law_removed_neighbor_is_not_connected(n: NeighborhoodView, key: Seq<u8>)
    requires
        n.wf(),
        n.by_public_key.contains_key(key),
        n.root().inner.neighbors.to_multiset().count(key) <= 1,
    ensures
        !n.without_neighbor(key).has_neighbor(n.this_node, key),
        n.root().inner.neighbors.no_duplicates() ==> n.without_neighbor(
            key,
        ).root().inner.neighbors.no_duplicates(),
{
    law_one_mention_is_removed(n.root().inner.neighbors, key);
}

/// Removing a neighbor again changes nothing, where the root was not connected to it twice.
pub proof fn law_removing_again_changes_nothing(n: NeighborhoodView, key: Seq<u8>)
    requires
        n.wf(),
        n.by_public_key.contains_key(key),
        n.root().inner.neighbors.to_multiset().count(key) <= 1,
    ensures
        n.without_neighbor(key).without_neighbor(key) == n.without_neighbor(key),
{
    let once = n.without_neighbor(key);
    let list = n.root().inner.neighbors;
    law_one_mention_is_removed(list, key);
    without_first(list, key).index_of_first_ensures(key);
    assert(without_first(without_first(list, key), key) == without_first(list, key));
    assert(once.root().inner.neighbors == without_first(list, key));
    assert(once.by_public_key[key].inner.node_addr_opt is None);
    assert(once.by_public_key[key].with_node_addr(None) =~= once.by_public_key[key]);
    assert(once.without_address(key) =~= once);
    assert(once.root().without_neighbor(key) =~= once.root());
    assert(once.without_neighbor(key) =~= once);
}

/// Removing a neighbor that the root has just been connected to gives the root back the
/// neighbors it had.
pub proof fn law_removing_undoes_adding(n: NeighborhoodView, key: Seq<u8>)
    requires
        n.wf(),
        n.by_public_key.contains_key(key),
        !n.has_neighbor(n.this_node, key),
    ensures
        n.with_neighbor(n.this_node, key).without_neighbor(key).root().inner.neighbors
            == n.root().inner.neighbors,
        n.with_neighbor(n.this_node, key).without_neighbor(key) == n.without_neighbor(key),
{
    let before = n.root().inner.neighbors;
    let after = before.push(key);
    after.index_of_first_ensures(key);
    before.index_of_first_ensures(key);
    assert(after[before.len() as int] == key);
    assert(after.contains(key));
    let index = after.index_of_first(key).unwrap();
    if index < before.len() {
        assert(before[index] == key);
        assert(before.contains(key));
    }
    assert(after.remove(index) =~= before);
    assert(without_first(after, key) == before);
    assert(without_first(before, key) == before);
    let added = n.with_neighbor(n.this_node, key);
    assert(added.root().inner.neighbors == after);
    assert(added.without_neighbor(key).by_public_key =~= n.without_neighbor(key).by_public_key) by {
        assert(added.without_neighbor(key).root() =~= n.without_neighbor(key).root());
    }
    assert(added.without_neighbor(key) =~= n.without_neighbor(key));
}

/// Whether every connection is to a known node.
pub open spec fn connections_known(n: NeighborhoodView) -> bool {
    forall|from: Seq<u8>, to: Seq<u8>| #[trigger]
        n.has_neighbor(from, to) ==> n.by_public_key.contains_key(to)
}

/// A new neighborhood has no connections to unknown nodes, and none come in by connecting known
/// nodes, by removing neighbors, or by adding nodes whose own connections are to known nodes.
pub proof fn law_connections_stay_among_known_nodes(
    n: NeighborhoodView,
    from: Seq<u8>,
    to: Seq<u8>,
    record: NodeRecordView,
)
    requires
        n.wf(),
        connections_known(n),
    ensures
        record.inner.neighbors.len() == 0 ==> connections_known(lone_root(record)),
        n.by_public_key.contains_key(from) && n.by_public_key.contains_key(to)
            ==> connections_known(n.with_neighbor(from, to)),
        n.by_public_key.contains_key(to) ==> connections_known(n.without_neighbor(to)),
        !n.by_public_key.contains_key(record.inner.public_key) && (forall|key: Seq<u8>| #[trigger]
            record.inner.neighbors.contains(key) ==> key == record.inner.public_key
                || n.by_public_key.contains_key(key)) ==> connections_known(n.with_node(record)),
{
    if n.by_public_key.contains_key(from) && n.by_public_key.contains_key(to) {
        law_added_neighbor_is_connected(n, from, to);
        assert forall|a: Seq<u8>, b: Seq<u8>| #[trigger]
            n.with_neighbor(from, to).has_neighbor(a, b) implies n.with_neighbor(
            from,
            to,
        ).by_public_key.contains_key(b) by {
            if a != from || b != to {
                assert(n.has_neighbor(a, b));
            }
        }
    }
    if n.by_public_key.contains_key(to) {
        law_removed_neighbor_has_no_address(n, to);
        assert forall|a: Seq<u8>, b: Seq<u8>| #[trigger]
            n.without_neighbor(to).has_neighbor(a, b) implies n.without_neighbor(
            to,
        ).by_public_key.contains_key(b) by {
            if a != n.this_node || b != to {
                assert(n.has_neighbor(a, b));
            }
        }
    }
    if forall|key: Seq<u8>| #[trigger]
        record.inner.neighbors.contains(key) ==> key == record.inner.public_key
            || n.by_public_key.contains_key(key) {
        assert forall|a: Seq<u8>, b: Seq<u8>| #[trigger]
            n.with_node(record).has_neighbor(a, b) implies n.with_node(
            record,
        ).by_public_key.contains_key(b) by {
            if a != record.inner.public_key {
                assert(n.has_neighbor(a, b));
            }
        }
    }
}

/// An address that was set stays until it is unset; then the record is as it was before, and
/// another address can be set.
pub proof fn law_address_is_set_once(
    record: NodeRecordView,
    first: NodeAddrView,
    second: NodeAddrView,
)
    requires
        record.inner.node_addr_opt is None,
    ensures
        record.with_node_addr(Some(first)).inner.node_addr_opt == Some(first),
        record.with_node_addr(Some(first)).with_node_addr(None) == record,
        record.with_node_addr(Some(first)).with_node_addr(None).with_node_addr(Some(second))
            == record.with_node_addr(Some(second)),
{
}

/// Signatures that were set are there, and the record says what it said.
pub proof fn law_signatures_leave_the_record_as_it_is(
    record: NodeRecordView,
    signatures: NodeSignaturesView,
)
    ensures
        record.with_signatures(signatures).signatures == Some(signatures),
        record.with_signatures(signatures).inner == record.inner,
{
}

} // verus!
