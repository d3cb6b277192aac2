//! What holds of a neighborhood after any number of requests to add nodes, to connect them, to
//! remove neighbors and to change records.

use vstd::prelude::*;

use crate::neighborhood::{lone_root, NeighborhoodView, Request};
use crate::neighborhood_laws::law_nodes_never_leave;
use crate::node_addr::IpAddr;
use crate::node_record::NodeRecordView;

verus! {

/// Whether every record is under the key that it names.
pub open spec fn records_under_their_keys(n: NeighborhoodView) -> bool {
    forall|key: Seq<u8>| #[trigger]
        n.by_public_key.contains_key(key) ==> n.by_public_key[key].inner.public_key == key
}

/// Whether every IP address that is found leads to a record with that address.
pub open spec fn addresses_agree(n: NeighborhoodView) -> bool {
    forall|ip_addr: IpAddr| #[trigger]
        n.by_ip_addr.contains_key(ip_addr) ==> {
            &&& n.node_by_ip(ip_addr) matches Some(record)
            &&& record.inner.node_addr_opt matches Some(node_addr)
            &&& node_addr.ip_addr == ip_addr
        }
}

/// The IP address of a record, if it has an address.
pub open spec fn ip_of(record: NodeRecordView) -> Option<IpAddr> {
    match record.inner.node_addr_opt {
        Some(node_addr) => Some(node_addr.ip_addr),
        None => None,
    }
}

/// Whether every record with an address is the one that is found at its IP address.
pub open spec fn addressed_nodes_are_found(n: NeighborhoodView) -> bool {
    forall|key: Seq<u8>| #[trigger]
        n.by_public_key.contains_key(key) ==> (ip_of(n.by_public_key[key]) matches Some(ip_addr)
            ==> n.by_ip_addr.contains_key(ip_addr) && n.by_ip_addr[ip_addr] == key)
}

/// Whether no request puts a record under a key that it does not name.
pub open spec fn keys_are_kept(n: NeighborhoodView, requests: Seq<Request>) -> bool
    decreases requests.len(),
{
    requests.len() > 0 ==> {
        &&& keys_are_kept(n, requests.drop_last())
        &&& requests.last() matches Request::ChangeRecord(key, record) ==> n.after_all(
            requests.drop_last(),
        ).by_public_key.contains_key(key) ==> record.inner.public_key == key
    }
}

/// Whether every record that is put in place of one that is found at an IP address has that
/// address.
pub open spec fn found_records_keep_their_addresses(
    n: NeighborhoodView,
    requests: Seq<Request>,
) -> bool
    decreases requests.len(),
{
    requests.len() > 0 ==> {
        let before = n.after_all(requests.drop_last());
        &&& found_records_keep_their_addresses(n, requests.drop_last())
        &&& requests.last() matches Request::ChangeRecord(key, record) ==> forall|ip_addr: IpAddr|
            #[trigger]
            before.by_ip_addr.contains_key(ip_addr) && before.by_ip_addr[ip_addr] == key ==> ip_of(
                record,
            ) == Some(ip_addr)
    }
}

/// Whether every record with an address that is put in place of another is found at that address.
pub open spec fn changed_records_are_found(n: NeighborhoodView, requests: Seq<Request>) -> bool
    decreases requests.len(),
{
    requests.len() > 0 ==> {
        let before = n.after_all(requests.drop_last());
        &&& changed_records_are_found(n, requests.drop_last())
        &&& requests.last() matches Request::ChangeRecord(key, record)
            ==> before.by_public_key.contains_key(key) ==> (ip_of(record) matches Some(ip_addr)
            ==> before.by_ip_addr.contains_key(ip_addr) && before.by_ip_addr[ip_addr] == key)
    }
}

/// Whether no node is added with the IP address of another.
pub open spec fn added_addresses_are_free(n: NeighborhoodView, requests: Seq<Request>) -> bool
    decreases requests.len(),
{
    requests.len() > 0 ==> {
        let before = n.after_all(requests.drop_last());
        &&& added_addresses_are_free(n, requests.drop_last())
        &&& requests.last() matches Request::AddNode(record) ==> before.grows_by(requests.last())
            ==> ip_of(record) is Some ==> forall|key: Seq<u8>| #[trigger]
            before.by_public_key.contains_key(key) ==> ip_of(before.by_public_key[key]) != ip_of(
                record,
            )
    }
}

/// The IP address of a record as a list, which is empty where it has none.
pub open spec fn ip_list(record: NodeRecordView) -> Seq<IpAddr> {
    match ip_of(record) {
        Some(ip_addr) => seq![ip_addr],
        None => Seq::empty(),
    }
}

/// The IP addresses of the nodes that are added, in their order.
pub open spec fn added_ips(n: NeighborhoodView, requests: Seq<Request>) -> Seq<IpAddr>
    decreases requests.len(),
{
    if requests.len() == 0 {
        Seq::empty()
    } else {
        let earlier = requests.drop_last();
        added_ips(n, earlier) + match requests.last() {
            Request::AddNode(record) if n.after_all(earlier).grows_by(requests.last()) => ip_list(
                record,
            ),
            _ => Seq::empty(),
        }
    }
}

/// A neighborhood stays sound, with the same root, and loses no node, also where records are changed
/// for any others.
pub proof fn law_history_keeps_a_neighborhood_sound(n: NeighborhoodView, requests: Seq<Request>)
    requires
        n.wf(),
    ensures
        n.after_all(requests).wf(),
        n.after_all(requests).this_node == n.this_node,
        n.by_public_key.dom().subset_of(n.after_all(requests).by_public_key.dom()),
    decreases requests.len(),
{
    if requests.len() > 0 {
        law_history_keeps_a_neighborhood_sound(n, requests.drop_last());
        let before = n.after_all(requests.drop_last());
        match requests.last() {
            Request::AddNode(record) => law_nodes_never_leave(
                before,
                before.this_node,
                before.this_node,
                record,
            ),
            Request::AddNeighbor(from, to) => law_nodes_never_leave(
                before,
                from,
                to,
                before.root(),
            ),
            Request::RemoveNeighbor(key) => law_nodes_never_leave(
                before,
                key,
                key,
                before.root(),
            ),
            Request::ChangeRecord(key, record) => law_nodes_never_leave(
                before,
                key,
                key,
                record,
            ),
        }
    }
}

/// In a new neighborhood every record is under the key that it names, and whatever is asked of a
/// neighborhood where that is so, it stays so, unless a record is changed for one that names
/// another key. The root's record then names the root's key.
pub proof fn law_records_stay_under_their_keys(
    root: NodeRecordView,
    n: NeighborhoodView,
    requests: Seq<Request>,
)
    requires
        n.wf(),
        records_under_their_keys(n),
        keys_are_kept(n, requests),
    ensures
        records_under_their_keys(lone_root(root)),
        records_under_their_keys(n.after_all(requests)),
        n.after_all(requests).root().inner.public_key == n.this_node,
    decreases requests.len(),
{
    law_history_keeps_a_neighborhood_sound(n, requests);
    if requests.len() > 0 {
        law_records_stay_under_their_keys(root, n, requests.drop_last());
        law_history_keeps_a_neighborhood_sound(n, requests.drop_last());
        let before = n.after_all(requests.drop_last());
        let after = n.after_all(requests);
        assert forall|key: Seq<u8>| #[trigger] after.by_public_key.contains_key(key) implies
            after.by_public_key[key].inner.public_key == key by {
            if before.by_public_key.contains_key(key) {
                assert(before.by_public_key[key].inner.public_key == key);
            }
        }
    }
}

/// In a new neighborhood every IP address that is found leads to a record with that address, and
/// whatever is asked of a neighborhood where that is so, it stays so, unless a record that is found
/// at an IP address is changed for one without that address.
pub proof fn law_addresses_stay_in_agreement(
    root: NodeRecordView,
    n: NeighborhoodView,
    requests: Seq<Request>,
)
    requires
        n.wf(),
        addresses_agree(n),
        found_records_keep_their_addresses(n, requests),
    ensures
        addresses_agree(lone_root(root)),
        addresses_agree(n.after_all(requests)),
    decreases requests.len(),
{
    if requests.len() > 0 {
        law_addresses_stay_in_agreement(root, n, requests.drop_last());
        law_history_keeps_a_neighborhood_sound(n, requests.drop_last());
        lemma_addresses_agree_after(n, requests);
    }
}

/// The last request keeps the addresses in agreement.
proof fn lemma_addresses_agree_after(n: NeighborhoodView, requests: Seq<Request>)
    requires
        requests.len() > 0,
        n.after_all(requests.drop_last()).wf(),
        addresses_agree(n.after_all(requests.drop_last())),
        found_records_keep_their_addresses(n, requests),
    ensures
        addresses_agree(n.after_all(requests)),
{
    let before = n.after_all(requests.drop_last());
    let after = n.after_all(requests);
    assert forall|ip_addr: IpAddr| #[trigger] after.by_ip_addr.contains_key(ip_addr) implies {
        &&& after.node_by_ip(ip_addr) matches Some(record)
        &&& record.inner.node_addr_opt matches Some(node_addr)
        &&& node_addr.ip_addr == ip_addr
    } by {
        if before.by_ip_addr.contains_key(ip_addr) {
            assert(before.node_by_ip(ip_addr) is Some);
            assert(before.by_public_key.contains_key(before.by_ip_addr[ip_addr]));
        }
    }
}

/// In a new neighborhood every record with an address is the one that is found at its IP address,
/// and whatever is asked of a neighborhood where that is so, it stays so, unless a node is added
/// with the IP address of another, or a record is changed for one with an address at which it is
/// not found.
pub proof fn law_addressed_nodes_stay_found(
    root: NodeRecordView,
    n: NeighborhoodView,
    requests: Seq<Request>,
)
    requires
        n.wf(),
        addressed_nodes_are_found(n),
        changed_records_are_found(n, requests),
        added_addresses_are_free(n, requests),
    ensures
        addressed_nodes_are_found(lone_root(root)),
        addressed_nodes_are_found(n.after_all(requests)),
    decreases requests.len(),
{
    if requests.len() > 0 {
        law_addressed_nodes_stay_found(root, n, requests.drop_last());
        law_history_keeps_a_neighborhood_sound(n, requests.drop_last());
        let before = n.after_all(requests.drop_last());
        let after = n.after_all(requests);
        assert forall|key: Seq<u8>| #[trigger] after.by_public_key.contains_key(key) implies (ip_of(
            after.by_public_key[key],
        ) matches Some(ip_addr) ==> after.by_ip_addr.contains_key(ip_addr)
            && after.by_ip_addr[ip_addr] == key) by {
            if before.by_public_key.contains_key(key) {
                assert(ip_of(before.by_public_key[key]) matches Some(ip_addr)
                    ==> before.by_ip_addr[ip_addr] == key);
            }
        }
    }
}

/// From a new neighborhood on, where no two nodes are added with one IP address, the root among
/// them, every record with an address is the one that is found at its IP address, unless a record
/// is changed for one with an address at which it is not found.
pub proof fn law_nodes_at_different_addresses_are_found(
    root: NodeRecordView,
    requests: Seq<Request>,
)
    requires
        changed_records_are_found(lone_root(root), requests),
        (ip_list(root) + added_ips(lone_root(root), requests)).no_duplicates(),
    ensures
        addressed_nodes_are_found(lone_root(root).after_all(requests)),
{
    lemma_different_addresses_are_free(root, requests);
    law_addressed_nodes_stay_found(root, lone_root(root), requests);
}

/// Where no two nodes are added with one IP address, each is added with one that no other has.
proof fn lemma_different_addresses_are_free(root: NodeRecordView, requests: Seq<Request>)
    requires
        changed_records_are_found(lone_root(root), requests),
        (ip_list(root) + added_ips(lone_root(root), requests)).no_duplicates(),
    ensures
        added_addresses_are_free(lone_root(root), requests),
        forall|ip_addr: IpAddr| #[trigger]
            lone_root(root).after_all(requests).by_ip_addr.contains_key(ip_addr) ==> (ip_list(root)
                + added_ips(lone_root(root), requests)).contains(ip_addr),
    decreases requests.len(),
{
    let n = lone_root(root);
    let all = ip_list(root) + added_ips(n, requests);
    if requests.len() == 0 {
        assert forall|ip_addr: IpAddr| #[trigger]
            n.by_ip_addr.contains_key(ip_addr) implies all.contains(ip_addr) by {
            assert(all[0] == ip_addr);
        }
    } else {
        let earlier = requests.drop_last();
        let some = ip_list(root) + added_ips(n, earlier);
        let before = n.after_all(earlier);
        let after = n.after_all(requests);
        assert(some =~= all.take(some.len() as int));
        lemma_different_addresses_are_free(root, earlier);
        law_addressed_nodes_stay_found(root, n, earlier);
        assert forall|ip_addr: IpAddr| #[trigger]
            before.by_ip_addr.contains_key(ip_addr) implies exists|i: int|
            0 <= i < some.len() && #[trigger] all[i] == ip_addr by {
            let i = some.index_of(ip_addr);
            assert(all[i] == ip_addr);
        }
        if before.grows_by(requests.last()) && ip_of(requests.last()->AddNode_0) is Some {
            assert(Some(all[some.len() as int]) == ip_of(requests.last()->AddNode_0));
        }
        assert forall|ip_addr: IpAddr| #[trigger]
            after.by_ip_addr.contains_key(ip_addr) implies all.contains(ip_addr) by {
            assert(before.by_ip_addr.contains_key(ip_addr) || all[some.len() as int] == ip_addr);
        }
    }
}

/// The number of nodes is what it was plus the additions that were granted; so in a neighborhood
/// that was new it is one plus those.
pub proof fn law_nodes_are_counted_by_additions(
    root: NodeRecordView,
    n: NeighborhoodView,
    requests: Seq<Request>,
)
    requires
        n.wf(),
    ensures
        n.after_all(requests).by_public_key.len() == n.by_public_key.len() + n.additions(requests),
        lone_root(root).by_public_key.len() == 1,
        lone_root(root).after_all(requests).by_public_key.len() == 1 + lone_root(root).additions(
            requests,
        ),
{
    lemma_additions(n, requests);
    assert(lone_root(root).wf());
    lemma_additions(lone_root(root), requests);
}

/// The number of nodes is what it was plus the additions that were granted.
proof fn lemma_additions(n: NeighborhoodView, requests: Seq<Request>)
    requires
        n.wf(),
    ensures
        n.after_all(requests).by_public_key.len() == n.by_public_key.len() + n.additions(requests),
    decreases requests.len(),
{
    if requests.len() > 0 {
        let earlier = requests.drop_last();
        lemma_additions(n, earlier);
        law_history_keeps_a_neighborhood_sound(n, earlier);
        let before = n.after_all(earlier);
        let after = before.after(requests.last());
        if !before.grows_by(requests.last()) {
            assert(after.by_public_key.dom() =~= before.by_public_key.dom());
        }
    }
}

/// Two nodes with different keys and different IP addresses, if any, can be added in either order.
pub proof fn law_nodes_can_be_added_in_either_order(
    n: NeighborhoodView,
    a: NodeRecordView,
    b: NodeRecordView,
)
    requires
        n.wf(),
        a.inner.public_key != b.inner.public_key,
        match (a.inner.node_addr_opt, b.inner.node_addr_opt) {
            (Some(at), Some(bt)) => at.ip_addr != bt.ip_addr,
            _ => true,
        },
    ensures
        n.after(Request::AddNode(a)).after(Request::AddNode(b)) == n.after(
            Request::AddNode(b),
        ).after(Request::AddNode(a)),
{
    let one = n.after(Request::AddNode(a)).after(Request::AddNode(b));
    let other = n.after(Request::AddNode(b)).after(Request::AddNode(a));
    assert(one.by_public_key =~= other.by_public_key);
    assert(one.by_ip_addr =~= other.by_ip_addr);
}

} // verus!
