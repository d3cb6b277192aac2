//! What each request to a database finds or changes, by the records and the IP addresses that the
//! database holds.

use vstd::prelude::*;

use crate::cryptde::{may_answer, CryptDE, Key};
use crate::neighborhood::NeighborhoodView;
use crate::neighborhood_database::{ref_bytes, NeighborhoodDatabase, NeighborhoodDatabaseError};
use crate::node_addr::{IpAddr, NodeAddr};
use crate::node_record::NodeRecord;
use crate::node_record_inner::NodeRecordInnerView;
use crate::signing::{sha1_digest, SigningError};
use crate::text::decimal_list;

verus! {

/// A new database belongs to the node whose key was given and knows of that node alone. Its
/// record has the key, the address and the flag that were given, whether it is a bootstrap node or
/// not, and no neighbors; the node is found at its IP address and nowhere else. The record is
/// signed by the device, with the address and without.
pub proof fn law_new_database_knows_what_it_was_given<C: CryptDE + ?Sized>(
    public_key: &Key,
    node_addr: &NodeAddr,
    is_bootstrap_node: bool,
    cryptde: &C,
    database: NeighborhoodDatabase,
)
    requires
        call_ensures(
            NeighborhoodDatabase::new::<C>,
            (public_key, node_addr, is_bootstrap_node, cryptde),
            Ok(database),
        ),
    ensures
        database.wf(),
        database@.this_node == public_key.data@,
        forall|key: Seq<u8>| #[trigger]
            database@.by_public_key.contains_key(key) <==> key == public_key.data@,
        forall|ip_addr: IpAddr| #[trigger]
            database@.by_ip_addr.contains_key(ip_addr) <==> ip_addr == node_addr@.ip_addr,
        database@.by_ip_addr[node_addr@.ip_addr] == public_key.data@,
        ({
            let root = database@.by_public_key[public_key.data@];
            let whole = NodeRecordInnerView {
                public_key: public_key.data@,
                node_addr_opt: Some(node_addr@),
                is_bootstrap_node,
                neighbors: Seq::empty(),
            };
            let bare = NodeRecordInnerView {
                public_key: public_key.data@,
                node_addr_opt: None,
                is_bootstrap_node,
                neighbors: Seq::empty(),
            };
            &&& root.inner.public_key == public_key.data@
            &&& root.inner.node_addr_opt == Some(node_addr@)
            &&& root.inner.is_bootstrap_node == is_bootstrap_node
            &&& root.inner.neighbors.len() == 0
            &&& root.signatures matches Some(signatures)
            &&& may_answer(cryptde, sha1_digest(whole.cbor()), Ok(signatures.complete))
            &&& may_answer(cryptde, sha1_digest(bare.cbor()), Ok(signatures.obscured))
        }),
{
    let whole = NodeRecordInnerView {
        public_key: public_key.data@,
        node_addr_opt: Some(node_addr@),
        is_bootstrap_node,
        neighbors: Seq::empty(),
    };
    let bare = NodeRecordInnerView {
        public_key: public_key.data@,
        node_addr_opt: None,
        is_bootstrap_node,
        neighbors: Seq::empty(),
    };
    assert(whole.obscured() =~= bare);
    assert(database@.by_public_key[public_key.data@].inner =~= whole);
}

/// Where no database is made, the device refused to sign one of the two forms of the root's
/// record, or one of them is too long.
pub proof fn law_no_database_without_signatures<C: CryptDE + ?Sized>(
    public_key: &Key,
    node_addr: &NodeAddr,
    is_bootstrap_node: bool,
    cryptde: &C,
    error: SigningError,
)
    requires
        call_ensures(
            NeighborhoodDatabase::new::<C>,
            (public_key, node_addr, is_bootstrap_node, cryptde),
            Err(error),
        ),
    ensures
        ({
            let whole = NodeRecordInnerView {
                public_key: public_key.data@,
                node_addr_opt: Some(node_addr@),
                is_bootstrap_node,
                neighbors: Seq::empty(),
            };
            let bare = NodeRecordInnerView {
                public_key: public_key.data@,
                node_addr_opt: None,
                is_bootstrap_node,
                neighbors: Seq::empty(),
            };
            match error {
                SigningError::Refused(reason) => {
                    ||| may_answer(cryptde, sha1_digest(whole.cbor()), Err(reason))
                    ||| may_answer(cryptde, sha1_digest(bare.cbor()), Err(reason))
                },
                SigningError::ContentTooLong => {
                    ||| 8 * whole.cbor().len() > u64::MAX
                    ||| 8 * bare.cbor().len() > u64::MAX
                },
            }
        }),
{
    let whole = NodeRecordInnerView {
        public_key: public_key.data@,
        node_addr_opt: Some(node_addr@),
        is_bootstrap_node,
        neighbors: Seq::empty(),
    };
    let bare = NodeRecordInnerView {
        public_key: public_key.data@,
        node_addr_opt: None,
        is_bootstrap_node,
        neighbors: Seq::empty(),
    };
    assert(whole.obscured() =~= bare);
}

/// A database made of a record belongs to the node that the record names, and holds that record
/// alone, found at its IP address if it has an address.
pub proof fn law_database_starts_from_a_record(root: &NodeRecord, database: NeighborhoodDatabase)
    requires
        call_ensures(NeighborhoodDatabase::from_root, (root,), database),
    ensures
        database.wf(),
        database@.this_node == root@.inner.public_key,
        forall|key: Seq<u8>| #[trigger]
            database@.by_public_key.contains_key(key) <==> key == root@.inner.public_key,
        database@.by_public_key[root@.inner.public_key] == root@,
        forall|ip_addr: IpAddr| #[trigger]
            database@.by_ip_addr.contains_key(ip_addr) <==> {
                &&& root@.inner.node_addr_opt matches Some(node_addr)
                &&& node_addr.ip_addr == ip_addr
            },
        root@.inner.node_addr_opt matches Some(node_addr)
            ==> database@.by_ip_addr[node_addr.ip_addr] == root@.inner.public_key,
{
}

/// A neighborhood is sound if and only if its nodes can be counted, its root is one of them and
/// every IP address leads to one of them. Nothing more is asked of a database before a request
/// than that its neighborhood is sound and holds no key and no IP address twice.
pub proof fn law_what_a_sound_neighborhood_is(n: NeighborhoodView, database: NeighborhoodDatabase)
    ensures
        n.wf() <==> {
            &&& n.by_public_key.dom().finite()
            &&& n.by_public_key.contains_key(n.this_node)
            &&& forall|ip_addr: IpAddr| #[trigger]
                n.by_ip_addr.contains_key(ip_addr) ==> n.by_public_key.contains_key(
                    n.by_ip_addr[ip_addr],
                )
        },
        database.wf() <==> database.tables_distinct() && database@.wf(),
{
}

/// The root is the record under the database's own key.
pub proof fn law_root_is_under_the_own_key(
    database: &NeighborhoodDatabase,
    this_node: &Key,
    root: &NodeRecord,
)
    requires
        call_ensures(NeighborhoodDatabase::this_node, (database,), this_node),
        call_ensures(NeighborhoodDatabase::root, (database,), root),
    ensures
        this_node.data@ == database@.this_node,
        root@ == database@.by_public_key[this_node.data@],
{
}

/// The keys are those of the records that are held, each once.
pub proof fn law_every_key_is_listed_once(database: &NeighborhoodDatabase, keys: Vec<&Key>)
    requires
        call_ensures(NeighborhoodDatabase::keys, (database,), keys),
    ensures
        keys@.len() == database@.by_public_key.len(),
        forall|i: int, j: int|
            0 <= i < j < keys@.len() ==> (#[trigger] keys@[i]).data@ != (#[trigger] keys@[j]).data@,
        forall|i: int|
            0 <= i < keys@.len() ==> database@.by_public_key.contains_key(
                (#[trigger] keys@[i]).data@,
            ),
        forall|key: Seq<u8>| #[trigger]
            database@.by_public_key.contains_key(key) ==> exists|i: int|
                0 <= i < keys@.len() && (#[trigger] keys@[i]).data@ == key,
{
    let list = ref_bytes(keys@);
    assert forall|i: int, j: int| 0 <= i < j < keys@.len() implies (#[trigger] keys@[i]).data@ != (
    #[trigger] keys@[j]).data@ by {
        assert(list[i] != list[j]);
    }
    assert forall|i: int| 0 <= i < keys@.len() implies database@.by_public_key.contains_key(
        (#[trigger] keys@[i]).data@,
    ) by {
        assert(list[i] == keys@[i].data@);
        assert(list.contains(list[i]));
    }
    assert forall|key: Seq<u8>| #[trigger]
        database@.by_public_key.contains_key(key) implies exists|i: int|
        0 <= i < keys@.len() && (#[trigger] keys@[i]).data@ == key by {
        assert(list.contains(key));
        let i = list.index_of(key);
        assert(keys@[i].data@ == key);
    }
}

/// The IP addresses are those at which a record is found, each once.
pub proof fn law_every_ip_address_is_listed_once(
    database: &NeighborhoodDatabase,
    ip_addrs: Vec<IpAddr>,
)
    requires
        call_ensures(NeighborhoodDatabase::ip_addrs, (database,), ip_addrs),
    ensures
        forall|i: int, j: int|
            0 <= i < j < ip_addrs@.len() ==> #[trigger] ip_addrs@[i] != #[trigger] ip_addrs@[j],
        forall|ip_addr: IpAddr| #[trigger]
            database@.by_ip_addr.contains_key(ip_addr) <==> ip_addrs@.contains(ip_addr),
{
}

/// A record is found by a key if and only if it is held under that key, and at an IP address if
/// and only if it is held under the key that the IP address leads to.
pub proof fn law_what_is_found_is_what_is_held(
    database: &NeighborhoodDatabase,
    public_key: &Key,
    by_key: Option<&NodeRecord>,
    ip_addr: &IpAddr,
    by_ip: Option<&NodeRecord>,
)
    requires
        call_ensures(NeighborhoodDatabase::node_by_key, (database, public_key), by_key),
        call_ensures(NeighborhoodDatabase::node_by_ip, (database, ip_addr), by_ip),
    ensures
        by_key is Some <==> database@.by_public_key.contains_key(public_key.data@),
        by_key matches Some(record) ==> record@ == database@.by_public_key[public_key.data@],
        by_ip is Some <==> database@.by_ip_addr.contains_key(*ip_addr)
            && database@.by_public_key.contains_key(database@.by_ip_addr[*ip_addr]),
        by_ip matches Some(record) ==> record@
            == database@.by_public_key[database@.by_ip_addr[*ip_addr]],
{
}

/// A node is connected to another if and only if it is known and the other's key is in the list of
/// neighbors in its record, whatever kind of node it is; one without neighbors is connected to
/// none.
pub proof fn law_nodes_are_connected_by_the_lists_in_their_records(
    database: &NeighborhoodDatabase,
    from: &Key,
    to: &Key,
    connected: bool,
)
    requires
        call_ensures(NeighborhoodDatabase::has_neighbor, (database, from, to), connected),
    ensures
        connected <==> {
            &&& database@.by_public_key.contains_key(from.data@)
            &&& exists|i: int|
                0 <= i < database@.by_public_key[from.data@].inner.neighbors.len()
                    && #[trigger] database@.by_public_key[from.data@].inner.neighbors[i]
                    == to.data@
        },
        database@.by_public_key[from.data@].inner.neighbors.len() == 0 ==> !connected,
{
}

/// The database and the record that it holds of a node agree on what the node is connected to.
pub proof fn law_database_agrees_with_its_records(
    database: &NeighborhoodDatabase,
    from: &Key,
    to: &Key,
    by_key: Option<&NodeRecord>,
    in_record: bool,
    connected: bool,
)
    requires
        call_ensures(NeighborhoodDatabase::node_by_key, (database, from), by_key),
        by_key matches Some(record) ==> call_ensures(
            NodeRecord::has_neighbor,
            (record, to),
            in_record,
        ),
        call_ensures(NeighborhoodDatabase::has_neighbor, (database, from, to), connected),
    ensures
        by_key is None ==> !connected,
        by_key is Some ==> connected == in_record,
{
}

/// The record under a known key can be changed for any other, and nothing else changes; under an
/// unknown key there is none to change.
pub proof fn law_record_can_be_changed(
    database: &mut NeighborhoodDatabase,
    public_key: &Key,
    node: Option<&mut NodeRecord>,
)
    requires
        call_ensures(NeighborhoodDatabase::node_by_key_mut, (database, public_key), node),
    ensures
        final(database).wf(),
        final(database)@.this_node == old(database)@.this_node,
        final(database)@.by_ip_addr == old(database)@.by_ip_addr,
        node is Some <==> old(database)@.by_public_key.contains_key(public_key.data@),
        node is None ==> final(database)@.by_public_key == old(database)@.by_public_key,
        node matches Some(record) ==> {
            &&& record@ == old(database)@.by_public_key[public_key.data@]
            &&& final(database)@.by_public_key == old(database)@.by_public_key.insert(
                public_key.data@,
                final(record)@,
            )
        },
{
}

/// The root's record can be changed for any other, and nothing else changes.
pub proof fn law_root_can_be_changed(database: &mut NeighborhoodDatabase, root: &mut NodeRecord)
    requires
        call_ensures(NeighborhoodDatabase::root_mut, (database,), root),
    ensures
        final(database).wf(),
        old(root)@ == old(database)@.by_public_key[old(database)@.this_node],
        final(database)@.this_node == old(database)@.this_node,
        final(database)@.by_ip_addr == old(database)@.by_ip_addr,
        final(database)@.by_public_key == old(database)@.by_public_key.insert(
            old(database)@.this_node,
            final(root)@,
        ),
{
}

/// A node is added if and only if its key is new. Then its record is held under the key that it
/// names, and its IP address, if it has an address, leads to it from now on; nothing else changes.
/// Otherwise nothing changes at all, and the refusal names the key.
pub proof fn law_node_is_added_under_its_key_and_address(
    database: &mut NeighborhoodDatabase,
    record: &NodeRecord,
    result: Result<(), NeighborhoodDatabaseError>,
)
    requires
        call_ensures(NeighborhoodDatabase::add_node, (database, record), result),
    ensures
        final(database).wf(),
        final(database)@.this_node == old(database)@.this_node,
        result is Ok <==> !old(database)@.by_public_key.contains_key(record@.inner.public_key),
        result is Ok ==> {
            &&& final(database)@.by_public_key == old(database)@.by_public_key.insert(
                record@.inner.public_key,
                record@,
            )
            &&& record@.inner.node_addr_opt is None ==> final(database)@.by_ip_addr == old(
                database)@.by_ip_addr
            &&& (record@.inner.node_addr_opt matches Some(node_addr) ==> final(database)@.by_ip_addr
                == old(database)@.by_ip_addr.insert(node_addr.ip_addr, record@.inner.public_key))
        },
        result matches Err(error) ==> {
            &&& error matches NeighborhoodDatabaseError::NodeKeyCollision(present)
            &&& present.data@ == record@.inner.public_key
            &&& final(database)@.by_public_key == old(database)@.by_public_key
            &&& final(database)@.by_ip_addr == old(database)@.by_ip_addr
        },
{
}

/// Connecting is refused if and only if one of the two nodes is unknown; the one to connect to is
/// named first. Otherwise the key of the one is then in the list of the other: at its end where it
/// was not there before, which is what `true` says, and else where it was. Nothing else changes.
pub proof fn law_neighbor_is_added_at_the_end_of_the_list(
    database: &mut NeighborhoodDatabase,
    from: &Key,
    to: &Key,
    result: Result<bool, NeighborhoodDatabaseError>,
)
    requires
        call_ensures(NeighborhoodDatabase::add_neighbor, (database, from, to), result),
    ensures
        final(database).wf(),
        final(database)@.this_node == old(database)@.this_node,
        final(database)@.by_ip_addr == old(database)@.by_ip_addr,
        result is Ok <==> old(database)@.by_public_key.contains_key(from.data@) && old(
            database)@.by_public_key.contains_key(to.data@),
        result matches Err(error) ==> {
            &&& error matches NeighborhoodDatabaseError::NodeKeyNotFound(missing)
            &&& missing.data@ == if old(database)@.by_public_key.contains_key(to.data@) {
                from.data@
            } else {
                to.data@
            }
            &&& final(database)@.by_public_key == old(database)@.by_public_key
        },
        result matches Ok(added) ==> {
            let before = old(database)@.by_public_key[from.data@];
            let after = final(database)@.by_public_key[from.data@];
            &&& added <==> forall|i: int|
                0 <= i < before.inner.neighbors.len() ==> #[trigger] before.inner.neighbors[i]
                    != to.data@
            &&& added ==> after.inner.neighbors == before.inner.neighbors.push(to.data@)
            &&& !added ==> after.inner.neighbors == before.inner.neighbors
            &&& after.inner.neighbors.contains(to.data@)
            &&& after.inner.public_key == before.inner.public_key
            &&& after.inner.node_addr_opt == before.inner.node_addr_opt
            &&& after.inner.is_bootstrap_node == before.inner.is_bootstrap_node
            &&& after.signatures == before.signatures
        },
        forall|key: Seq<u8>| #[trigger]
            final(database)@.by_public_key.contains_key(key) <==> old(
                database)@.by_public_key.contains_key(key),
        forall|key: Seq<u8>|
            key != from.data@ && old(database)@.by_public_key.contains_key(key)
                ==> #[trigger] final(database)@.by_public_key[key] == old(
                database)@.by_public_key[key],
{
    let before = old(database)@.by_public_key[from.data@].inner.neighbors;
    assert(before.push(to.data@)[before.len() as int] == to.data@);
}

/// Nodes that were connected are connected, whether that was new or not.
pub proof fn law_connected_after_connecting(
    database: &mut NeighborhoodDatabase,
    from: &Key,
    to: &Key,
    added: bool,
    before: bool,
    after: bool,
)
    requires
        call_ensures(NeighborhoodDatabase::has_neighbor, (&*old(database), from, to), before),
        call_ensures(NeighborhoodDatabase::add_neighbor, (database, from, to), Ok(added)),
        call_ensures(NeighborhoodDatabase::has_neighbor, (&*final(database), from, to), after),
    ensures
        added == !before,
        after,
{
    law_neighbor_is_added_at_the_end_of_the_list(database, from, to, Ok(added));
}

/// Removing is refused, with nothing changed, if and only if no node has the key. Otherwise the
/// node loses its address, the IP address leads nowhere, and the root loses the first place where
/// its list has the key, which is what `true` says. Nothing else changes.
pub proof fn law_neighbor_is_removed_with_its_address(
    database: &mut NeighborhoodDatabase,
    node_key: &Key,
    result: Result<bool, String>,
)
    requires
        old(database).wf(),
        call_ensures(NeighborhoodDatabase::remove_neighbor, (database, node_key), result),
    ensures
        final(database).wf(),
        final(database)@.this_node == old(database)@.this_node,
        result is Ok <==> old(database)@.by_public_key.contains_key(node_key.data@),
        result is Err ==> {
            &&& final(database)@.by_public_key == old(database)@.by_public_key
            &&& final(database)@.by_ip_addr == old(database)@.by_ip_addr
        },
        result matches Ok(removed) ==> {
            let own = old(database)@.this_node;
            let lost = old(database)@.by_public_key[node_key.data@].inner.node_addr_opt;
            let root = old(database)@.by_public_key[own];
            &&& removed <==> root.inner.neighbors.contains(node_key.data@)
            &&& lost is None ==> final(database)@.by_ip_addr == old(database)@.by_ip_addr
            &&& (lost matches Some(node_addr) ==> final(database)@.by_ip_addr == old(
                database)@.by_ip_addr.remove(node_addr.ip_addr))
            &&& final(database)@.by_public_key[node_key.data@].inner.node_addr_opt is None
            &&& node_key.data@ != own ==> final(database)@.by_public_key[own].inner.node_addr_opt
                == root.inner.node_addr_opt
            &&& !removed ==> final(database)@.by_public_key[own].inner.neighbors
                == root.inner.neighbors
        },
        forall|key: Seq<u8>| #[trigger]
            final(database)@.by_public_key.contains_key(key) <==> old(
                database)@.by_public_key.contains_key(key),
        forall|key: Seq<u8>| #[trigger]
            old(database)@.by_public_key.contains_key(key) ==> {
                let before = old(database)@.by_public_key[key];
                let after = final(database)@.by_public_key[key];
                &&& after.inner.public_key == before.inner.public_key
                &&& after.inner.is_bootstrap_node == before.inner.is_bootstrap_node
                &&& after.signatures == before.signatures
                &&& key != old(database)@.this_node ==> after.inner.neighbors
                    == before.inner.neighbors
                &&& key != node_key.data@ ==> after.inner.node_addr_opt
                    == before.inner.node_addr_opt
            },
{
    old(database)@.root().inner.neighbors.index_of_first_ensures(node_key.data@);
}

/// Where the root's list has the key of a neighbor that is removed, the first place where it is
/// goes, and the others stay in their order.
pub proof fn law_first_mention_leaves_the_root(
    database: &mut NeighborhoodDatabase,
    node_key: &Key,
    first: int,
    result: Result<bool, String>,
)
    requires
        old(database).wf(),
        old(database)@.by_public_key.contains_key(node_key.data@),
        0 <= first < old(database)@.by_public_key[old(database)@.this_node].inner.neighbors.len(),
        old(database)@.by_public_key[old(database)@.this_node].inner.neighbors[first]
            == node_key.data@,
        forall|i: int|
            0 <= i < first ==> #[trigger] old(database)@.by_public_key[old(
                database)@.this_node].inner.neighbors[i] != node_key.data@,
        call_ensures(NeighborhoodDatabase::remove_neighbor, (database, node_key), result),
    ensures
        result matches Ok(removed) && removed,
        ({
            let own = old(database)@.this_node;
            let before = old(database)@.by_public_key[own].inner.neighbors;
            let after = final(database)@.by_public_key[own].inner.neighbors;
            &&& after.len() == before.len() - 1
            &&& forall|i: int| 0 <= i < first ==> #[trigger] after[i] == before[i]
            &&& forall|i: int| first <= i < after.len() ==> #[trigger] after[i] == before[i + 1]
        }),
{
    let list = old(database)@.root().inner.neighbors;
    list.index_of_first_ensures(node_key.data@);
    assert(list.contains(node_key.data@));
    assert(list.index_of_first(node_key.data@) == Some(first));
}

/// A refused removal says in these words which key it was, by its bytes in decimal digits.
pub proof fn law_refused_removal_names_the_key(
    database: &mut NeighborhoodDatabase,
    node_key: &Key,
    text: String,
)
    requires
        call_ensures(NeighborhoodDatabase::remove_neighbor, (database, node_key), Err(text)),
    ensures
        !old(database)@.by_public_key.contains_key(node_key.data@),
        text@ == "could not remove nonexistent neighbor by public key: Key { data: ["@
            + decimal_list(node_key.data@) + "] }"@,
{
}

} // verus!
