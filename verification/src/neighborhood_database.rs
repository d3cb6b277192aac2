//! The neighborhood: every node that is known, by its key and by its IP address.

use vstd::prelude::*;

use crate::cryptde::{key_bytes, CryptDE, Key};
use crate::neighborhood::{lone_root, root_inner, NeighborhoodView, Request};
use crate::node_addr::{IpAddr, NodeAddr};
use crate::node_record::{NodeRecord, NodeRecordView};
use crate::node_signatures::{may_sign_record, NodeSignatures};
use crate::signing::SigningError;
use crate::table::{
    distinct, entry_at, lemma_entry, lemma_keys, lemma_push, lemma_remove, lemma_update, table,
};
use crate::text::{nonexistent_neighbor, nonexistent_neighbor_text};

verus! {

/// Why a request to the neighborhood was refused.
#[derive(Debug, PartialEq)]
pub enum NeighborhoodDatabaseError {
    /// No node has this key.
    NodeKeyNotFound(Key),
    /// A node with this key is there already.
    NodeKeyCollision(Key),
    /// The record has this address already.
    NodeAddrAlreadySet(NodeAddr),
    /// The record has these signatures already.
    NodeSignaturesAlreadySet(NodeSignatures),
}

/// A node under the key that it was added with.
#[derive(Debug)]
struct NodeEntry {
    key: Key,
    record: NodeRecord,
}

/// The key of the node at an IP address.
#[derive(Debug)]
struct IpEntry {
    ip_addr: IpAddr,
    key: Key,
}

/// The nodes that one node knows of, itself among them.
#[derive(Debug)]
pub struct NeighborhoodDatabase {
    this_node: Key,
    by_public_key: Vec<NodeEntry>,
    by_ip_addr: Vec<IpEntry>,
}

/// Keys by their bytes.
pub open spec fn ref_bytes(keys: Seq<&Key>) -> Seq<Seq<u8>> {
    Seq::new(keys.len(), |i: int| keys[i]@)
}

/// What the entries of the nodes say.
spec fn node_pairs(nodes: Seq<NodeEntry>) -> Seq<(Seq<u8>, NodeRecordView)> {
    Seq::new(nodes.len(), |i: int| (nodes[i].key@, nodes[i].record@))
}

/// What the entries of the IP addresses say.
spec fn ip_pairs(ips: Seq<IpEntry>) -> Seq<(IpAddr, Seq<u8>)> {
    Seq::new(ips.len(), |i: int| (ips[i].ip_addr, ips[i].key@))
}

impl View for NeighborhoodDatabase {
    type V = NeighborhoodView;

    closed spec fn view(&self) -> NeighborhoodView {
        NeighborhoodView {
            this_node: self.this_node@,
            by_public_key: table(node_pairs(self.by_public_key@)),
            by_ip_addr: table(ip_pairs(self.by_ip_addr@)),
        }
    }
}

impl NeighborhoodDatabase {
    /// No key and no IP address has two entries.
    pub closed spec fn tables_distinct(&self) -> bool {
        &&& distinct(node_pairs(self.by_public_key@))
        &&& distinct(ip_pairs(self.by_ip_addr@))
    }

    /// What holds of every database that `new` made and the methods have changed.
    pub open spec fn wf(&self) -> bool {
        &&& self.tables_distinct()
        &&& self@.wf()
    }

    /// Where the node with a key is.
    fn node_position(&self, public_key: &Key) -> (position: Option<usize>)
        requires
            self.tables_distinct(),
        ensures
            match position {
                Some(i) => {
                    &&& entry_at(node_pairs(self.by_public_key@), public_key@, i as int)
                    &&& self@.by_public_key.contains_key(public_key@)
                    &&& self@.by_public_key[public_key@] == self.by_public_key@[i as int].record@
                },
                None => !self@.by_public_key.contains_key(public_key@),
            },
    {
        let mut i: usize = 0;
        while i < self.by_public_key.len()
            invariant
                i <= self.by_public_key@.len(),
                self.tables_distinct(),
                forall|j: int| 0 <= j < i ==> !#[trigger] entry_at(
                    node_pairs(self.by_public_key@),
                    public_key@,
                    j,
                ),
            decreases self.by_public_key@.len() - i,
        {
            if self.by_public_key[i].key == *public_key {
                proof {
                    lemma_entry(node_pairs(self.by_public_key@), i as int);
                }
                return Some(i);
            }
            i += 1;
        }
        None
    }

    /// Where an IP address is.
    fn ip_position(&self, ip_addr: &IpAddr) -> (position: Option<usize>)
        requires
            self.tables_distinct(),
        ensures
            match position {
                Some(i) => {
                    &&& entry_at(ip_pairs(self.by_ip_addr@), *ip_addr, i as int)
                    &&& self@.by_ip_addr.contains_key(*ip_addr)
                    &&& self@.by_ip_addr[*ip_addr] == self.by_ip_addr@[i as int].key@
                },
                None => !self@.by_ip_addr.contains_key(*ip_addr),
            },
    {
        let mut i: usize = 0;
        while i < self.by_ip_addr.len()
            invariant
                i <= self.by_ip_addr@.len(),
                self.tables_distinct(),
                forall|j: int| 0 <= j < i ==> !#[trigger] entry_at(
                    ip_pairs(self.by_ip_addr@),
                    *ip_addr,
                    j,
                ),
            decreases self.by_ip_addr@.len() - i,
        {
            if self.by_ip_addr[i].ip_addr == *ip_addr {
                proof {
                    lemma_entry(ip_pairs(self.by_ip_addr@), i as int);
                }
                return Some(i);
            }
            i += 1;
        }
        None
    }

    /// Takes an IP address out.
    fn remove_ip(&mut self, ip_addr: &IpAddr)
        requires
            old(self).tables_distinct(),
        ensures
            final(self).tables_distinct(),
            final(self)@ == (NeighborhoodView {
                by_ip_addr: old(self)@.by_ip_addr.remove(*ip_addr),
                ..old(self)@
            }),
    {
        match self.ip_position(ip_addr) {
            Some(i) => {
                proof {
                    let ips = self.by_ip_addr@;
                    lemma_remove(ip_pairs(ips), i as int);
                    assert(ip_pairs(ips.remove(i as int)) =~= ip_pairs(ips).remove(i as int));
                }
                self.by_ip_addr.remove(i);
            },
            None => {
                assert(self@.by_ip_addr =~= self@.by_ip_addr.remove(*ip_addr));
            },
        }
    }

    /// Puts a key under an IP address, in place of any that was there.
    fn insert_ip(&mut self, ip_addr: IpAddr, key: Key)
        requires
            old(self).tables_distinct(),
        ensures
            final(self).tables_distinct(),
            final(self)@ == (NeighborhoodView {
                by_ip_addr: old(self)@.by_ip_addr.insert(ip_addr, key@),
                ..old(self)@
            }),
    {
        self.remove_ip(&ip_addr);
        let entry = IpEntry { ip_addr, key };
        proof {
            let ips = self.by_ip_addr@;
            lemma_push(ip_pairs(ips), ip_addr, key@);
            assert(ip_pairs(ips.push(entry)) =~= ip_pairs(ips).push((ip_addr, key@)));
        }
        self.by_ip_addr.push(entry);
        assert(self@.by_ip_addr =~= old(self)@.by_ip_addr.insert(ip_addr, key@));
    }

    /// The neighborhood of a node that knows of itself alone. The root's record is
    /// signed by `cryptde`.
    pub fn new<C: CryptDE + ?Sized>(
        public_key: &Key,
        node_addr: &NodeAddr,
        is_bootstrap_node: bool,
        cryptde: &C,
    ) -> (result: Result<NeighborhoodDatabase, SigningError>)
        ensures
            ({
                let inner = root_inner(public_key@, node_addr@, is_bootstrap_node);
                match result {
                    Ok(database) => {
                        &&& database.wf()
                        &&& database@.root().signatures matches Some(signatures)
                        &&& may_sign_record(cryptde, inner, Ok(signatures))
                        &&& database@ == lone_root(
                            NodeRecordView { inner, signatures: Some(signatures) },
                        )
                    },
                    Err(error) => may_sign_record(cryptde, inner, Err(error)),
                }
            }),
    {
        let mut root = NodeRecord::new(public_key, Some(node_addr), is_bootstrap_node, None);
        match root.sign(cryptde) {
            Ok(()) => Ok(NeighborhoodDatabase::from_root(&root)),
            Err(error) => Err(error),
        }
    }

    /// The neighborhood of a node with this record that knows of itself alone.
    pub fn from_root(root: &NodeRecord) -> (database: NeighborhoodDatabase)
        ensures
            database.wf(),
            database@ == lone_root(root@),
    {
        let mut database = NeighborhoodDatabase {
            this_node: root.public_key().clone(),
            by_public_key: Vec::new(),
            by_ip_addr: Vec::new(),
        };
        assert(database@.by_public_key =~= Map::empty());
        assert(database@.by_ip_addr =~= Map::empty());
        database.insert_node(root);
        database
    }

    /// Puts in a node whose key is new.
    fn insert_node(&mut self, node_record: &NodeRecord)
        requires
            old(self).tables_distinct(),
            !old(self)@.by_public_key.contains_key(node_record@.inner.public_key),
        ensures
            final(self).tables_distinct(),
            final(self)@ == old(self)@.with_node(node_record@),
    {
        let entry = NodeEntry { key: node_record.public_key().clone(), record: node_record.clone() };
        proof {
            let nodes = self.by_public_key@;
            lemma_push(node_pairs(nodes), entry.key@, entry.record@);
            assert(node_pairs(nodes.push(entry)) =~= node_pairs(nodes).push(
                (entry.key@, entry.record@),
            ));
        }
        self.by_public_key.push(entry);
        match node_record.node_addr_opt() {
            Some(node_addr) => {
                self.insert_ip(node_addr.ip_addr(), node_record.public_key().clone());
            },
            None => {},
        }
        assert(self@ =~= old(self)@.with_node(node_record@));
    }

    /// The key of the root.
    pub fn this_node(&self) -> (key: &Key)
        ensures
            key@ == self@.this_node,
    {
        &self.this_node
    }

    /// The record of the root.
    pub fn root(&self) -> (root: &NodeRecord)
        requires
            self.wf(),
        ensures
            root@ == self@.root(),
    {
        self.node_by_key(&self.this_node).unwrap()
    }

    /// The record of the root, for change.
    pub fn root_mut(&mut self) -> (root: &mut NodeRecord)
        requires
            old(self).wf(),
        ensures
            root@ == old(self)@.root(),
            final(self).wf(),
            final(self)@ == old(self)@.with_record(old(self)@.this_node, final(root)@),
            final(self)@ == old(self)@.after(
                Request::ChangeRecord(old(self)@.this_node, final(root)@),
            ),
    {
        let this_node = self.this_node.clone();
        self.node_by_key_mut(&this_node).unwrap()
    }

    /// The keys of all nodes, each once, in no particular order.
    pub fn keys(&self) -> (keys: Vec<&Key>)
        requires
            self.wf(),
        ensures
            ref_bytes(keys@).no_duplicates(),
            keys@.len() == self@.by_public_key.len(),
            forall|key: Seq<u8>| #[trigger]
                ref_bytes(keys@).contains(key) <==> self@.by_public_key.contains_key(key),
    {
        let mut keys: Vec<&Key> = Vec::new();
        let mut i: usize = 0;
        while i < self.by_public_key.len()
            invariant
                i <= self.by_public_key@.len(),
                keys@.len() == i,
                forall|j: int| 0 <= j < i ==> #[trigger] keys@[j]@ == self.by_public_key@[j].key@,
            decreases self.by_public_key@.len() - i,
        {
            keys.push(&self.by_public_key[i].key);
            i += 1;
        }
        proof {
            lemma_keys(node_pairs(self.by_public_key@), ref_bytes(keys@));
        }
        keys
    }

    /// The IP addresses under which a node is found, each once, in no particular order.
    pub fn ip_addrs(&self) -> (ip_addrs: Vec<IpAddr>)
        requires
            self.wf(),
        ensures
            ip_addrs@.no_duplicates(),
            forall|ip_addr: IpAddr| #[trigger]
                ip_addrs@.contains(ip_addr) <==> self@.by_ip_addr.contains_key(ip_addr),
    {
        let mut ip_addrs: Vec<IpAddr> = Vec::new();
        let mut i: usize = 0;
        while i < self.by_ip_addr.len()
            invariant
                i <= self.by_ip_addr@.len(),
                ip_addrs@.len() == i,
                forall|j: int|
                    0 <= j < i ==> #[trigger] ip_addrs@[j] == self.by_ip_addr@[j].ip_addr,
            decreases self.by_ip_addr@.len() - i,
        {
            ip_addrs.push(self.by_ip_addr[i].ip_addr);
            i += 1;
        }
        proof {
            lemma_keys(ip_pairs(self.by_ip_addr@), ip_addrs@);
        }
        ip_addrs
    }

    /// The record of the node with a key.
    pub fn node_by_key(&self, public_key: &Key) -> (node: Option<&NodeRecord>)
        requires
            self.wf(),
        ensures
            match node {
                Some(record) => self@.node_by_key(public_key@) == Some(record@),
                None => self@.node_by_key(public_key@) is None,
            },
    {
        match self.node_position(public_key) {
            Some(i) => Some(&self.by_public_key[i].record),
            None => None,
        }
    }

    /// The record of the node with a key, for change.
    pub fn node_by_key_mut(&mut self, public_key: &Key) -> (node: Option<&mut NodeRecord>)
        requires
            old(self).wf(),
        ensures
            match node {
                Some(record) => {
                    &&& old(self)@.node_by_key(public_key@) == Some(record@)
                    &&& final(self)@ == old(self)@.with_record(public_key@, final(record)@)
                    &&& final(self)@ == old(self)@.after(
                        Request::ChangeRecord(public_key@, final(record)@),
                    )
                },
                None => {
                    &&& old(self)@.node_by_key(public_key@) is None
                    &&& final(self)@ == old(self)@
                },
            },
            final(self).wf(),
    {
        match self.node_position(public_key) {
            Some(i) => {
                proof {
                    let nodes = self.by_public_key@;
                    assert forall|record: NodeRecord|
                        #![trigger nodes.update(
                            i as int,
                            NodeEntry { key: nodes[i as int].key, record },
                        )]
                        {
                            let after = node_pairs(
                                nodes.update(
                                    i as int,
                                    NodeEntry { key: nodes[i as int].key, record },
                                ),
                            );
                            &&& distinct(after)
                            &&& table(after) == table(node_pairs(nodes)).insert(
                                public_key@,
                                record@,
                            )
                        } by {
                        let entry = NodeEntry { key: nodes[i as int].key, record };
                        lemma_update(node_pairs(nodes), i as int, record@);
                        assert(node_pairs(nodes.update(i as int, entry)) =~= node_pairs(
                            nodes,
                        ).update(i as int, (public_key@, record@)));
                    }
                }
                let ghost before = self@;
                let record = &mut self.by_public_key[i].record;
                proof {
                    let after = before.with_record(public_key@, final(record)@);
                    assert(after.wf());
                }
                Some(record)
            },
            None => None,
        }
    }

    /// The record of the node at an IP address.
    pub fn node_by_ip(&self, ip_addr: &IpAddr) -> (node: Option<&NodeRecord>)
        requires
            self.wf(),
        ensures
            match node {
                Some(record) => self@.node_by_ip(*ip_addr) == Some(record@),
                None => self@.node_by_ip(*ip_addr) is None,
            },
    {
        match self.ip_position(ip_addr) {
            Some(i) => self.node_by_key(&self.by_ip_addr[i].key),
            None => None,
        }
    }

    /// Whether the node `from` is known and connected to the node `to`.
    pub fn has_neighbor(&self, from: &Key, to: &Key) -> (connected: bool)
        requires
            self.wf(),
        ensures
            connected == self@.has_neighbor(from@, to@),
    {
        match self.node_by_key(from) {
            Some(record) => record.has_neighbor(to),
            None => false,
        }
    }

    /// Puts a node in, unless one with its key is there.
    pub fn add_node(&mut self, node_record: &NodeRecord) -> (result: Result<
        (),
        NeighborhoodDatabaseError,
    >)
        requires
            old(self).wf(),
        ensures
            final(self).wf(),
            ({
                let key = node_record@.inner.public_key;
                if old(self)@.by_public_key.contains_key(key) {
                    &&& result matches Err(NeighborhoodDatabaseError::NodeKeyCollision(present))
                    &&& present@ == key
                    &&& final(self)@ == old(self)@
                } else {
                    &&& result is Ok
                    &&& final(self)@ == old(self)@.with_node(node_record@)
                }
            }),
            final(self)@ == old(self)@.after(Request::AddNode(node_record@)),
    {
        match self.node_position(node_record.public_key()) {
            Some(_) => Err(
                NeighborhoodDatabaseError::NodeKeyCollision(node_record.public_key().clone()),
            ),
            None => {
                self.insert_node(node_record);
                Ok(())
            },
        }
    }

    /// Takes a node's address out, with what is found under it, and then the root's
    /// first mention of the node. Whether there was one. The node itself stays.
    pub fn remove_neighbor(&mut self, node_key: &Key) -> (result: Result<bool, String>)
        requires
            old(self).wf(),
        ensures
            final(self).wf(),
            if old(self)@.by_public_key.contains_key(node_key@) {
                &&& result matches Ok(removed)
                &&& removed == old(self)@.root().inner.neighbors.contains(node_key@)
                &&& final(self)@ == old(self)@.without_neighbor(node_key@)
            } else {
                &&& result matches Err(text)
                &&& text@ == nonexistent_neighbor(node_key@)
                &&& final(self)@ == old(self)@
            },
            final(self)@ == old(self)@.after(Request::RemoveNeighbor(node_key@)),
    {
        let ip_addr: Option<IpAddr> = match self.node_by_key_mut(node_key) {
            Some(node_record) => {
                let ip_addr = match node_record.node_addr_opt() {
                    Some(node_addr) => Some(node_addr.ip_addr()),
                    None => None,
                };
                node_record.unset_node_addr();
                ip_addr
            },
            None => {
                return Err(nonexistent_neighbor_text(node_key));
            },
        };
        match ip_addr {
            Some(ip_addr) => self.remove_ip(&ip_addr),
            None => {},
        }
        assert(self@ =~= old(self)@.without_address(node_key@));
        Ok(self.root_mut().remove_neighbor(node_key))
    }

    /// Connects a node to another, unless it is connected to it already. Whether it was not.
    pub fn add_neighbor(&mut self, node_key: &Key, new_neighbor: &Key) -> (result: Result<
        bool,
        NeighborhoodDatabaseError,
    >)
        requires
            old(self).wf(),
        ensures
            final(self).wf(),
            if !old(self)@.by_public_key.contains_key(new_neighbor@) {
                &&& result matches Err(NeighborhoodDatabaseError::NodeKeyNotFound(missing))
                &&& missing@ == new_neighbor@
                &&& final(self)@ == old(self)@
            } else if !old(self)@.by_public_key.contains_key(node_key@) {
                &&& result matches Err(NeighborhoodDatabaseError::NodeKeyNotFound(missing))
                &&& missing@ == node_key@
                &&& final(self)@ == old(self)@
            } else if old(self)@.has_neighbor(node_key@, new_neighbor@) {
                &&& result matches Ok(added)
                &&& !added
                &&& final(self)@ == old(self)@
            } else {
                &&& result matches Ok(added)
                &&& added
                &&& final(self)@ == old(self)@.with_neighbor(node_key@, new_neighbor@)
            },
            final(self)@ == old(self)@.after(Request::AddNeighbor(node_key@, new_neighbor@)),
    {
        if self.node_position(new_neighbor).is_none() {
            return Err(NeighborhoodDatabaseError::NodeKeyNotFound(new_neighbor.clone()));
        }
        if self.has_neighbor(node_key, new_neighbor) {
            return Ok(false);
        }
        match self.node_by_key_mut(node_key) {
            Some(node) => {
                let neighbors = node.neighbors_mut();
                let ghost before = key_bytes(neighbors@);
                neighbors.push(new_neighbor.clone());
                assert(key_bytes(neighbors@) =~= before.push(new_neighbor@));
                Ok(true)
            },
            None => Err(NeighborhoodDatabaseError::NodeKeyNotFound(node_key.clone())),
        }
    }
}

} // verus!
