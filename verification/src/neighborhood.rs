//! What a neighborhood is, and what each request makes of it.

use vstd::prelude::*;

use crate::node_addr::{IpAddr, NodeAddrView};
use crate::node_record::NodeRecordView;
use crate::node_record_inner::NodeRecordInnerView;

verus! {

/// The nodes that one node knows of, itself among them.
#[verifier::ext_equal]
pub struct NeighborhoodView {
    /// The key of the node that the database belongs to: the root.
    pub this_node: Seq<u8>,
    /// Each node by its key.
    pub by_public_key: Map<Seq<u8>, NodeRecordView>,
    /// The key of the node that was last added with each IP address.
    pub by_ip_addr: Map<IpAddr, Seq<u8>>,
}

/// A request that changes a neighborhood.
pub enum Request {
    /// To add a node.
    AddNode(NodeRecordView),
    /// To connect the first node to the second.
    AddNeighbor(Seq<u8>, Seq<u8>),
    /// To remove a neighbor of the root.
    RemoveNeighbor(Seq<u8>),
    /// To put another record in place of the one under a key.
    ChangeRecord(Seq<u8>, NodeRecordView),
}

impl NeighborhoodView {
    /// The nodes can be counted, the root is among them, and every IP address leads to one of
    /// them.
    pub open spec fn wf(self) -> bool {
        &&& self.by_public_key.dom().finite()
        &&& self.by_public_key.contains_key(self.this_node)
        &&& forall|ip_addr: IpAddr| #[trigger]
            self.by_ip_addr.contains_key(ip_addr) ==> self.by_public_key.contains_key(
                self.by_ip_addr[ip_addr],
            )
    }

    /// The record of the root.
    pub open spec fn root(self) -> NodeRecordView {
        self.by_public_key[self.this_node]
    }

    /// The record of the node with a key.
    pub open spec fn node_by_key(self, key: Seq<u8>) -> Option<NodeRecordView> {
        if self.by_public_key.contains_key(key) {
            Some(self.by_public_key[key])
        } else {
            None
        }
    }

    /// The record of the node at an IP address.
    pub open spec fn node_by_ip(self, ip_addr: IpAddr) -> Option<NodeRecordView> {
        if self.by_ip_addr.contains_key(ip_addr) {
            self.node_by_key(self.by_ip_addr[ip_addr])
        } else {
            None
        }
    }

    /// Whether the node `from` is known and connected to the node `to`.
    pub open spec fn has_neighbor(self, from: Seq<u8>, to: Seq<u8>) -> bool {
        &&& self.by_public_key.contains_key(from)
        &&& self.by_public_key[from].inner.neighbors.contains(to)
    }

    /// The neighborhood with another record under a key.
    pub open spec fn with_record(self, key: Seq<u8>, record: NodeRecordView) -> NeighborhoodView {
        NeighborhoodView { by_public_key: self.by_public_key.insert(key, record), ..self }
    }

    /// The neighborhood with one more node, found under its address if it has one.
    pub open spec fn with_node(self, record: NodeRecordView) -> NeighborhoodView {
        let key = record.inner.public_key;
        NeighborhoodView {
            by_ip_addr: match record.inner.node_addr_opt {
                Some(node_addr) => self.by_ip_addr.insert(node_addr.ip_addr, key),
                None => self.by_ip_addr,
            },
            ..self.with_record(key, record)
        }
    }

    /// The neighborhood with one more connection.
    pub open spec fn with_neighbor(self, from: Seq<u8>, to: Seq<u8>) -> NeighborhoodView {
        let record = self.by_public_key[from];
        self.with_record(from, record.with_neighbors(record.inner.neighbors.push(to)))
    }

    /// The neighborhood after a node has lost its address, and what is found under
    /// that address.
    pub open spec fn without_address(self, key: Seq<u8>) -> NeighborhoodView {
        let record = self.by_public_key[key];
        NeighborhoodView {
            by_ip_addr: match record.inner.node_addr_opt {
                Some(node_addr) => self.by_ip_addr.remove(node_addr.ip_addr),
                None => self.by_ip_addr,
            },
            ..self.with_record(key, record.with_node_addr(None))
        }
    }

    /// The neighborhood after the root has lost its first mention of a neighbor.
    pub open spec fn without_root_neighbor(self, key: Seq<u8>) -> NeighborhoodView {
        self.with_record(self.this_node, self.root().without_neighbor(key))
    }

    /// The neighborhood after a neighbor of the root has been removed.
    pub open spec fn without_neighbor(self, key: Seq<u8>) -> NeighborhoodView {
        self.without_address(key).without_root_neighbor(key)
    }

    /// Whether a request is one to add a node, and is granted.
    pub open spec fn grows_by(self, request: Request) -> bool {
        request matches Request::AddNode(record) && !self.by_public_key.contains_key(
            record.inner.public_key,
        )
    }

    /// The neighborhood after a request, which may have been refused.
    pub open spec fn after(self, request: Request) -> NeighborhoodView {
        match request {
            Request::AddNode(record) => if self.by_public_key.contains_key(
                record.inner.public_key,
            ) {
                self
            } else {
                self.with_node(record)
            },
            Request::AddNeighbor(from, to) => if self.by_public_key.contains_key(from)
                && self.by_public_key.contains_key(to) && !self.has_neighbor(from, to) {
                self.with_neighbor(from, to)
            } else {
                self
            },
            Request::RemoveNeighbor(key) => if self.by_public_key.contains_key(key) {
                self.without_neighbor(key)
            } else {
                self
            },
            Request::ChangeRecord(key, record) => if self.by_public_key.contains_key(key) {
                self.with_record(key, record)
            } else {
                self
            },
        }
    }

    /// The neighborhood after requests, in their order.
    pub open spec fn after_all(self, requests: Seq<Request>) -> NeighborhoodView
        decreases requests.len(),
    {
        if requests.len() == 0 {
            self
        } else {
            self.after_all(requests.drop_last()).after(requests.last())
        }
    }

    /// How many of some requests, made in their order, add a node.
    pub open spec fn additions(self, requests: Seq<Request>) -> nat
        decreases requests.len(),
    {
        if requests.len() == 0 {
            0
        } else {
            let earlier = requests.drop_last();
            self.additions(earlier) + if self.after_all(earlier).grows_by(requests.last()) {
                1nat
            } else {
                0nat
            }
        }
    }
}

/// The neighborhood of a root that knows of no other node.
pub open spec fn lone_root(root: NodeRecordView) -> NeighborhoodView {
    NeighborhoodView {
        this_node: root.inner.public_key,
        by_public_key: Map::empty(),
        by_ip_addr: Map::empty(),
    }.with_node(root)
}

/// The record that a root starts with, before it is signed.
pub open spec fn root_inner(
    public_key: Seq<u8>,
    node_addr: NodeAddrView,
    is_bootstrap_node: bool,
) -> NodeRecordInnerView {
    NodeRecordInnerView {
        public_key,
        node_addr_opt: Some(node_addr),
        is_bootstrap_node,
        neighbors: Seq::empty(),
    }
}

} // verus!
