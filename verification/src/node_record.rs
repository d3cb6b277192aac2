//! What the neighborhood holds of one node.

use vstd::prelude::*;

use crate::cryptde::{key_bytes, CryptDE, Key};
use crate::neighborhood_database::NeighborhoodDatabaseError;
use crate::node_addr::{addr_view, NodeAddr, NodeAddrView};
use crate::node_record_inner::{NodeRecordInner, NodeRecordInnerView};
use crate::node_signatures::{
    may_sign_record, signatures_view, NodeSignatures, NodeSignaturesView,
};
use crate::signing::SigningError;

verus! {

/// A node's record, and the signatures of it where there are any.
#[derive(Debug)]
pub struct NodeRecord {
    inner: NodeRecordInner,
    signatures: Option<NodeSignatures>,
}

/// What a [`NodeRecord`] says.
#[verifier::ext_equal]
pub struct NodeRecordView {
    pub inner: NodeRecordInnerView,
    pub signatures: Option<NodeSignaturesView>,
}

impl View for NodeRecord {
    type V = NodeRecordView;

    closed spec fn view(&self) -> NodeRecordView {
        NodeRecordView { inner: self.inner@, signatures: signatures_view(self.signatures) }
    }
}

/// A list without the first occurrence of a key.
pub open spec fn without_first(keys: Seq<Seq<u8>>, key: Seq<u8>) -> Seq<Seq<u8>> {
    match keys.index_of_first(key) {
        Some(index) => keys.remove(index),
        None => keys,
    }
}

impl NodeRecordView {
    /// The record with this address in place of what it had.
    pub open spec fn with_node_addr(self, node_addr_opt: Option<NodeAddrView>) -> NodeRecordView {
        NodeRecordView { inner: NodeRecordInnerView { node_addr_opt, ..self.inner }, ..self }
    }

    /// The record with these neighbors in place of those it had.
    pub open spec fn with_neighbors(self, neighbors: Seq<Seq<u8>>) -> NodeRecordView {
        NodeRecordView { inner: NodeRecordInnerView { neighbors, ..self.inner }, ..self }
    }

    /// The record with these signatures in place of those it had.
    pub open spec fn with_signatures(self, signatures: NodeSignaturesView) -> NodeRecordView {
        NodeRecordView { signatures: Some(signatures), ..self }
    }

    /// The record without the first mention of a neighbor.
    pub open spec fn without_neighbor(self, key: Seq<u8>) -> NodeRecordView {
        self.with_neighbors(without_first(self.inner.neighbors, key))
    }
}

/// Where a key first occurs in a list.
fn position(keys: &Vec<Key>, key: &Key) -> (position: Option<usize>)
    ensures
        match position {
            Some(index) => key_bytes(keys@).index_of_first(key@) == Some(index as int) && index
                < keys@.len(),
            None => key_bytes(keys@).index_of_first(key@) is None,
        },
{
    let ghost list = key_bytes(keys@);
    proof {
        list.index_of_first_ensures(key@);
    }
    let mut i: usize = 0;
    while i < keys.len()
        invariant
            i <= keys@.len(),
            list == key_bytes(keys@),
            forall|j: int| 0 <= j < i ==> list[j] != key@,
        decreases keys@.len() - i,
    {
        if keys[i] == *key {
            proof {
                list.index_of_first_ensures(key@);
                assert(list[i as int] == key@);
                assert(list.contains(key@));
            }
            return Some(i);
        }
        i += 1;
    }
    None
}

impl NodeRecord {
    /// A record without neighbors.
    pub fn new(
        public_key: &Key,
        node_addr_opt: Option<&NodeAddr>,
        is_bootstrap_node: bool,
        signatures: Option<NodeSignatures>,
    ) -> (record: NodeRecord)
        ensures
            record@ == (NodeRecordView {
                inner: NodeRecordInnerView {
                    public_key: public_key@,
                    node_addr_opt: match node_addr_opt {
                        Some(node_addr) => Some(node_addr@),
                        None => None,
                    },
                    is_bootstrap_node,
                    neighbors: Seq::empty(),
                },
                signatures: signatures_view(signatures),
            }),
    {
        let record = NodeRecord {
            inner: NodeRecordInner {
                public_key: public_key.clone(),
                node_addr_opt: match node_addr_opt {
                    Some(node_addr) => Some(node_addr.clone()),
                    None => None,
                },
                is_bootstrap_node,
                neighbors: Vec::new(),
            },
            signatures,
        };
        assert(record@.inner.neighbors =~= Seq::empty());
        record
    }

    /// The node's public key.
    pub fn public_key(&self) -> (public_key: &Key)
        ensures
            public_key@ == self@.inner.public_key,
    {
        &self.inner.public_key
    }

    /// The node's address, if the record has one.
    pub fn node_addr_opt(&self) -> (node_addr_opt: Option<NodeAddr>)
        ensures
            addr_view(node_addr_opt) == self@.inner.node_addr_opt,
    {
        self.inner.node_addr_opt.clone()
    }

    /// Whether the node is there for others to join the network through.
    pub fn is_bootstrap_node(&self) -> (is_bootstrap_node: bool)
        ensures
            is_bootstrap_node == self@.inner.is_bootstrap_node,
    {
        self.inner.is_bootstrap_node
    }

    /// Gives the record an address, unless it has one.
    pub fn set_node_addr(&mut self, node_addr: &NodeAddr) -> (result: Result<
        (),
        NeighborhoodDatabaseError,
    >)
        ensures
            match old(self)@.inner.node_addr_opt {
                Some(present) => {
                    &&& result matches Err(NeighborhoodDatabaseError::NodeAddrAlreadySet(kept))
                    &&& kept@ == present
                    &&& final(self)@ == old(self)@
                },
                None => {
                    &&& result is Ok
                    &&& final(self)@ == old(self)@.with_node_addr(Some(node_addr@))
                },
            },
    {
        match &self.inner.node_addr_opt {
            Some(present) => Err(NeighborhoodDatabaseError::NodeAddrAlreadySet(present.clone())),
            None => {
                self.inner.node_addr_opt = Some(node_addr.clone());
                Ok(())
            },
        }
    }

    /// Takes the address out of the record.
    pub fn unset_node_addr(&mut self)
        ensures
            final(self)@ == old(self)@.with_node_addr(None),
    {
        self.inner.node_addr_opt = None;
    }

    /// Gives the record signatures, unless it has others. Whether it had none.
    pub fn set_signatures(&mut self, signatures: NodeSignatures) -> (result: Result<
        bool,
        NeighborhoodDatabaseError,
    >)
        ensures
            match old(self)@.signatures {
                None => {
                    &&& result matches Ok(changed)
                    &&& changed
                    &&& final(self)@ == old(self)@.with_signatures(signatures@)
                },
                Some(present) => {
                    &&& final(self)@ == old(self)@
                    &&& if present == signatures@ {
                        result matches Ok(changed) && !changed
                    } else {
                        result matches Err(
                            NeighborhoodDatabaseError::NodeSignaturesAlreadySet(kept),
                        ) && kept@ == present
                    }
                },
            },
    {
        match &self.signatures {
            None => {
                self.signatures = Some(signatures);
                Ok(true)
            },
            Some(present) => {
                if signatures == *present {
                    Ok(false)
                } else {
                    Err(NeighborhoodDatabaseError::NodeSignaturesAlreadySet(present.clone()))
                }
            },
        }
    }

    /// The nodes that this one is connected to.
    pub fn neighbors(&self) -> (neighbors: &Vec<Key>)
        ensures
            key_bytes(neighbors@) == self@.inner.neighbors,
    {
        &self.inner.neighbors
    }

    /// The nodes that this one is connected to, for change.
    pub fn neighbors_mut(&mut self) -> (neighbors: &mut Vec<Key>)
        ensures
            key_bytes(neighbors@) == old(self)@.inner.neighbors,
            final(self)@ == old(self)@.with_neighbors(key_bytes(final(neighbors)@)),
    {
        &mut self.inner.neighbors
    }

    /// Takes the first mention of a neighbor out of the record. Whether there was one.
    pub fn remove_neighbor(&mut self, public_key: &Key) -> (removed: bool)
        ensures
            removed == old(self)@.inner.neighbors.contains(public_key@),
            final(self)@ == old(self)@.without_neighbor(public_key@),
    {
        proof {
            old(self)@.inner.neighbors.index_of_first_ensures(public_key@);
        }
        match position(&self.inner.neighbors, public_key) {
            Some(index) => {
                self.inner.neighbors.remove(index);
                assert(self@.inner.neighbors =~= old(self)@.inner.neighbors.remove(index as int));
                true
            },
            None => false,
        }
    }

    /// Whether the node is connected to the one with this key.
    pub fn has_neighbor(&self, public_key: &Key) -> (connected: bool)
        ensures
            connected == self@.inner.neighbors.contains(public_key@),
    {
        proof {
            self@.inner.neighbors.index_of_first_ensures(public_key@);
        }
        position(&self.inner.neighbors, public_key).is_some()
    }

    /// The signatures of the record, if there are any.
    pub fn signatures(&self) -> (signatures: Option<NodeSignatures>)
        ensures
            signatures_view(signatures) == self@.signatures,
    {
        self.signatures.clone()
    }

    /// Signs the record, in place of whatever signatures it had. Where that fails the
    /// record stays as it was.
    pub fn sign<C: CryptDE + ?Sized>(&mut self, cryptde: &C) -> (result: Result<(), SigningError>)
        ensures
            match result {
                Ok(()) => {
                    &&& final(self)@.signatures matches Some(signatures)
                    &&& final(self)@ == old(self)@.with_signatures(signatures)
                    &&& may_sign_record(cryptde, old(self)@.inner, Ok(signatures))
                },
                Err(error) => {
                    &&& final(self)@ == old(self)@
                    &&& may_sign_record(cryptde, old(self)@.inner, Err(error))
                },
            },
    {
        let outcome = NodeSignatures::from(cryptde, &self.inner);
        self.accept_signatures(outcome)
    }

    /// Takes over the outcome of signing the record.
    pub fn accept_signatures(&mut self, outcome: Result<NodeSignatures, SigningError>) -> (result:
        Result<(), SigningError>)
        ensures
            match outcome {
                Ok(signatures) => {
                    &&& result is Ok
                    &&& final(self)@ == old(self)@.with_signatures(signatures@)
                },
                Err(error) => {
                    &&& result == Err::<(), SigningError>(error)
                    &&& final(self)@ == old(self)@
                },
            },
    {
        match outcome {
            Ok(signatures) => {
                self.signatures = Some(signatures);
                Ok(())
            },
            Err(error) => Err(error),
        }
    }
}

impl Clone for NodeRecord {
    fn clone(&self) -> (copy: NodeRecord)
        ensures
            copy@ == self@,
    {
        NodeRecord { inner: self.inner.clone(), signatures: self.signatures.clone() }
    }
}

/// Two records are the same when they say the same and have the same signatures.
impl PartialEq for NodeRecord {
    fn eq(&self, other: &NodeRecord) -> (same: bool) {
        self.inner == other.inner && self.signatures == other.signatures
    }
}

impl vstd::std_specs::cmp::PartialEqSpecImpl for NodeRecord {
    open spec fn obeys_eq_spec() -> bool {
        true
    }

    open spec fn eq_spec(&self, other: &NodeRecord) -> bool {
        self@ == other@
    }
}

} // verus!
