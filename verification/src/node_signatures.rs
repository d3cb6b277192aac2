//! The two signatures of a node's record.

use vstd::prelude::*;

use crate::cryptde::{CryptDE, CryptData};
use crate::node_record_inner::{NodeRecordInner, NodeRecordInnerView};
use crate::signing::{may_sign, SigningError};

verus! {

/// A signature of the whole record, and one that can be checked by those who must
/// not learn the node's address.
#[derive(Debug, Hash)]
pub struct NodeSignatures {
    complete: CryptData,
    obscured: CryptData,
}

/// The bytes of a pair of signatures.
#[verifier::ext_equal]
pub struct NodeSignaturesView {
    pub complete: Seq<u8>,
    pub obscured: Seq<u8>,
}

impl View for NodeSignatures {
    type V = NodeSignaturesView;

    closed spec fn view(&self) -> NodeSignaturesView {
        NodeSignaturesView { complete: self.complete@, obscured: self.obscured@ }
    }
}

/// The bytes of an optional pair of signatures.
pub open spec fn signatures_view(signatures: Option<NodeSignatures>) -> Option<
    NodeSignaturesView,
> {
    match signatures {
        Some(signatures) => Some(signatures@),
        None => None,
    }
}

/// The outcome of signing a record, with signatures taken by their bytes.
pub open spec fn signing_view(outcome: Result<NodeSignatures, SigningError>) -> Result<
    NodeSignaturesView,
    SigningError,
> {
    match outcome {
        Ok(signatures) => Ok(signatures@),
        Err(error) => Err(error),
    }
}

/// Whether `outcome` is one that signing a record may have: the complete signature is
/// of the whole record, the obscured one of the record without the address, and the
/// first that fails decides.
pub open spec fn may_sign_record<C: CryptDE + ?Sized>(
    cryptde: &C,
    inner: NodeRecordInnerView,
    outcome: Result<NodeSignaturesView, SigningError>,
) -> bool {
    match outcome {
        Ok(signatures) => {
            &&& may_sign(cryptde, inner.cbor(), Ok(signatures.complete))
            &&& may_sign(cryptde, inner.obscured().cbor(), Ok(signatures.obscured))
        },
        Err(error) => {
            ||| may_sign(cryptde, inner.cbor(), Err(error))
            ||| {
                &&& exists|complete: Seq<u8>|
                    #[trigger] may_sign(cryptde, inner.cbor(), Ok(complete))
                &&& may_sign(cryptde, inner.obscured().cbor(), Err(error))
            }
        },
    }
}

impl NodeSignatures {
    /// The pair of these signatures.
    pub fn new(complete: CryptData, obscured: CryptData) -> (signatures: NodeSignatures)
        ensures
            signatures@ == (NodeSignaturesView { complete: complete@, obscured: obscured@ }),
    {
        NodeSignatures { complete, obscured }
    }

    /// The signatures of a record.
    pub fn from<C: CryptDE + ?Sized>(cryptde: &C, node_record_inner: &NodeRecordInner) -> (outcome:
        Result<NodeSignatures, SigningError>)
        ensures
            may_sign_record(cryptde, node_record_inner@, signing_view(outcome)),
    {
        let complete_signature = match node_record_inner.generate_signature(cryptde) {
            Ok(signature) => signature,
            Err(error) => return Err(error),
        };
        let mut obscured_inner = node_record_inner.clone();
        obscured_inner.node_addr_opt = None;
        assert(obscured_inner@ =~= node_record_inner@.obscured());
        match obscured_inner.generate_signature(cryptde) {
            Ok(obscured_signature) => Ok(
                NodeSignatures::new(complete_signature, obscured_signature),
            ),
            Err(error) => Err(error),
        }
    }

    /// The signature of the whole record.
    pub fn complete(&self) -> (complete: &CryptData)
        ensures
            complete@ == self@.complete,
    {
        &self.complete
    }

    /// The signature of the record without the address.
    pub fn obscured(&self) -> (obscured: &CryptData)
        ensures
            obscured@ == self@.obscured,
    {
        &self.obscured
    }
}

impl Clone for NodeSignatures {
    fn clone(&self) -> (copy: NodeSignatures)
        ensures
            copy@ == self@,
    {
        NodeSignatures { complete: self.complete.clone(), obscured: self.obscured.clone() }
    }
}

/// Two pairs are the same when both signatures are.
impl PartialEq for NodeSignatures {
    fn eq(&self, other: &NodeSignatures) -> (same: bool) {
        self.complete == other.complete && self.obscured == other.obscured
    }
}

impl vstd::std_specs::cmp::PartialEqSpecImpl for NodeSignatures {
    open spec fn obeys_eq_spec() -> bool {
        true
    }

    open spec fn eq_spec(&self, other: &NodeSignatures) -> bool {
        self@ == other@
    }
}

impl Eq for NodeSignatures {

}

} // verus!
