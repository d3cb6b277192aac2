//! Keys, the data that is signed, signatures, and the device that makes them.

use vstd::prelude::*;

verus! {

/// The public key of a node, which is also its name in the neighborhood.
#[derive(Debug, Hash)]
pub struct Key {
    /// The bytes of the key.
    pub data: Vec<u8>,
}

/// Data in the clear, as it is handed to a signing device.
#[derive(Debug, Hash)]
pub struct PlainData {
    /// The bytes of the data.
    pub data: Vec<u8>,
}

/// Data that came out of a signing device.
#[derive(Debug, Hash)]
pub struct CryptData {
    /// The bytes of the data.
    pub data: Vec<u8>,
}

impl View for Key {
    type V = Seq<u8>;

    open spec fn view(&self) -> Seq<u8> {
        self.data@
    }
}

impl View for PlainData {
    type V = Seq<u8>;

    open spec fn view(&self) -> Seq<u8> {
        self.data@
    }
}

impl View for CryptData {
    type V = Seq<u8>;

    open spec fn view(&self) -> Seq<u8> {
        self.data@
    }
}

/// The keys of a list, each by its bytes.
pub open spec fn key_bytes(keys: Seq<Key>) -> Seq<Seq<u8>> {
    Seq::new(keys.len(), |i: int| keys[i]@)
}

impl Key {
    /// The key with these bytes.
    pub fn new(data: &[u8]) -> (key: Key)
        ensures
            key@ == data@,
    {
        Key { data: vstd::slice::slice_to_vec(data) }
    }
}

impl PlainData {
    /// The data with these bytes.
    pub fn new(data: &[u8]) -> (plain: PlainData)
        ensures
            plain@ == data@,
    {
        PlainData { data: vstd::slice::slice_to_vec(data) }
    }
}

impl CryptData {
    /// The data with these bytes.
    pub fn new(data: &[u8]) -> (crypt: CryptData)
        ensures
            crypt@ == data@,
    {
        CryptData { data: vstd::slice::slice_to_vec(data) }
    }
}

impl Clone for Key {
    fn clone(&self) -> (copy: Key)
        ensures
            copy@ == self@,
    {
        Key { data: self.data.clone() }
    }
}

impl Clone for CryptData {
    fn clone(&self) -> (copy: CryptData)
        ensures
            copy@ == self@,
    {
        CryptData { data: self.data.clone() }
    }
}

/// Two keys are the same when their bytes are.
impl PartialEq for Key {
    fn eq(&self, other: &Key) -> (same: bool) {
        let same = self.data == other.data;
        proof {
            if same {
                assert(self@ =~= other@);
            }
        }
        same
    }
}

impl vstd::std_specs::cmp::PartialEqSpecImpl for Key {
    open spec fn obeys_eq_spec() -> bool {
        true
    }

    open spec fn eq_spec(&self, other: &Key) -> bool {
        self@ == other@
    }
}

impl Eq for Key {

}

/// Two pieces of data are the same when their bytes are.
impl PartialEq for CryptData {
    fn eq(&self, other: &CryptData) -> (same: bool) {
        let same = self.data == other.data;
        proof {
            if same {
                assert(self@ =~= other@);
            }
        }
        same
    }
}

impl vstd::std_specs::cmp::PartialEqSpecImpl for CryptData {
    open spec fn obeys_eq_spec() -> bool {
        true
    }

    open spec fn eq_spec(&self, other: &CryptData) -> bool {
        self@ == other@
    }
}

impl Eq for CryptData {

}

/// Why a signing device refused to sign.
#[derive(Debug, PartialEq, Eq)]
pub struct CryptdecError {
    /// The device's own words.
    pub reason: String,
}

/// A device that signs data. The nodes of a network bring their own. Nothing is
/// demanded of it: it may sign the same data differently each time, and it may
/// refuse.
pub trait CryptDE {
    /// Signs `data`, or says why not.
    fn sign(&self, data: &PlainData) -> (answer: Result<CryptData, CryptdecError>);
}

/// The answer of a device, with a signature taken by its bytes.
pub open spec fn answer_bytes(answer: Result<CryptData, CryptdecError>) -> Result<
    Seq<u8>,
    CryptdecError,
> {
    match answer {
        Ok(signature) => Ok(signature@),
        Err(error) => Err(error),
    }
}

/// Whether `answer` is one that `cryptde` may give when it is asked to sign `data`.
pub open spec fn may_answer<C: CryptDE + ?Sized>(
    cryptde: &C,
    data: Seq<u8>,
    answer: Result<Seq<u8>, CryptdecError>,
) -> bool {
    exists|plain: PlainData, reply: Result<CryptData, CryptdecError>|
        {
            &&& plain@ == data
            &&& answer_bytes(reply) == answer
            &&& #[trigger] call_ensures(C::sign, (cryptde, &plain), reply)
        }
}

} // verus!
