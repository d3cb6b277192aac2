use std::cell::RefCell;

use serde::ser::SerializeStruct;
use serde::{Serialize, Serializer};

use neighborhood_lib::cryptde::{CryptDE, CryptData, CryptdecError, Key, PlainData};
use neighborhood_lib::node_addr::{IpAddr, NodeAddr};
use neighborhood_lib::node_record::NodeRecord;
use neighborhood_lib::node_record_inner::NodeRecordInner;
use neighborhood_lib::node_signatures::NodeSignatures;
use neighborhood_lib::signing::{
    accept_answer, digest_message, sign_digest, sign_message, SigningError,
};

/// Hands the data back as its signature, as often as it is allowed to.
struct Mirror {
    left: RefCell<usize>,
}

impl Mirror {
    fn new(left: usize) -> Mirror {
        Mirror { left: RefCell::new(left) }
    }
}

fn worn_out() -> CryptdecError {
    CryptdecError { reason: String::from("worn out") }
}

impl CryptDE for Mirror {
    fn sign(&self, data: &PlainData) -> Result<CryptData, CryptdecError> {
        let mut left = self.left.borrow_mut();
        if *left == 0 {
            return Err(worn_out());
        }
        *left -= 1;
        Ok(CryptData::new(&data.data))
    }
}

/// A byte string to serde.
struct Bytes<'a>(&'a [u8]);

impl<'a> Serialize for Bytes<'a> {
    fn serialize<S: Serializer>(&self, serializer: S) -> Result<S::Ok, S::Error> {
        serializer.serialize_bytes(self.0)
    }
}

/// An IP address to serde.
struct Ip(IpAddr);

impl Serialize for Ip {
    fn serialize<S: Serializer>(&self, serializer: S) -> Result<S::Ok, S::Error> {
        match self.0 {
            IpAddr::V4(bits) => {
                serializer.serialize_newtype_variant("IpAddr", 0, "V4", &bits.to_be_bytes())
            }
            IpAddr::V6(bits) => {
                serializer.serialize_newtype_variant("IpAddr", 1, "V6", &bits.to_be_bytes())
            }
        }
    }
}

/// An address to serde.
struct Addr<'a>(&'a NodeAddr);

impl<'a> Serialize for Addr<'a> {
    fn serialize<S: Serializer>(&self, serializer: S) -> Result<S::Ok, S::Error> {
        let mut fields = serializer.serialize_struct("NodeAddr", 2)?;
        fields.serialize_field("ip_addr", &Ip(self.0.ip_addr()))?;
        fields.serialize_field("ports", self.0.ports())?;
        fields.end()
    }
}

/// A record to serde.
struct Inner<'a>(&'a NodeRecordInner);

impl<'a> Serialize for Inner<'a> {
    fn serialize<S: Serializer>(&self, serializer: S) -> Result<S::Ok, S::Error> {
        let neighbors: Vec<Bytes> = self.0.neighbors.iter().map(|key| Bytes(&key.data)).collect();
        let mut fields = serializer.serialize_struct("NodeRecordInner", 4)?;
        fields.serialize_field("public_key", &Bytes(&self.0.public_key.data))?;
        fields.serialize_field("node_addr_opt", &self.0.node_addr_opt.as_ref().map(Addr))?;
        fields.serialize_field("is_bootstrap_node", &self.0.is_bootstrap_node)?;
        fields.serialize_field("neighbors", &neighbors)?;
        fields.end()
    }
}

fn example() -> NodeRecordInner {
    NodeRecordInner {
        public_key: Key::new(&[1, 2, 3, 4]),
        node_addr_opt: Some(NodeAddr::new(&IpAddr::V4(0x010203c8), &vec![1234, 80, 7])),
        is_bootstrap_node: true,
        neighbors: vec![Key::new(&[9]), Key::new(&[8, 7])],
    }
}

const COMPLETE_DIGEST: [u8; 20] = [
    0x20, 0x33, 0x67, 0xc1, 0x8b, 0x0d, 0x72, 0x3a, 0x5d, 0x6e, 0x7a, 0x7f, 0xee, 0x5d, 0x67, 0xa3,
    0x52, 0xc3, 0x31, 0x68,
];

const OBSCURED_DIGEST: [u8; 20] = [
    0x70, 0x43, 0xa6, 0xe0, 0xda, 0xe3, 0x39, 0x47, 0x8b, 0xd5, 0xf6, 0x07, 0xf1, 0xfe, 0x5a, 0x01,
    0xe2, 0xd9, 0xd6, 0x6e,
];

#[test]
fn a_record_is_serialized_to_these_bytes() {
    let mut expected = vec![0xa4, 0x6a];
    expected.extend_from_slice(b"public_key");
    expected.extend_from_slice(&[0x44, 1, 2, 3, 4, 0x6d]);
    expected.extend_from_slice(b"node_addr_opt");
    expected.extend_from_slice(&[0xa2, 0x67]);
    expected.extend_from_slice(b"ip_addr");
    expected.extend_from_slice(&[0x82, 0x62, b'V', b'4', 0x84, 1, 2, 3, 0x18, 0xc8, 0x65]);
    expected.extend_from_slice(b"ports");
    expected.extend_from_slice(&[0x83, 0x19, 0x04, 0xd2, 0x18, 0x50, 0x07, 0x71]);
    expected.extend_from_slice(b"is_bootstrap_node");
    expected.extend_from_slice(&[0xf5, 0x69]);
    expected.extend_from_slice(b"neighbors");
    expected.extend_from_slice(&[0x82, 0x41, 9, 0x42, 8, 7]);

    assert_eq!(example().serialized(), expected);
}

#[test]
fn a_record_is_serialized_as_serde_does_it() {
    let v6 = IpAddr::V6(0x0102_0304_0506_0708_090a_0b0c_0d0e_ff80);
    let addrs = vec![
        None,
        Some(NodeAddr::new(&IpAddr::V4(0), &vec![])),
        Some(NodeAddr::new(&IpAddr::V4(u32::MAX), &vec![0, 23, 24, 255, 256, 65535])),
        Some(NodeAddr::new(&v6, &(0..300).collect())),
    ];
    let lists = vec![
        vec![],
        (0..23).map(|i| Key::new(&vec![i; 23])).collect::<Vec<Key>>(),
        (0..24).map(|i| Key::new(&vec![i; 24])).collect::<Vec<Key>>(),
        (0..=255).map(|i| Key::new(&vec![i; 255])).collect::<Vec<Key>>(),
        vec![Key::new(&vec![7; 256]), Key::new(&vec![8; 65535]), Key::new(&vec![9; 65536])],
    ];
    for node_addr_opt in &addrs {
        for neighbors in &lists {
            for is_bootstrap_node in [false, true] {
                let inner = NodeRecordInner {
                    public_key: Key::new(b"key"),
                    node_addr_opt: node_addr_opt.clone(),
                    is_bootstrap_node,
                    neighbors: neighbors.clone(),
                };
                assert_eq!(inner.serialized(), serde_cbor::ser::to_vec(&Inner(&inner)).unwrap());
            }
        }
    }
}

#[test]
fn different_records_are_different_bytes() {
    let mut variants = vec![example()];
    for i in 0..6 {
        let mut inner = example();
        match i {
            0 => inner.public_key = Key::new(&[1, 2, 3]),
            1 => inner.node_addr_opt = None,
            2 => {
                inner.node_addr_opt =
                    Some(NodeAddr::new(&IpAddr::V6(0x010203c8), &vec![1234, 80, 7]))
            }
            3 => inner.node_addr_opt = Some(NodeAddr::new(&IpAddr::V4(0x010203c8), &vec![1234, 80])),
            4 => inner.is_bootstrap_node = false,
            _ => inner.neighbors = vec![Key::new(&[9, 8, 7])],
        }
        variants.push(inner);
    }
    for (i, a) in variants.iter().enumerate() {
        for (j, b) in variants.iter().enumerate() {
            assert_eq!(a.serialized() == b.serialized(), i == j);
            assert_eq!(a == b, i == j);
        }
    }
}

#[test]
fn an_address_has_its_octets_in_network_order() {
    assert_eq!(IpAddr::V4(0x01020304).octets(), vec![1, 2, 3, 4]);
    assert_eq!(
        IpAddr::V6(0xfe80_0000_0000_0000_0000_0000_0000_0102).octets(),
        vec![0xfe, 0x80, 0, 0, 0, 0, 0, 0, 0, 0, 0, 0, 0, 0, 1, 2]
    );
}

#[test]
fn a_message_has_its_sha1_digest() {
    assert_eq!(
        digest_message(b"abc").unwrap().data,
        vec![
            0xa9, 0x99, 0x3e, 0x36, 0x47, 0x06, 0x81, 0x6a, 0xba, 0x3e, 0x25, 0x71, 0x78, 0x50,
            0xc2, 0x6c, 0x9c, 0xd0, 0xd8, 0x9d
        ]
    );
}

#[test]
fn a_device_is_handed_the_digest_of_the_record() {
    let signature = example().generate_signature(&Mirror::new(1)).unwrap();

    assert_eq!(signature.data, COMPLETE_DIGEST.to_vec());
}

#[test]
fn the_obscured_signature_does_not_depend_on_the_address() {
    let mut elsewhere = example();
    elsewhere.node_addr_opt = Some(NodeAddr::new(&IpAddr::V6(1), &vec![1]));
    let mut nowhere = example();
    nowhere.node_addr_opt = None;

    let here = NodeSignatures::from(&Mirror::new(2), &example()).unwrap();
    let there = NodeSignatures::from(&Mirror::new(2), &elsewhere).unwrap();
    let unknown = NodeSignatures::from(&Mirror::new(2), &nowhere).unwrap();

    assert_eq!(here.complete().data, COMPLETE_DIGEST.to_vec());
    assert_eq!(here.obscured().data, OBSCURED_DIGEST.to_vec());
    assert_ne!(there.complete(), here.complete());
    assert_eq!(there.obscured(), here.obscured());
    assert_eq!(unknown.complete(), unknown.obscured());
    assert_eq!(unknown.obscured(), here.obscured());
}

#[test]
fn a_refusal_comes_back() {
    assert_eq!(
        example().generate_signature(&Mirror::new(0)),
        Err(SigningError::Refused(worn_out()))
    );
    assert_eq!(
        NodeSignatures::from(&Mirror::new(0), &example()),
        Err(SigningError::Refused(worn_out()))
    );
    assert_eq!(
        NodeSignatures::from(&Mirror::new(1), &example()),
        Err(SigningError::Refused(worn_out()))
    );
    assert_eq!(accept_answer(Err(worn_out())), Err(SigningError::Refused(worn_out())));
    assert_eq!(accept_answer(Ok(CryptData::new(&[5]))), Ok(CryptData::new(&[5])));
}

#[test]
fn a_digest_is_signed_as_it_is() {
    let digest = PlainData::new(&[1, 2, 3]);

    assert_eq!(sign_digest(&Mirror::new(1), &digest), Ok(CryptData::new(&[1, 2, 3])));
    assert_eq!(
        sign_message(&Mirror::new(1), b"abc").unwrap().data,
        digest_message(b"abc").unwrap().data
    );
}

#[test]
fn a_record_takes_over_the_outcome_of_signing() {
    let mut record = NodeRecord::new(&Key::new(&[1]), None, false, None);
    let signatures = NodeSignatures::new(CryptData::new(&[1]), CryptData::new(&[2]));

    assert_eq!(
        record.accept_signatures(Err(SigningError::ContentTooLong)),
        Err(SigningError::ContentTooLong)
    );
    assert_eq!(record.signatures(), None);
    assert_eq!(record.accept_signatures(Ok(signatures.clone())), Ok(()));
    assert_eq!(record.signatures(), Some(signatures));
}

#[test]
fn signing_again_replaces_the_signatures_and_nothing_else() {
    let mut record = NodeRecord::new(&Key::new(&[1]), None, false, None);
    record.sign(&Mirror::new(2)).unwrap();
    let first = record.signatures().unwrap();
    record.neighbors_mut().push(Key::new(&[2]));

    assert_eq!(record.sign(&Mirror::new(1)), Err(SigningError::Refused(worn_out())));
    assert_eq!(record.signatures(), Some(first.clone()));
    record.sign(&Mirror::new(2)).unwrap();
    assert_ne!(record.signatures(), Some(first));
    assert_eq!(record.neighbors(), &vec![Key::new(&[2])]);
    assert_eq!(record.public_key(), &Key::new(&[1]));
}
