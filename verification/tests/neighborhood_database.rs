use std::collections::HashSet;

use neighborhood_lib::cryptde::{CryptDE, CryptData, CryptdecError, Key, PlainData};
use neighborhood_lib::neighborhood_database::{
    NeighborhoodDatabase, NeighborhoodDatabaseError,
};
use neighborhood_lib::node_addr::{IpAddr, NodeAddr};
use neighborhood_lib::node_record::NodeRecord;
use neighborhood_lib::node_record_inner::NodeRecordInner;
use neighborhood_lib::node_signatures::NodeSignatures;
use neighborhood_lib::signing::SigningError;

/// Signs by putting its key before the data.
struct CryptDENull {
    key: Key,
}

impl CryptDENull {
    fn from(key: &Key) -> CryptDENull {
        CryptDENull { key: key.clone() }
    }
}

impl CryptDE for CryptDENull {
    fn sign(&self, data: &PlainData) -> Result<CryptData, CryptdecError> {
        let mut bytes = self.key.data.clone();
        bytes.extend_from_slice(&data.data);
        Ok(CryptData::new(&bytes))
    }
}

/// Never signs.
struct Refusing;

impl CryptDE for Refusing {
    fn sign(&self, _data: &PlainData) -> Result<CryptData, CryptdecError> {
        Err(CryptdecError { reason: String::from("no") })
    }
}

fn ip(a: u8, b: u8, c: u8, d: u8) -> IpAddr {
    IpAddr::V4(u32::from_be_bytes([a, b, c, d]))
}

fn make_node_record(n: u16, has_ip: bool, is_bootstrap_node: bool) -> NodeRecord {
    let a = ((n / 1000) % 10) as u8;
    let b = ((n / 100) % 10) as u8;
    let c = ((n / 10) % 10) as u8;
    let d = (n % 10) as u8;
    let key = Key::new(&[a, b, c, d]);
    let node_addr = NodeAddr::new(&ip(a, b, c, d), &vec![n % 10000]);
    let node_addr_opt = if has_ip { Some(&node_addr) } else { None };
    let mut record = NodeRecord::new(&key, node_addr_opt, is_bootstrap_node, None);
    record.sign(&CryptDENull::from(&key)).unwrap();
    record
}

fn make_database(this_node: &NodeRecord) -> NeighborhoodDatabase {
    NeighborhoodDatabase::new(
        this_node.public_key(),
        this_node.node_addr_opt().as_ref().unwrap(),
        false,
        &CryptDENull::from(this_node.public_key()),
    )
    .unwrap()
}

fn assert_brand_new(subject: &NeighborhoodDatabase, this_node: &NodeRecord) {
    let ip_addr = this_node.node_addr_opt().unwrap().ip_addr();
    assert_eq!(subject.this_node(), this_node.public_key());
    assert_eq!(subject.keys(), vec![this_node.public_key()]);
    assert_eq!(subject.node_by_key(this_node.public_key()), Some(this_node));
    assert_eq!(subject.ip_addrs(), vec![ip_addr]);
    assert_eq!(
        subject.node_by_ip(&ip_addr).unwrap().public_key(),
        this_node.public_key()
    );
}

#[test]
fn a_brand_new_database_has_the_expected_contents() {
    let this_node = make_node_record(1234, true, false);

    let subject = make_database(&this_node);

    assert_brand_new(&subject, &this_node);
    let root = subject.root();
    assert_eq!(*root, this_node);
}

#[test]
fn can_get_mutable_root() {
    let this_node = make_node_record(1234, true, false);

    let mut subject = make_database(&this_node);

    assert_brand_new(&subject, &this_node);
    let root = subject.root_mut();
    assert_eq!(*root, this_node);
}

#[test]
fn cant_add_a_node_twice() {
    let this_node = make_node_record(1234, true, false);
    let first_copy = make_node_record(2345, true, false);
    let second_copy = make_node_record(2345, true, false);
    let mut subject = make_database(&this_node);
    let first_result = subject.add_node(&first_copy);

    let second_result = subject.add_node(&second_copy);

    assert_eq!(first_result.unwrap(), ());
    assert_eq!(
        second_result.err().unwrap(),
        NeighborhoodDatabaseError::NodeKeyCollision(second_copy.public_key().clone())
    );
}

#[test]
fn node_by_key_works() {
    let this_node = make_node_record(1234, true, false);
    let one_node = make_node_record(4567, true, false);
    let another_node = make_node_record(5678, true, false);
    let mut subject = make_database(&this_node);

    subject.add_node(&one_node).unwrap();

    assert_eq!(subject.node_by_key(this_node.public_key()).unwrap().clone(), this_node);
    assert_eq!(subject.node_by_key(one_node.public_key()).unwrap().clone(), one_node);
    assert_eq!(subject.node_by_key(another_node.public_key()), None);
}

#[test]
fn node_by_ip_works() {
    let this_node = make_node_record(1234, true, false);
    let one_node = make_node_record(4567, true, false);
    let another_node = make_node_record(5678, true, false);
    let mut subject = make_database(&this_node);

    subject.add_node(&one_node).unwrap();

    assert_eq!(
        subject.node_by_ip(&this_node.node_addr_opt().unwrap().ip_addr()).unwrap().clone(),
        this_node
    );
    assert_eq!(
        subject.node_by_ip(&one_node.node_addr_opt().unwrap().ip_addr()).unwrap().clone(),
        one_node
    );
    assert_eq!(subject.node_by_ip(&another_node.node_addr_opt().unwrap().ip_addr()), None);
}

#[test]
fn add_neighbor_works() {
    let this_node = make_node_record(1234, true, false);
    let one_node = make_node_record(2345, false, false);
    let another_node = make_node_record(3456, true, false);
    let mut subject = make_database(&this_node);
    subject.add_node(&one_node).unwrap();
    subject.add_node(&another_node).unwrap();

    subject.add_neighbor(one_node.public_key(), this_node.public_key()).unwrap();
    subject.add_neighbor(one_node.public_key(), another_node.public_key()).unwrap();
    subject.add_neighbor(another_node.public_key(), this_node.public_key()).unwrap();
    subject.add_neighbor(another_node.public_key(), one_node.public_key()).unwrap();

    let this_key = this_node.public_key();
    let one_key = one_node.public_key();
    let another_key = another_node.public_key();
    assert_eq!(subject.node_by_key(this_key).unwrap().has_neighbor(this_key), false);
    assert_eq!(subject.node_by_key(this_key).unwrap().has_neighbor(one_key), false);
    assert_eq!(subject.node_by_key(this_key).unwrap().has_neighbor(another_key), false);
    assert_eq!(subject.node_by_key(one_key).unwrap().has_neighbor(this_key), true);
    assert_eq!(subject.node_by_key(one_key).unwrap().has_neighbor(one_key), false);
    assert_eq!(subject.node_by_key(one_key).unwrap().has_neighbor(another_key), true);
    assert_eq!(subject.node_by_key(another_key).unwrap().has_neighbor(this_key), true);
    assert_eq!(subject.node_by_key(another_key).unwrap().has_neighbor(one_key), true);
    assert_eq!(subject.node_by_key(another_key).unwrap().has_neighbor(another_key), false);
    let keys: HashSet<&Key> = subject.keys().into_iter().collect();
    let expected: HashSet<&Key> = vec![this_key, one_key, another_key].into_iter().collect();
    assert_eq!(keys, expected);
    assert_eq!(subject.keys().len(), 3);
}

#[test]
fn add_neighbor_complains_if_from_node_doesnt_exist() {
    let this_node = make_node_record(1234, true, false);
    let nonexistent_node = make_node_record(2345, true, false);
    let mut subject = make_database(&this_node);

    let result = subject.add_neighbor(nonexistent_node.public_key(), this_node.public_key());

    assert_eq!(
        result,
        Err(NeighborhoodDatabaseError::NodeKeyNotFound(
            nonexistent_node.public_key().clone()
        ))
    );
}

#[test]
fn add_neighbor_complains_if_to_node_doesnt_exist() {
    let this_node = make_node_record(1234, true, false);
    let nonexistent_node = make_node_record(2345, true, false);
    let mut subject = make_database(&this_node);

    let result = subject.add_neighbor(this_node.public_key(), nonexistent_node.public_key());

    assert_eq!(
        result,
        Err(NeighborhoodDatabaseError::NodeKeyNotFound(
            nonexistent_node.public_key().clone()
        ))
    );
}

#[test]
fn set_node_addr_works_once_but_not_twice() {
    let mut subject = make_node_record(1234, false, false);
    assert_eq!(subject.node_addr_opt(), None);
    let first_node_addr = NodeAddr::new(&ip(4, 3, 2, 1), &vec![4321]);
    let result = subject.set_node_addr(&first_node_addr);
    assert_eq!(result, Ok(()));
    assert_eq!(subject.node_addr_opt(), Some(first_node_addr.clone()));
    let second_node_addr = NodeAddr::new(&ip(5, 4, 3, 2), &vec![5432]);
    let result = subject.set_node_addr(&second_node_addr);
    assert_eq!(
        result,
        Err(NeighborhoodDatabaseError::NodeAddrAlreadySet(first_node_addr.clone()))
    );
    assert_eq!(subject.node_addr_opt(), Some(first_node_addr));
}

#[test]
fn unset_node_addr() {
    let mut subject = make_node_record(1234, true, false);

    subject.unset_node_addr();

    assert_eq!(None, subject.node_addr_opt());
}

#[test]
fn set_signatures_returns_true_when_signatures_are_not_set() {
    let subject_signed = make_node_record(1234, false, false);
    let mut subject = NodeRecord::new(
        subject_signed.public_key(),
        subject_signed.node_addr_opt().as_ref(),
        subject_signed.is_bootstrap_node(),
        None,
    );

    assert_eq!(subject.signatures(), None);

    let signatures =
        NodeSignatures::new(CryptData::new(&[123, 56, 89]), CryptData::new(&[87, 54, 21]));

    let result = subject.set_signatures(signatures.clone());

    assert_eq!(result, Ok(true));
    assert_eq!(subject.signatures(), Some(signatures.clone()));
}

#[test]
fn set_signatures_returns_false_when_signatures_match() {
    let mut subject = make_node_record(1234, false, false);

    let signatures = subject.signatures().unwrap().clone();
    let result = subject.set_signatures(signatures);

    assert_eq!(result, Ok(false));
}

#[test]
fn set_signatures_returns_error_when_signatures_differ() {
    let mut subject = make_node_record(1234, false, false);

    let result = subject.set_signatures(NodeSignatures::new(
        CryptData::new(&[1, 2, 3]),
        CryptData::new(&[9, 8, 7]),
    ));

    assert_eq!(
        result,
        Err(NeighborhoodDatabaseError::NodeSignaturesAlreadySet(
            subject.signatures().unwrap()
        ))
    );
}

#[test]
fn node_signatures_can_be_created_from_node_record_inner() {
    let to_be_signed = NodeRecordInner {
        public_key: Key::new(&[1, 2, 3, 4]),
        node_addr_opt: Some(NodeAddr::new(&ip(1, 2, 3, 4), &vec![1234])),
        is_bootstrap_node: true,
        neighbors: Vec::new(),
    };
    let cryptde = CryptDENull::from(&to_be_signed.public_key);

    let result = NodeSignatures::from(&cryptde, &to_be_signed).unwrap();

    assert_eq!(result.complete(), &to_be_signed.generate_signature(&cryptde).unwrap());
    let mut to_be_signed_obscured = to_be_signed.clone();
    to_be_signed_obscured.node_addr_opt = None;
    assert_eq!(
        result.obscured(),
        &to_be_signed_obscured.generate_signature(&cryptde).unwrap()
    );
    assert_ne!(result.complete(), result.obscured());
}

#[test]
fn node_record_partial_eq() {
    let poke = Key::new(&b"poke"[..]);
    let node_addr = NodeAddr::new(&ip(1, 2, 3, 4), &vec![1234]);
    let exemplar = NodeRecord::new(&poke, Some(&node_addr), true, None);
    let duplicate = NodeRecord::new(&poke, Some(&node_addr), true, None);
    let mut with_neighbor = NodeRecord::new(&poke, Some(&node_addr), true, None);
    let mod_key = NodeRecord::new(&Key::new(&b"kope"[..]), Some(&node_addr), true, None);
    let mod_node_addr = NodeRecord::new(
        &poke,
        Some(&NodeAddr::new(&ip(1, 2, 3, 5), &vec![1234])),
        true,
        None,
    );
    let mod_is_bootstrap = NodeRecord::new(&poke, Some(&node_addr), false, None);
    let mod_signatures = NodeRecord::new(
        &poke,
        Some(&node_addr),
        true,
        Some(NodeSignatures::new(CryptData::new(b""), CryptData::new(b""))),
    );
    with_neighbor.neighbors_mut().push(mod_key.public_key().clone());

    assert_eq!(exemplar, exemplar);
    assert_eq!(exemplar, duplicate);
    assert_ne!(exemplar, with_neighbor);
    assert_ne!(exemplar, mod_key);
    assert_ne!(exemplar, mod_node_addr);
    assert_ne!(exemplar, mod_is_bootstrap);
    assert_ne!(exemplar, mod_signatures);
}

#[test]
fn add_neighbor_returns_true_when_new_edge_is_created() {
    let this_node = make_node_record(1234, true, false);
    let other_node = make_node_record(2345, true, false);
    let mut subject = make_database(&this_node);
    subject.add_node(&other_node).unwrap();

    let result = subject.add_neighbor(this_node.public_key(), other_node.public_key());

    assert!(result.unwrap(), "add_neighbor done goofed");
}

#[test]
fn add_neighbor_returns_false_when_edge_already_exists() {
    let this_node = make_node_record(1234, true, false);
    let other_node = make_node_record(2345, true, false);
    let mut subject = make_database(&this_node);
    subject.add_node(&other_node).unwrap();
    subject.add_neighbor(this_node.public_key(), other_node.public_key()).unwrap();

    let result = subject.add_neighbor(this_node.public_key(), other_node.public_key());

    assert!(!result.unwrap(), "add_neighbor done goofed");
}

#[test]
fn remove_neighbor_returns_error_when_given_nonexistent_node_key() {
    let this_node = make_node_record(123, true, false);
    let mut subject = make_database(&this_node);
    let nonexistent_key = &Key::new(b"nonexistent");

    let result = subject.remove_neighbor(nonexistent_key);

    let err_message = format!(
        "could not remove nonexistent neighbor by public key: {:?}",
        nonexistent_key
    );
    assert_eq!(err_message, result.expect_err("not an error"));
}

#[test]
fn remove_neighbor_returns_true_when_neighbor_was_removed() {
    let this_node = make_node_record(123, true, false);
    let mut subject = make_database(&this_node);
    let other_node = make_node_record(2345, true, false);
    subject.add_node(&other_node).unwrap();
    subject.add_neighbor(this_node.public_key(), other_node.public_key()).unwrap();

    let result = subject.remove_neighbor(other_node.public_key());

    assert_eq!(None, subject.node_by_key(other_node.public_key()).unwrap().node_addr_opt());
    assert_eq!(None, subject.node_by_ip(&other_node.node_addr_opt().unwrap().ip_addr()));
    assert!(result.ok().expect("should be ok"));
}

#[test]
fn remove_neighbor_returns_false_when_neighbor_was_not_removed() {
    let this_node = make_node_record(123, true, false);
    let mut subject = make_database(&this_node);
    let neighborless_node = make_node_record(2345, true, false);
    subject.add_node(&neighborless_node).unwrap();

    let result = subject.remove_neighbor(neighborless_node.public_key());

    assert_eq!(
        None,
        subject.node_by_key(neighborless_node.public_key()).unwrap().node_addr_opt()
    );
    assert_eq!(None, subject.node_by_ip(&neighborless_node.node_addr_opt().unwrap().ip_addr()));
    assert!(!result.ok().expect("should be ok"));
}

#[test]
fn a_database_is_not_made_without_a_signature() {
    let node_addr = NodeAddr::new(&ip(1, 2, 3, 4), &vec![1234]);

    let result = NeighborhoodDatabase::new(&Key::new(&[1]), &node_addr, true, &Refusing);

    assert_eq!(
        result.err(),
        Some(SigningError::Refused(CryptdecError { reason: String::from("no") }))
    );
}

#[test]
fn a_database_takes_a_device_behind_a_trait_object() {
    let node_addr = NodeAddr::new(&ip(1, 2, 3, 4), &vec![1234]);
    let key = Key::new(&[1]);
    let device: Box<dyn CryptDE> = Box::new(CryptDENull::from(&key));

    let subject = NeighborhoodDatabase::new(&key, &node_addr, true, device.as_ref()).unwrap();

    assert_eq!(subject.root().is_bootstrap_node(), true);
    assert_eq!(subject.root().neighbors(), &vec![]);
}

#[test]
fn a_database_can_start_from_a_record() {
    let root = make_node_record(1234, false, true);

    let subject = NeighborhoodDatabase::from_root(&root);

    assert_eq!(subject.root(), &root);
    assert_eq!(subject.keys(), vec![root.public_key()]);
    assert_eq!(subject.ip_addrs(), vec![]);
}

#[test]
fn a_refused_node_changes_nothing() {
    let this_node = make_node_record(1234, true, false);
    let present = make_node_record(2345, true, false);
    let mut imposter = make_node_record(2345, false, true);
    imposter.set_node_addr(&NodeAddr::new(&ip(9, 9, 9, 9), &vec![])).unwrap();
    let mut subject = make_database(&this_node);
    subject.add_node(&present).unwrap();

    subject.add_node(&imposter).unwrap_err();

    assert_eq!(subject.node_by_key(present.public_key()), Some(&present));
    assert_eq!(subject.node_by_ip(&ip(9, 9, 9, 9)), None);
    assert_eq!(subject.keys().len(), 2);
}

#[test]
fn the_last_node_added_at_an_address_is_found_there() {
    let this_node = make_node_record(1234, true, false);
    let mut latecomer = make_node_record(2345, false, false);
    let shared = this_node.node_addr_opt().unwrap();
    latecomer.set_node_addr(&shared).unwrap();
    let mut subject = make_database(&this_node);

    subject.add_node(&latecomer).unwrap();

    assert_eq!(subject.node_by_ip(&shared.ip_addr()), Some(&latecomer));
    assert_eq!(subject.ip_addrs().len(), 1);

    subject.remove_neighbor(this_node.public_key()).unwrap();

    assert_eq!(subject.node_by_ip(&shared.ip_addr()), None);
    assert_eq!(subject.node_by_key(latecomer.public_key()), Some(&latecomer));
}

#[test]
fn a_missing_neighbor_is_named_before_a_missing_node() {
    let this_node = make_node_record(1234, true, false);
    let mut subject = make_database(&this_node);

    let result = subject.add_neighbor(&Key::new(&[1]), &Key::new(&[2]));

    assert_eq!(
        result,
        Err(NeighborhoodDatabaseError::NodeKeyNotFound(Key::new(&[2])))
    );
}

#[test]
fn connections_have_a_direction() {
    let this_node = make_node_record(1234, true, false);
    let other_node = make_node_record(2345, true, false);
    let mut subject = make_database(&this_node);
    subject.add_node(&other_node).unwrap();

    subject.add_neighbor(this_node.public_key(), other_node.public_key()).unwrap();

    assert!(subject.has_neighbor(this_node.public_key(), other_node.public_key()));
    assert!(!subject.has_neighbor(other_node.public_key(), this_node.public_key()));
    assert!(!subject.has_neighbor(&Key::new(&[7]), this_node.public_key()));
}

#[test]
fn a_node_can_be_connected_to_itself() {
    let this_node = make_node_record(1234, true, false);
    let mut subject = make_database(&this_node);
    let key = this_node.public_key();

    assert_eq!(subject.add_neighbor(key, key), Ok(true));
    assert_eq!(subject.remove_neighbor(key), Ok(true));

    assert_eq!(subject.root().node_addr_opt(), None);
    assert!(!subject.has_neighbor(key, key));
}

#[test]
fn removing_again_changes_nothing() {
    let this_node = make_node_record(1234, true, false);
    let other_node = make_node_record(2345, true, false);
    let mut subject = make_database(&this_node);
    subject.add_node(&other_node).unwrap();
    subject.add_neighbor(this_node.public_key(), other_node.public_key()).unwrap();
    assert_eq!(subject.remove_neighbor(other_node.public_key()), Ok(true));
    assert_eq!(subject.root(), &this_node);
    let before = format!("{:?}", subject);

    assert_eq!(subject.remove_neighbor(other_node.public_key()), Ok(false));

    assert_eq!(format!("{:?}", subject), before);
    assert_eq!(subject.keys().len(), 2);
}

#[test]
fn only_the_first_mention_of_a_neighbor_is_removed() {
    let mut subject = make_node_record(1234, true, false);
    let twice = Key::new(&[1]);
    let once = Key::new(&[2]);
    subject.neighbors_mut().push(twice.clone());
    subject.neighbors_mut().push(once.clone());
    subject.neighbors_mut().push(twice.clone());

    assert!(subject.remove_neighbor(&twice));
    assert_eq!(subject.neighbors(), &vec![once.clone(), twice.clone()]);
    assert!(subject.remove_neighbor(&twice));
    assert_eq!(subject.neighbors(), &vec![once.clone()]);
    assert!(!subject.remove_neighbor(&twice));
    assert_eq!(subject.neighbors(), &vec![once]);
}

#[test]
fn connections_stay_among_known_nodes() {
    let this_node = make_node_record(1234, true, false);
    let other_node = make_node_record(2345, true, false);
    let mut subject = make_database(&this_node);
    subject.add_node(&other_node).unwrap();
    subject.add_neighbor(this_node.public_key(), other_node.public_key()).unwrap();
    subject.add_neighbor(this_node.public_key(), &Key::new(&[9])).unwrap_err();

    for key in subject.keys() {
        for neighbor in subject.node_by_key(key).unwrap().neighbors() {
            assert!(subject.keys().contains(&neighbor));
        }
    }
}

#[test]
fn a_record_can_be_changed_in_place() {
    let this_node = make_node_record(1234, true, false);
    let mut subject = make_database(&this_node);
    let node_addr = NodeAddr::new(&ip(5, 6, 7, 8), &vec![1, 2]);

    let record = subject.node_by_key_mut(this_node.public_key()).unwrap();
    record.unset_node_addr();
    record.set_node_addr(&node_addr).unwrap();

    assert_eq!(subject.root().node_addr_opt(), Some(node_addr));
    assert_eq!(subject.node_by_ip(&ip(5, 6, 7, 8)), None);
    assert_eq!(subject.node_by_key_mut(&Key::new(&[1])), None);
}

#[test]
fn a_refused_removal_says_which_key_it_was() {
    let this_node = make_node_record(1234, true, false);
    let mut subject = make_database(&this_node);

    assert_eq!(
        subject.remove_neighbor(&Key::new(&[0, 9, 10, 99, 100, 255])),
        Err(String::from(
            "could not remove nonexistent neighbor by public key: \
             Key { data: [0, 9, 10, 99, 100, 255] }"
        ))
    );
    for bytes in [vec![], vec![42], (0..=255u8).collect::<Vec<u8>>()] {
        let key = Key::new(&bytes);
        assert_eq!(
            subject.remove_neighbor(&key),
            Err(format!("could not remove nonexistent neighbor by public key: {:?}", key))
        );
    }
    assert_eq!(subject.root(), &this_node);
}

/// A database after some requests, a few of them refused.
fn make_busy_database() -> NeighborhoodDatabase {
    let this_node = make_node_record(1234, true, false);
    let one_node = make_node_record(2345, true, false);
    let mut usurper = make_node_record(3456, false, false);
    usurper.set_node_addr(&one_node.node_addr_opt().unwrap()).unwrap();
    let leaver = make_node_record(4567, true, true);
    let mut subject = make_database(&this_node);
    subject.add_node(&one_node).unwrap();
    subject.add_node(&usurper).unwrap();
    subject.add_node(&one_node).unwrap_err();
    subject.add_node(&leaver).unwrap();
    subject.add_neighbor(this_node.public_key(), leaver.public_key()).unwrap();
    subject.add_neighbor(leaver.public_key(), &Key::new(&[1])).unwrap_err();
    subject.remove_neighbor(leaver.public_key()).unwrap();
    subject.remove_neighbor(&Key::new(&[1])).unwrap_err();
    subject
}

#[test]
fn records_are_under_the_keys_they_name() {
    let subject = make_busy_database();

    for key in subject.keys() {
        assert_eq!(subject.node_by_key(key).unwrap().public_key(), key);
    }
    assert_eq!(subject.root().public_key(), subject.this_node());
}

#[test]
fn addresses_lead_to_records_with_those_addresses() {
    let subject = make_busy_database();

    assert_eq!(subject.ip_addrs().len(), 2);
    for ip_addr in subject.ip_addrs() {
        let record = subject.node_by_ip(&ip_addr).unwrap();
        assert_eq!(record.node_addr_opt().unwrap().ip_addr(), ip_addr);
    }
}

#[test]
fn there_is_one_key_for_the_root_and_one_for_each_addition() {
    assert_eq!(make_busy_database().keys().len(), 1 + 3);
}

#[test]
fn nodes_can_be_added_in_either_order() {
    let this_node = make_node_record(1234, true, false);
    let one_node = make_node_record(2345, true, false);
    let another_node = make_node_record(3456, true, false);
    let mut forth = make_database(&this_node);
    forth.add_node(&one_node).unwrap();
    forth.add_node(&another_node).unwrap();
    let mut back = make_database(&this_node);
    back.add_node(&another_node).unwrap();
    back.add_node(&one_node).unwrap();

    let forth_keys: HashSet<&Key> = forth.keys().into_iter().collect();
    let back_keys: HashSet<&Key> = back.keys().into_iter().collect();
    assert_eq!(forth_keys, back_keys);
    for key in forth.keys() {
        assert_eq!(forth.node_by_key(key), back.node_by_key(key));
    }
    let forth_ips: HashSet<IpAddr> = forth.ip_addrs().into_iter().collect();
    let back_ips: HashSet<IpAddr> = back.ip_addrs().into_iter().collect();
    assert_eq!(forth_ips, back_ips);
    for ip_addr in forth.ip_addrs() {
        assert_eq!(forth.node_by_ip(&ip_addr), back.node_by_ip(&ip_addr));
    }
}

#[test]
fn a_neighbor_mentioned_once_goes_though_another_is_mentioned_twice() {
    let this_node = make_node_record(1234, true, false);
    let once = make_node_record(2345, true, false);
    let twice = Key::new(&[9]);
    let mut subject = make_database(&this_node);
    subject.add_node(&once).unwrap();
    subject.root_mut().neighbors_mut().push(twice.clone());
    subject.add_neighbor(this_node.public_key(), once.public_key()).unwrap();
    subject.root_mut().neighbors_mut().push(twice.clone());

    assert_eq!(subject.remove_neighbor(once.public_key()), Ok(true));
    assert!(!subject.has_neighbor(this_node.public_key(), once.public_key()));
    assert_eq!(subject.remove_neighbor(once.public_key()), Ok(false));
    assert_eq!(subject.root().neighbors(), &vec![twice.clone(), twice]);
}

#[test]
fn changed_records_leave_the_root_and_the_number_of_nodes() {
    let this_node = make_node_record(1234, true, false);
    let one_node = make_node_record(2345, true, false);
    let another_node = make_node_record(3456, false, false);
    let stranger = make_node_record(7890, true, true);
    let mut subject = make_database(&this_node);
    subject.add_node(&one_node).unwrap();
    *subject.node_by_key_mut(one_node.public_key()).unwrap() = stranger.clone();
    *subject.root_mut() = stranger.clone();
    subject.add_node(&one_node).unwrap_err();
    subject.add_node(&another_node).unwrap();
    subject.root_mut().neighbors_mut().push(Key::new(&[9]));

    assert_eq!(subject.this_node(), this_node.public_key());
    assert_eq!(subject.keys().len(), 1 + 2);
    assert_eq!(subject.root().public_key(), stranger.public_key());
    assert_eq!(subject.root().neighbors(), &vec![Key::new(&[9])]);
    assert_eq!(subject.node_by_key(one_node.public_key()), Some(&stranger));
    assert_eq!(subject.node_by_key(another_node.public_key()), Some(&another_node));
    assert_eq!(subject.node_by_key(stranger.public_key()), None);
    for ip_addr in subject.ip_addrs() {
        assert!(subject.node_by_ip(&ip_addr).is_some());
    }
}

#[test]
fn an_address_given_to_a_record_is_not_found() {
    let this_node = make_node_record(1234, true, false);
    let other_node = make_node_record(2345, false, false);
    let node_addr = NodeAddr::new(&ip(5, 6, 7, 8), &vec![1]);
    let mut subject = make_database(&this_node);
    subject.add_node(&other_node).unwrap();

    let record = subject.node_by_key_mut(other_node.public_key()).unwrap();
    record.set_node_addr(&node_addr).unwrap();

    assert_eq!(subject.node_by_ip(&ip(5, 6, 7, 8)), None);
    assert_eq!(subject.ip_addrs(), vec![ip(1, 2, 3, 4)]);
    assert_eq!(
        subject.node_by_ip(&ip(1, 2, 3, 4)).unwrap().node_addr_opt().unwrap().ip_addr(),
        ip(1, 2, 3, 4)
    );
}

#[test]
fn nodes_at_different_addresses_are_found_there() {
    let this_node = make_node_record(1234, true, false);
    let one_node = make_node_record(2345, true, false);
    let hidden = make_node_record(3456, false, false);
    let leaver = make_node_record(4567, true, true);
    let silenced = make_node_record(5678, true, false);
    let mut subject = make_database(&this_node);
    subject.add_node(&one_node).unwrap();
    subject.add_node(&hidden).unwrap();
    subject.add_node(&leaver).unwrap();
    subject.add_node(&silenced).unwrap();
    subject.add_node(&one_node).unwrap_err();
    subject.add_neighbor(this_node.public_key(), leaver.public_key()).unwrap();
    subject.remove_neighbor(leaver.public_key()).unwrap();
    subject.node_by_key_mut(silenced.public_key()).unwrap().unset_node_addr();
    subject.node_by_key_mut(one_node.public_key()).unwrap().neighbors_mut().push(Key::new(&[9]));

    let mut addressed: usize = 0;
    for key in subject.keys() {
        let record = subject.node_by_key(key).unwrap();
        if let Some(node_addr) = record.node_addr_opt() {
            assert_eq!(subject.node_by_ip(&node_addr.ip_addr()), Some(record));
            addressed += 1;
        }
    }
    assert_eq!(addressed, 2);
    assert_eq!(subject.keys().len(), 5);
}
