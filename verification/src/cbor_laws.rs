//! The bytes that records, addresses and numbers are in CBOR, one by one.

use vstd::arithmetic::power::{lemma_pow0, lemma_pow_positive, pow};
use vstd::prelude::*;
use vstd::utf8::{encode_utf8, is_ascii_chars, is_ascii_chars_encode_utf8};

use crate::cbor::{
    array_head, big_endian, boolean, byte_numbers, byte_string, byte_string_items, head, map_head,
    null, text_string, unsigned, unsigned_items,
};
use crate::node_addr::{IpAddr, NodeAddrView};
use crate::node_record_inner::{
    ip_addr_cbor, node_addr_cbor, node_addr_opt_cbor, port_numbers, NodeRecordInner,
};

verus! {

/// A number follows its kind in as few bytes as hold it, the highest first.
pub proof fn law_head_is_shortest(major: nat, n: nat)
    requires
        major < 8,
        n <= u64::MAX,
    ensures
        n < 24 ==> head(major, n) == seq![(32 * major + n) as u8],
        24 <= n < 0x100 ==> head(major, n) == seq![(32 * major + 24) as u8, n as u8],
        0x100 <= n < 0x1_0000 ==> head(major, n) == seq![
            (32 * major + 25) as u8,
            (n / 0x100) as u8,
            (n % 0x100) as u8,
        ],
        0x1_0000 <= n < 0x1_0000_0000 ==> head(major, n) == seq![
            (32 * major + 26) as u8,
            (n / 0x100_0000) as u8,
            (n / 0x1_0000 % 0x100) as u8,
            (n / 0x100 % 0x100) as u8,
            (n % 0x100) as u8,
        ],
        n >= 0x1_0000_0000 ==> head(major, n) == seq![
            (32 * major + 27) as u8,
            (n / 0x100_0000_0000_0000) as u8,
            (n / 0x1_0000_0000_0000 % 0x100) as u8,
            (n / 0x100_0000_0000 % 0x100) as u8,
            (n / 0x1_0000_0000 % 0x100) as u8,
            (n / 0x100_0000 % 0x100) as u8,
            (n / 0x1_0000 % 0x100) as u8,
            (n / 0x100 % 0x100) as u8,
            (n % 0x100) as u8,
        ],
{
    reveal_with_fuel(big_endian, 9);
    assert(n < 0x100 ==> n % 256 == n);
}

/// The kinds of items that have heads, and what follows them.
pub proof fn law_items_follow_their_heads(n: nat, bytes: Seq<u8>, value: bool)
    ensures
        unsigned(n) == head(0, n),
        byte_string(bytes) == head(2, bytes.len()) + bytes,
        array_head(n) == head(4, n),
        map_head(n) == head(5, n),
        boolean(value) == seq![if value { 0xf5u8 } else { 0xf4u8 }],
        null() == seq![0xf6u8],
{
}

/// The items of a list stand one after the other, in the order of the list.
pub proof fn law_items_keep_their_order(
    numbers: Seq<nat>,
    number: nat,
    list: Seq<Seq<u8>>,
    bytes: Seq<u8>,
)
    ensures
        unsigned_items(Seq::empty()) == Seq::<u8>::empty(),
        unsigned_items(numbers.push(number)) == unsigned_items(numbers) + head(0, number),
        byte_string_items(Seq::empty()) == Seq::<u8>::empty(),
        byte_string_items(list.push(bytes)) == byte_string_items(list) + head(2, bytes.len())
            + bytes,
{
    assert(numbers.push(number).drop_last() =~= numbers);
    assert(list.push(bytes).drop_last() =~= list);
    assert(byte_string_items(list.push(bytes)) =~= byte_string_items(list) + head(2, bytes.len())
        + bytes);
}

/// Each byte of a number in `width` bytes is the digit of its place to the base 256.
proof fn lemma_big_endian_digits(n: nat, width: nat)
    ensures
        big_endian(n, width).len() == width,
        forall|i: int|
            0 <= i < width ==> #[trigger] big_endian(n, width)[i] == (n as int / pow(
                256,
                (width - 1 - i) as nat,
            ) % 256) as u8,
    decreases width,
{
    if width > 0 {
        let less = (width - 1) as nat;
        lemma_big_endian_digits(n / 256, less);
        assert forall|i: int| 0 <= i < width implies #[trigger] big_endian(n, width)[i] == (
        n as int / pow(256, (width - 1 - i) as nat) % 256) as u8 by {
            if i < less {
                let p = pow(256, (less - 1 - i) as nat);
                assert(big_endian(n, width)[i] == big_endian(n / 256, less)[i]);
                lemma_pow_positive(256, (less - 1 - i) as nat);
                vstd::arithmetic::power::lemma_pow_adds(256, 1, (less - 1 - i) as nat);
                vstd::arithmetic::power::lemma_pow1(256);
                vstd::arithmetic::div_mod::lemma_div_denominator(n as int, 256, p);
            } else {
                lemma_pow0(256);
            }
        }
    }
}

/// The octets of an IP address are four or sixteen, and each is the digit of its place in the
/// number that the address is, to the base 256, the highest first.
pub proof fn law_octets_are_in_network_order(ip_addr: &IpAddr, octets: Vec<u8>)
    requires
        call_ensures(IpAddr::octets, (ip_addr,), octets),
    ensures
        octets@ == ip_addr.octets_spec(),
        *ip_addr matches IpAddr::V4(bits) ==> {
            &&& octets@.len() == 4
            &&& forall|i: int|
                0 <= i < 4 ==> #[trigger] octets@[i] == (bits as int / pow(256, (3 - i) as nat)
                    % 256) as u8
        },
        *ip_addr matches IpAddr::V6(bits) ==> {
            &&& octets@.len() == 16
            &&& forall|i: int|
                0 <= i < 16 ==> #[trigger] octets@[i] == (bits as int / pow(256, (15 - i) as nat)
                    % 256) as u8
        },
{
    match *ip_addr {
        IpAddr::V4(bits) => lemma_big_endian_digits(bits as nat, 4),
        IpAddr::V6(bits) => lemma_big_endian_digits(bits as nat, 16),
    }
}

/// A text of fewer than 24 ASCII characters is their number and their codes.
proof fn lemma_short_text(text: Seq<char>)
    requires
        text.len() < 24,
        is_ascii_chars(text),
    ensures
        text_string(text) == seq![(0x60 + text.len()) as u8] + Seq::new(
            text.len(),
            |i: int| text[i] as u8,
        ),
{
    is_ascii_chars_encode_utf8(text);
    assert(encode_utf8(text) =~= Seq::new(text.len(), |i: int| text[i] as u8));
}

/// The names of the fields are these texts.
proof fn lemma_field_names()
    ensures
        text_string("public_key"@) == seq![
            0x6au8, 0x70, 0x75, 0x62, 0x6c, 0x69, 0x63, 0x5f, 0x6b, 0x65, 0x79,
        ],
        text_string("node_addr_opt"@) == seq![
            0x6du8, 0x6e, 0x6f, 0x64, 0x65, 0x5f, 0x61, 0x64, 0x64, 0x72, 0x5f, 0x6f, 0x70,
            0x74,
        ],
        text_string("is_bootstrap_node"@) == seq![
            0x71u8, 0x69, 0x73, 0x5f, 0x62, 0x6f, 0x6f, 0x74, 0x73, 0x74, 0x72, 0x61, 0x70,
            0x5f, 0x6e, 0x6f, 0x64, 0x65,
        ],
        text_string("neighbors"@) == seq![
            0x69u8, 0x6e, 0x65, 0x69, 0x67, 0x68, 0x62, 0x6f, 0x72, 0x73,
        ],
        text_string("ip_addr"@) == seq![
            0x67u8, 0x69, 0x70, 0x5f, 0x61, 0x64, 0x64, 0x72,
        ],
        text_string("ports"@) == seq![
            0x65u8, 0x70, 0x6f, 0x72, 0x74, 0x73,
        ],
        text_string("V4"@) == seq![
            0x62u8, 0x56, 0x34,
        ],
        text_string("V6"@) == seq![
            0x62u8, 0x56, 0x36,
        ],
{
    reveal_strlit("public_key");
    lemma_short_text("public_key"@);
    assert(text_string("public_key"@) =~= seq![
        0x6au8, 0x70, 0x75, 0x62, 0x6c, 0x69, 0x63, 0x5f, 0x6b, 0x65, 0x79,
    ]);
    reveal_strlit("node_addr_opt");
    lemma_short_text("node_addr_opt"@);
    assert(text_string("node_addr_opt"@) =~= seq![
        0x6du8, 0x6e, 0x6f, 0x64, 0x65, 0x5f, 0x61, 0x64, 0x64, 0x72, 0x5f, 0x6f, 0x70,
        0x74,
    ]);
    reveal_strlit("is_bootstrap_node");
    lemma_short_text("is_bootstrap_node"@);
    assert(text_string("is_bootstrap_node"@) =~= seq![
        0x71u8, 0x69, 0x73, 0x5f, 0x62, 0x6f, 0x6f, 0x74, 0x73, 0x74, 0x72, 0x61, 0x70,
        0x5f, 0x6e, 0x6f, 0x64, 0x65,
    ]);
    reveal_strlit("neighbors");
    lemma_short_text("neighbors"@);
    assert(text_string("neighbors"@) =~= seq![
        0x69u8, 0x6e, 0x65, 0x69, 0x67, 0x68, 0x62, 0x6f, 0x72, 0x73,
    ]);
    reveal_strlit("ip_addr");
    lemma_short_text("ip_addr"@);
    assert(text_string("ip_addr"@) =~= seq![
        0x67u8, 0x69, 0x70, 0x5f, 0x61, 0x64, 0x64, 0x72,
    ]);
    reveal_strlit("ports");
    lemma_short_text("ports"@);
    assert(text_string("ports"@) =~= seq![
        0x65u8, 0x70, 0x6f, 0x72, 0x74, 0x73,
    ]);
    reveal_strlit("V4");
    lemma_short_text("V4"@);
    assert(text_string("V4"@) =~= seq![
        0x62u8, 0x56, 0x34,
    ]);
    reveal_strlit("V6");
    lemma_short_text("V6"@);
    assert(text_string("V6"@) =~= seq![
        0x62u8, 0x56, 0x36,
    ]);
}

/// A record in CBOR: a map of four pairs, with the fields by their names and in their order.
pub proof fn law_bytes_of_a_record(inner: &NodeRecordInner, bytes: Vec<u8>)
    requires
        call_ensures(NodeRecordInner::serialized, (inner,), bytes),
    ensures
        bytes@ == inner@.cbor(),
        bytes@ == seq![
            0xa4u8, 0x6a, 0x70, 0x75, 0x62, 0x6c, 0x69, 0x63, 0x5f, 0x6b, 0x65, 0x79,
        ] + head(2, inner@.public_key.len()) + inner@.public_key + seq![
            0x6du8, 0x6e, 0x6f, 0x64, 0x65, 0x5f, 0x61, 0x64, 0x64, 0x72, 0x5f, 0x6f, 0x70,
            0x74,
        ] + node_addr_opt_cbor(inner@.node_addr_opt) + seq![
            0x71u8, 0x69, 0x73, 0x5f, 0x62, 0x6f, 0x6f, 0x74, 0x73, 0x74, 0x72, 0x61, 0x70,
            0x5f, 0x6e, 0x6f, 0x64, 0x65,
        ] + seq![if inner@.is_bootstrap_node { 0xf5u8 } else { 0xf4u8 }] + seq![
            0x69u8, 0x6e, 0x65, 0x69, 0x67, 0x68, 0x62, 0x6f, 0x72, 0x73,
        ] + head(4, inner@.neighbors.len()) + byte_string_items(inner@.neighbors),
        node_addr_opt_cbor(None) == seq![0xf6u8],
        inner@.node_addr_opt matches Some(node_addr) ==> node_addr_opt_cbor(inner@.node_addr_opt)
            == node_addr_cbor(node_addr),
{
    lemma_field_names();
    assert(map_head(4) =~= seq![0xa4u8]);
    let want = seq![
        0xa4u8, 0x6a, 0x70, 0x75, 0x62, 0x6c, 0x69, 0x63, 0x5f, 0x6b, 0x65, 0x79,
    ] + head(2, inner@.public_key.len()) + inner@.public_key + seq![
        0x6du8, 0x6e, 0x6f, 0x64, 0x65, 0x5f, 0x61, 0x64, 0x64, 0x72, 0x5f, 0x6f, 0x70,
        0x74,
    ] + node_addr_opt_cbor(inner@.node_addr_opt) + seq![
        0x71u8, 0x69, 0x73, 0x5f, 0x62, 0x6f, 0x6f, 0x74, 0x73, 0x74, 0x72, 0x61, 0x70,
        0x5f, 0x6e, 0x6f, 0x64, 0x65,
    ] + seq![if inner@.is_bootstrap_node { 0xf5u8 } else { 0xf4u8 }] + seq![
        0x69u8, 0x6e, 0x65, 0x69, 0x67, 0x68, 0x62, 0x6f, 0x72, 0x73,
    ] + head(4, inner@.neighbors.len()) + byte_string_items(inner@.neighbors);
    assert(seq![
        0xa4u8, 0x6a, 0x70, 0x75, 0x62, 0x6c, 0x69, 0x63, 0x5f, 0x6b, 0x65, 0x79,
    ] =~= map_head(4) + text_string("public_key"@));
    assert(head(2, inner@.public_key.len()) + inner@.public_key =~= byte_string(inner@.public_key));
    assert(bytes@ =~= want);
}

/// An address in CBOR: a map of two pairs, with the IP address by the name of its kind and its
/// octets, and the ports in their order.
pub proof fn law_bytes_of_an_address(node_addr: NodeAddrView)
    ensures
        node_addr_cbor(node_addr) == seq![
            0xa2u8, 0x67, 0x69, 0x70, 0x5f, 0x61, 0x64, 0x64, 0x72,
        ] + ip_addr_cbor(node_addr.ip_addr) + seq![
            0x65u8, 0x70, 0x6f, 0x72, 0x74, 0x73,
        ] + head(4, node_addr.ports.len()) + unsigned_items(port_numbers(node_addr.ports)),
        node_addr.ip_addr is V4 ==> ip_addr_cbor(node_addr.ip_addr) == seq![
            0x82u8, 0x62, 0x56, 0x34, 0x84,
        ] + unsigned_items(byte_numbers(node_addr.ip_addr.octets_spec())),
        node_addr.ip_addr is V6 ==> ip_addr_cbor(node_addr.ip_addr) == seq![
            0x82u8, 0x62, 0x56, 0x36, 0x90,
        ] + unsigned_items(byte_numbers(node_addr.ip_addr.octets_spec())),
        port_numbers(node_addr.ports).len() == node_addr.ports.len(),
        forall|i: int|
            0 <= i < node_addr.ports.len() ==> #[trigger] port_numbers(node_addr.ports)[i]
                == node_addr.ports[i],
        byte_numbers(node_addr.ip_addr.octets_spec()).len()
            == node_addr.ip_addr.octets_spec().len(),
        forall|i: int|
            0 <= i < node_addr.ip_addr.octets_spec().len() ==> #[trigger] byte_numbers(
                node_addr.ip_addr.octets_spec(),
            )[i] == node_addr.ip_addr.octets_spec()[i],
{
    lemma_field_names();
    assert(map_head(2) =~= seq![0xa2u8]);
    assert(array_head(2) =~= seq![0x82u8]);
    assert(array_head(4) =~= seq![0x84u8]);
    assert(array_head(16) =~= seq![0x90u8]);
    match node_addr.ip_addr {
        IpAddr::V4(bits) => {
            lemma_big_endian_digits(bits as nat, 4);
            assert(seq![
                0x82u8, 0x62, 0x56, 0x34, 0x84,
            ] =~= array_head(2) + text_string("V4"@) + array_head(4));
        },
        IpAddr::V6(bits) => {
            lemma_big_endian_digits(bits as nat, 16);
            assert(seq![
                0x82u8, 0x62, 0x56, 0x36, 0x90,
            ] =~= array_head(2) + text_string("V6"@) + array_head(16));
        },
    }
    assert(seq![
        0xa2u8, 0x67, 0x69, 0x70, 0x5f, 0x61, 0x64, 0x64, 0x72,
    ] =~= map_head(2) + text_string("ip_addr"@));
}

} // verus!
