//! CBOR, as far as node records need it: what each kind of item is in bytes, and
//! the calls into `serde_cbor` that append such items to a buffer.

use serde::Serializer;
use vstd::prelude::*;
use vstd::utf8::encode_utf8;

verus! {

/// The `width` low bytes of `n`, the highest first.
pub open spec fn big_endian(n: nat, width: nat) -> Seq<u8>
    decreases width,
{
    if width == 0 {
        Seq::empty()
    } else {
        big_endian(n / 256, (width - 1) as nat).push((n % 256) as u8)
    }
}

/// The head of an item: its major type and a number, in the shortest form.
pub open spec fn head(major: nat, n: nat) -> Seq<u8> {
    if n < 24 {
        seq![(32 * major + n) as u8]
    } else if n < 0x100 {
        seq![(32 * major + 24) as u8] + big_endian(n, 1)
    } else if n < 0x1_0000 {
        seq![(32 * major + 25) as u8] + big_endian(n, 2)
    } else if n < 0x1_0000_0000 {
        seq![(32 * major + 26) as u8] + big_endian(n, 4)
    } else {
        seq![(32 * major + 27) as u8] + big_endian(n, 8)
    }
}

/// An unsigned integer.
pub open spec fn unsigned(n: nat) -> Seq<u8> {
    head(0, n)
}

/// A byte string.
pub open spec fn byte_string(bytes: Seq<u8>) -> Seq<u8> {
    head(2, bytes.len()) + bytes
}

/// A text string.
pub open spec fn text_string(text: Seq<char>) -> Seq<u8> {
    head(3, encode_utf8(text).len()) + encode_utf8(text)
}

/// The head of an array of `len` items.
pub open spec fn array_head(len: nat) -> Seq<u8> {
    head(4, len)
}

/// The head of a map of `len` pairs.
pub open spec fn map_head(len: nat) -> Seq<u8> {
    head(5, len)
}

/// A truth value.
pub open spec fn boolean(value: bool) -> Seq<u8> {
    seq![if value { 0xf5u8 } else { 0xf4u8 }]
}

/// The null item, which stands for an absent value.
pub open spec fn null() -> Seq<u8> {
    seq![0xf6u8]
}

/// The unsigned integers of a list, one after the other.
pub open spec fn unsigned_items(numbers: Seq<nat>) -> Seq<u8>
    decreases numbers.len(),
{
    if numbers.len() == 0 {
        Seq::empty()
    } else {
        unsigned_items(numbers.drop_last()) + unsigned(numbers.last())
    }
}

/// The byte strings of a list, one after the other.
pub open spec fn byte_string_items(list: Seq<Seq<u8>>) -> Seq<u8>
    decreases list.len(),
{
    if list.len() == 0 {
        Seq::empty()
    } else {
        byte_string_items(list.drop_last()) + byte_string(list.last())
    }
}

/// The numbers that bytes are.
pub open spec fn byte_numbers(bytes: Seq<u8>) -> Seq<nat> {
    Seq::new(bytes.len(), |i: int| bytes[i] as nat)
}

/// The `width` low bytes of `n`, the highest first.
pub(crate) fn big_endian_bytes(n: u128, width: usize) -> (bytes: Vec<u8>)
    ensures
        bytes@ == big_endian(n as nat, width as nat),
    decreases width,
{
    if width == 0 {
        Vec::new()
    } else {
        let mut bytes = big_endian_bytes(n / 256, width - 1);
        bytes.push((n % 256) as u8);
        bytes
    }
}

/// Appends the head of a struct of `fields` fields.
///
/// `serde_cbor` 0.9 opens a struct with `serialize_struct`, which writes the head
/// of a map of that many pairs and makes no use of the name. Writing to a vector
/// does not fail.
#[verifier::external_body]
pub(crate) fn push_struct(out: &mut Vec<u8>, name: &'static str, fields: usize)
    ensures
        final(out)@ == old(out)@ + map_head(fields as nat),
{
    serde_cbor::Serializer::new(out).serialize_struct(name, fields).unwrap();
}

/// Appends the head of a sequence of `len` elements.
///
/// `serde_cbor` 0.9 opens a sequence of known length with `serialize_seq`, which
/// writes the head of an array. Writing to a vector does not fail.
#[verifier::external_body]
pub(crate) fn push_seq(out: &mut Vec<u8>, len: usize)
    ensures
        final(out)@ == old(out)@ + array_head(len as nat),
{
    serde_cbor::Serializer::new(out).serialize_seq(Some(len)).unwrap();
}

/// Appends a text.
///
/// `serialize_str` of `serde_cbor` 0.9 writes the text's UTF-8 bytes as a text
/// string. Writing to a vector does not fail.
#[verifier::external_body]
pub(crate) fn push_text(out: &mut Vec<u8>, text: &str)
    ensures
        final(out)@ == old(out)@ + text_string(text@),
{
    serde_cbor::Serializer::new(out).serialize_str(text).unwrap();
}

/// Appends bytes.
///
/// `serialize_bytes` of `serde_cbor` 0.9 writes them as a byte string. Writing to a
/// vector does not fail.
#[verifier::external_body]
pub(crate) fn push_bytes(out: &mut Vec<u8>, bytes: &[u8])
    ensures
        final(out)@ == old(out)@ + byte_string(bytes@),
{
    serde_cbor::Serializer::new(out).serialize_bytes(bytes).unwrap();
}

/// Appends a truth value.
///
/// `serialize_bool` of `serde_cbor` 0.9 writes one byte. Writing to a vector does not
/// fail.
#[verifier::external_body]
pub(crate) fn push_bool(out: &mut Vec<u8>, value: bool)
    ensures
        final(out)@ == old(out)@ + boolean(value),
{
    serde_cbor::Serializer::new(out).serialize_bool(value).unwrap();
}

/// Appends the absence of a value.
///
/// `serialize_none` of `serde_cbor` 0.9 writes the null item. Writing to a vector does
/// not fail.
#[verifier::external_body]
pub(crate) fn push_none(out: &mut Vec<u8>)
    ensures
        final(out)@ == old(out)@ + null(),
{
    serde_cbor::Serializer::new(out).serialize_none().unwrap();
}

/// Appends a number of sixteen bits.
///
/// `serialize_u16` of `serde_cbor` 0.9 writes an unsigned integer in its shortest form.
/// Writing to a vector does not fail.
#[verifier::external_body]
pub(crate) fn push_u16(out: &mut Vec<u8>, value: u16)
    ensures
        final(out)@ == old(out)@ + unsigned(value as nat),
{
    serde_cbor::Serializer::new(out).serialize_u16(value).unwrap();
}

/// Appends the variant of an enum that holds a list of octets.
///
/// `serialize_newtype_variant` of `serde_cbor` 0.9 writes an array of two items: the
/// variant's name as a text string, then the value, which for octets is an array
/// of unsigned integers. It makes no use of the enum's name, nor of the variant's
/// index. Writing to a vector does not fail.
#[verifier::external_body]
pub(crate) fn push_variant(
    out: &mut Vec<u8>,
    name: &'static str,
    index: u32,
    variant: &'static str,
    octets: &[u8],
)
    ensures
        final(out)@ == old(out)@ + array_head(2) + text_string(variant@) + array_head(
            octets@.len(),
        ) + unsigned_items(byte_numbers(octets@)),
{
    serde_cbor::Serializer::new(out)
        .serialize_newtype_variant(name, index, variant, octets)
        .unwrap();
}

} // verus!
