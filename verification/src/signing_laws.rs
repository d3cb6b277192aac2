//! What the signatures of a record cover, and what they do not.

use vstd::prelude::*;
use vstd::utf8::is_ascii_chars_encode_utf8;

use crate::cbor::{
    array_head, boolean, byte_numbers, byte_string, byte_string_items, map_head, text_string, unsigned_items,
};
use crate::cryptde::{answer_bytes, may_answer, CryptDE, CryptData, CryptdecError, PlainData};
use crate::decoding::{
    fits, lemma_big_endian_injective, lemma_big_endian_len, lemma_boolean, lemma_byte_string,
    lemma_byte_string_items, lemma_head, lemma_same_text, lemma_split, lemma_text_string,
    lemma_unsigned_items,
};
use crate::node_addr::{IpAddr, NodeAddr, NodeAddrView};
use crate::node_record_inner::{
    ip_addr_cbor, node_addr_opt_cbor, port_numbers, NodeRecordInner,
    NodeRecordInnerView,
};
use crate::node_record::NodeRecord;
use crate::node_signatures::{may_sign_record, NodeSignatures, NodeSignaturesView};
use crate::signing::{
    accept_answer, digest_message, may_sign, sha1_digest, sign_digest, sign_message, SigningError,
};

verus! {

/// Whether the lengths in an address are those of values in memory.
pub open spec fn addr_sized(node_addr_opt: Option<NodeAddrView>) -> bool {
    match node_addr_opt {
        Some(node_addr) => node_addr.ports.len() <= u64::MAX,
        None => true,
    }
}

/// Whether the lengths in a record are those of values in memory.
pub open spec fn sized(inner: NodeRecordInnerView) -> bool {
    &&& inner.public_key.len() <= u64::MAX
    &&& addr_sized(inner.node_addr_opt)
    &&& inner.neighbors.len() <= u64::MAX
    &&& forall|i: int|
        0 <= i < inner.neighbors.len() ==> (#[trigger] inner.neighbors[i]).len() <= u64::MAX
}

/// The lengths in a record are those of values in memory.
proof fn lemma_sized(inner: NodeRecordInner)
    ensures
        sized(inner@),
{
    assert(inner.public_key.data.len() == inner@.public_key.len());
    assert(inner.neighbors.len() == inner@.neighbors.len());
    assert forall|i: int| 0 <= i < inner@.neighbors.len() implies (#[trigger]
    inner@.neighbors[i]).len() <= u64::MAX by {
        assert(inner.neighbors@[i].data.len() == inner@.neighbors[i].len());
    }
    match inner.node_addr_opt {
        Some(node_addr) => NodeAddr::lemma_ports_len(node_addr),
        None => {},
    }
}

/// The octets of an address can be told apart from those of any other of its kind.
proof fn lemma_octets(a: IpAddr, b: IpAddr)
    requires
        a is V4 == b is V4,
        a.octets_spec() == b.octets_spec(),
    ensures
        a == b,
{
    reveal_with_fuel(fits, 17);
    match (a, b) {
        (IpAddr::V4(m), IpAddr::V4(n)) => lemma_big_endian_injective(m as nat, n as nat, 4),
        (IpAddr::V6(m), IpAddr::V6(n)) => lemma_big_endian_injective(m as nat, n as nat, 16),
        _ => {},
    }
}

/// An IP address can be read back.
proof fn lemma_ip_addr(a: IpAddr, x: Seq<u8>, b: IpAddr, y: Seq<u8>)
    requires
        ip_addr_cbor(a) + x == ip_addr_cbor(b) + y,
    ensures
        a == b,
        x == y,
{
    let (ka, kb) = (
        match a {
            IpAddr::V4(_) => "V4"@,
            IpAddr::V6(_) => "V6"@,
        },
        match b {
            IpAddr::V4(_) => "V4"@,
            IpAddr::V6(_) => "V6"@,
        },
    );
    reveal_strlit("V4");
    reveal_strlit("V6");
    is_ascii_chars_encode_utf8("V4"@);
    is_ascii_chars_encode_utf8("V6"@);
    let (oa, ob) = (a.octets_spec(), b.octets_spec());
    let ra = unsigned_items(byte_numbers(oa)) + x;
    let rb = unsigned_items(byte_numbers(ob)) + y;
    let sa = array_head(oa.len()) + ra;
    let sb = array_head(ob.len()) + rb;
    let ta = text_string(ka) + sa;
    let tb = text_string(kb) + sb;
    assert(ip_addr_cbor(a) + x =~= array_head(2) + ta);
    assert(ip_addr_cbor(b) + y =~= array_head(2) + tb);
    lemma_head(4, 2, ta, 2, tb);
    lemma_text_string(ka, sa, kb, sb);
    assert(ka[1] == kb[1]);
    assert(a is V4 == b is V4);
    lemma_octets_len(a);
    lemma_octets_len(b);
    lemma_head(4, oa.len(), ra, ob.len(), rb);
    lemma_unsigned_items(byte_numbers(oa), x, byte_numbers(ob), y);
    assert forall|i: int| 0 <= i < oa.len() implies oa[i] == ob[i] by {
        assert(byte_numbers(oa)[i] == byte_numbers(ob)[i]);
    }
    assert(oa =~= ob);
    lemma_octets(a, b);
}

/// How many octets an address has.
proof fn lemma_octets_len(a: IpAddr)
    ensures
        a.octets_spec().len() == if a is V4 {
            4
        } else {
            16nat
        },
{
    match a {
        IpAddr::V4(bits) => lemma_big_endian_len(bits as nat, 4),
        IpAddr::V6(bits) => lemma_big_endian_len(bits as nat, 16),
    }
}

/// Concatenation can be regrouped.
proof fn lemma_regroup(a: Seq<u8>, b: Seq<u8>, c: Seq<u8>)
    ensures
        (a + b) + c == a + (b + c),
{
    assert((a + b) + c =~= a + (b + c));
}

/// Six parts can be regrouped from the front.
proof fn lemma_regroup_six(
    a: Seq<u8>,
    b: Seq<u8>,
    c: Seq<u8>,
    d: Seq<u8>,
    e: Seq<u8>,
    f: Seq<u8>,
    rest: Seq<u8>,
)
    ensures
        a + b + c + d + e + f + rest == a + (b + (c + (d + (e + (f + rest))))),
{
    lemma_regroup(a + b + c + d + e, f, rest);
    lemma_regroup(a + b + c + d, e, f + rest);
    lemma_regroup(a + b + c, d, e + (f + rest));
    lemma_regroup(a + b, c, d + (e + (f + rest)));
    lemma_regroup(a, b, c + (d + (e + (f + rest))));
}

/// An optional address can be read back.
proof fn lemma_node_addr_opt(
    a: Option<NodeAddrView>,
    x: Seq<u8>,
    b: Option<NodeAddrView>,
    y: Seq<u8>,
)
    requires
        addr_sized(a),
        addr_sized(b),
        node_addr_opt_cbor(a) + x == node_addr_opt_cbor(b) + y,
    ensures
        a == b,
        x == y,
{
    let (ca, cb) = (node_addr_opt_cbor(a), node_addr_opt_cbor(b));
    assert((ca + x)[0] == ca[0]);
    assert((cb + y)[0] == cb[0]);
    match (a, b) {
        (Some(m), Some(n)) => {
            let (pm, pn) = (port_numbers(m.ports), port_numbers(n.ports));
            let im = unsigned_items(pm) + x;
            let jn = unsigned_items(pn) + y;
            let hm = array_head(m.ports.len()) + im;
            let hn = array_head(n.ports.len()) + jn;
            let tm = text_string("ports"@) + hm;
            let tn = text_string("ports"@) + hn;
            let um = ip_addr_cbor(m.ip_addr) + tm;
            let un = ip_addr_cbor(n.ip_addr) + tn;
            let vm = text_string("ip_addr"@) + um;
            let vn = text_string("ip_addr"@) + un;
            lemma_regroup_six(
                map_head(2),
                text_string("ip_addr"@),
                ip_addr_cbor(m.ip_addr),
                text_string("ports"@),
                array_head(m.ports.len()),
                unsigned_items(pm),
                x,
            );
            lemma_regroup_six(
                map_head(2),
                text_string("ip_addr"@),
                ip_addr_cbor(n.ip_addr),
                text_string("ports"@),
                array_head(n.ports.len()),
                unsigned_items(pn),
                y,
            );
            lemma_head(5, 2, vm, 2, vn);
            lemma_same_text("ip_addr"@, um, un);
            lemma_ip_addr(m.ip_addr, tm, n.ip_addr, tn);
            lemma_same_text("ports"@, hm, hn);
            lemma_head(4, m.ports.len(), im, n.ports.len(), jn);
            lemma_unsigned_items(pm, x, pn, y);
            assert forall|i: int| 0 <= i < m.ports.len() implies m.ports[i] == n.ports[i] by {
                assert(pm[i] == pn[i]);
            }
            assert(m.ports =~= n.ports);
        },
        (None, None) => {
            lemma_split(ca, x, cb, y);
        },
        _ => {},
    }
}

/// The CBOR form of a record, grouped from the front.
proof fn lemma_record_front(a: NodeRecordInnerView)
    ensures
        a.cbor() == map_head(4) + (text_string("public_key"@) + (byte_string(a.public_key) + (
        text_string("node_addr_opt"@) + (node_addr_opt_cbor(a.node_addr_opt) + (text_string(
            "is_bootstrap_node"@,
        ) + (boolean(a.is_bootstrap_node) + (text_string("neighbors"@) + (array_head(
            a.neighbors.len(),
        ) + (byte_string_items(a.neighbors) + Seq::<u8>::empty()))))))))),
{
    let items = byte_string_items(a.neighbors) + Seq::<u8>::empty();
    assert(items =~= byte_string_items(a.neighbors));
    let front = map_head(4) + text_string("public_key"@) + byte_string(a.public_key) + text_string(
        "node_addr_opt"@,
    );
    let middle = text_string("neighbors"@) + (array_head(a.neighbors.len()) + items);
    lemma_regroup_six(
        front,
        node_addr_opt_cbor(a.node_addr_opt),
        text_string("is_bootstrap_node"@),
        boolean(a.is_bootstrap_node),
        text_string("neighbors"@),
        array_head(a.neighbors.len()),
        items,
    );
    let tail = node_addr_opt_cbor(a.node_addr_opt) + (text_string("is_bootstrap_node"@) + (boolean(
        a.is_bootstrap_node,
    ) + middle));
    lemma_regroup(
        map_head(4) + text_string("public_key"@) + byte_string(a.public_key),
        text_string("node_addr_opt"@),
        tail,
    );
    lemma_regroup(
        map_head(4) + text_string("public_key"@),
        byte_string(a.public_key),
        text_string("node_addr_opt"@) + tail,
    );
    lemma_regroup(
        map_head(4),
        text_string("public_key"@),
        byte_string(a.public_key) + (text_string("node_addr_opt"@) + tail),
    );
}

/// A record can be read back from its CBOR form.
proof fn lemma_record(a: NodeRecordInnerView, b: NodeRecordInnerView)
    requires
        sized(a),
        sized(b),
        a.cbor() == b.cbor(),
    ensures
        a == b,
{
    let e = Seq::<u8>::empty();
    let ia = byte_string_items(a.neighbors) + e;
    let ib = byte_string_items(b.neighbors) + e;
    let ha = array_head(a.neighbors.len()) + ia;
    let hb = array_head(b.neighbors.len()) + ib;
    let na = text_string("neighbors"@) + ha;
    let nb = text_string("neighbors"@) + hb;
    let ba = boolean(a.is_bootstrap_node) + na;
    let bb = boolean(b.is_bootstrap_node) + nb;
    let ta = text_string("is_bootstrap_node"@) + ba;
    let tb = text_string("is_bootstrap_node"@) + bb;
    let oa = node_addr_opt_cbor(a.node_addr_opt) + ta;
    let ob = node_addr_opt_cbor(b.node_addr_opt) + tb;
    let ua = text_string("node_addr_opt"@) + oa;
    let ub = text_string("node_addr_opt"@) + ob;
    let ka = byte_string(a.public_key) + ua;
    let kb = byte_string(b.public_key) + ub;
    let pa = text_string("public_key"@) + ka;
    let pb = text_string("public_key"@) + kb;
    lemma_record_front(a);
    lemma_record_front(b);
    lemma_head(5, 4, pa, 4, pb);
    lemma_same_text("public_key"@, ka, kb);
    lemma_byte_string(a.public_key, ua, b.public_key, ub);
    lemma_same_text("node_addr_opt"@, oa, ob);
    lemma_node_addr_opt(a.node_addr_opt, ta, b.node_addr_opt, tb);
    lemma_same_text("is_bootstrap_node"@, ba, bb);
    lemma_boolean(a.is_bootstrap_node, na, b.is_bootstrap_node, nb);
    lemma_same_text("neighbors"@, ha, hb);
    lemma_head(4, a.neighbors.len(), ia, b.neighbors.len(), ib);
    lemma_byte_string_items(a.neighbors, e, b.neighbors, e);
}

/// The complete signature covers the whole record: records that say different things are
/// never the same bytes to sign.
pub proof fn law_complete_covers_everything(a: NodeRecordInner, b: NodeRecordInner)
    ensures
        a@.cbor() == b@.cbor() <==> a@ == b@,
{
    lemma_sized(a);
    lemma_sized(b);
    if a@.cbor() == b@.cbor() {
        lemma_record(a@, b@);
    }
}

/// The obscured signature covers everything but the address: two records are the same bytes
/// to sign for it if and only if they differ at most in their addresses.
pub proof fn law_obscured_covers_all_but_the_address(a: NodeRecordInner, b: NodeRecordInner)
    ensures
        a@.obscured().cbor() == b@.obscured().cbor() <==> {
            &&& a@.public_key == b@.public_key
            &&& a@.is_bootstrap_node == b@.is_bootstrap_node
            &&& a@.neighbors == b@.neighbors
        },
{
    lemma_sized(a);
    lemma_sized(b);
    if a@.obscured().cbor() == b@.obscured().cbor() {
        lemma_record(a@.obscured(), b@.obscured());
    } else if a@.public_key == b@.public_key && a@.is_bootstrap_node == b@.is_bootstrap_node
        && a@.neighbors == b@.neighbors {
        assert(a@.obscured() =~= b@.obscured());
    }
}

/// Whatever address a record has, a device may give the same obscured signatures of it, and
/// those are the complete signatures that it may give of the record without an address.
pub proof fn law_obscured_signature_hides_the_address<C: CryptDE + ?Sized>(
    cryptde: &C,
    inner: NodeRecordInnerView,
    node_addr_opt: Option<NodeAddrView>,
    outcome: Result<Seq<u8>, SigningError>,
)
    ensures
        may_sign(cryptde, inner.obscured().cbor(), outcome) == may_sign(
            cryptde,
            (NodeRecordInnerView { node_addr_opt, ..inner }).obscured().cbor(),
            outcome,
        ),
        inner.node_addr_opt is None ==> inner.obscured() == inner,
{
    assert((NodeRecordInnerView { node_addr_opt, ..inner }).obscured() =~= inner.obscured());
}

/// A device may answer what its `sign` may hand back when it is asked to sign those bytes, and
/// nothing else.
pub proof fn law_answers_are_those_of_the_device<C: CryptDE + ?Sized>(
    cryptde: &C,
    data: Seq<u8>,
    signature: Seq<u8>,
    error: CryptdecError,
)
    ensures
        may_answer(cryptde, data, Ok(signature)) <==> exists|plain: PlainData, crypt: CryptData|
            {
                &&& plain.data@ == data
                &&& crypt.data@ == signature
                &&& #[trigger] call_ensures(C::sign, (cryptde, &plain), Ok(crypt))
            },
        may_answer(cryptde, data, Err(error)) <==> exists|plain: PlainData|
            plain.data@ == data && #[trigger] call_ensures(
                C::sign,
                (cryptde, &plain),
                Err(error),
            ),
{
    if may_answer(cryptde, data, Ok(signature)) {
        let (plain, reply) = choose|plain: PlainData, reply: Result<CryptData, CryptdecError>|
            {
                &&& plain@ == data
                &&& answer_bytes(reply) == Ok::<Seq<u8>, CryptdecError>(signature)
                &&& #[trigger] call_ensures(C::sign, (cryptde, &plain), reply)
            };
        assert(call_ensures(C::sign, (cryptde, &plain), Ok(reply->Ok_0)));
    }
    if may_answer(cryptde, data, Err(error)) {
        let (plain, reply) = choose|plain: PlainData, reply: Result<CryptData, CryptdecError>|
            {
                &&& plain@ == data
                &&& answer_bytes(reply) == Err::<Seq<u8>, CryptdecError>(error)
                &&& #[trigger] call_ensures(C::sign, (cryptde, &plain), reply)
            };
        assert(call_ensures(C::sign, (cryptde, &plain), Err(reply->Err_0)));
    }
}

/// A signature of a message is an answer of the device to the digest of the whole message, and
/// every such answer is one. A refusal is the device's own. Only a message whose bits cannot be
/// counted in 64 bits is too long, and such a message always is.
pub proof fn law_whole_message_is_digested<C: CryptDE + ?Sized>(
    cryptde: &C,
    message: Seq<u8>,
    signature: Seq<u8>,
    error: CryptdecError,
)
    ensures
        8 * message.len() <= u64::MAX ==> {
            &&& may_sign(cryptde, message, Ok(signature)) <==> may_answer(
                cryptde,
                sha1_digest(message),
                Ok(signature),
            )
            &&& may_sign(cryptde, message, Err(SigningError::Refused(error))) <==> may_answer(
                cryptde,
                sha1_digest(message),
                Err(error),
            )
            &&& !may_sign(cryptde, message, Err(SigningError::ContentTooLong))
        },
        8 * message.len() > u64::MAX ==> {
            &&& !may_sign(cryptde, message, Ok(signature))
            &&& !may_sign(cryptde, message, Err(SigningError::Refused(error)))
            &&& may_sign(cryptde, message, Err(SigningError::ContentTooLong))
        },
{
}

/// The digest that a device is handed is that of the whole message, in twenty bytes. There is one
/// if and only if the bits of the message can be counted in 64 bits.
pub proof fn law_digest_is_of_the_whole_message(
    message: &[u8],
    digest: Result<PlainData, SigningError>,
)
    requires
        call_ensures(digest_message, (message,), digest),
    ensures
        8 * message@.len() <= u64::MAX ==> {
            &&& digest matches Ok(plain)
            &&& plain.data@ == sha1_digest(message@)
            &&& plain.data@.len() == 20
        },
        8 * message@.len() > u64::MAX ==> digest matches Err(SigningError::ContentTooLong),
{
}

/// What a device answers is what is handed on, signature or refusal.
pub proof fn law_answer_is_handed_on<C: CryptDE + ?Sized>(
    cryptde: &C,
    digest: &PlainData,
    answer: Result<CryptData, CryptdecError>,
    accepted: Result<CryptData, SigningError>,
    outcome: Result<CryptData, SigningError>,
)
    requires
        call_ensures(accept_answer, (answer,), accepted),
        call_ensures(sign_digest::<C>, (cryptde, digest), outcome),
    ensures
        answer matches Ok(signature) ==> (accepted matches Ok(crypt) && crypt.data@
            == signature.data@),
        answer matches Err(error) ==> (accepted matches Err(SigningError::Refused(kept)) && kept
            == error),
        match outcome {
            Ok(signature) => may_answer(cryptde, digest.data@, Ok(signature.data@)),
            Err(SigningError::Refused(error)) => may_answer(cryptde, digest.data@, Err(error)),
            Err(SigningError::ContentTooLong) => false,
        },
{
}

/// Signing a message asks the device for a signature of the digest of the whole message.
pub proof fn law_signature_is_of_the_whole_message<C: CryptDE + ?Sized>(
    cryptde: &C,
    message: &[u8],
    outcome: Result<CryptData, SigningError>,
)
    requires
        call_ensures(sign_message::<C>, (cryptde, message), outcome),
    ensures
        match outcome {
            Ok(signature) => may_answer(cryptde, sha1_digest(message@), Ok(signature.data@)),
            Err(SigningError::Refused(error)) => may_answer(
                cryptde,
                sha1_digest(message@),
                Err(error),
            ),
            Err(SigningError::ContentTooLong) => 8 * message@.len() > u64::MAX,
        },
        8 * message@.len() > u64::MAX ==> outcome matches Err(SigningError::ContentTooLong),
{
}

/// A signature of a record is one of the digest of all the bytes that the record is in CBOR.
pub proof fn law_signature_is_of_the_whole_record<C: CryptDE + ?Sized>(
    inner: &NodeRecordInner,
    cryptde: &C,
    bytes: Vec<u8>,
    outcome: Result<CryptData, SigningError>,
)
    requires
        call_ensures(NodeRecordInner::serialized, (inner,), bytes),
        call_ensures(NodeRecordInner::generate_signature::<C>, (inner, cryptde), outcome),
    ensures
        match outcome {
            Ok(signature) => may_answer(cryptde, sha1_digest(bytes@), Ok(signature.data@)),
            Err(SigningError::Refused(error)) => may_answer(
                cryptde,
                sha1_digest(bytes@),
                Err(error),
            ),
            Err(SigningError::ContentTooLong) => 8 * bytes@.len() > u64::MAX,
        },
{
}

/// The outcome of signing a record, by the answers of the device: the complete signature is one to
/// the digest of the record, the obscured one to the digest of the record with no address in it,
/// whatever kind of node it is of.
pub proof fn law_record_is_signed_with_and_without_its_address<C: CryptDE + ?Sized>(
    cryptde: &C,
    inner: NodeRecordInnerView,
    signatures: NodeSignaturesView,
    error: CryptdecError,
)
    ensures
        ({
            let bare = NodeRecordInnerView {
                public_key: inner.public_key,
                node_addr_opt: None,
                is_bootstrap_node: inner.is_bootstrap_node,
                neighbors: inner.neighbors,
            };
            let whole_fits = 8 * inner.cbor().len() <= u64::MAX;
            let bare_fits = 8 * bare.cbor().len() <= u64::MAX;
            &&& may_sign_record(cryptde, inner, Ok(signatures)) <==> {
                &&& whole_fits
                &&& bare_fits
                &&& may_answer(cryptde, sha1_digest(inner.cbor()), Ok(signatures.complete))
                &&& may_answer(cryptde, sha1_digest(bare.cbor()), Ok(signatures.obscured))
            }
            &&& may_sign_record(cryptde, inner, Err(SigningError::Refused(error))) <==> {
                &&& whole_fits
                &&& {
                    ||| may_answer(cryptde, sha1_digest(inner.cbor()), Err(error))
                    ||| {
                        &&& bare_fits
                        &&& exists|complete: Seq<u8>|
                            may_answer(cryptde, sha1_digest(inner.cbor()), Ok(complete))
                        &&& may_answer(cryptde, sha1_digest(bare.cbor()), Err(error))
                    }
                }
            }
            &&& may_sign_record(cryptde, inner, Err(SigningError::ContentTooLong)) <==> {
                ||| !whole_fits
                ||| {
                    &&& !bare_fits
                    &&& exists|complete: Seq<u8>|
                        may_answer(cryptde, sha1_digest(inner.cbor()), Ok(complete))
                }
            }
        }),
{
    let bare = NodeRecordInnerView {
        public_key: inner.public_key,
        node_addr_opt: None,
        is_bootstrap_node: inner.is_bootstrap_node,
        neighbors: inner.neighbors,
    };
    assert(inner.obscured() =~= bare);
    if 8 * inner.cbor().len() <= u64::MAX {
        assert forall|complete: Seq<u8>|
            may_sign(cryptde, inner.cbor(), Ok(complete)) == #[trigger] may_answer(
                cryptde,
                sha1_digest(inner.cbor()),
                Ok(complete),
            ) by {}
    }
}

/// Of records that differ at most in their addresses a device may give the same obscured
/// signatures: the one that one got could be exchanged for the one that the other got.
pub proof fn law_obscured_signatures_can_be_exchanged<C: CryptDE + ?Sized>(
    cryptde: &C,
    a: NodeRecordInnerView,
    b: NodeRecordInnerView,
    of_a: NodeSignaturesView,
    of_b: NodeSignaturesView,
)
    requires
        a.public_key == b.public_key,
        a.is_bootstrap_node == b.is_bootstrap_node,
        a.neighbors == b.neighbors,
        may_sign_record(cryptde, a, Ok(of_a)),
        may_sign_record(cryptde, b, Ok(of_b)),
    ensures
        may_sign_record(
            cryptde,
            a,
            Ok(NodeSignaturesView { complete: of_a.complete, obscured: of_b.obscured }),
        ),
        may_sign_record(
            cryptde,
            b,
            Ok(NodeSignaturesView { complete: of_b.complete, obscured: of_a.obscured }),
        ),
{
    assert(a.obscured() =~= b.obscured());
}

/// The signatures that a record gets are answers of the device to two digests: that of the record,
/// and that of any record that says the same but has no address. A refusal is an answer to one of
/// them.
pub proof fn law_signatures_are_of_the_record_and_of_it_without_its_address<C: CryptDE + ?Sized>(
    cryptde: &C,
    inner: &NodeRecordInner,
    bare: &NodeRecordInner,
    outcome: Result<NodeSignatures, SigningError>,
)
    requires
        bare.public_key.data@ == inner.public_key.data@,
        bare.node_addr_opt is None,
        bare.is_bootstrap_node == inner.is_bootstrap_node,
        bare.neighbors@ == inner.neighbors@,
        call_ensures(NodeSignatures::from::<C>, (cryptde, inner), outcome),
    ensures
        match outcome {
            Ok(signatures) => {
                &&& may_answer(cryptde, sha1_digest(inner@.cbor()), Ok(signatures@.complete))
                &&& may_answer(cryptde, sha1_digest(bare@.cbor()), Ok(signatures@.obscured))
            },
            Err(SigningError::Refused(error)) => {
                ||| may_answer(cryptde, sha1_digest(inner@.cbor()), Err(error))
                ||| may_answer(cryptde, sha1_digest(bare@.cbor()), Err(error))
            },
            Err(SigningError::ContentTooLong) => {
                ||| 8 * inner@.cbor().len() > u64::MAX
                ||| 8 * bare@.cbor().len() > u64::MAX
            },
        },
{
    assert(inner@.obscured() =~= bare@);
}

/// A pair of signatures gives back the two that it was made of, each as what it is.
pub proof fn law_signatures_are_told_apart(
    complete: CryptData,
    obscured: CryptData,
    signatures: NodeSignatures,
    kept_complete: &CryptData,
    kept_obscured: &CryptData,
)
    requires
        call_ensures(NodeSignatures::new, (complete, obscured), signatures),
        call_ensures(NodeSignatures::complete, (&signatures,), kept_complete),
        call_ensures(NodeSignatures::obscured, (&signatures,), kept_obscured),
    ensures
        signatures@.complete == complete.data@,
        signatures@.obscured == obscured.data@,
        kept_complete.data@ == complete.data@,
        kept_obscured.data@ == obscured.data@,
{
}

/// Signing puts into a record signatures of what it says, with its address and without, in place
/// of whatever it had, and leaves the rest; a record that could not be signed stays as it was.
pub proof fn law_signed_record_has_signatures_of_itself<C: CryptDE + ?Sized>(
    record: &mut NodeRecord,
    cryptde: &C,
    bare: NodeRecordInnerView,
    result: Result<(), SigningError>,
)
    requires
        bare.public_key == old(record)@.inner.public_key,
        bare.node_addr_opt is None,
        bare.is_bootstrap_node == old(record)@.inner.is_bootstrap_node,
        bare.neighbors == old(record)@.inner.neighbors,
        call_ensures(NodeRecord::sign::<C>, (record, cryptde), result),
    ensures
        final(record)@.inner == old(record)@.inner,
        result is Ok ==> {
            &&& final(record)@.signatures matches Some(signatures)
            &&& may_answer(
                cryptde,
                sha1_digest(old(record)@.inner.cbor()),
                Ok(signatures.complete),
            )
            &&& may_answer(cryptde, sha1_digest(bare.cbor()), Ok(signatures.obscured))
        },
        result is Err ==> final(record)@.signatures == old(record)@.signatures,
        result matches Err(SigningError::Refused(error)) ==> {
            ||| may_answer(cryptde, sha1_digest(old(record)@.inner.cbor()), Err(error))
            ||| may_answer(cryptde, sha1_digest(bare.cbor()), Err(error))
        },
        result matches Err(SigningError::ContentTooLong) ==> {
            ||| 8 * old(record)@.inner.cbor().len() > u64::MAX
            ||| 8 * bare.cbor().len() > u64::MAX
        },
{
    assert(old(record)@.inner.obscured() =~= bare);
}

/// A record takes over signatures and nothing else, and of a failure nothing.
pub proof fn law_outcome_of_signing_is_taken_over(
    record: &mut NodeRecord,
    outcome: Result<NodeSignatures, SigningError>,
    result: Result<(), SigningError>,
)
    requires
        call_ensures(NodeRecord::accept_signatures, (record, outcome), result),
    ensures
        final(record)@.inner == old(record)@.inner,
        outcome matches Ok(signatures) ==> result is Ok && final(record)@.signatures == Some(
            signatures@,
        ),
        outcome matches Err(error) ==> {
            &&& result matches Err(kept)
            &&& kept == error
            &&& final(record)@.signatures == old(record)@.signatures
        },
{
}

} // verus!
