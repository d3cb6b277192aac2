//! That CBOR items can be read back: where two buffers that begin with an item of one
//! kind are the same, so are the items, and so is what follows them.

use vstd::prelude::*;
use vstd::utf8::{encode_utf8, encode_utf8_decode_utf8};

use crate::cbor::{
    big_endian, boolean, byte_string, byte_string_items, head, text_string, unsigned,
    unsigned_items,
};

verus! {

/// Whether `width` bytes hold a number.
pub open spec fn fits(n: nat, width: nat) -> bool
    decreases width,
{
    if width == 0 {
        n == 0
    } else {
        fits(n / 256, (width - 1) as nat)
    }
}

/// Parts of equal length are the same, and what follows them is.
pub proof fn lemma_split(a: Seq<u8>, x: Seq<u8>, b: Seq<u8>, y: Seq<u8>)
    requires
        a + x == b + y,
        a.len() == b.len(),
    ensures
        a == b,
        x == y,
{
    assert((a + x).subrange(0, a.len() as int) =~= a);
    assert((b + y).subrange(0, b.len() as int) =~= b);
    assert((a + x).subrange(a.len() as int, (a + x).len() as int) =~= x);
    assert((b + y).subrange(b.len() as int, (b + y).len() as int) =~= y);
}

/// A number in `width` bytes has that many.
pub proof fn lemma_big_endian_len(n: nat, width: nat)
    ensures
        big_endian(n, width).len() == width,
    decreases width,
{
    if width > 0 {
        lemma_big_endian_len(n / 256, (width - 1) as nat);
    }
}

/// A number that `width` bytes hold can be read back from them.
pub proof fn lemma_big_endian_injective(m: nat, n: nat, width: nat)
    requires
        fits(m, width),
        fits(n, width),
        big_endian(m, width) == big_endian(n, width),
    ensures
        m == n,
    decreases width,
{
    if width > 0 {
        let bm = big_endian(m / 256, (width - 1) as nat);
        let bn = big_endian(n / 256, (width - 1) as nat);
        assert(big_endian(m, width).drop_last() =~= bm);
        assert(big_endian(n, width).drop_last() =~= bn);
        assert(big_endian(m, width).last() == (m % 256) as u8);
        assert(big_endian(n, width).last() == (n % 256) as u8);
        lemma_big_endian_injective(m / 256, n / 256, (width - 1) as nat);
    }
}

/// Numbers of one to eight bytes fit in them.
proof fn lemma_fits(n: nat)
    ensures
        n < 0x100 ==> fits(n, 1),
        n < 0x1_0000 ==> fits(n, 2),
        n < 0x1_0000_0000 ==> fits(n, 4),
        n <= u64::MAX ==> fits(n, 8),
{
    reveal_with_fuel(fits, 9);
}

/// A head can be read back.
pub proof fn lemma_head(major: nat, m: nat, x: Seq<u8>, n: nat, y: Seq<u8>)
    requires
        major < 8,
        m <= u64::MAX,
        n <= u64::MAX,
        head(major, m) + x == head(major, n) + y,
    ensures
        m == n,
        x == y,
{
    let a = head(major, m);
    let b = head(major, n);
    assert((a + x)[0] == a[0]);
    assert((b + y)[0] == b[0]);
    lemma_big_endian_len(m, 1);
    lemma_big_endian_len(m, 2);
    lemma_big_endian_len(m, 4);
    lemma_big_endian_len(m, 8);
    lemma_big_endian_len(n, 1);
    lemma_big_endian_len(n, 2);
    lemma_big_endian_len(n, 4);
    lemma_big_endian_len(n, 8);
    assert(a.len() == b.len());
    lemma_split(a, x, b, y);
    if m >= 24 {
        let width: nat = if m < 0x100 {
            1
        } else if m < 0x1_0000 {
            2
        } else if m < 0x1_0000_0000 {
            4
        } else {
            8
        };
        lemma_fits(m);
        lemma_fits(n);
        assert(a.skip(1) =~= big_endian(m, width));
        assert(b.skip(1) =~= big_endian(n, width));
        lemma_big_endian_injective(m, n, width);
    }
}

/// A byte string can be read back.
pub proof fn lemma_byte_string(s: Seq<u8>, x: Seq<u8>, t: Seq<u8>, y: Seq<u8>)
    requires
        s.len() <= u64::MAX,
        t.len() <= u64::MAX,
        byte_string(s) + x == byte_string(t) + y,
    ensures
        s == t,
        x == y,
{
    assert(byte_string(s) + x =~= head(2, s.len()) + (s + x));
    assert(byte_string(t) + y =~= head(2, t.len()) + (t + y));
    lemma_head(2, s.len(), s + x, t.len(), t + y);
    lemma_split(s, x, t, y);
}

/// What follows the same text can be read back.
pub proof fn lemma_same_text(text: Seq<char>, x: Seq<u8>, y: Seq<u8>)
    requires
        text_string(text) + x == text_string(text) + y,
    ensures
        x == y,
{
    lemma_split(text_string(text), x, text_string(text), y);
}

/// A text string can be read back.
pub proof fn lemma_text_string(s: Seq<char>, x: Seq<u8>, t: Seq<char>, y: Seq<u8>)
    requires
        encode_utf8(s).len() <= u64::MAX,
        encode_utf8(t).len() <= u64::MAX,
        text_string(s) + x == text_string(t) + y,
    ensures
        s == t,
        x == y,
{
    let u = encode_utf8(s);
    let v = encode_utf8(t);
    assert(text_string(s) + x =~= head(3, u.len()) + (u + x));
    assert(text_string(t) + y =~= head(3, v.len()) + (v + y));
    lemma_head(3, u.len(), u + x, v.len(), v + y);
    lemma_split(u, x, v, y);
    encode_utf8_decode_utf8(s);
    encode_utf8_decode_utf8(t);
}

/// A truth value can be read back.
pub proof fn lemma_boolean(p: bool, x: Seq<u8>, q: bool, y: Seq<u8>)
    requires
        boolean(p) + x == boolean(q) + y,
    ensures
        p == q,
        x == y,
{
    lemma_split(boolean(p), x, boolean(q), y);
    assert(boolean(p)[0] == boolean(q)[0]);
}

/// As many unsigned integers can be read back as are expected.
pub proof fn lemma_unsigned_items(s: Seq<nat>, x: Seq<u8>, t: Seq<nat>, y: Seq<u8>)
    requires
        s.len() == t.len(),
        forall|i: int| 0 <= i < s.len() ==> #[trigger] s[i] <= u64::MAX,
        forall|i: int| 0 <= i < t.len() ==> #[trigger] t[i] <= u64::MAX,
        unsigned_items(s) + x == unsigned_items(t) + y,
    ensures
        s == t,
        x == y,
    decreases s.len(),
{
    if s.len() == 0 {
        assert(s =~= t);
        assert(unsigned_items(s) + x =~= x);
        assert(unsigned_items(t) + y =~= y);
    } else {
        let u = unsigned(s.last()) + x;
        let v = unsigned(t.last()) + y;
        assert(unsigned_items(s) + x =~= unsigned_items(s.drop_last()) + u);
        assert(unsigned_items(t) + y =~= unsigned_items(t.drop_last()) + v);
        lemma_unsigned_items(s.drop_last(), u, t.drop_last(), v);
        lemma_head(0, s.last(), x, t.last(), y);
        assert(s =~= s.drop_last().push(s.last()));
        assert(t =~= t.drop_last().push(t.last()));
    }
}

/// As many byte strings can be read back as are expected.
pub proof fn lemma_byte_string_items(s: Seq<Seq<u8>>, x: Seq<u8>, t: Seq<Seq<u8>>, y: Seq<u8>)
    requires
        s.len() == t.len(),
        forall|i: int| 0 <= i < s.len() ==> (#[trigger] s[i]).len() <= u64::MAX,
        forall|i: int| 0 <= i < t.len() ==> (#[trigger] t[i]).len() <= u64::MAX,
        byte_string_items(s) + x == byte_string_items(t) + y,
    ensures
        s == t,
        x == y,
    decreases s.len(),
{
    if s.len() == 0 {
        assert(s =~= t);
        assert(byte_string_items(s) + x =~= x);
        assert(byte_string_items(t) + y =~= y);
    } else {
        let u = byte_string(s.last()) + x;
        let v = byte_string(t.last()) + y;
        assert(byte_string_items(s) + x =~= byte_string_items(s.drop_last()) + u);
        assert(byte_string_items(t) + y =~= byte_string_items(t.drop_last()) + v);
        lemma_byte_string_items(s.drop_last(), u, t.drop_last(), v);
        lemma_byte_string(s.last(), x, t.last(), y);
        assert(s =~= s.drop_last().push(s.last()));
        assert(t =~= t.drop_last().push(t.last()));
    }
}

} // verus!
