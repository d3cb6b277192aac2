//! The text of a refusal.

use vstd::prelude::*;

use crate::cryptde::Key;

verus! {

/// The decimal digit of a number below ten.
pub open spec fn digit(n: nat) -> char {
    (48 + n) as char
}

/// A number in decimal digits.
pub open spec fn decimal(n: nat) -> Seq<char>
    decreases n,
{
    if n < 10 {
        seq![digit(n)]
    } else {
        decimal(n / 10).push(digit(n % 10))
    }
}

/// The numbers of a list in decimal digits, with a comma and a space between them.
pub open spec fn decimal_list(bytes: Seq<u8>) -> Seq<char>
    decreases bytes.len(),
{
    if bytes.len() == 0 {
        Seq::empty()
    } else if bytes.len() == 1 {
        decimal(bytes[0] as nat)
    } else {
        decimal_list(bytes.drop_last()) + ", "@ + decimal(bytes.last() as nat)
    }
}

/// What is said of a neighbor that cannot be removed because no node has its key.
pub open spec fn nonexistent_neighbor(key: Seq<u8>) -> Seq<char> {
    "could not remove nonexistent neighbor by public key: Key { data: ["@ + decimal_list(key)
        + "] }"@
}

/// The decimal digit of a number below ten.
fn digit_text(n: u8) -> (text: &'static str)
    requires
        n < 10,
    ensures
        text@ == seq![digit(n as nat)],
{
    proof {
        reveal_strlit("0");
        reveal_strlit("1");
        reveal_strlit("2");
        reveal_strlit("3");
        reveal_strlit("4");
        reveal_strlit("5");
        reveal_strlit("6");
        reveal_strlit("7");
        reveal_strlit("8");
        reveal_strlit("9");
    }
    let text = match n {
        0 => "0",
        1 => "1",
        2 => "2",
        3 => "3",
        4 => "4",
        5 => "5",
        6 => "6",
        7 => "7",
        8 => "8",
        _ => "9",
    };
    assert(text@ =~= seq![digit(n as nat)]);
    text
}

/// Appends a number in decimal digits.
fn append_decimal(text: &mut String, n: u8)
    ensures
        final(text)@ == old(text)@ + decimal(n as nat),
    decreases n,
{
    if n < 10 {
        text.append(digit_text(n));
    } else {
        append_decimal(text, n / 10);
        text.append(digit_text(n % 10));
        assert(text@ =~= old(text)@ + decimal(n as nat));
    }
}

/// What is said of a neighbor that cannot be removed because no node has its key.
pub(crate) fn nonexistent_neighbor_text(key: &Key) -> (text: String)
    ensures
        text@ == nonexistent_neighbor(key@),
{
    let mut text = String::new();
    text.append("could not remove nonexistent neighbor by public key: Key { data: [");
    let ghost start = text@;
    let mut i: usize = 0;
    assert(text@ =~= start + decimal_list(key@.take(0)));
    while i < key.data.len()
        invariant
            i <= key@.len(),
            text@ == start + decimal_list(key@.take(i as int)),
        decreases key@.len() - i,
    {
        if i > 0 {
            text.append(", ");
        }
        append_decimal(&mut text, key.data[i]);
        proof {
            let next = key@.take(i + 1);
            assert(next.drop_last() =~= key@.take(i as int));
            assert(text@ =~= start + decimal_list(next));
        }
        i += 1;
    }
    assert(key@.take(i as int) =~= key@);
    text.append("] }");
    assert(text@ =~= nonexistent_neighbor(key@));
    text
}

/// A byte in decimal digits: as few as it takes, and each the digit of its place.
pub proof fn law_byte_in_digits(byte: u8)
    ensures
        byte < 10 ==> decimal(byte as nat).len() == 1,
        10 <= byte < 100 ==> decimal(byte as nat).len() == 2,
        byte >= 100 ==> decimal(byte as nat).len() == 3,
        forall|i: int|
            0 <= i < decimal(byte as nat).len() ==> '0' <= #[trigger] decimal(byte as nat)[i]
                <= '9',
        byte < 10 ==> decimal(byte as nat)[0] as int - '0' as int == byte,
        10 <= byte < 100 ==> 10 * (decimal(byte as nat)[0] as int - '0' as int) + (decimal(
            byte as nat,
        )[1] as int - '0' as int) == byte,
        byte >= 100 ==> 100 * (decimal(byte as nat)[0] as int - '0' as int) + 10 * (decimal(
            byte as nat,
        )[1] as int - '0' as int) + (decimal(byte as nat)[2] as int - '0' as int) == byte,
{
    reveal_with_fuel(decimal, 4);
}

/// Bytes are written one after the other, in their order, with a comma and a space between any
/// two and nothing before the first or after the last.
pub proof fn law_bytes_in_a_row(bytes: Seq<u8>, byte: u8)
    ensures
        decimal_list(Seq::empty()) == Seq::<char>::empty(),
        decimal_list(seq![byte]) == decimal(byte as nat),
        bytes.len() > 0 ==> decimal_list(bytes.push(byte)) == decimal_list(bytes) + seq![',', ' ']
            + decimal(byte as nat),
{
    reveal_strlit(", ");
    assert(", "@ =~= seq![',', ' ']);
    assert(bytes.push(byte).drop_last() =~= bytes);
}

} // verus!
