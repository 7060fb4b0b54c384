//! Short identifiers of posts: the first seven characters of the commit
//! identifier's canonical form, which is its bytes written as lowercase
//! hexadecimal.

use vstd::prelude::*;
use vstd::string::StringExecFns;

verus! {

/// The sixteen lowercase hexadecimal digits, in value order.
pub open spec fn hex_digits() -> Seq<char> {
    seq!['0', '1', '2', '3', '4', '5', '6', '7', '8', '9', 'a', 'b', 'c', 'd', 'e', 'f']
}

/// The digit character of a value below sixteen.
pub open spec fn hex_digit(n: int) -> char
    recommends
        0 <= n < 16,
{
    hex_digits()[n]
}

/// The canonical string form of an identifier: each byte written as two
/// lowercase hexadecimal digits, high nibble first.
pub open spec fn spec_hex(bytes: Seq<u8>) -> Seq<char>
    decreases bytes.len(),
{
    if bytes.len() == 0 {
        Seq::<char>::empty()
    } else {
        seq![hex_digit(bytes[0] as int / 16), hex_digit(bytes[0] as int % 16)] + spec_hex(
            bytes.drop_first(),
        )
    }
}

/// The short identifier: the first seven characters of the canonical
/// hexadecimal form.
pub open spec fn spec_short_id(id: Seq<u8>) -> Seq<char> {
    spec_hex(id).take(7)
}

/// The canonical form has two digits per byte.
pub proof fn lemma_spec_hex_len(bytes: Seq<u8>)
    ensures
        spec_hex(bytes).len() == 2 * bytes.len(),
    decreases bytes.len(),
{
    if bytes.len() > 0 {
        lemma_spec_hex_len(bytes.drop_first());
    }
}

/// The two digits of byte `i` stand at positions `2 * i` and `2 * i + 1`
/// of the canonical form.
pub proof fn lemma_spec_hex_index(bytes: Seq<u8>, i: int)
    requires
        0 <= i < bytes.len(),
    ensures
        spec_hex(bytes)[2 * i] == hex_digit(bytes[i] as int / 16),
        spec_hex(bytes)[2 * i + 1] == hex_digit(bytes[i] as int % 16),
    decreases i,
{
    lemma_spec_hex_len(bytes.drop_first());
    if i > 0 {
        lemma_spec_hex_index(bytes.drop_first(), i - 1);
        assert(bytes.drop_first()[i - 1] == bytes[i]);
    }
}

/// Every character of the canonical form is a lowercase hexadecimal digit.
pub proof fn lemma_hex_lowercase(bytes: Seq<u8>, k: int)
    requires
        0 <= k < spec_hex(bytes).len(),
    ensures
        hex_digits().contains(spec_hex(bytes)[k]),
{
    lemma_spec_hex_len(bytes);
    let i = k / 2;
    lemma_spec_hex_index(bytes, i);
    if k % 2 == 0 {
        assert(k == 2 * i);
        assert(spec_hex(bytes)[k] == hex_digits()[bytes[i] as int / 16]);
    } else {
        assert(k == 2 * i + 1);
        assert(spec_hex(bytes)[k] == hex_digits()[bytes[i] as int % 16]);
    }
}

/// The digit character of a nibble.
fn hex_digit_str(n: u8) -> (r: &'static str)
    requires
        n < 16,
    ensures
        r@ == seq![hex_digit(n as int)],
{
    proof {
        reveal_strlit("0");
        reveal_strlit("1");
        reveal_strlit("2");
        reveal_strlit("3");
        reveal_strlit("4");
        reveal_strlit("5");
        reveal_strlit("6");
        reveal_strlit("7");
        reveal_strlit("8");
        reveal_strlit("9");
        reveal_strlit("a");
        reveal_strlit("b");
        reveal_strlit("c");
        reveal_strlit("d");
        reveal_strlit("e");
        reveal_strlit("f");
    }
    let r: &'static str = if n == 0 {
        "0"
    } else if n == 1 {
        "1"
    } else if n == 2 {
        "2"
    } else if n == 3 {
        "3"
    } else if n == 4 {
        "4"
    } else if n == 5 {
        "5"
    } else if n == 6 {
        "6"
    } else if n == 7 {
        "7"
    } else if n == 8 {
        "8"
    } else if n == 9 {
        "9"
    } else if n == 10 {
        "a"
    } else if n == 11 {
        "b"
    } else if n == 12 {
        "c"
    } else if n == 13 {
        "d"
    } else if n == 14 {
        "e"
    } else {
        "f"
    };
    proof {
        assert(r@ =~= seq![hex_digit(n as int)]);
    }
    r
}

/// The short identifier of a commit: the first seven characters of its
/// identifier's lowercase hexadecimal form.
pub fn short_id(id: &Vec<u8>) -> (r: String)
    requires
        id@.len() >= 4,
    ensures
        r@ == spec_short_id(id@),
{
    let mut r = String::new();
    r.append(hex_digit_str(id[0] / 16));
    r.append(hex_digit_str(id[0] % 16));
    r.append(hex_digit_str(id[1] / 16));
    r.append(hex_digit_str(id[1] % 16));
    r.append(hex_digit_str(id[2] / 16));
    r.append(hex_digit_str(id[2] % 16));
    r.append(hex_digit_str(id[3] / 16));
    proof {
        lemma_spec_hex_len(id@);
        lemma_spec_hex_index(id@, 0);
        lemma_spec_hex_index(id@, 1);
        lemma_spec_hex_index(id@, 2);
        lemma_spec_hex_index(id@, 3);
        assert(r@ =~= spec_short_id(id@));
    }
    r
}

} // verus!
