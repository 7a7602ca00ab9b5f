//! Base64 as input and output travel in it: what it is, and that nothing is lost
//! on the way.

use vstd::prelude::*;

verus! {

/// The character that stands for six bits in the standard alphabet.
pub open spec fn base64_char(six: int) -> char {
    if six < 26 {
        ('A' as int + six) as char
    } else if six < 52 {
        ('a' as int + (six - 26)) as char
    } else if six < 62 {
        ('0' as int + (six - 52)) as char
    } else if six == 62 {
        '+'
    } else {
        '/'
    }
}

/// The byte at `i`, with zeros behind the last one.
pub open spec fn byte_or_zero(bytes: Seq<u8>, i: int) -> int {
    if 0 <= i < bytes.len() {
        bytes[i] as int
    } else {
        0
    }
}

/// The 24 bits of the `g`th group of three bytes.
pub open spec fn group_bits(bytes: Seq<u8>, g: int) -> int {
    byte_or_zero(bytes, 3 * g) * 0x10000 + byte_or_zero(bytes, 3 * g + 1) * 0x100 + byte_or_zero(
        bytes,
        3 * g + 2,
    )
}

/// The `k`th six of 24 bits, from the front.
pub open spec fn six_bits(bits: int, k: int) -> int {
    if k == 0 {
        bits / 0x40000
    } else if k == 1 {
        bits / 0x1000 % 0x40
    } else if k == 2 {
        bits / 0x40 % 0x40
    } else {
        bits % 0x40
    }
}

/// Place `i` of the encoding: six bits of its group, or padding where the group
/// has no byte that they could come from.
pub open spec fn base64_at(bytes: Seq<u8>, i: int) -> char {
    if 3 * (i / 4) + i % 4 > bytes.len() {
        '='
    } else {
        base64_char(six_bits(group_bits(bytes, i / 4), i % 4))
    }
}

/// Bytes in base64, with padding: four characters for each three bytes begun.
pub open spec fn base64_of(bytes: Seq<u8>) -> Seq<char> {
    Seq::new(4 * ((bytes.len() + 2) / 3), |i: int| base64_at(bytes, i))
}

/// The bytes that a text stands for, if it is the encoding of any.
pub open spec fn base64_bytes(text: Seq<char>) -> Option<Seq<u8>> {
    if exists|bytes: Seq<u8>| base64_of(bytes) == text {
        Some(choose|bytes: Seq<u8>| base64_of(bytes) == text)
    } else {
        None
    }
}

// ---------------------------------------------------------------------------
// laws

/// Six bits of a group are six bits.
proof fn six_bits_in_range(bytes: Seq<u8>, g: int, k: int)
    requires
        0 <= k < 4,
    ensures
        0 <= group_bits(bytes, g) < 0x1000000,
        0 <= six_bits(group_bits(bytes, g), k) < 64,
{
}

/// No two values of six bits share a character, and none has the padding's.
proof fn chars_tell_values_apart(x: int, y: int)
    requires
        0 <= x < 64,
        0 <= y < 64,
    ensures
        base64_char(x) == base64_char(y) ==> x == y,
        base64_char(x) != '=',
{
}

/// An encoding holds letters, digits, plus signs, slashes and padding only.
pub proof fn encodings_are_plain(bytes: Seq<u8>, i: int)
    requires
        0 <= i < base64_of(bytes).len(),
    ensures
        ({
            let c = base64_of(bytes)[i];
            'A' <= c <= 'Z' || 'a' <= c <= 'z' || '0' <= c <= '9' || c == '+' || c == '/' || c
                == '='
        }),
{
    six_bits_in_range(bytes, i / 4, i % 4);
}

/// Equal sixes make equal bits.
proof fn bits_from_sixes(a: int, b: int)
    requires
        0 <= a < 0x1000000,
        0 <= b < 0x1000000,
        six_bits(a, 0) == six_bits(b, 0),
        six_bits(a, 1) == six_bits(b, 1),
        six_bits(a, 2) == six_bits(b, 2),
        six_bits(a, 3) == six_bits(b, 3),
    ensures
        a == b,
{
    assert(a == six_bits(a, 0) * 0x40000 + six_bits(a, 1) * 0x1000 + six_bits(a, 2) * 0x40
        + six_bits(a, 3));
    assert(b == six_bits(b, 0) * 0x40000 + six_bits(b, 1) * 0x1000 + six_bits(b, 2) * 0x40
        + six_bits(b, 3));
}

/// Equal encodings are as long as each other, and so are what they encode.
proof fn lengths_are_read_back(a: Seq<u8>, b: Seq<u8>)
    requires
        base64_of(a) == base64_of(b),
    ensures
        a.len() == b.len(),
{
    let groups = (a.len() + 2) / 3;
    assert(base64_of(a).len() == 4 * groups);
    assert(base64_of(b).len() == 4 * ((b.len() + 2) / 3));
    assert(groups == (b.len() + 2) / 3);
    if groups > 0 {
        let last = 4 * groups - 1;
        assert(last / 4 == groups - 1 && last % 4 == 3);
        assert((last - 1) / 4 == groups - 1 && (last - 1) % 4 == 2);
        assert(base64_of(a)[last] == base64_at(a, last) && base64_of(b)[last] == base64_at(b, last));
        assert(base64_of(a)[last - 1] == base64_at(a, last - 1) && base64_of(b)[last - 1]
            == base64_at(b, last - 1));
        six_bits_in_range(a, groups - 1, 3);
        six_bits_in_range(b, groups - 1, 3);
        six_bits_in_range(a, groups - 1, 2);
        six_bits_in_range(b, groups - 1, 2);
        chars_tell_values_apart(six_bits(group_bits(a, groups - 1), 3), 0);
        chars_tell_values_apart(six_bits(group_bits(b, groups - 1), 3), 0);
        chars_tell_values_apart(six_bits(group_bits(a, groups - 1), 2), 0);
        chars_tell_values_apart(six_bits(group_bits(b, groups - 1), 2), 0);
    }
}

/// The `k`th six of a group can be read off the encoding.
proof fn sixes_are_read_back(a: Seq<u8>, b: Seq<u8>, g: int, k: int)
    requires
        base64_of(a) == base64_of(b),
        a.len() == b.len(),
        0 <= g,
        3 * g < a.len(),
        0 <= k < 4,
    ensures
        six_bits(group_bits(a, g), k) == six_bits(group_bits(b, g), k),
{
    let i = 4 * g + k;
    assert(i / 4 == g && i % 4 == k);
    assert(i < base64_of(a).len());
    assert(base64_of(a)[i] == base64_at(a, i) && base64_of(b)[i] == base64_at(b, i));
    six_bits_in_range(a, g, k);
    six_bits_in_range(b, g, k);
    chars_tell_values_apart(six_bits(group_bits(a, g), k), six_bits(group_bits(b, g), k));
}

/// Different bytes have different encodings.
pub proof fn encodings_tell_bytes_apart(a: Seq<u8>, b: Seq<u8>)
    requires
        base64_of(a) == base64_of(b),
    ensures
        a == b,
{
    lengths_are_read_back(a, b);
    assert forall|i: int| 0 <= i < a.len() implies a[i] == b[i] by {
        let g = i / 3;
        sixes_are_read_back(a, b, g, 0);
        sixes_are_read_back(a, b, g, 1);
        sixes_are_read_back(a, b, g, 2);
        sixes_are_read_back(a, b, g, 3);
        six_bits_in_range(a, g, 0);
        six_bits_in_range(b, g, 0);
        bits_from_sixes(group_bits(a, g), group_bits(b, g));
        assert(byte_or_zero(a, 3 * g) == byte_or_zero(b, 3 * g));
        assert(byte_or_zero(a, 3 * g + 1) == byte_or_zero(b, 3 * g + 1));
        assert(byte_or_zero(a, 3 * g + 2) == byte_or_zero(b, 3 * g + 2));
        assert(i == 3 * g || i == 3 * g + 1 || i == 3 * g + 2);
    }
    assert(a =~= b);
}

/// What was encoded is decoded again, whatever it was.
pub proof fn encoded_bytes_are_read_back(bytes: Seq<u8>)
    ensures
        base64_bytes(base64_of(bytes)) == Some(bytes),
{
    let found = choose|b: Seq<u8>| base64_of(b) == base64_of(bytes);
    assert(base64_of(found) == base64_of(bytes));
    encodings_tell_bytes_apart(found, bytes);
}

} // verus!
