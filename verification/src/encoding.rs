//! How bytes are written as text for the client.
use vstd::prelude::*;

verus! {

/// The Base64 digit that stands for six bits.
pub open spec fn base64_digit(bits: int) -> char {
    if bits < 26 {
        ('A' as int + bits) as char
    } else if bits < 52 {
        ('a' as int + bits - 26) as char
    } else if bits < 62 {
        ('0' as int + bits - 52) as char
    } else if bits == 62 {
        '+'
    } else {
        '/'
    }
}

/// A byte, zero behind the end.
pub open spec fn byte_at(bytes: Seq<u8>, i: int) -> int {
    if 0 <= i < bytes.len() {
        bytes[i] as int
    } else {
        0
    }
}

/// The `i`-th group of six bits, the first bit of each byte being its highest.
pub open spec fn six_bits(bytes: Seq<u8>, i: int) -> int {
    let first = i / 4 * 3;
    if i % 4 == 0 {
        byte_at(bytes, first) / 4
    } else if i % 4 == 1 {
        byte_at(bytes, first) % 4 * 16 + byte_at(bytes, first + 1) / 16
    } else if i % 4 == 2 {
        byte_at(bytes, first + 1) % 16 * 4 + byte_at(bytes, first + 2) / 64
    } else {
        byte_at(bytes, first + 2) % 64
    }
}

/// Whether the place in the text of `count` bytes holds a digit; padding follows the last one.
pub open spec fn is_digit_place(count: nat, i: int) -> bool {
    i * 6 < count * 8
}

/// Base64 with the standard alphabet: one digit for each six bits, padded to groups of four.
pub open spec fn base64(bytes: Seq<u8>) -> Seq<char> {
    Seq::new(
        base64_len(bytes.len()),
        |i: int|
            if is_digit_place(bytes.len(), i) {
                base64_digit(six_bits(bytes, i))
            } else {
                '='
            },
    )
}

/// How long the Base64 text of `count` bytes is.
pub open spec fn base64_len(count: nat) -> nat {
    (count + 2) / 3 * 4
}

/// Calls `encode` of the engine `base64::engine::general_purpose::STANDARD`, which panics where
/// the text would be longer than memory. Claims that the text is the padded Base64 of the bytes,
/// over the standard alphabet.
#[verifier::external_body]
fn standard_encoding(bytes: &Vec<u8>) -> (text: String)
    requires
        base64_len(bytes@.len()) <= isize::MAX,
    ensures
        text@ == base64(bytes@),
{
    base64::Engine::encode(&base64::engine::general_purpose::STANDARD, bytes)
}

/// Whether the Base64 text of so many bytes fits in memory.
pub fn is_encodable(count: usize) -> (fits: bool)
    ensures
        fits == (base64_len(count as nat) <= isize::MAX),
{
    count <= isize::MAX as usize / 4 * 3
}

/// Writes bytes in Base64.
pub fn to_base64(bytes: &Vec<u8>) -> (text: String)
    requires
        base64_len(bytes@.len()) <= isize::MAX,
    ensures
        text@ == base64(bytes@),
{
    standard_encoding(bytes)
}

/// Six bits make up a number below 64, which is zero behind the last byte.
proof fn lemma_six_bits(bytes: Seq<u8>, i: int)
    requires
        i >= 0,
    ensures
        0 <= six_bits(bytes, i) < 64,
        !is_digit_place(bytes.len(), i) ==> six_bits(bytes, i) == 0,
{
    let q = i / 4;
    assert(i == 4 * q + i % 4);
}

/// The digits are distinct, and none of them is the padding.
proof fn lemma_digits_differ(a: int, b: int)
    requires
        0 <= a < 64,
        0 <= b < 64,
    ensures
        base64_digit(a) != '=',
        base64_digit(a) == base64_digit(b) ==> a == b,
{
}

/// Texts that agree in one place agree in whether it holds a digit, and in which.
proof fn lemma_same_place(a: Seq<u8>, b: Seq<u8>, i: int)
    requires
        base64(a) == base64(b),
        0 <= i < base64(a).len(),
    ensures
        is_digit_place(a.len(), i) == is_digit_place(b.len(), i),
        six_bits(a, i) == six_bits(b, i),
{
    lemma_six_bits(a, i);
    lemma_six_bits(b, i);
    lemma_digits_differ(six_bits(a, i), six_bits(b, i));
    lemma_digits_differ(six_bits(b, i), six_bits(a, i));
    assert(base64(a)[i] == if is_digit_place(a.len(), i) {
        base64_digit(six_bits(a, i))
    } else {
        '='
    });
    assert(base64(b)[i] == if is_digit_place(b.len(), i) {
        base64_digit(six_bits(b, i))
    } else {
        '='
    });
}

/// The bytes can be told from their Base64 text: no two sequences of bytes are written alike.
pub proof fn law_base64_is_faithful(a: Seq<u8>, b: Seq<u8>)
    requires
        base64(a) == base64(b),
    ensures
        a == b,
{
    if a.len() < b.len() {
        lemma_same_place(a, b, (a.len() * 8 + 5) as int / 6);
    }
    if b.len() < a.len() {
        lemma_same_place(a, b, (b.len() * 8 + 5) as int / 6);
    }
    assert forall|k: int| 0 <= k < a.len() implies a[k] == b[k] by {
        let q = k / 3;
        assert(k == 3 * q + k % 3);
        assert(4 * q / 4 == q && (4 * q + 1) / 4 == q && (4 * q + 2) / 4 == q && (4 * q + 3) / 4 == q);
        lemma_same_place(a, b, 4 * q);
        lemma_same_place(a, b, 4 * q + 1);
        lemma_same_place(a, b, 4 * q + 2);
        lemma_same_place(a, b, 4 * q + 3);
        assert(byte_at(a, k) == byte_at(b, k));
    }
    assert(a =~= b);
}

/// Four digits stand for three bytes: the numbers that they stand for, in base 64, make up the
/// number that the bytes make up, in base 256, with zeros behind the last byte. One byte in the
/// last group leaves two digits before the padding, two leave three, and otherwise there is none.
pub proof fn law_groups_of_digits(bytes: Seq<u8>, group: int)
    requires
        0 <= group,
        group * 3 < bytes.len(),
    ensures
        ({
            let a = byte_at(bytes, group * 3);
            let b = byte_at(bytes, group * 3 + 1);
            let c = byte_at(bytes, group * 3 + 2);
            let w = six_bits(bytes, group * 4);
            let x = six_bits(bytes, group * 4 + 1);
            let y = six_bits(bytes, group * 4 + 2);
            let z = six_bits(bytes, group * 4 + 3);
            let text = base64(bytes);
            &&& ((w * 64 + x) * 64 + y) * 64 + z == (a * 256 + b) * 256 + c
            &&& 0 <= w < 64 && 0 <= x < 64 && 0 <= y < 64 && 0 <= z < 64
            &&& text.len() % 4 == 0
            &&& text.len() >= group * 4 + 4
            &&& bytes.len() <= group * 3 + 3 ==> text.len() == group * 4 + 4
            &&& text[group * 4] == base64_digit(w)
            &&& text[group * 4 + 1] == base64_digit(x)
            &&& text[group * 4 + 2] == (if bytes.len() == group * 3 + 1 {
                '='
            } else {
                base64_digit(y)
            })
            &&& text[group * 4 + 3] == (if bytes.len() <= group * 3 + 2 {
                '='
            } else {
                base64_digit(z)
            })
        }),
{
    assert(group * 4 / 4 == group && (group * 4 + 1) / 4 == group && (group * 4 + 2) / 4 == group
        && (group * 4 + 3) / 4 == group);
    lemma_six_bits(bytes, group * 4);
    lemma_six_bits(bytes, group * 4 + 1);
    lemma_six_bits(bytes, group * 4 + 2);
    lemma_six_bits(bytes, group * 4 + 3);
}

} // verus!
