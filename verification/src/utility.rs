//! Strings as Windows and C have them: bytes that end in zero, and 16-bit units.
use vstd::prelude::*;
use vstd::string::*;

verus! {

/// What `String::from_utf8_lossy` makes of bytes: their text, with a replacement character
/// wherever they are no UTF-8.
pub uninterp spec fn lossy_text(bytes: Seq<u8>) -> Seq<char>;

/// Calls `String::from_utf8_lossy`. Claims that the text depends on the bytes alone, and that
/// bytes in UTF-8 become the text that they encode; how many replacement characters other bytes
/// become is left open.
#[verifier::external_body]
fn text_from_utf8_lossy(bytes: &[u8]) -> (text: String)
    ensures
        text@ == lossy_text(bytes@),
        vstd::utf8::valid_utf8(bytes@) ==> text@ == vstd::utf8::decode_utf8(bytes@),
{
    String::from_utf8_lossy(bytes).into_owned()
}

/// The text of a C string, given the bytes before its final zero; there is none where there is no
/// string. A text in UTF-8 comes out as it went in.
pub fn cstr_to_string(bytes: Option<&[u8]>) -> (text: Option<String>)
    ensures
        (text is Some) == (bytes is Some),
        bytes is Some ==> text->0@ == lossy_text(bytes->0@),
        bytes is Some && vstd::utf8::valid_utf8(bytes->0@) ==> text->0@
            == vstd::utf8::decode_utf8(bytes->0@),
        forall|original: Seq<char>|
            bytes is Some && bytes->0@ == #[trigger] vstd::utf8::encode_utf8(original) ==> text->0@
                == original,
{
    broadcast use vstd::utf8::encode_utf8_valid_utf8, vstd::utf8::encode_utf8_decode_utf8;

    match bytes {
        Some(bytes) => Some(text_from_utf8_lossy(bytes)),
        None => None,
    }
}

/// The bytes of a C string with this text, the final zero among them; a text that holds a zero
/// itself has none.
pub fn c_string(text: &str) -> (bytes: Option<Vec<u8>>)
    ensures
        match bytes {
            Some(bytes) => bytes@ == vstd::utf8::encode_utf8(text@).push(0) && !vstd::utf8::encode_utf8(
                text@,
            ).contains(0),
            None => vstd::utf8::encode_utf8(text@).contains(0),
        },
{
    let encoded = text.as_bytes();
    let mut bytes: Vec<u8> = Vec::new();
    let mut i: usize = 0;
    while i < encoded.len()
        invariant
            i <= encoded@.len(),
            encoded@ == vstd::utf8::encode_utf8(text@),
            bytes@ == encoded@.take(i as int),
            forall|j: int| 0 <= j < i ==> #[trigger] encoded@[j] != 0,
        decreases encoded@.len() - i,
    {
        if encoded[i] == 0 {
            return None;
        }
        bytes.push(encoded[i]);
        assert(encoded@.take(i + 1) =~= encoded@.take(i as int).push(encoded@[i as int]));
        i += 1;
    }
    assert(encoded@.take(i as int) =~= encoded@);
    bytes.push(0);
    Some(bytes)
}

/// The bytes of a C string with this text, the final zero among them.
pub fn to_pcstr(text: &str) -> (bytes: Vec<u8>)
    requires
        !vstd::utf8::encode_utf8(text@).contains(0),
    ensures
        bytes@ == vstd::utf8::encode_utf8(text@).push(0),
{
    match c_string(text) {
        Some(bytes) => bytes,
        None => Vec::new(),
    }
}

/// The UTF-16 units of a character: one, or a pair of surrogates.
pub open spec fn utf16_units(c: char) -> Seq<u16> {
    let n = c as int;
    if n < 0x1_0000 {
        seq![n as u16]
    } else {
        seq![(0xd800 + (n - 0x1_0000) / 0x400) as u16, (0xdc00 + (n - 0x1_0000) % 0x400) as u16]
    }
}

/// The UTF-16 units of a text.
pub open spec fn utf16(text: Seq<char>) -> Seq<u16>
    decreases text.len(),
{
    if text.len() == 0 {
        Seq::empty()
    } else {
        utf16_units(text[0]) + utf16(text.drop_first())
    }
}

/// The text with these UTF-16 units; units that are no UTF-16 have none.
pub open spec fn decoded_utf16(units: Seq<u16>) -> Option<Seq<char>> {
    if exists|text: Seq<char>| utf16(text) == units {
        Some(choose|text: Seq<char>| utf16(text) == units)
    } else {
        None
    }
}

/// Different characters differ in their first unit, or have two units and differ in the second.
proof fn lemma_units_differ(a: char, b: char)
    requires
        utf16_units(a)[0] == utf16_units(b)[0],
        a as int >= 0x1_0000 && b as int >= 0x1_0000 ==> utf16_units(a)[1] == utf16_units(b)[1],
    ensures
        a == b,
{
    let n = a as int;
    let m = b as int;
    assert(n <= 0x10_ffff && m <= 0x10_ffff);
    assert(!(0xd800 <= n < 0xe000) && !(0xd800 <= m < 0xe000));
    if n >= 0x1_0000 {
        assert(0 <= (n - 0x1_0000) / 0x400 < 0x400);
        assert(utf16_units(a)[0] == 0xd800 + (n - 0x1_0000) / 0x400);
        assert(utf16_units(a)[1] == 0xdc00 + (n - 0x1_0000) % 0x400);
    }
    if m >= 0x1_0000 {
        assert(0 <= (m - 0x1_0000) / 0x400 < 0x400);
        assert(utf16_units(b)[0] == 0xd800 + (m - 0x1_0000) / 0x400);
        assert(utf16_units(b)[1] == 0xdc00 + (m - 0x1_0000) % 0x400);
    }
}

/// No two texts have the same UTF-16 units.
pub proof fn law_utf16_is_faithful(a: Seq<char>, b: Seq<char>)
    requires
        utf16(a) == utf16(b),
    ensures
        a == b,
    decreases a.len(),
{
    if a.len() > 0 && b.len() > 0 {
        let x = utf16_units(a[0]);
        let y = utf16_units(b[0]);
        assert(utf16(a)[0] == x[0] && utf16(b)[0] == y[0]);
        if a[0] as int >= 0x1_0000 && b[0] as int >= 0x1_0000 {
            assert(utf16(a)[1] == x[1] && utf16(b)[1] == y[1]);
        }
        lemma_units_differ(a[0], b[0]);
        assert(utf16(a.drop_first()) =~= utf16(a).skip(x.len() as int));
        assert(utf16(b.drop_first()) =~= utf16(b).skip(y.len() as int));
        law_utf16_is_faithful(a.drop_first(), b.drop_first());
        assert(a =~= seq![a[0]] + a.drop_first());
        assert(b =~= seq![b[0]] + b.drop_first());
    } else {
        assert(a.len() > 0 ==> utf16(a).len() >= utf16_units(a[0]).len());
        assert(b.len() > 0 ==> utf16(b).len() >= utf16_units(b[0]).len());
        assert(a =~= b);
    }
}

/// Calls `String::from_utf16`. Claims that it gives the text with these units, and fails only
/// where there is none.
#[verifier::external_body]
fn text_from_utf16(units: &[u16]) -> (decoded: Option<String>)
    ensures
        decoded is Some ==> utf16(decoded->0@) == units@,
        decoded is None ==> forall|text: Seq<char>| #[trigger] utf16(text) != units@,
{
    String::from_utf16(units).ok()
}

/// The text with these UTF-16 units.
pub fn wide_to_string(units: &[u16]) -> (text: Option<String>)
    ensures
        match text {
            Some(text) => decoded_utf16(units@) == Some(text@),
            None => decoded_utf16(units@) is None,
        },
{
    let text = text_from_utf16(units);
    proof {
        if text is Some {
            let other = choose|other: Seq<char>| utf16(other) == units@;
            law_utf16_is_faithful(text->0@, other);
        }
    }
    text
}

/// What `str::to_lowercase` makes of a text: its lower-case equivalent by the rules of Unicode.
pub uninterp spec fn lower_case(text: Seq<char>) -> Seq<char>;

/// A character with an ASCII letter in lower case.
pub open spec fn ascii_lower(c: char) -> char {
    if 'A' <= c && c <= 'Z' {
        (c as int + 32) as char
    } else {
        c
    }
}

/// Calls `str::to_lowercase`. Claims that the outcome depends on the text alone, and that text in
/// ASCII has its letters in lower case and is otherwise kept; what other letters become is left
/// to Unicode.
#[verifier::external_body]
fn to_lower_case(text: &str) -> (lower: String)
    ensures
        lower@ == lower_case(text@),
        (forall|i: int| 0 <= i < text@.len() ==> (#[trigger] text@[i] as int) < 128) ==> lower@
            == text@.map_values(|c: char| ascii_lower(c)),
{
    text.to_lowercase()
}

/// Whether two names are the same but for the case of their letters; what is no UTF-16 is not the
/// same as anything.
pub open spec fn same_name(a: Seq<u16>, b: Seq<u16>) -> bool {
    match (decoded_utf16(a), decoded_utf16(b)) {
        (Some(a), Some(b)) => lower_case(a) == lower_case(b),
        _ => false,
    }
}

/// Whether a name is in ASCII.
pub open spec fn ascii_units(units: Seq<u16>) -> bool {
    forall|i: int| 0 <= i < units.len() ==> #[trigger] units[i] < 128
}

/// The units of a name in ASCII, with its letters in lower case.
pub open spec fn lower_units(units: Seq<u16>) -> Seq<u16> {
    units.map_values(
        |unit: u16|
            if 65 <= unit <= 90 {
                (unit + 32) as u16
            } else {
                unit
            },
    )
}

/// Whether two names are the same but for the case of their letters.
pub fn compare_pcwstr_case_insensitive(a: &[u16], b: &[u16]) -> (same: bool)
    ensures
        same == same_name(a@, b@),
        ascii_units(a@) && ascii_units(b@) ==> same == (lower_units(a@) == lower_units(b@)),
{
    match (wide_to_string(a), wide_to_string(b)) {
        (Some(a_text), Some(b_text)) => {
            let a_lower = to_lower_case(a_text.as_str());
            let b_lower = to_lower_case(b_text.as_str());
            proof {
                if ascii_units(a@) && ascii_units(b@) {
                    lemma_ascii_text(a@, a_text@);
                    lemma_ascii_text(b@, b_text@);
                    lemma_lower_alike(a@, a_text@, b@, b_text@);
                }
            }
            a_lower == b_lower
        },
        _ => {
            proof {
                if ascii_units(a@) && ascii_units(b@) {
                    lemma_ascii_decodes(a@);
                    lemma_ascii_decodes(b@);
                }
            }
            false
        },
    }
}

/// The text of a name in ASCII has the units as its characters.
proof fn lemma_ascii_text(units: Seq<u16>, text: Seq<char>)
    requires
        utf16(text) == units,
        ascii_units(units),
    ensures
        text.len() == units.len(),
        forall|i: int| 0 <= i < text.len() ==> #[trigger] text[i] as int == units[i],
    decreases text.len(),
{
    if text.len() > 0 {
        let first = utf16_units(text[0]);
        lemma_units_of_ascii(text[0]);
        assert(units[0] == first[0]);
        assert(units.drop_first() =~= utf16(text.drop_first()));
        assert forall|i: int| 0 <= i < units.drop_first().len() implies #[trigger] units.drop_first()[i]
            < 128 by {
            assert(units[i + 1] < 128);
        }
        lemma_ascii_text(units.drop_first(), text.drop_first());
        assert forall|i: int| 0 <= i < text.len() implies #[trigger] text[i] as int == units[i] by {
            if i > 0 {
                assert(text.drop_first()[i - 1] as int == units.drop_first()[i - 1]);
            }
        }
    }
}

/// Names in ASCII are the same in lower case exactly if their texts are.
proof fn lemma_lower_alike(a: Seq<u16>, a_text: Seq<char>, b: Seq<u16>, b_text: Seq<char>)
    requires
        ascii_units(a),
        ascii_units(b),
        a_text.len() == a.len(),
        b_text.len() == b.len(),
        forall|i: int| 0 <= i < a.len() ==> #[trigger] a_text[i] as int == a[i],
        forall|i: int| 0 <= i < b.len() ==> #[trigger] b_text[i] as int == b[i],
    ensures
        (a_text.map_values(|c: char| ascii_lower(c)) == b_text.map_values(
            |c: char| ascii_lower(c),
        )) == (lower_units(a) == lower_units(b)),
{
    let a_lower = a_text.map_values(|c: char| ascii_lower(c));
    let b_lower = b_text.map_values(|c: char| ascii_lower(c));
    assert forall|i: int| 0 <= i < a.len() implies #[trigger] a_lower[i] as int == lower_units(
        a,
    )[i] by {
        assert(a_text[i] as int == a[i] && a[i] < 128);
    }
    assert forall|i: int| 0 <= i < b.len() implies #[trigger] b_lower[i] as int == lower_units(
        b,
    )[i] by {
        assert(b_text[i] as int == b[i] && b[i] < 128);
    }
    if a_lower == b_lower {
        assert(a_lower.len() == a.len() && b_lower.len() == b.len());
        assert forall|i: int| 0 <= i < a.len() implies lower_units(a)[i] == lower_units(b)[i] by {
            assert(a_lower[i] as int == lower_units(a)[i]);
            assert(b_lower[i] as int == lower_units(b)[i]);
        }
        assert(lower_units(a) =~= lower_units(b));
    }
    if lower_units(a) == lower_units(b) {
        assert(lower_units(a).len() == a.len() && lower_units(b).len() == b.len());
        assert forall|i: int| 0 <= i < a.len() implies a_lower[i] == b_lower[i] by {
            assert(a_lower[i] as int == lower_units(a)[i]);
            assert(b_lower[i] as int == lower_units(b)[i]);
        }
        assert(a_lower =~= b_lower);
    }
}

/// A character whose first unit is in ASCII is that unit.
proof fn lemma_units_of_ascii(c: char)
    ensures
        utf16_units(c)[0] < 128 ==> utf16_units(c).len() == 1 && c as int == utf16_units(c)[0],
{
    let n = c as int;
    assert(n <= 0x10_ffff);
    if n >= 0x1_0000 {
        assert(0 <= (n - 0x1_0000) / 0x400 < 0x400);
        assert(utf16_units(c)[0] == 0xd800 + (n - 0x1_0000) / 0x400);
    }
}

/// A name in ASCII has a text.
proof fn lemma_ascii_decodes(units: Seq<u16>)
    requires
        ascii_units(units),
    ensures
        decoded_utf16(units) is Some,
    decreases units.len(),
{
    if units.len() == 0 {
        assert(utf16(Seq::<char>::empty()) =~= units);
    } else {
        assert forall|i: int| 0 <= i < units.drop_first().len() implies #[trigger] units.drop_first()[i]
            < 128 by {
            assert(units[i + 1] < 128);
        }
        lemma_ascii_decodes(units.drop_first());
        let rest = choose|text: Seq<char>| utf16(text) == units.drop_first();
        assert(units[0] < 128);
        let c = units[0] as char;
        let text = seq![c] + rest;
        assert(text.drop_first() =~= rest);
        assert(text[0] == c);
        assert(utf16_units(c) =~= seq![units[0]]);
        assert(utf16(text) =~= units);
    }
}

/// Names that are UTF-16 are the same as themselves, and being the same goes both ways and on
/// from one name to the next.
pub proof fn law_same_name_is_an_equivalence(a: Seq<u16>, b: Seq<u16>, c: Seq<u16>)
    ensures
        same_name(a, a) == (decoded_utf16(a) is Some),
        same_name(a, b) == same_name(b, a),
        same_name(a, b) && same_name(b, c) ==> same_name(a, c),
{
}

/// A character below 0x10000 is its own unit. One above is a pair of surrogates, a high one and a
/// low one, with ten bits each of what the character is above 0x10000.
pub proof fn law_surrogates(c: char)
    ensures
        (c as int) < 0x1_0000 ==> utf16_units(c).len() == 1 && utf16_units(c)[0] as int == c as int,
        (c as int) >= 0x1_0000 ==> ({
            let units = utf16_units(c);
            &&& units.len() == 2
            &&& 0xd800 <= units[0] < 0xdc00
            &&& 0xdc00 <= units[1] < 0xe000
            &&& 0x1_0000 + (units[0] - 0xd800) * 0x400 + (units[1] - 0xdc00) == c as int
        }),
{
    let n = c as int;
    assert(n <= 0x10_ffff);
    if n >= 0x1_0000 {
        assert(0 <= (n - 0x1_0000) / 0x400 < 0x400);
    }
}

/// The units of a text are those of its parts, one behind the other, and are read back as it.
pub proof fn law_units_of_texts(first: Seq<char>, second: Seq<char>, c: char)
    ensures
        utf16(first + second) == utf16(first) + utf16(second),
        utf16(seq![c]) == utf16_units(c),
        utf16(Seq::empty()).len() == 0,
        decoded_utf16(utf16(first)) == Some(first),
    decreases first.len(),
{
    assert(seq![c].drop_first() =~= Seq::empty());
    assert(seq![c][0] == c);
    assert(utf16(Seq::empty()) =~= Seq::empty());
    assert(utf16(seq![c]) == utf16_units(c) + utf16(Seq::empty()));
    assert(utf16(seq![c]) =~= utf16_units(c));
    let read = choose|text: Seq<char>| utf16(text) == utf16(first);
    law_utf16_is_faithful(read, first);
    if first.len() == 0 {
        assert(first + second =~= second);
        assert(utf16(first) + utf16(second) =~= utf16(second));
    } else {
        law_units_of_texts(first.drop_first(), second, c);
        assert((first + second).drop_first() =~= first.drop_first() + second);
        assert(utf16(first + second) =~= utf16(first) + utf16(second));
    }
}

} // verus!
