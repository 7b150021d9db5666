//! Text: equality, numerals, white space and number parsing, all over the characters of a string.
use vstd::prelude::*;
use vstd::string::*;

verus! {

/// Whether two strings hold the same characters.
pub fn same_text(a: &str, b: &str) -> (same: bool)
    ensures
        same == (a@ == b@),
{
    String::from_str(a) == String::from_str(b)
}

/// The characters of a string, in order.
pub fn chars_of(text: &str) -> (chars: Vec<char>)
    ensures
        chars@ == text@,
{
    let mut chars: Vec<char> = Vec::new();
    for c in it: text.chars()
        invariant
            it.seq() == text@,
            chars@ == text@.take(it.index() as int),
    {
        chars.push(c);
        assert(text@.take(it.index() as int + 1) =~= text@.take(it.index() as int).push(c));
    }
    assert(text@.take(text@.len() as int) =~= text@);
    chars
}

/// A string of its own with the same characters.
pub fn owned(text: &str) -> (copy: String)
    ensures
        copy@ == text@,
{
    String::from_str(text)
}

/// `head` followed by `tail`.
pub fn joined(head: &str, tail: &str) -> (text: String)
    ensures
        text@ == head@ + tail@,
{
    String::from_str(head).concat(tail)
}

/// The digit that stands for `d` in upper-case numerals: `0` to `9`, then `A` to `Z`.
pub open spec fn digit_char(d: int) -> char {
    if d < 10 {
        ('0' as int + d) as char
    } else {
        ('A' as int + d - 10) as char
    }
}

/// The shortest upper-case numeral of `n` in `radix`; zero is one digit.
pub open spec fn numeral(n: nat, radix: nat) -> Seq<char>
    decreases n,
{
    if radix < 2 || n < radix {
        seq![digit_char(n as int)]
    } else {
        proof {
            assert(n / radix < n) by (nonlinear_arith)
                requires
                    radix >= 2,
                    n >= radix,
            ;
        }
        numeral(n / radix, radix).push(digit_char((n % radix) as int))
    }
}

/// The decimal text of an integer: a minus sign where it is negative, then its numeral.
pub open spec fn integer_text(n: int) -> Seq<char> {
    if n < 0 {
        seq!['-'] + numeral((-n) as nat, 10)
    } else {
        numeral(n as nat, 10)
    }
}

/// One hexadecimal digit as a string.
fn digit_text(d: u64) -> (text: &'static str)
    requires
        d < 16,
    ensures
        text@ == seq![digit_char(d as int)],
{
    proof {
        reveal_strlit("0");
        reveal_strlit("1");
        reveal_strlit("2");
        reveal_strlit("3");
        reveal_strlit("4");
        reveal_strlit("5");
        reveal_strlit("6");
        reveal_strlit("7");
        reveal_strlit("8");
        reveal_strlit("9");
        reveal_strlit("A");
        reveal_strlit("B");
        reveal_strlit("C");
        reveal_strlit("D");
        reveal_strlit("E");
        reveal_strlit("F");
    }
    match d {
        0 => "0",
        1 => "1",
        2 => "2",
        3 => "3",
        4 => "4",
        5 => "5",
        6 => "6",
        7 => "7",
        8 => "8",
        9 => "9",
        10 => "A",
        11 => "B",
        12 => "C",
        13 => "D",
        14 => "E",
        _ => "F",
    }
}

/// The numeral of `n` in a radix from 2 to 16.
pub fn numeral_text(n: u64, radix: u64) -> (text: String)
    requires
        2 <= radix <= 16,
    ensures
        text@ == numeral(n as nat, radix as nat),
    decreases n,
{
    if n < radix {
        String::from_str(digit_text(n))
    } else {
        proof {
            assert(n / radix < n) by (nonlinear_arith)
                requires
                    2 <= radix,
                    n >= radix,
            ;
            assert(n % radix < radix) by (nonlinear_arith)
                requires
                    2 <= radix,
            ;
        }
        let mut text = numeral_text(n / radix, radix);
        text.append(digit_text(n % radix));
        assert(text@ =~= numeral(n as nat, radix as nat));
        text
    }
}

/// The decimal text of a signed integer.
pub fn decimal(n: i64) -> (text: String)
    ensures
        text@ == integer_text(n as int),
{
    if n < 0 {
        proof {
            reveal_strlit("-");
        }
        let magnitude: i128 = -(n as i128);
        let text = joined("-", numeral_text(magnitude as u64, 10).as_str());
        assert(text@ =~= integer_text(n as int));
        text
    } else {
        numeral_text(n as u64, 10)
    }
}

/// `0x` and the upper-case hexadecimal numeral of an address.
pub fn hex_text(address: u32) -> (text: String)
    ensures
        text@ == seq!['0', 'x'] + numeral(address as nat, 16),
{
    proof {
        reveal_strlit("0x");
    }
    let text = joined("0x", numeral_text(address as u64, 16).as_str());
    assert("0x"@ =~= seq!['0', 'x']);
    text
}

/// What `char::is_whitespace` answers for a character: whether it has the Unicode property
/// White_Space.
pub uninterp spec fn unicode_white_space(c: char) -> bool;

/// Calls `char::is_whitespace`, and claims only that its answer depends on the character alone;
/// which characters beyond ASCII have the property is left to Unicode.
#[verifier::external_body]
fn has_white_space_property(c: char) -> (white: bool)
    ensures
        white == unicode_white_space(c),
{
    c.is_whitespace()
}

/// White space: the six ASCII characters, and whatever else Unicode counts as such.
pub open spec fn white_space(c: char) -> bool {
    if (c as u32) < 0x80 {
        c == ' ' || 9 <= c as u32 <= 13
    } else {
        unicode_white_space(c)
    }
}

/// Whether a character is white space.
pub fn is_white_space(c: char) -> (white: bool)
    ensures
        white == white_space(c),
{
    let code: u32 = c as u32;
    if code < 0x80 {
        c == ' ' || (9 <= code && code <= 13)
    } else {
        has_white_space_property(c)
    }
}

/// A text without the white space at its start.
pub open spec fn trimmed_start(text: Seq<char>) -> Seq<char>
    decreases text.len(),
{
    if text.len() > 0 && white_space(text[0]) {
        trimmed_start(text.drop_first())
    } else {
        text
    }
}

/// A text without the white space at its end.
pub open spec fn trimmed_end(text: Seq<char>) -> Seq<char>
    decreases text.len(),
{
    if text.len() > 0 && white_space(text.last()) {
        trimmed_end(text.drop_last())
    } else {
        text
    }
}

/// A text without the white space around it.
pub open spec fn trimmed(text: Seq<char>) -> Seq<char> {
    trimmed_end(trimmed_start(text))
}

/// The characters of a text without the white space around it.
pub fn trim(text: &str) -> (chars: Vec<char>)
    ensures
        chars@ == trimmed(text@),
{
    let all = chars_of(text);
    let mut start: usize = 0;
    assert(all@.skip(0) =~= all@);
    while start < all.len() && is_white_space(all[start])
        invariant
            start <= all@.len(),
            trimmed_start(all@.skip(start as int)) == trimmed_start(all@),
        decreases all@.len() - start,
    {
        assert(all@.skip(start as int).drop_first() =~= all@.skip(start + 1));
        start += 1;
    }
    assert(trimmed_start(all@) == all@.skip(start as int));
    let mut end: usize = all.len();
    assert(all@.subrange(start as int, end as int) =~= all@.skip(start as int));
    while start < end && is_white_space(all[end - 1])
        invariant
            start <= end <= all@.len(),
            trimmed_end(all@.subrange(start as int, end as int)) == trimmed_end(
                all@.skip(start as int),
            ),
        decreases end - start,
    {
        assert(all@.subrange(start as int, end as int).drop_last() =~= all@.subrange(
            start as int,
            end - 1,
        ));
        end -= 1;
    }
    let mut chars: Vec<char> = Vec::new();
    let mut i: usize = start;
    while i < end
        invariant
            start <= i <= end <= all@.len(),
            chars@ == all@.subrange(start as int, i as int),
        decreases end - i,
    {
        chars.push(all[i]);
        assert(all@.subrange(start as int, i + 1) =~= all@.subrange(start as int, i as int).push(
            all@[i as int],
        ));
        i += 1;
    }
    chars
}

/// The value of a digit in numerals up to base 36, of either case; `None` for other characters.
pub open spec fn digit_value(c: char) -> Option<nat> {
    let code = c as int;
    if 48 <= code <= 57 {
        Some((code - 48) as nat)
    } else if 65 <= code <= 90 {
        Some((code - 55) as nat)
    } else if 97 <= code <= 122 {
        Some((code - 87) as nat)
    } else {
        None
    }
}

/// Whether a character is a digit in the radix.
pub open spec fn is_digit(c: char, radix: nat) -> bool {
    digit_value(c) matches Some(d) && d < radix
}

/// Whether a text holds only digits of the radix.
pub open spec fn all_digits(text: Seq<char>, radix: nat) -> bool {
    forall|i: int| 0 <= i < text.len() ==> is_digit(#[trigger] text[i], radix)
}

/// The number that a text of digits writes.
pub open spec fn digits_value(text: Seq<char>, radix: nat) -> nat
    decreases text.len(),
{
    if text.len() == 0 {
        0
    } else {
        digits_value(text.drop_last(), radix) * radix + digit_value(text.last())->0
    }
}

/// The 32-bit number that a text writes: an optional plus sign, then one digit of the radix or
/// more; nothing where the number does not fit.
pub open spec fn parsed_u32(text: Seq<char>, radix: nat) -> Option<u32> {
    let digits = if text.len() > 0 && text[0] == '+' {
        text.drop_first()
    } else {
        text
    };
    if digits.len() > 0 && all_digits(digits, radix) && digits_value(digits, radix) <= u32::MAX {
        Some(digits_value(digits, radix) as u32)
    } else {
        None
    }
}

/// The value of a character as a digit of the radix.
pub fn digit_of(c: char, radix: u32) -> (digit: Option<u32>)
    ensures
        digit is Some <==> is_digit(c, radix as nat),
        digit is Some ==> digit->0 as nat == digit_value(c)->0,
{
    let code: u32 = c as u32;
    let value: u32 = if 48 <= code && code <= 57 {
        code - 48
    } else if 65 <= code && code <= 90 {
        code - 55
    } else if 97 <= code && code <= 122 {
        code - 87
    } else {
        return None;
    };
    if value < radix {
        Some(value)
    } else {
        None
    }
}

/// The numbers that the starts of a text of digits write never exceed the whole.
pub proof fn lemma_digits_value_grows(text: Seq<char>, radix: nat, count: int)
    requires
        0 <= count <= text.len(),
        radix >= 1,
    ensures
        digits_value(text.take(count), radix) <= digits_value(text, radix),
    decreases text.len() - count,
{
    if count == text.len() {
        assert(text.take(count) =~= text);
    } else {
        lemma_digits_value_grows(text, radix, count + 1);
        assert(text.take(count + 1).drop_last() =~= text.take(count));
        let low = digits_value(text.take(count), radix);
        assert(low * radix >= low) by (nonlinear_arith)
            requires
                radix >= 1,
                low >= 0,
        ;
    }
}

/// Reads a 32-bit number from characters.
pub fn parse_u32(chars: &Vec<char>, from: usize, radix: u32) -> (number: Option<u32>)
    requires
        from <= chars@.len(),
        2 <= radix <= 36,
    ensures
        number == parsed_u32(chars@.skip(from as int), radix as nat),
{
    let ghost text = chars@.skip(from as int);
    let start: usize = if from < chars.len() && chars[from] == '+' {
        from + 1
    } else {
        from
    };
    let ghost digits = chars@.skip(start as int);
    assert(digits =~= if text.len() > 0 && text[0] == '+' {
        text.drop_first()
    } else {
        text
    });
    if start == chars.len() {
        return None;
    }
    let mut value: u32 = 0;
    let mut i: usize = start;
    while i < chars.len()
        invariant
            start <= i <= chars@.len(),
            2 <= radix <= 36,
            text == chars@.skip(from as int),
            digits == chars@.skip(start as int),
            digits == (if text.len() > 0 && text[0] == '+' {
                text.drop_first()
            } else {
                text
            }),
            forall|j: int| 0 <= j < i - start ==> is_digit(#[trigger] digits[j], radix as nat),
            value as nat == digits_value(digits.take(i - start), radix as nat),
        decreases chars@.len() - i,
    {
        let ghost done = i - start;
        assert(chars@[i as int] == digits[done]);
        assert(digits.take(done + 1).drop_last() =~= digits.take(done));
        assert(digits.take(done + 1).last() == digits[done]);
        match digit_of(chars[i], radix) {
            None => {
                assert(!is_digit(digits[done], radix as nat));
                return None;
            },
            Some(digit) => {
                assert(0 <= value * radix <= 0xFFFF_FFFF * 36) by (nonlinear_arith)
                    requires
                        0 <= value <= 0xFFFF_FFFF,
                        0 <= radix <= 36,
                ;
                let next: u64 = (value as u64) * (radix as u64) + digit as u64;
                assert(next as nat == digits_value(digits.take(done + 1), radix as nat));
                if next > 0xFFFF_FFFF {
                    proof {
                        lemma_digits_value_grows(digits, radix as nat, done + 1);
                    }
                    return None;
                }
                value = next as u32;
            },
        }
        i += 1;
    }
    assert(digits.take(digits.len() as int) =~= digits);
    Some(value)
}

/// A numeral is made of digits of its radix, and they write the number.
pub proof fn law_numerals_read_back(n: nat, radix: nat)
    requires
        2 <= radix <= 36,
    ensures
        numeral(n, radix).len() > 0,
        all_digits(numeral(n, radix), radix),
        digits_value(numeral(n, radix), radix) == n,
    decreases n,
{
    let text = numeral(n, radix);
    if n < radix {
        assert(text.drop_last() =~= Seq::empty());
        assert(digits_value(text.drop_last(), radix) == 0);
        assert(digit_value(text.last()) == Some(n));
        assert(0 * radix == 0) by (nonlinear_arith);
    } else {
        assert(n / radix < n) by (nonlinear_arith)
            requires
                radix >= 2,
                n >= radix,
        ;
        let d = n % radix;
        let shorter = numeral(n / radix, radix);
        law_numerals_read_back(n / radix, radix);
        assert(0 <= d < radix) by (nonlinear_arith)
            requires
                radix >= 2,
                d == n % radix,
        ;
        assert(text == shorter.push(digit_char(d as int)));
        assert(text.drop_last() =~= shorter);
        assert(digit_value(text.last()) == Some(d));
        assert forall|i: int| 0 <= i < text.len() implies is_digit(#[trigger] text[i], radix) by {
            if i < shorter.len() {
                assert(is_digit(shorter[i], radix));
            }
        }
        assert((n / radix) * radix + n % radix == n) by (nonlinear_arith)
            requires
                radix >= 2,
        ;
        assert(digits_value(text, radix) == digits_value(shorter, radix) * radix + d);
    }
}

/// White space at the start or at the end of a text goes when the text is trimmed, and nothing
/// goes from a text that neither starts nor ends with any.
pub proof fn law_trimming(text: Seq<char>, c: char)
    ensures
        white_space(c) ==> trimmed(seq![c] + text) == trimmed(text),
        white_space(c) ==> trimmed(text.push(c)) == trimmed(text),
        text.len() > 0 && !white_space(text[0]) && !white_space(text.last()) ==> trimmed(text)
            == text,
{
    if white_space(c) {
        assert((seq![c] + text).drop_first() =~= text);
        lemma_trimmed_start_of_push(text, c);
        let kept = trimmed_start(text);
        if kept.len() > 0 {
            assert(kept.push(c).drop_last() =~= kept);
        }
    }
}

/// White space at the end of a text is kept when its start is trimmed, unless there is nothing
/// before it.
proof fn lemma_trimmed_start_of_push(text: Seq<char>, c: char)
    requires
        white_space(c),
    ensures
        trimmed_start(text.push(c)) == if trimmed_start(text).len() == 0 {
            Seq::empty()
        } else {
            trimmed_start(text).push(c)
        },
    decreases text.len(),
{
    if text.len() == 0 {
        assert(text.push(c).drop_first() =~= Seq::empty());
        assert(trimmed_start(text.push(c).drop_first()) =~= Seq::empty());
    } else if white_space(text[0]) {
        assert(text.push(c).drop_first() =~= text.drop_first().push(c));
        lemma_trimmed_start_of_push(text.drop_first(), c);
    }
}

/// What `{:?}` writes for a string: the string in double quotes, with what cannot be printed
/// escaped.
pub uninterp spec fn debug_form(text: Seq<char>) -> Seq<char>;

/// Formats a string with its own `Debug` impl, through `format!`, and claims that the outcome
/// depends on the string alone; which characters are escaped is left open.
#[verifier::external_body]
pub(crate) fn debug_text(text: &str) -> (quoted: String)
    ensures
        quoted@ == debug_form(text@),
{
    format!("{:?}", text)
}

/// The value of a digit: the ten decimal digits come first, and a letter of either case is worth
/// its place in the alphabet and nine more. No other character is a digit.
pub proof fn law_digit_values(c: char)
    ensures
        '0' <= c && c <= '9' ==> digit_value(c) == Some((c as int - '0' as int) as nat),
        'A' <= c && c <= 'Z' ==> digit_value(c) == Some((c as int - 'A' as int + 10) as nat),
        'a' <= c && c <= 'z' ==> digit_value(c) == Some((c as int - 'a' as int + 10) as nat),
        digit_value(c) is Some ==> ('0' <= c && c <= '9') || ('A' <= c && c <= 'Z') || ('a' <= c && c
            <= 'z'),
{
}

/// How a number grows with its digits: one more digit makes it the radix times as large, and adds
/// the digit. What holds anything but digits, or nothing at all, is no number, and one plus sign
/// before a number does not count.
pub proof fn law_numbers_digit_by_digit(text: Seq<char>, c: char, radix: nat)
    requires
        2 <= radix <= 36,
        text.len() > 0,
        text[0] != '+',
    ensures
        parsed_u32(text, radix) is Some && is_digit(c, radix) ==> parsed_u32(text.push(c), radix)
            == if parsed_u32(text, radix)->0 * radix + digit_value(c)->0 <= u32::MAX {
            Some((parsed_u32(text, radix)->0 * radix + digit_value(c)->0) as u32)
        } else {
            None
        },
        parsed_u32(text, radix) is None ==> parsed_u32(text.push(c), radix) is None,
        !is_digit(c, radix) ==> parsed_u32(text.push(c), radix) is None,
        parsed_u32(seq!['+'] + text, radix) == parsed_u32(text, radix),
        parsed_u32(Seq::empty(), radix) is None,
        parsed_u32(seq![c], radix) == if is_digit(c, radix) {
            Some(digit_value(c)->0 as u32)
        } else {
            None
        },
{
    let more = text.push(c);
    assert(more.drop_last() =~= text);
    assert(more.last() == c && more[0] == text[0]);
    assert((seq!['+'] + text).drop_first() =~= text);
    let one = seq![c];
    assert(one.drop_last() =~= Seq::empty());
    assert(digits_value(one.drop_last(), radix) == 0);
    assert(0 * radix == 0) by (nonlinear_arith);
    assert(one[0] == c);
    if all_digits(text, radix) && is_digit(c, radix) {
        assert forall|i: int| 0 <= i < more.len() implies is_digit(#[trigger] more[i], radix) by {
            if i < text.len() {
                assert(more[i] == text[i]);
            }
        }
    }
    if all_digits(more, radix) {
        assert forall|i: int| 0 <= i < text.len() implies is_digit(#[trigger] text[i], radix) by {
            assert(more[i] == text[i]);
        }
        assert(is_digit(more[text.len() as int], radix));
        lemma_digits_value_grows(more, radix, text.len() as int);
        assert(more.take(text.len() as int) =~= text);
    }
    assert(seq!['+'].drop_first() =~= Seq::<char>::empty());
    if c == '+' {
        assert(one.drop_first() =~= Seq::<char>::empty());
    } else if is_digit(c, radix) {
        assert(all_digits(one, radix));
        assert(digits_value(one, radix) == digit_value(c)->0);
    } else {
        assert(!is_digit(one[0], radix));
    }
}

/// What trimming leaves is a part of the text, starts and ends with no white space, and only white
/// space went.
pub proof fn law_trimming_leaves_the_middle(text: Seq<char>) -> (cut: (int, int))
    ensures
        0 <= cut.0 <= cut.1 <= text.len(),
        trimmed(text) == text.subrange(cut.0, cut.1),
        forall|i: int| 0 <= i < cut.0 ==> white_space(#[trigger] text[i]),
        forall|i: int| cut.1 <= i < text.len() ==> white_space(#[trigger] text[i]),
        trimmed(text).len() > 0 ==> !white_space(trimmed(text)[0]) && !white_space(
            trimmed(text).last(),
        ),
{
    let start = lemma_trimmed_start(text);
    let kept = trimmed_start(text);
    let end = lemma_trimmed_end(kept);
    assert(trimmed(text) =~= text.subrange(start, start + end));
    assert forall|i: int| start + end <= i < text.len() implies white_space(
        #[trigger] text[i],
    ) by {
        assert(kept[i - start] == text[i]);
    }
    if end > 0 {
        assert(trimmed(text)[0] == kept[0]);
    }
    (start, start + end)
}

/// Trimming the start takes white space only, as much as there is.
proof fn lemma_trimmed_start(text: Seq<char>) -> (cut: int)
    ensures
        0 <= cut <= text.len(),
        trimmed_start(text) == text.skip(cut),
        forall|i: int| 0 <= i < cut ==> white_space(#[trigger] text[i]),
        cut < text.len() ==> !white_space(text[cut]),
    decreases text.len(),
{
    if text.len() > 0 && white_space(text[0]) {
        let rest = text.drop_first();
        let cut = lemma_trimmed_start(rest);
        assert(rest.skip(cut) =~= text.skip(cut + 1));
        assert forall|i: int| 0 <= i < cut + 1 implies white_space(#[trigger] text[i]) by {
            if i > 0 {
                assert(rest[i - 1] == text[i]);
            }
        }
        cut + 1
    } else {
        assert(text.skip(0) =~= text);
        0
    }
}

/// Trimming the end takes white space only, as much as there is.
proof fn lemma_trimmed_end(text: Seq<char>) -> (cut: int)
    ensures
        0 <= cut <= text.len(),
        trimmed_end(text) == text.take(cut),
        forall|i: int| cut <= i < text.len() ==> white_space(#[trigger] text[i]),
        cut > 0 ==> !white_space(text[cut - 1]),
    decreases text.len(),
{
    if text.len() > 0 && white_space(text.last()) {
        let rest = text.drop_last();
        let cut = lemma_trimmed_end(rest);
        assert(rest.take(cut) =~= text.take(cut));
        assert forall|i: int| cut <= i < text.len() implies white_space(#[trigger] text[i]) by {
            if i < rest.len() {
                assert(rest[i] == text[i]);
            }
        }
        cut
    } else {
        assert(text.take(text.len() as int) =~= text);
        text.len() as int
    }
}

/// The white space of ASCII is the space and what moves on: tab, line feed, vertical tab, form
/// feed and carriage return.
pub proof fn law_ascii_white_space(c: char)
    requires
        (c as u32) < 128,
    ensures
        white_space(c) <==> c == ' ' || c == '\t' || c == '\n' || c as u32 == 11 || c as u32 == 12 || c
            == '\r',
{
}

/// The decimal text of a number is its numeral, with a minus sign before it exactly if the number
/// is negative; a number and its negation differ in nothing else.
pub proof fn law_decimal_texts(n: nat)
    requires
        n > 0,
    ensures
        integer_text(n as int) == numeral(n, 10),
        integer_text(-(n as int)) == seq!['-'] + numeral(n, 10),
        integer_text(0) == seq!['0'],
{
}

/// How numerals are written: a number below the radix is one digit, which is a decimal digit up to
/// nine and an upper-case letter above, and any other number is the numeral of its quotient by the
/// radix with the digit of the remainder behind it. So no numeral but that of zero starts with a
/// zero.
pub proof fn law_numerals_digit_by_digit(n: nat, d: nat, radix: nat)
    requires
        2 <= radix <= 36,
        d < radix,
    ensures
        numeral(d, radix).len() == 1,
        d < 10 ==> numeral(d, radix)[0] as int == '0' as int + d,
        d >= 10 ==> numeral(d, radix)[0] as int == 'A' as int + (d - 10),
        n > 0 ==> numeral(n * radix + d, radix) == numeral(n, radix) + numeral(d, radix),
        n > 0 ==> numeral(n, radix)[0] != '0',
    decreases n,
{
    if n > 0 {
        let more = n * radix + d;
        assert(more >= radix) by (nonlinear_arith)
            requires
                more == n * radix + d,
                n > 0,
        ;
        vstd::arithmetic::div_mod::lemma_fundamental_div_mod_converse(
            more as int,
            radix as int,
            n as int,
            d as int,
        );
        assert(numeral(more, radix) =~= numeral(n, radix) + numeral(d, radix));
        if n >= radix {
            assert(0 < n / radix && n / radix < n && n % radix < radix) by (nonlinear_arith)
                requires
                    n >= radix,
                    radix >= 2,
            ;
            law_numerals_digit_by_digit(n / radix, (n % radix) as nat, radix);
            law_numerals_read_back(n / radix, radix);
        }
    }
}

} // verus!
