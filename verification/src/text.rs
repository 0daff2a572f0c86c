//! Small verified operations on text.

use vstd::prelude::*;
use vstd::string::*;
use vstd::utf8::*;

verus! {

/// `String::push` appends one character.
pub assume_specification[ String::push ](s: &mut String, c: char)
    ensures
        final(s)@ == old(s)@.push(c),
;

/// The text behind an optional string.
pub open spec fn text_of(text: Option<String>) -> Option<Seq<char>> {
    match text {
        Some(text) => Some(text@),
        None => None,
    }
}

/// An owned copy of optional text.
pub fn copy_text(text: &Option<String>) -> (copy: Option<String>)
    ensures
        text_of(copy) == text_of(*text),
{
    match text {
        Some(text) => Some(text.clone()),
        None => None,
    }
}

/// Texts are equal exactly when their bytes are.
pub proof fn lemma_bytes_determine_text(a: &str, b: &str)
    ensures
        a.spec_bytes() == b.spec_bytes() <==> a@ == b@,
{
    encode_utf8_decode_utf8(a@);
    encode_utf8_decode_utf8(b@);
}

/// Whether two texts are the same.
pub fn same_text(a: &str, b: &str) -> (same: bool)
    ensures
        same == (a@ == b@),
{
    proof {
        lemma_bytes_determine_text(a, b);
    }
    let (left, right) = (a.as_bytes(), b.as_bytes());
    if left.len() != right.len() {
        return false;
    }
    let mut i: usize = 0;
    while i < left.len()
        invariant
            i <= left@.len(),
            left@.len() == right@.len(),
            left@ == a.spec_bytes(),
            right@ == b.spec_bytes(),
            a.spec_bytes() == b.spec_bytes() <==> a@ == b@,
            left@.take(i as int) == right@.take(i as int),
        decreases left@.len() - i,
    {
        if left[i] != right[i] {
            assert(left@[i as int] != right@[i as int]);
            return false;
        }
        i = i + 1;
        assert(left@.take(i as int) =~= right@.take(i as int)) by {
            assert(left@.take(i as int) =~= left@.take(i - 1).push(left@[i - 1]));
            assert(right@.take(i as int) =~= right@.take(i - 1).push(right@[i - 1]));
        }
    }
    assert(left@.take(i as int) =~= left@);
    assert(right@.take(i as int) =~= right@);
    true
}

/// Position of the first `wanted` byte; the length if there is none.
pub open spec fn first_byte(bytes: Seq<u8>, wanted: u8) -> int
    decreases bytes.len(),
{
    if bytes.len() == 0 || bytes[0] == wanted {
        0
    } else {
        1 + first_byte(bytes.drop_first(), wanted)
    }
}

/// Position of the first `wanted` byte at or after `from`; the length if there
/// is none.
pub fn find_byte(bytes: &[u8], wanted: u8, from: usize) -> (at: usize)
    requires
        from <= bytes@.len(),
    ensures
        from <= at <= bytes@.len(),
        at - from == first_byte(bytes@.skip(from as int), wanted),
        at < bytes@.len() ==> bytes@[at as int] == wanted,
{
    let mut at: usize = from;
    while at < bytes.len() && bytes[at] != wanted
        invariant
            from <= at <= bytes@.len(),
            first_byte(bytes@.skip(from as int), wanted) == at - from + first_byte(
                bytes@.skip(at as int),
                wanted,
            ),
        decreases bytes.len() - at,
    {
        assert(bytes@.skip(at as int).drop_first() =~= bytes@.skip(at + 1));
        at = at + 1;
    }
    at
}

/// The text without the slashes at its end.
pub open spec fn without_trailing_slashes(text: Seq<char>) -> Seq<char>
    decreases text.len(),
{
    if text.len() > 0 && text.last() == '/' {
        without_trailing_slashes(text.drop_last())
    } else {
        text
    }
}

/// Drop the slashes at the end of a text.
pub fn trim_trailing_slashes(text: &str) -> (trimmed: String)
    ensures
        trimmed@ == without_trailing_slashes(text@),
{
    let mut end: usize = text.unicode_len();
    assert(text@.take(end as int) =~= text@);
    while end > 0 && text.get_char(end - 1) == '/'
        invariant
            end <= text@.len(),
            without_trailing_slashes(text@) == without_trailing_slashes(text@.take(end as int)),
        decreases end,
    {
        assert(text@.take(end as int).drop_last() =~= text@.take(end - 1));
        end = end - 1;
    }
    let kept = text.substring_char(0, end);
    assert(kept@ =~= text@.take(end as int));
    kept.to_owned()
}

/// The hexadecimal digit of a number below sixteen.
pub open spec fn hex_digit(digit: nat) -> char {
    if digit < 10 {
        (48 + digit) as char
    } else {
        (87 + digit) as char
    }
}

/// A number in hexadecimal, `width` digits.
pub open spec fn hex(number: nat, width: nat) -> Seq<char>
    decreases width,
{
    if width == 0 {
        Seq::empty()
    } else {
        hex(number / 16, (width - 1) as nat).push(hex_digit(number % 16))
    }
}

/// The hexadecimal digit of a number below sixteen.
fn digit_char(digit: u64) -> (c: char)
    requires
        digit < 16,
    ensures
        c == hex_digit(digit as nat),
{
    let code: u8 = if digit < 10 {
        48 + digit as u8
    } else {
        87 + digit as u8
    };
    code as char
}

/// Append a number in hexadecimal, `width` digits.
pub fn push_hex(out: &mut String, number: u64, width: usize)
    ensures
        final(out)@ == old(out)@ + hex(number as nat, width as nat),
    decreases width,
{
    if width > 0 {
        push_hex(out, number / 16, width - 1);
        let c = digit_char(number % 16);
        out.push(c);
    }
    assert(out@ =~= old(out)@ + hex(number as nat, width as nat));
}

/// A decimal digit.
pub open spec fn decimal_digit(digit: nat) -> char {
    (48 + digit % 10) as char
}

/// A number in decimal, without leading zeros.
pub open spec fn decimal(number: nat) -> Seq<char>
    decreases number,
{
    if number < 10 {
        seq![decimal_digit(number)]
    } else {
        decimal(number / 10).push(decimal_digit(number % 10))
    }
}

/// Append a number in decimal.
pub fn push_decimal(out: &mut String, number: u64)
    ensures
        final(out)@ == old(out)@ + decimal(number as nat),
    decreases number,
{
    let digit: u8 = (number % 10) as u8;
    if number >= 10 {
        push_decimal(out, number / 10);
    }
    out.push((48 + digit) as char);
    assert(out@ =~= old(out)@ + decimal(number as nat));
}

/// The characters of a text.
pub fn chars_of(text: &str) -> (chars: Vec<char>)
    ensures
        chars@ == text@,
{
    let mut chars: Vec<char> = Vec::new();
    let count: usize = text.unicode_len();
    let mut i: usize = 0;
    while i < count
        invariant
            i <= count == text@.len(),
            chars@ == text@.take(i as int),
        decreases count - i,
    {
        chars.push(text.get_char(i));
        i = i + 1;
        assert(chars@ =~= text@.take(i as int));
    }
    assert(text@.take(i as int) =~= text@);
    chars
}

/// Append the characters from `from` up to `to`.
pub fn push_chars(out: &mut String, chars: &Vec<char>, from: usize, to: usize)
    requires
        from <= to <= chars@.len(),
    ensures
        final(out)@ == old(out)@ + chars@.subrange(from as int, to as int),
{
    let ghost before = out@;
    let mut i: usize = from;
    while i < to
        invariant
            from <= i <= to <= chars@.len(),
            out@ == before + chars@.subrange(from as int, i as int),
        decreases to - i,
    {
        out.push(chars[i]);
        i = i + 1;
        assert(out@ =~= before + chars@.subrange(from as int, i as int));
    }
}

/// Position of the first `wanted` character; the length if there is none.
pub open spec fn first_char(text: Seq<char>, wanted: char) -> int
    decreases text.len(),
{
    if text.len() == 0 || text[0] == wanted {
        0
    } else {
        1 + first_char(text.drop_first(), wanted)
    }
}

/// `first_char` finds the first one.
pub proof fn lemma_first_char(text: Seq<char>, wanted: char)
    ensures
        0 <= first_char(text, wanted) <= text.len(),
        first_char(text, wanted) < text.len() ==> text[first_char(text, wanted)] == wanted,
        forall|i: int| 0 <= i < first_char(text, wanted) ==> text[i] != wanted,
    decreases text.len(),
{
    if text.len() > 0 && text[0] != wanted {
        let rest = text.drop_first();
        lemma_first_char(rest, wanted);
        assert forall|i: int| 0 <= i < first_char(text, wanted) implies text[i] != wanted by {
            if i > 0 {
                assert(text[i] == rest[i - 1]);
            }
        }
    }
}

/// Only the first one is found.
pub proof fn lemma_first_char_is(text: Seq<char>, wanted: char, at: int)
    requires
        0 <= at <= text.len(),
        at < text.len() ==> text[at] == wanted,
        forall|i: int| 0 <= i < at ==> text[i] != wanted,
    ensures
        first_char(text, wanted) == at,
{
    lemma_first_char(text, wanted);
}

/// Position of the first `wanted` character at or after `from`; the length if
/// there is none.
pub fn find_char(chars: &Vec<char>, wanted: char, from: usize) -> (at: usize)
    requires
        from <= chars@.len(),
    ensures
        from <= at <= chars@.len(),
        at - from == first_char(chars@.skip(from as int), wanted),
    decreases chars@.len() - from,
{
    let ghost rest = chars@.skip(from as int);
    if from == chars.len() || chars[from] == wanted {
        return from;
    }
    let at = find_char(chars, wanted, from + 1);
    assert(rest.drop_first() =~= chars@.skip(from + 1));
    at
}

/// The value of a run of decimal digits; `None` if another character is among
/// them.
pub open spec fn digits_value(text: Seq<char>) -> Option<nat>
    decreases text.len(),
{
    if text.len() == 0 {
        Some(0)
    } else {
        match digits_value(text.drop_last()) {
            Some(value) if '0' <= text.last() <= '9' => Some(
                (value * 10 + (text.last() as int - '0' as int)) as nat,
            ),
            _ => None,
        }
    }
}

/// The number that a numeral stands for: at least one decimal digit, perhaps
/// behind a plus sign, and no more than a `usize` holds.
pub open spec fn numeral(text: Seq<char>) -> Option<nat> {
    let digits = if text.len() > 0 && text[0] == '+' {
        text.skip(1)
    } else {
        text
    };
    match digits_value(digits) {
        Some(value) if digits.len() > 0 && value <= usize::MAX => Some(value),
        _ => None,
    }
}

/// Once too large, a numeral stays too large; once broken, it stays broken.
proof fn lemma_digits_grow(text: Seq<char>, n: int)
    requires
        0 <= n <= text.len(),
    ensures
        digits_value(text.take(n)) is None ==> digits_value(text) is None,
        digits_value(text.take(n)) is Some && digits_value(text) is Some ==> digits_value(
            text.take(n),
        )->0 <= digits_value(text)->0,
    decreases text.len() - n,
{
    if n < text.len() {
        let rest = text.drop_last();
        lemma_digits_grow(rest, n);
        assert(rest.take(n) =~= text.take(n));
        if digits_value(text) is Some {
            assert('0' as int <= text.last() as int);
        }
    } else {
        assert(text.take(n) =~= text);
    }
}

/// Read the numeral between `from` and `to`.
pub fn parse_numeral(chars: &Vec<char>, from: usize, to: usize) -> (value: Option<usize>)
    requires
        from <= to <= chars@.len(),
    ensures
        match numeral(chars@.subrange(from as int, to as int)) {
            Some(number) => value matches Some(value) && value == number,
            None => value is None,
        },
{
    let ghost text = chars@.subrange(from as int, to as int);
    let start: usize = if from < to && chars[from] == '+' {
        from + 1
    } else {
        from
    };
    let ghost digits = chars@.subrange(start as int, to as int);
    assert(digits =~= if text.len() > 0 && text[0] == '+' {
        text.skip(1)
    } else {
        text
    });
    if start == to {
        return None;
    }
    let mut value: usize = 0;
    let mut i: usize = start;
    while i < to
        invariant
            from <= start <= i <= to <= chars@.len(),
            start < to,
            text == chars@.subrange(from as int, to as int),
            digits == chars@.subrange(start as int, to as int),
            digits == (if text.len() > 0 && text[0] == '+' {
                text.skip(1)
            } else {
                text
            }),
            digits_value(digits.take(i - start)) == Some(value as nat),
        decreases to - i,
    {
        let c = chars[i];
        proof {
            assert(digits.take(i - start + 1).drop_last() =~= digits.take(i - start));
            assert(digits.take(i - start + 1).last() == c);
            lemma_digits_grow(digits, i - start + 1);
        }
        if c < '0' || '9' < c {
            return None;
        }
        let digit: usize = (c as u32 - 48) as usize;
        if value > usize::MAX / 10 || value * 10 > usize::MAX - digit {
            return None;
        }
        value = value * 10 + digit;
        i = i + 1;
    }
    assert(digits.take(to - start) =~= digits);
    Some(value)
}

/// A number reads back from its decimal form.
pub proof fn lemma_decimal_reads_back(number: nat)
    ensures
        decimal(number).len() > 0,
        digits_value(decimal(number)) == Some(number),
        '0' <= decimal(number)[0] <= '9',
        forall|i: int|
            0 <= i < decimal(number).len() ==> '0' <= #[trigger] decimal(number)[i] <= '9',
    decreases number,
{
    let text = decimal(number);
    if number >= 10 {
        lemma_decimal_reads_back(number / 10);
        assert(text.drop_last() =~= decimal(number / 10));
    } else {
        assert(text.drop_last() =~= Seq::<char>::empty());
        assert(digits_value(Seq::<char>::empty()) == Some(0nat));
    }
}

/// A number reads back from its decimal form, and that form is the shortest.
pub proof fn law_decimal_reads_back(number: nat)
    requires
        number <= usize::MAX,
    ensures
        numeral(decimal(number)) == Some(number),
        number > 0 ==> decimal(number)[0] != '0',
        number == 0 ==> decimal(number) == seq!['0'],
    decreases number,
{
    lemma_decimal_reads_back(number);
    if number >= 10 {
        law_decimal_reads_back(number / 10);
        assert(decimal(number)[0] == decimal(number / 10)[0]) by {
            lemma_decimal_reads_back(number / 10);
        }
    }
}

/// One plus sign before a numeral changes nothing; no digits, or anything that
/// is no digit, make it no numeral.
pub proof fn law_numerals_are_digits(text: Seq<char>, i: int)
    ensures
        digits_value(text) is Some && text.len() > 0 ==> numeral(seq!['+'] + text) == numeral(text),
        0 <= i < text.len() && !('0' <= text[i] <= '9') && (i > 0 || text[0] != '+') ==> numeral(
            text,
        ) is None,
        numeral(Seq::empty()) is None,
        numeral(seq!['+']) is None,
{
    assert((seq!['+'] + text).skip(1) =~= text);
    assert(seq!['+'].skip(1) =~= Seq::<char>::empty());
    if digits_value(text) is Some && text.len() > 0 {
        lemma_only_digits(text, 0);
    }
    if 0 <= i < text.len() && !('0' <= text[i] <= '9') && (i > 0 || text[0] != '+') {
        if text[0] == '+' {
            assert(text.skip(1)[i - 1] == text[i]);
            lemma_only_digits(text.skip(1), i - 1);
        } else {
            lemma_only_digits(text, i);
        }
    }
}

/// What has a value is made of digits.
proof fn lemma_only_digits(text: Seq<char>, i: int)
    requires
        0 <= i < text.len(),
    ensures
        digits_value(text) is Some ==> '0' <= text[i] <= '9',
    decreases text.len(),
{
    if i < text.len() - 1 {
        lemma_only_digits(text.drop_last(), i);
    }
}

/// Trimming takes off slashes, all of them, and only at the end.
pub proof fn law_trimming_takes_off_the_last_slashes(text: Seq<char>)
    ensures
        ({
            let trimmed = without_trailing_slashes(text);
            &&& trimmed.len() <= text.len()
            &&& trimmed == text.take(trimmed.len() as int)
            &&& forall|i: int| trimmed.len() <= i < text.len() ==> #[trigger] text[i] == '/'
            &&& trimmed.len() > 0 ==> trimmed.last() != '/'
        }),
    decreases text.len(),
{
    let trimmed = without_trailing_slashes(text);
    if text.len() > 0 && text.last() == '/' {
        let front = text.drop_last();
        law_trimming_takes_off_the_last_slashes(front);
        assert(trimmed =~= text.take(trimmed.len() as int));
        assert forall|i: int| trimmed.len() <= i < text.len() implies #[trigger] text[i]
            == '/' by {
            if i < front.len() {
                assert(front[i] == text[i]);
            }
        }
    } else {
        assert(text.take(text.len() as int) =~= text);
    }
}

/// A hexadecimal number has as many digits as asked for; each counts sixteen
/// times what the next one counts, and letters follow nine.
pub proof fn law_hex_digits_have_their_weight(number: nat, width: nat)
    requires
        width > 0,
    ensures
        hex(number, width).len() == width,
        hex(number, width).drop_last() == hex(number / 16, (width - 1) as nat),
        ({
            let last = hex(number, width).last();
            &&& number % 16 < 10 ==> last as int == '0' as int + number % 16
            &&& number % 16 >= 10 ==> last as int == 'a' as int + (number % 16 - 10)
        }),
    decreases width,
{
    if width > 1 {
        law_hex_digits_have_their_weight(number / 16, (width - 1) as nat);
    } else {
        assert(hex(number / 16, 0) =~= Seq::<char>::empty());
    }
    assert(hex(number, width).drop_last() =~= hex(number / 16, (width - 1) as nat));
}

} // verus!
