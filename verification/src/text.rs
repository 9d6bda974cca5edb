//! Numbers as text, text as numbers, and columns of text.

use vstd::prelude::*;

verus! {

/// The decimal digit with the value `d`.
pub open spec fn digit_char(d: nat) -> char
    recommends
        d < 10,
{
    ('0' as nat + d) as char
}

/// The lower-case hexadecimal digit with the value `d`.
pub open spec fn hex_char(d: nat) -> char
    recommends
        d < 16,
{
    if d < 10 {
        ('0' as nat + d) as char
    } else {
        ('a' as nat + d - 10) as char
    }
}

/// A number in decimal notation, without leading zeros.
pub open spec fn decimal(n: nat) -> Seq<char>
    decreases n,
{
    if n < 10 {
        seq![digit_char(n)]
    } else {
        decimal(n / 10).push(digit_char(n % 10))
    }
}

/// An integer in decimal notation, with a minus sign where it is negative.
pub open spec fn signed_decimal(n: int) -> Seq<char> {
    if n < 0 {
        seq!['-'] + decimal((-n) as nat)
    } else {
        decimal(n as nat)
    }
}

/// The last `width` hexadecimal digits of a number.
pub open spec fn hex(n: nat, width: nat) -> Seq<char>
    decreases width,
{
    if width == 0 {
        Seq::empty()
    } else {
        hex(n / 16, (width - 1) as nat).push(hex_char(n % 16))
    }
}

/// `n` times the same character.
pub open spec fn repeated(c: char, n: nat) -> Seq<char> {
    Seq::new(n, |i: int| c)
}

/// The number of characters that a text lacks to fill `width` columns.
pub open spec fn lacking(text: Seq<char>, width: nat) -> nat {
    if text.len() < width {
        (width - text.len()) as nat
    } else {
        0
    }
}

/// A text at the left of a column of `width` characters. A longer text is kept whole.
pub open spec fn left_aligned(text: Seq<char>, width: nat) -> Seq<char> {
    text + repeated(' ', lacking(text, width))
}

/// A text at the right of a column of `width` characters. A longer text is kept whole.
pub open spec fn right_aligned(text: Seq<char>, width: nat) -> Seq<char> {
    repeated(' ', lacking(text, width)) + text
}

/// Whether a character has the Unicode property White_Space.
pub open spec fn is_white_space(c: char) -> bool {
    ||| '\u{9}' <= c <= '\u{d}'
    ||| c == '\u{20}'
    ||| c == '\u{85}'
    ||| c == '\u{a0}'
    ||| c == '\u{1680}'
    ||| '\u{2000}' <= c <= '\u{200a}'
    ||| c == '\u{2028}'
    ||| c == '\u{2029}'
    ||| c == '\u{202f}'
    ||| c == '\u{205f}'
    ||| c == '\u{3000}'
}

/// A text without the white space at its start.
pub open spec fn trimmed_start(text: Seq<char>) -> Seq<char>
    decreases text.len(),
{
    if text.len() > 0 && is_white_space(text.first()) {
        trimmed_start(text.drop_first())
    } else {
        text
    }
}

/// A text without the white space at its end.
pub open spec fn trimmed_end(text: Seq<char>) -> Seq<char>
    decreases text.len(),
{
    if text.len() > 0 && is_white_space(text.last()) {
        trimmed_end(text.drop_last())
    } else {
        text
    }
}

/// A text without the white space around it.
pub open spec fn trimmed(text: Seq<char>) -> Seq<char> {
    trimmed_end(trimmed_start(text))
}

/// Whether a text consists of decimal digits, at least one.
pub open spec fn is_digits(text: Seq<char>) -> bool {
    &&& text.len() > 0
    &&& forall|i: int| 0 <= i < text.len() ==> '0' <= #[trigger] text[i] <= '9'
}

/// The number that a text of decimal digits denotes.
pub open spec fn digits_value(text: Seq<char>) -> nat
    decreases text.len(),
{
    if text.len() == 0 {
        0
    } else {
        10 * digits_value(text.drop_last()) + (text.last() as nat - '0' as nat) as nat
    }
}

/// The digits of an unsigned number: what follows an optional plus sign.
pub open spec fn unsigned_digits(text: Seq<char>) -> Seq<char> {
    if text.len() > 0 && text[0] == '+' {
        text.skip(1)
    } else {
        text
    }
}

/// What a text denotes as a `u32`: an optional plus sign and decimal digits, within the range.
pub open spec fn u32_value(text: Seq<char>) -> Option<u32> {
    let digits = unsigned_digits(text);
    if is_digits(digits) && digits_value(digits) <= u32::MAX {
        Some(digits_value(digits) as u32)
    } else {
        None
    }
}

/// Whether one text is at the start of the other.
pub open spec fn starts_with(text: Seq<char>, prefix: Seq<char>) -> bool {
    prefix.len() <= text.len() && text.take(prefix.len() as int) == prefix
}

/// A text, where there is one, by its characters.
pub open spec fn option_text(text: Option<String>) -> Option<Seq<char>> {
    match text {
        Some(content) => Some(content@),
        None => None,
    }
}

/// A result of text, by the characters of the text.
pub open spec fn result_text(result: Result<String, String>) -> Result<Seq<char>, Seq<char>> {
    match result {
        Ok(content) => Ok(content@),
        Err(content) => Err(content@),
    }
}

/// The characters of a text.
pub fn characters(text: &str) -> (chars: Vec<char>)
    ensures
        chars@ == text@,
{
    let mut chars: Vec<char> = Vec::new();
    for c in it: text.chars()
        invariant
            chars@ == text@.take(it.index()),
            it.seq() == text@,
    {
        chars.push(c);
        assert(text@.take(it.index() + 1) == text@.take(it.index()).push(c));
    }
    assert(text@.take(text@.len() as int) == text@);
    chars
}

/// Whether two texts are the same.
pub fn same_text(left: &str, right: &str) -> (same: bool)
    ensures
        same == (left@ == right@),
{
    let left_chars: Vec<char> = characters(left);
    let right_chars: Vec<char> = characters(right);
    if left_chars.len() != right_chars.len() {
        return false;
    }
    for i in 0..left_chars.len()
        invariant
            left_chars@ == left@,
            right_chars@ == right@,
            left_chars.len() == right_chars.len(),
            forall|j: int| 0 <= j < i ==> left@[j] == right@[j],
    {
        if left_chars[i] != right_chars[i] {
            assert(left@[i as int] != right@[i as int]);
            return false;
        }
    }
    assert(left@ == right@);
    true
}

/// Whether a text begins with a prefix.
pub fn has_prefix(text: &str, prefix: &str) -> (found: bool)
    ensures
        found == starts_with(text@, prefix@),
{
    let length: usize = prefix.unicode_len();
    if text.unicode_len() < length {
        return false;
    }
    same_text(text.substring_char(0, length), prefix)
}

/// The decimal digit with a given value.
fn digit(d: u64) -> (text: &'static str)
    requires
        d < 10,
    ensures
        text@ == seq![digit_char(d as nat)],
{
    hex_digit(d)
}

/// The lower-case hexadecimal digit with a given value.
fn hex_digit(d: u64) -> (text: &'static str)
    requires
        d < 16,
    ensures
        text@ == seq![hex_char(d as nat)],
{
    proof {
        reveal_strlit("0");
        reveal_strlit("1");
        reveal_strlit("2");
        reveal_strlit("3");
        reveal_strlit("4");
        reveal_strlit("5");
        reveal_strlit("6");
        reveal_strlit("7");
        reveal_strlit("8");
        reveal_strlit("9");
        reveal_strlit("a");
        reveal_strlit("b");
        reveal_strlit("c");
        reveal_strlit("d");
        reveal_strlit("e");
        reveal_strlit("f");
    }
    match d {
        0 => "0",
        1 => "1",
        2 => "2",
        3 => "3",
        4 => "4",
        5 => "5",
        6 => "6",
        7 => "7",
        8 => "8",
        9 => "9",
        10 => "a",
        11 => "b",
        12 => "c",
        13 => "d",
        14 => "e",
        _ => "f",
    }
}

/// A number in decimal notation.
pub fn decimal_text(n: u64) -> (text: String)
    ensures
        text@ == decimal(n as nat),
    decreases n,
{
    if n < 10 {
        let mut text: String = String::new();
        text.append(digit(n));
        assert(text@ == decimal(n as nat));
        text
    } else {
        let mut text: String = decimal_text(n / 10);
        text.append(digit(n % 10));
        assert(text@ == decimal(n as nat));
        text
    }
}

/// A signed number in decimal notation.
pub fn signed_decimal_text(n: i32) -> (text: String)
    ensures
        text@ == signed_decimal(n as int),
{
    let wide: i64 = n as i64;
    if wide < 0 {
        let mut text: String = String::new();
        text.append("-");
        text.append(decimal_text((-wide) as u64).as_str());
        proof {
            reveal_strlit("-");
        }
        assert(text@ == signed_decimal(n as int));
        text
    } else {
        decimal_text(wide as u64)
    }
}

/// The sixteen hexadecimal digits of a 64-bit number.
pub fn hex_text(n: u64) -> (text: String)
    ensures
        text@ == hex(n as nat, 16),
{
    hex_suffix(n, 16)
}

/// The last `width` hexadecimal digits of a number.
fn hex_suffix(n: u64, width: u64) -> (text: String)
    ensures
        text@ == hex(n as nat, width as nat),
    decreases width,
{
    if width == 0 {
        String::new()
    } else {
        let mut text: String = hex_suffix(n / 16, width - 1);
        text.append(hex_digit(n % 16));
        assert(text@ == hex(n as nat, width as nat));
        text
    }
}

/// The same one-character text over and over.
pub(crate) fn repeat_text(piece: &str, n: usize) -> (text: String)
    requires
        piece@.len() == 1,
    ensures
        text@ == repeated(piece@[0], n as nat),
{
    let mut text: String = String::new();
    for i in 0..n
        invariant
            piece@.len() == 1,
            text@ == repeated(piece@[0], i as nat),
    {
        text.append(piece);
        assert(text@ == repeated(piece@[0], (i + 1) as nat));
    }
    text
}

/// Appends a text, filled up with spaces to `width` columns.
pub fn append_left_aligned(out: &mut String, text: &str, width: usize)
    ensures
        final(out)@ == old(out)@ + left_aligned(text@, width as nat),
{
    let length: usize = text.unicode_len();
    let missing: usize = if length < width {
        width - length
    } else {
        0
    };
    proof {
        reveal_strlit(" ");
    }
    out.append(text);
    out.append(repeat_text(" ", missing).as_str());
    assert(out@ == old(out)@ + left_aligned(text@, width as nat));
}

/// Appends a text, with as many spaces before it as fill `width` columns.
pub fn append_right_aligned(out: &mut String, text: &str, width: usize)
    ensures
        final(out)@ == old(out)@ + right_aligned(text@, width as nat),
{
    let length: usize = text.unicode_len();
    let missing: usize = if length < width {
        width - length
    } else {
        0
    };
    proof {
        reveal_strlit(" ");
    }
    out.append(repeat_text(" ", missing).as_str());
    out.append(text);
    assert(out@ == old(out)@ + right_aligned(text@, width as nat));
}

/// Whether a character counts as white space.
fn white_space(c: char) -> (white: bool)
    ensures
        white == is_white_space(c),
{
    ('\u{9}' <= c && c <= '\u{d}') || c == '\u{20}' || c == '\u{85}' || c == '\u{a0}' || c
        == '\u{1680}' || ('\u{2000}' <= c && c <= '\u{200a}') || c == '\u{2028}' || c == '\u{2029}'
        || c == '\u{202f}' || c == '\u{205f}' || c == '\u{3000}'
}

/// A text without the white space around it.
pub fn trim(text: &str) -> (inner: &str)
    ensures
        inner@ == trimmed(text@),
{
    let chars: Vec<char> = characters(text);
    let mut start: usize = 0;
    assert(text@.skip(0) == text@);
    while start < chars.len() && white_space(chars[start])
        invariant
            chars@ == text@,
            start <= chars.len(),
            trimmed_start(text@) == trimmed_start(text@.skip(start as int)),
        decreases chars.len() - start,
    {
        assert(text@.skip(start as int).drop_first() == text@.skip(start + 1));
        start = start + 1;
    }
    assert(trimmed_start(text@) == text@.skip(start as int));
    let ghost rest = text@.skip(start as int);
    let mut end: usize = chars.len();
    assert(text@.subrange(start as int, end as int) == rest);
    while start < end && white_space(chars[end - 1])
        invariant
            chars@ == text@,
            start <= end <= chars.len(),
            trimmed_end(rest) == trimmed_end(text@.subrange(start as int, end as int)),
        decreases end,
    {
        assert(text@.subrange(start as int, end as int).drop_last() == text@.subrange(
            start as int,
            end - 1,
        ));
        end = end - 1;
    }
    text.substring_char(start, end)
}

/// The value of a decimal digit.
fn digit_value(c: char) -> (value: Option<u64>)
    ensures
        value == (if '0' <= c <= '9' {
            Some((c as nat - '0' as nat) as u64)
        } else {
            None
        }),
{
    if '0' <= c && c <= '9' {
        Some((c as u32 - '0' as u32) as u64)
    } else {
        None
    }
}

/// The number that a text denotes, where it denotes one that fits.
pub fn parse_u32(text: &str) -> (value: Option<u32>)
    ensures
        value == u32_value(text@),
{
    let chars: Vec<char> = characters(text);
    let start: usize = if chars.len() > 0 && chars[0] == '+' {
        1
    } else {
        0
    };
    let ghost digits = unsigned_digits(text@);
    assert(digits == text@.skip(start as int));
    if start == chars.len() {
        return None;
    }
    let mut i: usize = start;
    let mut value: u64 = 0;
    while i < chars.len()
        invariant
            chars@ == text@,
            start <= i <= chars.len(),
            start < chars.len(),
            digits == unsigned_digits(text@),
            digits == text@.skip(start as int),
            forall|j: int| 0 <= j < i - start ==> '0' <= #[trigger] digits[j] <= '9',
            value == digits_value(digits.take(i - start)),
            value <= u32::MAX,
        decreases chars.len() - i,
    {
        let ghost k = i - start;
        assert(chars@[i as int] == digits[k]);
        match digit_value(chars[i]) {
            Some(d) => {
                assert(digits.take(k + 1).drop_last() == digits.take(k));
                assert(digits_value(digits.take(k + 1)) == 10 * value + d);
                value = 10 * value + d;
            },
            None => {
                return None;
            },
        }
        if value > u32::MAX as u64 {
            proof {
                lemma_prefix_value(digits, k + 1);
            }
            return None;
        }
        i = i + 1;
    }
    assert(digits.take(digits.len() as int) == digits);
    Some(value as u32)
}

/// A text of digits denotes no less than any of its prefixes.
proof fn lemma_prefix_value(text: Seq<char>, k: int)
    requires
        0 <= k <= text.len(),
    ensures
        digits_value(text.take(k)) <= digits_value(text),
    decreases text.len() - k,
{
    if k == text.len() {
        assert(text.take(k) == text);
    } else {
        lemma_prefix_value(text, k + 1);
        assert(text.take(k + 1).drop_last() == text.take(k));
    }
}

/// Decimal notation consists of digits, and denotes the number that it was made from.
pub proof fn decimal_denotes_its_number(n: nat)
    ensures
        is_digits(decimal(n)),
        digits_value(decimal(n)) == n,
    decreases n,
{
    if n < 10 {
        assert(decimal(n).drop_last() == Seq::<char>::empty());
        assert(digits_value(Seq::<char>::empty()) == 0);
        assert(decimal(n).last() == digit_char(n));
    } else {
        decimal_denotes_its_number(n / 10);
        assert(decimal(n).drop_last() == decimal(n / 10));
        assert(decimal(n).last() == digit_char(n % 10));
        assert forall|i: int| 0 <= i < decimal(n).len() implies '0' <= #[trigger] decimal(
            n,
        )[i] <= '9' by {
            if i < decimal(n / 10).len() {
                assert(decimal(n)[i] == decimal(n / 10)[i]);
            }
        }
    }
}

/// Every `u32` is read back from its decimal notation, white space around it or not.
pub proof fn decimal_is_read_back(n: u32, before: Seq<char>, after: Seq<char>)
    requires
        forall|i: int| 0 <= i < before.len() ==> is_white_space(#[trigger] before[i]),
        forall|i: int| 0 <= i < after.len() ==> is_white_space(#[trigger] after[i]),
    ensures
        u32_value(trimmed(before + decimal(n as nat) + after)) == Some(n),
{
    let digits = decimal(n as nat);
    decimal_denotes_its_number(n as nat);
    lemma_trimmed_start(before, digits + after);
    assert(before + digits + after == before + (digits + after));
    lemma_trimmed_end(digits, after);
}

/// White space at the start goes, and nothing behind it where that starts otherwise.
proof fn lemma_trimmed_start(before: Seq<char>, rest: Seq<char>)
    requires
        forall|i: int| 0 <= i < before.len() ==> is_white_space(#[trigger] before[i]),
        rest.len() > 0,
        !is_white_space(rest[0]),
    ensures
        trimmed_start(before + rest) == rest,
    decreases before.len(),
{
    if before.len() == 0 {
        assert(before + rest == rest);
    } else {
        assert((before + rest)[0] == before[0]);
        assert((before + rest).drop_first() == before.drop_first() + rest);
        lemma_trimmed_start(before.drop_first(), rest);
    }
}

/// White space at the end goes, and nothing before it where that ends otherwise.
proof fn lemma_trimmed_end(rest: Seq<char>, after: Seq<char>)
    requires
        forall|i: int| 0 <= i < after.len() ==> is_white_space(#[trigger] after[i]),
        rest.len() > 0,
        !is_white_space(rest.last()),
    ensures
        trimmed_end(rest + after) == rest,
    decreases after.len(),
{
    if after.len() == 0 {
        assert(rest + after == rest);
    } else {
        assert((rest + after).last() == after.last());
        assert((rest + after).drop_last() == rest + after.drop_last());
        lemma_trimmed_end(rest, after.drop_last());
    }
}

/// Whether a text is how a number is written: decimal digits that denote it, the first of them no
/// zero unless it is the only one.
pub open spec fn denotes(text: Seq<char>, n: nat) -> bool {
    &&& is_digits(text)
    &&& digits_value(text) == n
    &&& text.len() > 1 ==> text[0] != '0'
}

/// Whether a text is how an integer is written: a minus sign before its amount, where it is
/// negative, and else the number itself.
pub open spec fn denotes_signed(text: Seq<char>, n: int) -> bool {
    if n < 0 {
        text.len() > 0 && text[0] == '-' && denotes(text.skip(1), (-n) as nat)
    } else {
        denotes(text, n as nat)
    }
}

/// Whether a text consists of spaces.
pub open spec fn is_blank(text: Seq<char>) -> bool {
    forall|i: int| 0 <= i < text.len() ==> #[trigger] text[i] == ' '
}

/// Whether a column shows a text at its left: the text comes first, nothing but spaces follows,
/// and the column is as wide as it has to be and no wider.
pub open spec fn shows_left(column: Seq<char>, text: Seq<char>, width: nat) -> bool {
    &&& starts_with(column, text)
    &&& is_blank(column.skip(text.len() as int))
    &&& column.len() == if text.len() < width {
        width
    } else {
        text.len()
    }
}

/// Whether a column shows a text at its right: the text comes last, nothing but spaces precedes
/// it, and the column is as wide as it has to be and no wider.
pub open spec fn shows_right(column: Seq<char>, text: Seq<char>, width: nat) -> bool {
    let margin = column.len() - text.len();
    &&& margin >= 0
    &&& column.skip(margin) == text
    &&& is_blank(column.take(margin))
    &&& column.len() == if text.len() < width {
        width
    } else {
        text.len()
    }
}

/// Whether a column shows a number at its left.
pub open spec fn shows_number_left(column: Seq<char>, n: nat, width: nat) -> bool {
    exists|digits: Seq<char>| #[trigger] denotes(digits, n) && shows_left(column, digits, width)
}

/// Whether a column shows a number at its right.
pub open spec fn shows_number_right(column: Seq<char>, n: nat, width: nat) -> bool {
    exists|digits: Seq<char>| #[trigger] denotes(digits, n) && shows_right(column, digits, width)
}

/// The start of a table row that holds the given columns: a bar before, between and behind them.
pub open spec fn barred(columns: Seq<Seq<char>>) -> Seq<char>
    decreases columns.len(),
{
    if columns.len() == 0 {
        seq!['|']
    } else {
        barred(columns.drop_last()) + seq![' '] + columns.last() + seq![' ', '|']
    }
}

/// Whether a text is a table row that holds the given columns.
pub open spec fn is_row_of(row: Seq<char>, columns: Seq<Seq<char>>) -> bool {
    row == barred(columns).push('\n')
}

/// The number that a text of hexadecimal digits denotes.
pub open spec fn hex_value(text: Seq<char>) -> nat
    decreases text.len(),
{
    if text.len() == 0 {
        0
    } else {
        let d = text.last();
        16 * hex_value(text.drop_last()) + (if '0' <= d <= '9' {
            (d as nat - '0' as nat) as nat
        } else {
            (d as nat - 'a' as nat + 10) as nat
        })
    }
}

/// Whether a text consists of lower-case hexadecimal digits.
pub open spec fn is_hex_digits(text: Seq<char>) -> bool {
    forall|i: int|
        0 <= i < text.len() ==> {
            ||| '0' <= #[trigger] text[i] <= '9'
            ||| 'a' <= text[i] <= 'f'
        }
}

/// A digit behind others counts once, and the others ten times what they counted before. No digit
/// counts nothing.
pub proof fn digits_have_place_value(text: Seq<char>, digit: char)
    requires
        '0' <= digit <= '9',
    ensures
        digits_value(text.push(digit)) == 10 * digits_value(text) + (digit as nat - '0' as nat),
        digits_value(Seq::<char>::empty()) == 0,
{
    assert(text.push(digit).drop_last() == text);
}

/// Digits that start with another one than zero denote something.
proof fn lemma_nonzero_start(text: Seq<char>)
    requires
        is_digits(text),
        text[0] != '0',
    ensures
        digits_value(text) >= 1,
    decreases text.len(),
{
    let start = text.drop_last();
    if start.len() > 0 {
        assert(start[0] == text[0]);
        assert forall|i: int| 0 <= i < start.len() implies '0' <= #[trigger] start[i] <= '9' by {
            assert(start[i] == text[i]);
        }
        lemma_nonzero_start(start);
    } else {
        assert(text.last() == text[0]);
        assert(digits_value(start) == 0);
    }
}

/// There is one way to write a number.
pub proof fn numbers_are_written_in_one_way(text: Seq<char>, n: nat)
    ensures
        denotes(text, n) <==> text == decimal(n),
    decreases text.len(),
{
    lemma_decimal_denotes(n);
    if denotes(text, n) {
        let start = text.drop_last();
        let d = text.last();
        assert(text[text.len() - 1] == d);
        assert(d == digit_char((d as nat - '0' as nat) as nat));
        if start.len() == 0 {
            assert(digits_value(start) == 0);
            assert(text == decimal(n));
        } else {
            assert forall|i: int| 0 <= i < start.len() implies '0' <= #[trigger] start[i]
                <= '9' by {
                assert(start[i] == text[i]);
            }
            assert(start[0] == text[0]);
            lemma_nonzero_start(start);
            assert(n / 10 == digits_value(start));
            assert(n % 10 == d as nat - '0' as nat);
            numbers_are_written_in_one_way(start, n / 10);
            assert(text == decimal(n));
        }
    }
}

/// Decimal notation is how a number is written.
pub proof fn lemma_decimal_denotes(n: nat)
    ensures
        denotes(decimal(n), n),
    decreases n,
{
    decimal_denotes_its_number(n);
    if n >= 10 {
        lemma_decimal_denotes(n / 10);
        assert(decimal(n)[0] == decimal(n / 10)[0]);
        if decimal(n / 10).len() == 1 {
            let start = decimal(n / 10);
            assert(start.drop_last() == Seq::<char>::empty());
            assert(digits_value(start.drop_last()) == 0);
            assert(start.last() == start[0]);
        }
    }
}

/// A number is written as decimal digits that denote it, without leading zeros.
pub proof fn numbers_are_read_back(n: u64, text: String)
    requires
        call_ensures(decimal_text, (n,), text),
    ensures
        denotes(text@, n as nat),
{
    lemma_decimal_denotes(n as nat);
}

/// A negative number is written as a minus sign and its amount, and another one as itself.
pub proof fn signed_numbers_are_read_back(n: i32, text: String)
    requires
        call_ensures(signed_decimal_text, (n,), text),
    ensures
        denotes_signed(text@, n as int),
{
    lemma_signed_decimal_denotes(n as int);
}

/// The same of all integers.
pub proof fn lemma_signed_decimal_denotes(n: int)
    ensures
        denotes_signed(signed_decimal(n), n),
{
    if n < 0 {
        lemma_decimal_denotes((-n) as nat);
        assert(signed_decimal(n).skip(1) == decimal((-n) as nat));
    } else {
        lemma_decimal_denotes(n as nat);
    }
}

/// The hexadecimal digits of a number denote what fits into them.
proof fn lemma_hex_value(n: nat, width: nat, range: nat)
    requires
        range == hex_range(width),
    ensures
        hex(n, width).len() == width,
        is_hex_digits(hex(n, width)),
        hex_value(hex(n, width)) == n % range,
    decreases width,
{
    if width == 0 {
        assert(n % 1 == 0);
    } else {
        let rest = (width - 1) as nat;
        let part = hex_range(rest);
        lemma_hex_value(n / 16, rest, part);
        let start = hex(n / 16, rest);
        let d = hex_char(n % 16);
        assert(hex(n, width) == start.push(d));
        assert(hex(n, width).drop_last() == start);
        assert forall|i: int| 0 <= i < width implies {
            ||| '0' <= #[trigger] hex(n, width)[i] <= '9'
            ||| 'a' <= hex(n, width)[i] <= 'f'
        } by {
            if i < rest {
                assert(hex(n, width)[i] == start[i]);
            }
        }
        lemma_hex_range_positive(rest);
        assert(n % (16 * part) == 16 * ((n / 16) % part) + n % 16) by {
            vstd::arithmetic::div_mod::lemma_mod_breakdown(n as int, 16, part as int);
        }
    }
}

/// How many numbers `width` hexadecimal digits can tell apart.
pub open spec fn hex_range(width: nat) -> nat
    decreases width,
{
    if width == 0 {
        1
    } else {
        16 * hex_range((width - 1) as nat)
    }
}

/// Digits can tell something apart.
proof fn lemma_hex_range_positive(width: nat)
    ensures
        hex_range(width) > 0,
    decreases width,
{
    if width > 0 {
        lemma_hex_range_positive((width - 1) as nat);
    }
}

/// A 64-bit number is written as sixteen lower-case hexadecimal digits that denote it.
pub proof fn hexadecimal_is_read_back(n: u64, text: String)
    requires
        call_ensures(hex_text, (n,), text),
    ensures
        text@.len() == 16,
        is_hex_digits(text@),
        hex_value(text@) == n,
{
    lemma_hex_digits_denote(n);
}

/// The same of the digits themselves.
pub proof fn lemma_hex_digits_denote(n: u64)
    ensures
        hex(n as nat, 16).len() == 16,
        is_hex_digits(hex(n as nat, 16)),
        hex_value(hex(n as nat, 16)) == n,
{
    reveal_with_fuel(hex_range, 17);
    assert(hex_range(16) == 0x1_0000_0000_0000_0000);
    lemma_hex_value(n as nat, 16, hex_range(16));
    assert(n as nat % 0x1_0000_0000_0000_0000nat == n as nat);
}

/// A column that is filled up at the right shows its text at the left.
pub proof fn lemma_left_aligned_shows(text: Seq<char>, width: nat)
    ensures
        shows_left(left_aligned(text, width), text, width),
{
    let column = left_aligned(text, width);
    assert(column.take(text.len() as int) == text);
    assert forall|i: int| 0 <= i < column.skip(text.len() as int).len() implies
        #[trigger] column.skip(text.len() as int)[i] == ' ' by {
        assert(column[text.len() + i] == ' ');
    }
}

/// A column that is filled up at the left shows its text at the right.
pub proof fn lemma_right_aligned_shows(text: Seq<char>, width: nat)
    ensures
        shows_right(right_aligned(text, width), text, width),
{
    let column = right_aligned(text, width);
    assert(column.skip(column.len() - text.len()) == text);
}

/// A number that is filled up at the right is shown at the left.
pub proof fn lemma_number_left(n: nat, width: nat)
    ensures
        shows_number_left(left_aligned(decimal(n), width), n, width),
{
    lemma_decimal_denotes(n);
    lemma_left_aligned_shows(decimal(n), width);
}

/// A number that is filled up at the left is shown at the right.
pub proof fn lemma_number_right(n: nat, width: nat)
    ensures
        shows_number_right(right_aligned(decimal(n), width), n, width),
{
    lemma_decimal_denotes(n);
    lemma_right_aligned_shows(decimal(n), width);
}

/// The white space of ASCII is the space and what moves to another place, and beyond ASCII there
/// are nineteen more characters of it.
pub proof fn white_space_is_known(c: char)
    ensures
        (c as nat) < 128 ==> (is_white_space(c) <==> seq![
            ' ',
            '\t',
            '\n',
            '\u{b}',
            '\u{c}',
            '\r',
        ].contains(c)),
        (c as nat) >= 128 ==> (is_white_space(c) <==> seq![
            0x85nat,
            0xa0,
            0x1680,
            0x2000,
            0x2001,
            0x2002,
            0x2003,
            0x2004,
            0x2005,
            0x2006,
            0x2007,
            0x2008,
            0x2009,
            0x200a,
            0x2028,
            0x2029,
            0x202f,
            0x205f,
            0x3000,
        ].contains(c as nat)),
{
    let ascii = seq![' ', '\t', '\n', '\u{b}', '\u{c}', '\r'];
    let other = seq![
        0x85nat,
        0xa0,
        0x1680,
        0x2000,
        0x2001,
        0x2002,
        0x2003,
        0x2004,
        0x2005,
        0x2006,
        0x2007,
        0x2008,
        0x2009,
        0x200a,
        0x2028,
        0x2029,
        0x202f,
        0x205f,
        0x3000,
    ];
    assert(ascii[0] == ' ' && ascii[1] == '\t' && ascii[2] == '\n' && ascii[3] == '\u{b}'
        && ascii[4] == '\u{c}' && ascii[5] == '\r');
    assert(other[0] == 0x85 && other[1] == 0xa0 && other[2] == 0x1680 && other[14] == 0x2028
        && other[15] == 0x2029 && other[16] == 0x202f && other[17] == 0x205f && other[18]
        == 0x3000);
    assert(forall|i: int| 3 <= i < 14 ==> #[trigger] other[i] == 0x2000 + (i - 3));
    let n = c as nat;
    if 0x2000 <= n <= 0x200a {
        assert(other[n - 0x2000 + 3] == n);
    }
}

/// Whether a text consists of white space.
pub open spec fn is_all_white(text: Seq<char>) -> bool {
    forall|i: int| 0 <= i < text.len() ==> is_white_space(#[trigger] text[i])
}

/// Trimming at the start takes away white space only.
proof fn lemma_trimmed_start_parts(text: Seq<char>) -> (before: Seq<char>)
    ensures
        text == before + trimmed_start(text),
        is_all_white(before),
        trimmed_start(text).len() > 0 ==> !is_white_space(trimmed_start(text)[0]),
    decreases text.len(),
{
    if text.len() > 0 && is_white_space(text.first()) {
        let rest = lemma_trimmed_start_parts(text.drop_first());
        let before = seq![text.first()] + rest;
        assert(text == seq![text.first()] + text.drop_first());
        assert(seq![text.first()] + (rest + trimmed_start(text)) == before + trimmed_start(text));
        before
    } else {
        assert(text == Seq::<char>::empty() + text);
        Seq::empty()
    }
}

/// Trimming at the end takes away white space only.
proof fn lemma_trimmed_end_parts(text: Seq<char>) -> (after: Seq<char>)
    ensures
        text == trimmed_end(text) + after,
        is_all_white(after),
        trimmed_end(text).len() > 0 ==> !is_white_space(trimmed_end(text).last()),
        trimmed_end(text).len() > 0 ==> trimmed_end(text)[0] == text[0],
    decreases text.len(),
{
    if text.len() > 0 && is_white_space(text.last()) {
        let rest = lemma_trimmed_end_parts(text.drop_last());
        let after = rest.push(text.last());
        assert(text == text.drop_last().push(text.last()));
        assert((trimmed_end(text) + rest).push(text.last()) == trimmed_end(text) + after);
        after
    } else {
        assert(text == text + Seq::<char>::empty());
        Seq::empty()
    }
}

/// Whether one text is what is left of the other without the white space around it.
pub open spec fn is_core_of(core: Seq<char>, text: Seq<char>) -> bool {
    &&& exists|before: Seq<char>, after: Seq<char>|
        is_all_white(before) && is_all_white(after) && text == #[trigger] (before + core + after)
    &&& core.len() > 0 ==> !is_white_space(core[0]) && !is_white_space(core.last())
}

/// A trimmed text is what is left without the white space around it.
pub proof fn lemma_trimmed_is_core(text: Seq<char>)
    ensures
        is_core_of(trimmed(text), text),
{
    let before = lemma_trimmed_start_parts(text);
    let after = lemma_trimmed_end_parts(trimmed_start(text));
    assert(text == before + trimmed(text) + after);
}

/// Trimming takes away white space at both ends, all of it, and nothing else.
pub proof fn trimming_takes_white_space_only(text: &str, inner: &str)
    requires
        call_ensures(trim, (text,), inner),
    ensures
        is_core_of(inner@, text@),
{
    lemma_trimmed_is_core(text@);
}

/// A text is read as a number exactly where it consists of digits that denote it, with a plus
/// sign before them or without.
pub proof fn only_numbers_are_read(text: &str, value: Option<u32>, n: u32)
    requires
        call_ensures(parse_u32, (text,), value),
    ensures
        value == Some(n) <==> reads_as(text@, n),
{
    lemma_reading(text@, n);
}

/// Whether a text consists of digits that denote a number, with a plus sign before them or
/// without.
pub open spec fn reads_as(text: Seq<char>, n: u32) -> bool {
    exists|digits: Seq<char>|
        (text == digits || text == seq!['+'] + digits) && #[trigger] is_digits(digits)
            && digits_value(digits) == n
}

/// The same of the texts themselves.
pub proof fn lemma_reading(text: Seq<char>, n: u32)
    ensures
        u32_value(text) == Some(n) <==> reads_as(text, n),
{
    let digits = unsigned_digits(text);
    if u32_value(text) == Some(n) {
        assert(is_digits(digits));
        if digits != text {
            assert(text == seq!['+'] + digits);
        }
    }
    if reads_as(text, n) {
        let found = choose|found: Seq<char>|
            (text == found || text == seq!['+'] + found) && #[trigger] is_digits(found)
                && digits_value(found) == n;
        if text == found {
            assert('0' <= found[0] <= '9');
            assert(digits == found);
        } else {
            assert((seq!['+'] + found).skip(1) == found);
            assert(digits == found);
        }
    }
}

/// What is left of a text without the white space around it is the trimmed text.
pub proof fn lemma_core_is_trimmed(core: Seq<char>, text: Seq<char>)
    requires
        is_core_of(core, text),
        core.len() > 0,
    ensures
        trimmed(text) == core,
{
    let (before, after) = choose|before: Seq<char>, after: Seq<char>|
        is_all_white(before) && is_all_white(after) && text == #[trigger] (before + core + after);
    assert(before + core + after == before + (core + after));
    lemma_trimmed_start(before, core + after);
    lemma_trimmed_end(core, after);
}

/// A text begins with a prefix exactly where something can be put behind the prefix that makes it
/// the text.
pub proof fn prefixes_can_be_continued(text: &str, prefix: &str, found: bool)
    requires
        call_ensures(has_prefix, (text, prefix), found),
    ensures
        found <==> exists|rest: Seq<char>| text@ == #[trigger] (prefix@ + rest),
{
    let n = prefix@.len() as int;
    if found {
        assert(text@ == prefix@ + text@.skip(n));
    }
    if exists|rest: Seq<char>| text@ == #[trigger] (prefix@ + rest) {
        let rest = choose|rest: Seq<char>| text@ == #[trigger] (prefix@ + rest);
        assert(text@.take(n) == prefix@);
    }
}

/// What is appended at the left of a column leaves what is before it alone, and shows the text.
pub proof fn left_columns_show_their_text(out: &mut String, text: &str, width: usize)
    requires
        call_ensures(append_left_aligned, (out, text, width), ()),
    ensures
        starts_with(final(out)@, old(out)@),
        shows_left(final(out)@.skip(old(out)@.len() as int), text@, width as nat),
{
    let column = left_aligned(text@, width as nat);
    lemma_left_aligned_shows(text@, width as nat);
    assert(final(out)@.take(old(out)@.len() as int) == old(out)@);
    assert(final(out)@.skip(old(out)@.len() as int) == column);
}

/// What is appended at the right of a column leaves what is before it alone, and shows the text.
pub proof fn right_columns_show_their_text(out: &mut String, text: &str, width: usize)
    requires
        call_ensures(append_right_aligned, (out, text, width), ()),
    ensures
        starts_with(final(out)@, old(out)@),
        shows_right(final(out)@.skip(old(out)@.len() as int), text@, width as nat),
{
    let column = right_aligned(text@, width as nat);
    lemma_right_aligned_shows(text@, width as nat);
    assert(final(out)@.take(old(out)@.len() as int) == old(out)@);
    assert(final(out)@.skip(old(out)@.len() as int) == column);
}

} // verus!
