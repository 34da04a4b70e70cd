//! Strings as character sequences: building, comparing, splitting and formatting them.
use vstd::prelude::*;

verus! {

/// Appends one character, with `String::push`: the string grows by exactly that character.
#[verifier::external_body]
pub(crate) fn push_char(text: &mut String, c: char)
    ensures
        final(text)@ == old(text)@.push(c),
{
    text.push(c)
}

/// Appends `more` to `text`.
pub fn push_text(text: &mut String, more: &str)
    ensures
        final(text)@ == old(text)@ + more@,
{
    let ghost before = text@;
    for c in it: more.chars()
        invariant
            text@ == before + more@.take(it.index()),
            it.seq() == more@,
    {
        push_char(text, c);
        assert(before + more@.take(it.index() + 1) =~= (before + more@.take(it.index())).push(c));
    }
    assert(more@.take(more@.len() as int) =~= more@);
}

/// The characters of `text`, in order.
pub fn chars_of(text: &str) -> (chars: Vec<char>)
    ensures
        chars@ == text@,
{
    let mut chars: Vec<char> = Vec::new();
    for c in it: text.chars()
        invariant
            chars@ == text@.take(it.index()),
            it.seq() == text@,
    {
        chars.push(c);
        assert(text@.take(it.index() + 1) =~= text@.take(it.index()).push(c));
    }
    assert(text@.take(text@.len() as int) =~= text@);
    chars
}

/// The string that `chars` spell.
pub fn string_of(chars: &[char]) -> (text: String)
    ensures
        text@ == chars@,
{
    let mut text = String::new();
    let mut i: usize = 0;
    while i < chars.len()
        invariant
            i <= chars@.len(),
            text@ == chars@.take(i as int),
        decreases chars@.len() - i,
    {
        push_char(&mut text, chars[i]);
        assert(chars@.take(i + 1) =~= chars@.take(i as int).push(chars@[i as int]));
        i = i + 1;
    }
    assert(chars@.take(chars@.len() as int) =~= chars@);
    text
}

/// Whether two texts hold the same characters.
pub fn same_text(left: &str, right: &str) -> (same: bool)
    ensures
        same == (left@ == right@),
{
    let left_chars = chars_of(left);
    let right_chars = chars_of(right);
    same_chars(left_chars.as_slice(), right_chars.as_slice())
}

/// Whether two character slices are equal.
pub fn same_chars(left: &[char], right: &[char]) -> (same: bool)
    ensures
        same == (left@ == right@),
{
    if left.len() != right.len() {
        return false;
    }
    let mut i: usize = 0;
    while i < left.len()
        invariant
            left@.len() == right@.len(),
            i <= left@.len(),
            forall|k: int| 0 <= k < i ==> left@[k] == right@[k],
        decreases left@.len() - i,
    {
        if left[i] != right[i] {
            return false;
        }
        i = i + 1;
    }
    assert(left@ =~= right@);
    true
}

/// The character of one decimal digit.
pub open spec fn digit_char(digit: nat) -> char {
    (48 + digit) as char
}

/// `value` in decimal, without leading zeros.
pub open spec fn decimal(value: nat) -> Seq<char>
    decreases value,
{
    if value < 10 {
        seq![digit_char(value)]
    } else {
        decimal(value / 10).push(digit_char(value % 10))
    }
}

/// Appends `value` in decimal.
pub fn push_decimal(text: &mut String, value: u64)
    ensures
        final(text)@ == old(text)@ + decimal(value as nat),
    decreases value,
{
    let ghost before = text@;
    if value >= 10 {
        push_decimal(text, value / 10);
    }
    push_char(text, (48 + (value % 10) as u8) as char);
    assert(text@ =~= before + decimal(value as nat));
}

/// `value` in decimal, with a minus sign before a negative one.
pub open spec fn signed_decimal(value: int) -> Seq<char> {
    if value < 0 {
        seq!['-'] + decimal((-value) as nat)
    } else {
        decimal(value as nat)
    }
}

/// Appends `value` in decimal, with a minus sign before a negative one.
pub fn push_signed(text: &mut String, value: i64)
    ensures
        final(text)@ == old(text)@ + signed_decimal(value as int),
{
    let ghost before = text@;
    let wide: i128 = value as i128;
    if wide < 0 {
        push_char(text, '-');
        push_decimal(text, (-wide) as u64);
    } else {
        push_decimal(text, wide as u64);
    }
    assert(text@ =~= before + signed_decimal(value as int));
}

/// The character of one hexadecimal digit, with letters starting at `letter`.
pub open spec fn hex_char(digit: nat, letter: nat) -> char {
    if digit < 10 {
        digit_char(digit)
    } else {
        (letter + digit - 10) as char
    }
}

/// The `width` low-order hexadecimal digits of `value`; letters count up from `letter`.
pub open spec fn hex_fixed(value: nat, width: nat, letter: nat) -> Seq<char>
    decreases width,
{
    if width == 0 {
        Seq::empty()
    } else {
        hex_fixed(value / 16, (width - 1) as nat, letter).push(hex_char(value % 16, letter))
    }
}

/// `width` lower-case hexadecimal digits of `value`.
pub open spec fn hex_lower(value: nat, width: nat) -> Seq<char> {
    hex_fixed(value, width, 97)
}

/// `width` upper-case hexadecimal digits of `value`.
pub open spec fn hex_upper(value: nat, width: nat) -> Seq<char> {
    hex_fixed(value, width, 65)
}

fn push_hex(text: &mut String, value: u64, width: usize, letter: u8)
    requires
        letter <= 100,
    ensures
        final(text)@ == old(text)@ + hex_fixed(value as nat, width as nat, letter as nat),
    decreases width,
{
    let ghost before = text@;
    if width > 0 {
        push_hex(text, value / 16, width - 1, letter);
        let digit: u8 = (value % 16) as u8;
        let code: u8 = if digit < 10 { 48 + digit } else { letter + (digit - 10) };
        push_char(text, code as char);
    }
    assert(text@ =~= before + hex_fixed(value as nat, width as nat, letter as nat));
}

/// Appends `width` lower-case hexadecimal digits of `value`.
pub fn push_hex_lower(text: &mut String, value: u64, width: usize)
    ensures
        final(text)@ == old(text)@ + hex_lower(value as nat, width as nat),
{
    push_hex(text, value, width, 97)
}

/// Appends `width` upper-case hexadecimal digits of `value`.
pub fn push_hex_upper(text: &mut String, value: u64, width: usize)
    ensures
        final(text)@ == old(text)@ + hex_upper(value as nat, width as nat),
{
    push_hex(text, value, width, 65)
}

/// `value` in upper-case hexadecimal, without leading zeros.
pub open spec fn hex_plain(value: nat) -> Seq<char>
    decreases value,
{
    if value < 16 {
        seq![hex_char(value, 65)]
    } else {
        hex_plain(value / 16).push(hex_char(value % 16, 65))
    }
}

/// Appends `value` in upper-case hexadecimal.
pub fn push_hex_plain(text: &mut String, value: u64)
    ensures
        final(text)@ == old(text)@ + hex_plain(value as nat),
    decreases value,
{
    let ghost before = text@;
    if value >= 16 {
        push_hex_plain(text, value / 16);
    }
    let digit: u8 = (value % 16) as u8;
    let code: u8 = if digit < 10 { 48 + digit } else { 65 + (digit - 10) };
    push_char(text, code as char);
    assert(text@ =~= before + hex_plain(value as nat));
}

/// The lower-case form that `str::to_lowercase` gives a text beyond ASCII.
pub uninterp spec fn unicode_lowercase(text: Seq<char>) -> Seq<char>;

/// Whether every character of a text is an ASCII one.
pub open spec fn is_ascii(text: Seq<char>) -> bool {
    forall|i: int| 0 <= i < text.len() ==> #[trigger] text[i] as u32 <= 0x7F
}

/// The lower-case form of a text: letter by letter for ASCII, by the Unicode case mapping
/// otherwise.
pub open spec fn lowercase(text: Seq<char>) -> Seq<char> {
    if is_ascii(text) {
        ascii_lowercase(text)
    } else {
        unicode_lowercase(text)
    }
}

/// Lower-cases a text with `str::to_lowercase`. In an ASCII text the capital letters turn into
/// small ones and nothing else changes; of any other text the result is a function of the text
/// alone, by the Unicode case mapping.
#[verifier::external_body]
pub(crate) fn to_lowercase(text: &str) -> (lower: String)
    ensures
        lower@ == if is_ascii(text@) {
            ascii_lowercase(text@)
        } else {
            unicode_lowercase(text@)
        },
{
    text.to_lowercase()
}

/// A text with every ASCII capital letter replaced by its small one.
pub open spec fn ascii_lowercase(text: Seq<char>) -> Seq<char> {
    Seq::new(text.len(), |i: int| small_letter(text[i]))
}

/// The small letter of an ASCII capital one; other characters stay.
pub open spec fn small_letter(c: char) -> char {
    if 'A' <= c <= 'Z' {
        (c as u8 + 32) as char
    } else {
        c
    }
}

/// Lower-casing an ASCII text once is enough.
pub proof fn lemma_ascii_lowercase_again(text: Seq<char>)
    requires
        is_ascii(text),
    ensures
        is_ascii(ascii_lowercase(text)),
        ascii_lowercase(ascii_lowercase(text)) == ascii_lowercase(text),
{
    assert forall|i: int| 0 <= i < text.len() implies #[trigger] ascii_lowercase(text)[i] as u32
        <= 0x7F by {
        assert(text[i] as u32 <= 0x7F);
    }
    assert(ascii_lowercase(ascii_lowercase(text)) =~= ascii_lowercase(text));
}

/// Replaces every ASCII capital letter by its small one.
pub fn to_ascii_lowercase(text: &str) -> (lower: String)
    ensures
        lower@ == ascii_lowercase(text@),
{
    let chars = chars_of(text);
    let mut small: Vec<char> = Vec::new();
    let mut i: usize = 0;
    while i < chars.len()
        invariant
            i <= chars@.len(),
            chars@ == text@,
            small@ == ascii_lowercase(text@).take(i as int),
        decreases chars@.len() - i,
    {
        let c: char = chars[i];
        if 'A' <= c && c <= 'Z' {
            small.push((c as u8 + 32) as char);
        } else {
            small.push(c);
        }
        i = i + 1;
        assert(small@ =~= ascii_lowercase(text@).take(i as int));
    }
    assert(small@ =~= ascii_lowercase(text@));
    string_of(small.as_slice())
}

/// Whether `char::is_whitespace` holds of a character beyond ASCII.
pub uninterp spec fn unicode_white_space(c: char) -> bool;

/// Whether a character is white space: among the ASCII ones a space, a tab, a line feed, a
/// vertical tab, a form feed or a carriage return.
pub open spec fn white_space(c: char) -> bool {
    if c as u32 <= 0x7F {
        c == ' ' || 9 <= c as u32 <= 13
    } else {
        unicode_white_space(c)
    }
}

/// Asks `char::is_whitespace`: whether the character has the Unicode `White_Space` property.
/// Of the ASCII characters these are the space and the codes 9 to 13; of any other character
/// the answer is a function of the character alone.
#[verifier::external_body]
pub(crate) fn is_white_space(c: char) -> (answer: bool)
    ensures
        answer == if c as u32 <= 0x7F {
            c == ' ' || 9 <= c as u32 <= 13
        } else {
            unicode_white_space(c)
        },
{
    c.is_whitespace()
}

/// The quoted and escaped form that `{:?}` gives a text.
pub uninterp spec fn quoted(text: Seq<char>) -> Seq<char>;

/// Formats a text with `<str as Debug>`, as `{:?}` does: in double quotes, with special
/// characters escaped. The result is a function of the text alone.
#[verifier::external_body]
pub(crate) fn debug_quoted(text: &str) -> (formatted: String)
    ensures
        formatted@ == quoted(text@),
{
    format!("{text:?}")
}

/// `text` without the white space it begins with.
pub open spec fn trimmed_start(text: Seq<char>) -> Seq<char>
    decreases text.len(),
{
    if text.len() > 0 && white_space(text[0]) {
        trimmed_start(text.skip(1))
    } else {
        text
    }
}

/// `text` without the white space it ends with.
pub open spec fn trimmed_end(text: Seq<char>) -> Seq<char>
    decreases text.len(),
{
    if text.len() > 0 && white_space(text.last()) {
        trimmed_end(text.drop_last())
    } else {
        text
    }
}

/// `text` without the white space around it.
pub open spec fn trimmed(text: Seq<char>) -> Seq<char> {
    trimmed_end(trimmed_start(text))
}

fn start_of_trimmed(chars: &[char]) -> (start: usize)
    ensures
        start <= chars@.len(),
        chars@.skip(start as int) == trimmed_start(chars@),
{
    let mut start: usize = 0;
    assert(chars@.skip(0) =~= chars@);
    while start < chars.len() && is_white_space(chars[start])
        invariant
            start <= chars@.len(),
            trimmed_start(chars@.skip(start as int)) == trimmed_start(chars@),
        ensures
            start <= chars@.len(),
            chars@.skip(start as int) == trimmed_start(chars@),
        decreases chars@.len() - start,
    {
        assert(chars@.skip(start as int).skip(1) =~= chars@.skip(start + 1));
        start = start + 1;
    }
    start
}

fn end_of_trimmed(chars: &[char]) -> (end: usize)
    ensures
        end <= chars@.len(),
        chars@.take(end as int) == trimmed_end(chars@),
{
    let mut end: usize = chars.len();
    assert(chars@.take(end as int) =~= chars@);
    while end > 0 && is_white_space(chars[end - 1])
        invariant
            end <= chars@.len(),
            trimmed_end(chars@.take(end as int)) == trimmed_end(chars@),
        ensures
            end <= chars@.len(),
            chars@.take(end as int) == trimmed_end(chars@),
        decreases end,
    {
        assert(chars@.take(end as int).drop_last() =~= chars@.take(end - 1));
        end = end - 1;
    }
    end
}

/// Removes the white space around a text.
pub fn trim(text: &str) -> (result: String)
    ensures
        result@ == trimmed(text@),
{
    let chars = chars_of(text);
    let start: usize = start_of_trimmed(chars.as_slice());
    let rest = vstd::slice::slice_subrange(chars.as_slice(), start, chars.len());
    assert(rest@ =~= trimmed_start(text@));
    let end: usize = end_of_trimmed(rest);
    let middle = vstd::slice::slice_subrange(rest, 0, end);
    assert(middle@ =~= rest@.take(end as int));
    string_of(middle)
}

/// Removes the white space that a text ends with.
pub fn trim_end(text: &str) -> (result: String)
    ensures
        result@ == trimmed_end(text@),
{
    let chars = chars_of(text);
    let end: usize = end_of_trimmed(chars.as_slice());
    let head = vstd::slice::slice_subrange(chars.as_slice(), 0, end);
    assert(head@ =~= chars@.take(end as int));
    string_of(head)
}

/// `text` with every `from` replaced by `to`.
pub open spec fn replaced(text: Seq<char>, from: char, to: char) -> Seq<char> {
    Seq::new(text.len(), |i: int| if text[i] == from { to } else { text[i] })
}

/// Replaces every `from` in a text by `to`.
pub fn replace_char(text: &str, from: char, to: char) -> (result: String)
    ensures
        result@ == replaced(text@, from, to),
{
    let chars = chars_of(text);
    let mut result = String::new();
    let mut i: usize = 0;
    while i < chars.len()
        invariant
            i <= chars@.len(),
            chars@ == text@,
            result@ == replaced(text@, from, to).take(i as int),
        decreases chars@.len() - i,
    {
        let c: char = if chars[i] == from {
            to
        } else {
            chars[i]
        };
        push_char(&mut result, c);
        assert(replaced(text@, from, to).take(i + 1) =~= replaced(text@, from, to).take(
            i as int,
        ).push(c));
        i = i + 1;
    }
    assert(replaced(text@, from, to).take(i as int) =~= replaced(text@, from, to));
    result
}

/// Whether `part` stands in `whole` at position `at`.
pub open spec fn stands_at(whole: Seq<char>, part: Seq<char>, at: int) -> bool {
    0 <= at && at + part.len() <= whole.len() && whole.subrange(at, at + part.len()) == part
}

/// Whether `part` stands somewhere in `whole`.
pub open spec fn has_part(whole: Seq<char>, part: Seq<char>) -> bool {
    exists|at: int| stands_at(whole, part, at)
}

/// Whether `part` stands somewhere in `whole`.
pub fn contains_text(whole: &str, part: &str) -> (found: bool)
    ensures
        found == has_part(whole@, part@),
{
    let whole_chars = chars_of(whole);
    let part_chars = chars_of(part);
    let length: usize = part_chars.len();
    if length > whole_chars.len() {
        assert forall|at: int| !stands_at(whole@, part@, at) by {}
        return false;
    }
    let mut at: usize = 0;
    while at <= whole_chars.len() - length
        invariant
            whole_chars@ == whole@,
            part_chars@ == part@,
            length == part@.len(),
            length <= whole@.len(),
            at <= whole@.len() - length,
            forall|k: int| 0 <= k < at ==> !stands_at(whole@, part@, k),
        decreases whole@.len() + 1 - at,
    {
        let here = vstd::slice::slice_subrange(whole_chars.as_slice(), at, at + length);
        if same_chars(here, part_chars.as_slice()) {
            assert(stands_at(whole@, part@, at as int));
            return true;
        }
        assert(!stands_at(whole@, part@, at as int));
        if at == whole_chars.len() - length {
            assert forall|k: int| !stands_at(whole@, part@, k) by {}
            return false;
        }
        at = at + 1;
    }
    false
}

/// Whether a text begins with another.
pub fn begins_with(whole: &str, prefix: &str) -> (answer: bool)
    ensures
        answer == stands_at(whole@, prefix@, 0),
{
    let whole_chars = chars_of(whole);
    let prefix_chars = chars_of(prefix);
    if prefix_chars.len() > whole_chars.len() {
        return false;
    }
    let head = vstd::slice::slice_subrange(whole_chars.as_slice(), 0, prefix_chars.len());
    same_chars(head, prefix_chars.as_slice())
}

/// Why a text is not a number.
#[derive(Debug, Clone, Copy, PartialEq, Eq, Structural)]
pub enum NumberError {
    /// There is no text.
    Empty,
    /// A character is no digit.
    InvalidDigit,
    /// The number is too large.
    Overflow,
    /// The number is too small.
    Underflow,
}

impl NumberError {
    /// The diagnostic text of this failure.
    pub open spec fn text(self) -> Seq<char> {
        match self {
            NumberError::Empty => "cannot parse integer from empty string"@,
            NumberError::InvalidDigit => "invalid digit found in string"@,
            NumberError::Overflow => "number too large to fit in target type"@,
            NumberError::Underflow => "number too small to fit in target type"@,
        }
    }

    /// Describes this failure.
    pub fn message(self) -> (message: &'static str)
        ensures
            message@ == self.text(),
    {
        match self {
            NumberError::Empty => "cannot parse integer from empty string",
            NumberError::InvalidDigit => "invalid digit found in string",
            NumberError::Overflow => "number too large to fit in target type",
            NumberError::Underflow => "number too small to fit in target type",
        }
    }
}

/// What a character counts for as a digit, if it is one in this radix.
pub open spec fn digit_value(c: char, radix: nat) -> Option<nat> {
    let code = c as nat;
    let value = if 48 <= code <= 57 {
        (code - 48) as nat
    } else if 97 <= code <= 122 {
        (code - 87) as nat
    } else if 65 <= code <= 90 {
        (code - 55) as nat
    } else {
        radix
    };
    if value < radix {
        Some(value)
    } else {
        None
    }
}

/// The number that digits spell, or the first thing wrong with them from the left.
pub open spec fn digits_number(digits: Seq<char>, radix: nat) -> Result<nat, NumberError>
    decreases digits.len(),
{
    if digits.len() == 0 {
        Ok(0)
    } else {
        match digits_number(digits.drop_last(), radix) {
            Err(error) => Err(error),
            Ok(value) => match digit_value(digits.last(), radix) {
                None => Err(NumberError::InvalidDigit),
                Some(digit) => if value * radix + digit > u64::MAX {
                    Err(NumberError::Overflow)
                } else {
                    Ok(value * radix + digit)
                },
            },
        }
    }
}

/// The number that a text spells: digits, with at most one plus sign before them.
pub open spec fn number(text: Seq<char>, radix: nat) -> Result<nat, NumberError> {
    if text.len() == 0 {
        Err(NumberError::Empty)
    } else if text[0] == '+' {
        if text.len() == 1 {
            Err(NumberError::InvalidDigit)
        } else {
            digits_number(text.skip(1), radix)
        }
    } else {
        digits_number(text, radix)
    }
}

fn digit_of(c: char, radix: u32) -> (digit: Option<u32>)
    requires
        2 <= radix <= 36,
    ensures
        match digit {
            Some(value) => digit_value(c, radix as nat) == Some(value as nat) && value < radix,
            None => digit_value(c, radix as nat) is None,
        },
{
    let code: u32 = c as u32;
    let value: u32 = if 48 <= code && code <= 57 {
        code - 48
    } else if 97 <= code && code <= 122 {
        code - 87
    } else if 65 <= code && code <= 90 {
        code - 55
    } else {
        radix
    };
    if value < radix {
        Some(value)
    } else {
        None
    }
}

proof fn lemma_digits_fail(digits: Seq<char>, length: int, radix: nat)
    requires
        0 <= length <= digits.len(),
        digits_number(digits.take(length), radix) is Err,
    ensures
        digits_number(digits, radix) == digits_number(digits.take(length), radix),
    decreases digits.len() - length,
{
    if length < digits.len() {
        assert(digits.take(length + 1).drop_last() =~= digits.take(length));
        lemma_digits_fail(digits, length + 1, radix);
    } else {
        assert(digits.take(length) =~= digits);
    }
}

fn parse_digits(digits: &[char], radix: u32) -> (result: Result<u64, NumberError>)
    requires
        2 <= radix <= 36,
    ensures
        match result {
            Ok(value) => digits_number(digits@, radix as nat) == Ok::<_, NumberError>(value as nat),
            Err(error) => digits_number(digits@, radix as nat) == Err::<nat, _>(error),
        },
{
    let mut value: u64 = 0;
    let mut i: usize = 0;
    while i < digits.len()
        invariant
            2 <= radix <= 36,
            i <= digits@.len(),
            digits_number(digits@.take(i as int), radix as nat) == Ok::<_, NumberError>(
                value as nat,
            ),
        decreases digits@.len() - i,
    {
        let ghost prefix = digits@.take(i + 1);
        proof {
            assert(prefix.drop_last() =~= digits@.take(i as int));
            assert(prefix.last() == digits@[i as int]);
            if digits_number(prefix, radix as nat) is Err {
                lemma_digits_fail(digits@, i + 1, radix as nat);
            }
        }
        match digit_of(digits[i], radix) {
            None => {
                return Err(NumberError::InvalidDigit);
            },
            Some(digit) => {
                assert(0 <= value * radix) by (nonlinear_arith)
                    requires
                        0 <= value,
                        0 <= radix,
                ;
                match value.checked_mul(radix as u64) {
                    None => {
                        return Err(NumberError::Overflow);
                    },
                    Some(product) => match product.checked_add(digit as u64) {
                        None => {
                            return Err(NumberError::Overflow);
                        },
                        Some(sum) => {
                            value = sum;
                        },
                    },
                }
            },
        }
        i = i + 1;
    }
    assert(digits@.take(i as int) =~= digits@);
    Ok(value)
}

/// Parses an unsigned number in a radix from 2 to 36, as `u64::from_str_radix` does.
pub fn parse_number(chars: &[char], radix: u32) -> (result: Result<u64, NumberError>)
    requires
        2 <= radix <= 36,
    ensures
        match result {
            Ok(value) => number(chars@, radix as nat) == Ok::<_, NumberError>(value as nat),
            Err(error) => number(chars@, radix as nat) == Err::<nat, _>(error),
        },
{
    if chars.len() == 0 {
        return Err(NumberError::Empty);
    }
    if chars[0] == '+' {
        if chars.len() == 1 {
            return Err(NumberError::InvalidDigit);
        }
        let digits = vstd::slice::slice_subrange(chars, 1, chars.len());
        assert(digits@ =~= chars@.skip(1));
        return parse_digits(digits, radix);
    }
    parse_digits(chars, radix)
}

/// Whether a text begins with `0x` or `0X`.
pub open spec fn hex_marked(text: Seq<char>) -> bool {
    text.len() >= 2 && text[0] == '0' && (text[1] == 'x' || text[1] == 'X')
}

/// The number that a text spells in decimal, or in hexadecimal behind `0x` or `0X`.
pub open spec fn marked_number(text: Seq<char>) -> Result<nat, NumberError> {
    if hex_marked(text) {
        number(text.skip(2), 16)
    } else {
        number(text, 10)
    }
}

/// Parses a decimal number, or a hexadecimal one behind `0x` or `0X`.
pub fn parse_marked(text: &str) -> (result: Result<u64, NumberError>)
    ensures
        match result {
            Ok(value) => marked_number(text@) == Ok::<_, NumberError>(value as nat),
            Err(error) => marked_number(text@) == Err::<nat, _>(error),
        },
{
    let chars = chars_of(text);
    if chars.len() >= 2 && chars[0] == '0' && (chars[1] == 'x' || chars[1] == 'X') {
        let rest = vstd::slice::slice_subrange(chars.as_slice(), 2, chars.len());
        assert(rest@ =~= text@.skip(2));
        parse_number(rest, 16)
    } else {
        parse_number(chars.as_slice(), 10)
    }
}

pub proof fn lemma_decimal_digits(value: nat)
    requires
        value <= u64::MAX,
    ensures
        digits_number(decimal(value), 10) == Ok::<nat, NumberError>(value),
        decimal(value).len() > 0,
        forall|i: int| 0 <= i < decimal(value).len() ==> 48 <= #[trigger] decimal(value)[i] <= 57,
    decreases value,
{
    let digits = decimal(value);
    if value >= 10 {
        lemma_decimal_digits(value / 10);
        assert(digits.drop_last() =~= decimal(value / 10));
        assert(digits.last() == digit_char(value % 10));
        assert forall|i: int| 0 <= i < digits.len() implies 48 <= #[trigger] digits[i] <= 57 by {
            if i < digits.len() - 1 {
                assert(digits[i] == decimal(value / 10)[i]);
            }
        }
    } else {
        assert(digits.drop_last() =~= Seq::empty());
        assert(digits_number(digits.drop_last(), 10) == Ok::<nat, NumberError>(0));
        assert(digits.last() == digit_char(value));
    }
}

proof fn lemma_hex_digits(value: nat, width: nat)
    requires
        value <= u64::MAX,
        value < vstd::arithmetic::power::pow(16, width),
    ensures
        digits_number(hex_upper(value, width), 16) == Ok::<nat, NumberError>(value),
        hex_upper(value, width).len() == width,
        forall|i: int|
            0 <= i < width ==> 48 <= #[trigger] hex_upper(value, width)[i] <= 57 || 65
                <= hex_upper(value, width)[i] <= 70,
    decreases width,
{
    let digits = hex_upper(value, width);
    vstd::arithmetic::power::lemma_pow0(16);
    if width > 0 {
        let shorter = (width - 1) as nat;
        vstd::arithmetic::power::lemma_pow_adds(16, 1, shorter);
        vstd::arithmetic::power::lemma_pow1(16);
        assert(value / 16 < vstd::arithmetic::power::pow(16, shorter));
        lemma_hex_digits(value / 16, shorter);
        assert(digits.drop_last() =~= hex_upper(value / 16, shorter));
        assert(digits.last() == hex_char(value % 16, 65));
        assert forall|i: int| 0 <= i < width implies 48 <= #[trigger] digits[i] <= 57 || 65
            <= digits[i] <= 70 by {
            if i < shorter {
                assert(digits[i] == hex_upper(value / 16, shorter)[i]);
            }
        }
    } else {
        assert(digits =~= Seq::empty());
    }
}

/// A number written in decimal is read back, with or without a sign in mind.
pub proof fn law_decimals_are_read_back(value: nat)
    requires
        value <= u64::MAX,
    ensures
        marked_number(decimal(value)) == Ok::<nat, NumberError>(value),
        value <= i64::MAX ==> signed_number(decimal(value), 10) == Ok::<int, NumberError>(
            value as int,
        ),
{
    let digits = decimal(value);
    lemma_decimal_digits(value);
    assert(48 <= digits[0] <= 57);
    if digits.len() >= 2 {
        assert(48 <= digits[1] <= 57);
    }
    if value <= i64::MAX {
        lemma_signed_decimal_digits(value);
    }
}

proof fn lemma_signed_decimal_digits(value: nat)
    requires
        value <= i64::MAX,
    ensures
        signed_digits(decimal(value), 10, false) == Ok::<int, NumberError>(value as int),
    decreases value,
{
    let digits = decimal(value);
    if value >= 10 {
        lemma_signed_decimal_digits(value / 10);
        assert(digits.drop_last() =~= decimal(value / 10));
        assert(digits.last() == digit_char(value % 10));
    } else {
        assert(digits.drop_last() =~= Seq::empty());
        assert(signed_digits(digits.drop_last(), 10, false) == Ok::<int, NumberError>(0));
        assert(digits.last() == digit_char(value));
    }
}

/// A number written as `0x` and sixteen hexadecimal digits is read back, with or without white
/// space around it in mind.
pub proof fn law_hexadecimals_are_read_back(value: nat)
    requires
        value <= u64::MAX,
    ensures
        marked_number("0x"@ + hex_upper(value, 16)) == Ok::<nat, NumberError>(value),
        trimmed("0x"@ + hex_upper(value, 16)) == "0x"@ + hex_upper(value, 16),
{
    reveal_strlit("0x");
    let digits = hex_upper(value, 16);
    let text = "0x"@ + digits;
    assert(vstd::arithmetic::power::pow(16, 16) == 0x1_0000_0000_0000_0000) by {
        reveal_with_fuel(vstd::arithmetic::power::pow, 17);
    }
    lemma_hex_digits(value, 16);
    assert(text.skip(2) =~= digits);
    assert(48 <= digits[0] <= 57 || 65 <= digits[0] <= 70);
    assert(48 <= digits[15] <= 57 || 65 <= digits[15] <= 70);
    assert(text.last() == digits[15]);
    assert(trimmed_start(text) == text);
}

/// What a digit makes of a signed number, the digits counted away from zero.
pub open spec fn signed_step(value: int, digit: nat, radix: nat, negative: bool) -> Result<
    int,
    NumberError,
> {
    let next = if negative {
        value * radix - digit
    } else {
        value * radix + digit
    };
    if next > i64::MAX {
        Err(NumberError::Overflow)
    } else if next < i64::MIN {
        Err(NumberError::Underflow)
    } else {
        Ok(next)
    }
}

/// The signed number that digits spell, or the first thing wrong with them from the left.
pub open spec fn signed_digits(digits: Seq<char>, radix: nat, negative: bool) -> Result<
    int,
    NumberError,
>
    decreases digits.len(),
{
    if digits.len() == 0 {
        Ok(0)
    } else {
        match signed_digits(digits.drop_last(), radix, negative) {
            Err(error) => Err(error),
            Ok(value) => match digit_value(digits.last(), radix) {
                None => Err(NumberError::InvalidDigit),
                Some(digit) => signed_step(value, digit, radix, negative),
            },
        }
    }
}

/// The signed number that a text spells: digits, with at most one sign before them.
pub open spec fn signed_number(text: Seq<char>, radix: nat) -> Result<int, NumberError> {
    if text.len() == 0 {
        Err(NumberError::Empty)
    } else if text[0] == '+' || text[0] == '-' {
        if text.len() == 1 {
            Err(NumberError::InvalidDigit)
        } else {
            signed_digits(text.skip(1), radix, text[0] == '-')
        }
    } else {
        signed_digits(text, radix, false)
    }
}

proof fn lemma_signed_digits_fail(digits: Seq<char>, length: int, radix: nat, negative: bool)
    requires
        0 <= length <= digits.len(),
        signed_digits(digits.take(length), radix, negative) is Err,
    ensures
        signed_digits(digits, radix, negative) == signed_digits(
            digits.take(length),
            radix,
            negative,
        ),
    decreases digits.len() - length,
{
    if length < digits.len() {
        assert(digits.take(length + 1).drop_last() =~= digits.take(length));
        lemma_signed_digits_fail(digits, length + 1, radix, negative);
    } else {
        assert(digits.take(length) =~= digits);
    }
}

fn step_signed(value: i64, digit: u32, radix: u32, negative: bool) -> (result: Result<
    i64,
    NumberError,
>)
    requires
        2 <= radix <= 36,
        digit < radix,
    ensures
        match result {
            Ok(next) => signed_step(value as int, digit as nat, radix as nat, negative) == Ok::<
                int,
                NumberError,
            >(next as int),
            Err(error) => signed_step(value as int, digit as nat, radix as nat, negative) == Err::<
                int,
                NumberError,
            >(error),
        },
{
    let wide: i128 = value as i128;
    let base: i128 = radix as i128;
    assert(-0x8000_0000_0000_0000 * 36 <= wide * base <= 0x7FFF_FFFF_FFFF_FFFF * 36)
        by (nonlinear_arith)
        requires
            -0x8000_0000_0000_0000 <= wide <= 0x7FFF_FFFF_FFFF_FFFF,
            2 <= base <= 36,
    ;
    let scaled: i128 = wide * base;
    let next: i128 = if negative {
        scaled - digit as i128
    } else {
        scaled + digit as i128
    };
    if next > 0x7FFF_FFFF_FFFF_FFFF {
        Err(NumberError::Overflow)
    } else if next < -0x8000_0000_0000_0000 {
        Err(NumberError::Underflow)
    } else {
        Ok(next as i64)
    }
}

fn parse_signed_digits(digits: &[char], radix: u32, negative: bool) -> (result: Result<
    i64,
    NumberError,
>)
    requires
        2 <= radix <= 36,
    ensures
        match result {
            Ok(value) => signed_digits(digits@, radix as nat, negative) == Ok::<_, NumberError>(
                value as int,
            ),
            Err(error) => signed_digits(digits@, radix as nat, negative) == Err::<int, _>(error),
        },
{
    let mut value: i64 = 0;
    let mut i: usize = 0;
    while i < digits.len()
        invariant
            2 <= radix <= 36,
            i <= digits@.len(),
            signed_digits(digits@.take(i as int), radix as nat, negative) == Ok::<_, NumberError>(
                value as int,
            ),
        decreases digits@.len() - i,
    {
        let ghost prefix = digits@.take(i + 1);
        proof {
            assert(prefix.drop_last() =~= digits@.take(i as int));
            assert(prefix.last() == digits@[i as int]);
            if signed_digits(prefix, radix as nat, negative) is Err {
                lemma_signed_digits_fail(digits@, i + 1, radix as nat, negative);
            }
        }
        match digit_of(digits[i], radix) {
            None => {
                return Err(NumberError::InvalidDigit);
            },
            Some(digit) => match step_signed(value, digit, radix, negative) {
                Ok(next) => {
                    value = next;
                },
                Err(error) => {
                    return Err(error);
                },
            },
        }
        i = i + 1;
    }
    assert(digits@.take(i as int) =~= digits@);
    Ok(value)
}

/// Parses a signed number in a radix from 2 to 36, as `i64::from_str_radix` does.
pub fn parse_signed(chars: &[char], radix: u32) -> (result: Result<i64, NumberError>)
    requires
        2 <= radix <= 36,
    ensures
        match result {
            Ok(value) => signed_number(chars@, radix as nat) == Ok::<_, NumberError>(value as int),
            Err(error) => signed_number(chars@, radix as nat) == Err::<int, _>(error),
        },
{
    if chars.len() == 0 {
        return Err(NumberError::Empty);
    }
    if chars[0] == '+' || chars[0] == '-' {
        if chars.len() == 1 {
            return Err(NumberError::InvalidDigit);
        }
        let digits = vstd::slice::slice_subrange(chars, 1, chars.len());
        assert(digits@ =~= chars@.skip(1));
        return parse_signed_digits(digits, radix, chars[0] == '-');
    }
    parse_signed_digits(chars, radix, false)
}

/// Where a character first occurs in a text, or the length of the text.
pub open spec fn position(text: Seq<char>, c: char) -> int
    decreases text.len(),
{
    if text.len() == 0 || text[0] == c {
        0
    } else {
        1 + position(text.skip(1), c)
    }
}

/// A character first occurs where it stands and does not before.
pub proof fn lemma_position(text: Seq<char>, c: char, at: int)
    requires
        0 <= at <= text.len(),
        at < text.len() ==> text[at] == c,
        forall|k: int| 0 <= k < at ==> text[k] != c,
    ensures
        position(text, c) == at,
    decreases text.len(),
{
    if at > 0 {
        let rest = text.skip(1);
        assert forall|k: int| 0 <= k < at - 1 implies rest[k] != c by {
            assert(rest[k] == text[k + 1]);
        }
        lemma_position(rest, c, at - 1);
    }
}

/// Finds the first occurrence of a character.
pub fn find_char(chars: &[char], c: char) -> (found: Option<usize>)
    ensures
        match found {
            Some(at) => at < chars@.len() && at == position(chars@, c) && chars@[at as int] == c,
            None => position(chars@, c) == chars@.len(),
        },
{
    let mut i: usize = 0;
    while i < chars.len()
        invariant
            i <= chars@.len(),
            forall|k: int| 0 <= k < i ==> chars@[k] != c,
        decreases chars@.len() - i,
    {
        if chars[i] == c {
            proof {
                lemma_position(chars@, c, i as int);
            }
            return Some(i);
        }
        i = i + 1;
    }
    proof {
        lemma_position(chars@, c, i as int);
    }
    None
}

/// Some texts, one after the other, with a separator between each two.
pub open spec fn joined(list: Seq<Seq<char>>, separator: Seq<char>) -> Seq<char>
    decreases list.len(),
{
    if list.len() == 0 {
        Seq::empty()
    } else if list.len() == 1 {
        list[0]
    } else {
        joined(list.drop_last(), separator) + separator + list.last()
    }
}

/// Joins some texts with a separator between each two.
pub fn join_all(strings: &Vec<String>, separator: &str) -> (result: String)
    ensures
        result@ == joined(texts(strings@), separator@),
{
    let mut result = "".to_owned();
    proof {
        reveal_strlit("");
        assert(texts(strings@).take(0) =~= Seq::empty());
        assert(result@ =~= Seq::<char>::empty());
    }
    let mut i: usize = 0;
    while i < strings.len()
        invariant
            i <= strings@.len(),
            result@ == joined(texts(strings@).take(i as int), separator@),
        decreases strings@.len() - i,
    {
        let ghost next = texts(strings@).take(i + 1);
        proof {
            assert(next.drop_last() =~= texts(strings@).take(i as int));
            assert(next.last() == strings@[i as int]@);
        }
        let ghost before = result@;
        if i > 0 {
            push_text(&mut result, separator);
        }
        push_text(&mut result, strings[i].as_str());
        proof {
            if i == 0 {
                assert(result@ =~= next[0]);
            }
        }
        i = i + 1;
    }
    assert(texts(strings@).take(i as int) =~= texts(strings@));
    result
}

/// Some texts, each quoted.
pub open spec fn quoted_all(list: Seq<Seq<char>>) -> Seq<Seq<char>> {
    Seq::new(list.len(), |i: int| quoted(list[i]))
}

/// Quotes each of some texts.
pub fn quote_all(strings: &Vec<String>) -> (result: Vec<String>)
    ensures
        texts(result@) == quoted_all(texts(strings@)),
{
    let mut result: Vec<String> = Vec::new();
    let mut i: usize = 0;
    while i < strings.len()
        invariant
            i <= strings@.len(),
            texts(result@) == quoted_all(texts(strings@)).take(i as int),
        decreases strings@.len() - i,
    {
        let ghost shorter = texts(result@);
        result.push(debug_quoted(strings[i].as_str()));
        i = i + 1;
        assert(texts(result@) =~= shorter.push(quoted(strings@[i - 1]@)));
        assert(texts(result@) =~= quoted_all(texts(strings@)).take(i as int));
    }
    assert(texts(result@) =~= quoted_all(texts(strings@)));
    result
}

/// The diagnostic of `String::from_utf8` for some malformed bytes.
pub uninterp spec fn utf8_fault(bytes: Seq<u8>) -> Seq<char>;

/// Decodes UTF-8 with `String::from_utf8`: it succeeds exactly on well-formed bytes, and the
/// text is what they encode. The error is given as its text, which is a function of the bytes
/// alone.
#[verifier::external_body]
pub(crate) fn decode_utf8(bytes: Vec<u8>) -> (result: Result<String, String>)
    ensures
        match result {
            Ok(text) => vstd::utf8::valid_utf8(bytes@) && text@ == vstd::utf8::decode_utf8(bytes@),
            Err(fault) => !vstd::utf8::valid_utf8(bytes@) && fault@ == utf8_fault(bytes@),
        },
{
    String::from_utf8(bytes).map_err(|error| error.to_string())
}

/// The text that some bytes spell in UTF-8, with what is malformed replaced.
pub uninterp spec fn utf8_lossy(bytes: Seq<u8>) -> Seq<char>;

/// Decodes UTF-8 with `String::from_utf8_lossy`: the text is a function of the bytes alone, and
/// well-formed bytes give what they encode.
#[verifier::external_body]
pub(crate) fn decode_lossy(bytes: &[u8]) -> (text: String)
    ensures
        text@ == utf8_lossy(bytes@),
        vstd::utf8::valid_utf8(bytes@) ==> text@ == vstd::utf8::decode_utf8(bytes@),
{
    String::from_utf8_lossy(bytes).into_owned()
}

/// What some strings say.
pub open spec fn texts(strings: Seq<String>) -> Seq<Seq<char>> {
    Seq::new(strings.len(), |i: int| strings[i]@)
}

/// Whether `text` is one of the first `count` strings.
pub fn occurs_in(strings: &Vec<String>, count: usize, text: &str) -> (found: bool)
    requires
        count <= strings@.len(),
    ensures
        found == exists|i: int| 0 <= i < count && #[trigger] texts(strings@)[i] == text@,
{
    let mut i: usize = 0;
    while i < count
        invariant
            i <= count <= strings@.len(),
            forall|k: int| 0 <= k < i ==> #[trigger] texts(strings@)[k] != text@,
        decreases count - i,
    {
        if same_text(strings[i].as_str(), text) {
            assert(texts(strings@)[i as int] == text@);
            return true;
        }
        i = i + 1;
    }
    false
}

/// A second list that says the same.
pub fn clone_texts(strings: &Vec<String>) -> (copy: Vec<String>)
    ensures
        texts(copy@) == texts(strings@),
{
    let mut copy: Vec<String> = Vec::new();
    let mut i: usize = 0;
    while i < strings.len()
        invariant
            i <= strings@.len(),
            copy@.len() == i,
            forall|k: int| 0 <= k < i ==> (#[trigger] copy@[k])@ == strings@[k]@,
        decreases strings@.len() - i,
    {
        copy.push(strings[i].clone());
        i = i + 1;
    }
    assert(texts(copy@) =~= texts(strings@));
    copy
}

/// A place in a list: `path[index]`.
pub open spec fn indexed(path: Seq<char>, index: nat) -> Seq<char> {
    path + "["@ + decimal(index) + "]"@
}

/// Formats a place in a list.
pub fn format_indexed(path: &str, index: usize) -> (place: String)
    ensures
        place@ == indexed(path@, index as nat),
{
    let mut place = path.to_owned();
    push_text(&mut place, "[");
    push_decimal(&mut place, index as u64);
    push_text(&mut place, "]");
    place
}

/// Joins two texts.
pub fn join(left: &str, right: &str) -> (joined: String)
    ensures
        joined@ == left@ + right@,
{
    let mut joined = left.to_owned();
    push_text(&mut joined, right);
    joined
}

/// Joins a text, the quoted form of a second one, and a third.
pub fn join_quoted(left: &str, middle: &str, right: &str) -> (joined: String)
    ensures
        joined@ == left@ + quoted(middle@) + right@,
{
    let mut joined = left.to_owned();
    let formatted = debug_quoted(middle);
    push_text(&mut joined, formatted.as_str());
    push_text(&mut joined, right);
    joined
}

proof fn lemma_trimmed_start(text: Seq<char>)
    ensures
        trimmed_start(text).len() == 0 || !white_space(trimmed_start(text)[0]),
    decreases text.len(),
{
    if text.len() > 0 && white_space(text[0]) {
        lemma_trimmed_start(text.skip(1));
    }
}

proof fn lemma_trimmed_end(text: Seq<char>)
    ensures
        trimmed_end(text).len() <= text.len(),
        trimmed_end(text) == text.take(trimmed_end(text).len() as int),
        trimmed_end(text).len() == 0 || !white_space(trimmed_end(text).last()),
    decreases text.len(),
{
    if text.len() > 0 && white_space(text.last()) {
        lemma_trimmed_end(text.drop_last());
        let kept = trimmed_end(text);
        assert(text.drop_last().take(kept.len() as int) =~= text.take(kept.len() as int));
    } else {
        assert(text.take(text.len() as int) =~= text);
    }
}

/// Trimming a trimmed text changes nothing.
pub proof fn law_trimming_is_idempotent(text: Seq<char>)
    ensures
        trimmed(trimmed(text)) == trimmed(text),
{
    let start = trimmed_start(text);
    lemma_trimmed_start(text);
    lemma_trimmed_end(start);
    let result = trimmed_end(start);
    if result.len() > 0 {
        assert(result[0] == start[0]);
    }
    assert(trimmed_start(result) == result);
}

/// Whether a text can be taken apart into something, a part, and something else.
pub open spec fn parts_around(whole: Seq<char>, part: Seq<char>) -> bool {
    exists|before: Seq<char>, after: Seq<char>| whole == #[trigger] (before + part + after)
}

/// One text stands in another exactly if the other is it with something around.
pub proof fn law_parts_stand_between_others(whole: Seq<char>, part: Seq<char>)
    ensures
        has_part(whole, part) <==> parts_around(whole, part),
{
    if has_part(whole, part) {
        let at = choose|at: int| stands_at(whole, part, at);
        let before = whole.take(at);
        let after = whole.skip(at + part.len());
        assert(whole =~= before + part + after);
    }
    if parts_around(whole, part) {
        let (before, after) = choose|before: Seq<char>, after: Seq<char>|
            whole == #[trigger] (before + part + after);
        let at = before.len() as int;
        assert(whole.subrange(at, at + part.len()) =~= part);
        assert(stands_at(whole, part, at));
    }
}

/// The code of a hexadecimal digit, with small letters.
pub open spec fn small_digit(digit: nat) -> nat {
    if digit < 10 {
        ('0' as nat) + digit
    } else {
        ('a' as nat) + (digit - 10) as nat
    }
}

/// A byte is written as two hexadecimal digits, the more significant one first.
pub proof fn law_hexadecimals_are_digit_pairs(byte: u8)
    ensures
        hex_lower(byte as nat, 2).len() == 2,
        hex_lower(byte as nat, 2)[0] as nat == small_digit(byte as nat / 16),
        hex_lower(byte as nat, 2)[1] as nat == small_digit(byte as nat % 16),
{
    reveal_with_fuel(hex_fixed, 3);
    assert(byte as nat / 16 < 16);
    assert(byte as nat / 16 % 16 == byte as nat / 16);
}

/// Decimals are written digit by digit: ten times a number and a digit more is the number
/// followed by that digit, and a single digit stands alone.
pub proof fn law_decimals_are_written_digit_by_digit(value: u64, digit: u64, text: &mut String)
    requires
        digit < 10,
        value * 10 + digit <= u64::MAX,
        call_ensures(push_decimal, (text, (value * 10 + digit) as u64), ()),
    ensures
        ({
            let last = seq![('0' as nat + digit) as char];
            final(text)@ == old(text)@ + if value == 0 {
                last
            } else {
                decimal(value as nat) + last
            }
        }),
{
    let whole = (value * 10 + digit) as nat;
    assert(whole / 10 == value && whole % 10 == digit);
    if value > 0 {
        assert(decimal(whole) =~= decimal(value as nat) + seq![('0' as nat + digit) as char]);
    }
}

/// Trimming removes white space from both ends and nothing else: what is left stands in the text
/// with only white space around, and neither begins nor ends with any.
pub proof fn law_trimming_removes_white_space_around(text: &str, result: String)
    requires
        call_ensures(trim, (text,), result),
    ensures
        result@.len() > 0 ==> !white_space(result@[0]) && !white_space(result@.last()),
        exists|before: Seq<char>, after: Seq<char>|
            {
                &&& text@ == #[trigger] (before + result@ + after)
                &&& forall|i: int| 0 <= i < before.len() ==> white_space(#[trigger] before[i])
                &&& forall|i: int| 0 <= i < after.len() ==> white_space(#[trigger] after[i])
            },
{
    let middle = trimmed_start(text@);
    lemma_trimmed_start_splits(text@);
    lemma_trimmed_end_splits(middle);
    let before = text@.take(text@.len() - middle.len());
    let after = middle.skip(result@.len() as int);
    assert(text@ =~= before + result@ + after);
    if result@.len() > 0 {
        assert(result@[0] == middle[0]);
    }
}

proof fn lemma_trimmed_start_splits(text: Seq<char>)
    ensures
        trimmed_start(text).len() <= text.len(),
        text.skip(text.len() - trimmed_start(text).len()) == trimmed_start(text),
        forall|i: int|
            0 <= i < text.len() - trimmed_start(text).len() ==> white_space(#[trigger] text[i]),
        trimmed_start(text).len() > 0 ==> !white_space(trimmed_start(text)[0]),
    decreases text.len(),
{
    if text.len() > 0 && white_space(text[0]) {
        let rest = text.skip(1);
        lemma_trimmed_start_splits(rest);
        let from = text.len() - trimmed_start(text).len();
        assert(text.skip(from) =~= rest.skip(from - 1));
        assert forall|i: int| 0 <= i < from implies white_space(#[trigger] text[i]) by {
            if i > 0 {
                assert(rest[i - 1] == text[i]);
            }
        }
    } else {
        assert(text.skip(0) =~= text);
    }
}

proof fn lemma_trimmed_end_splits(text: Seq<char>)
    ensures
        trimmed_end(text).len() <= text.len(),
        text.take(trimmed_end(text).len() as int) == trimmed_end(text),
        forall|i: int|
            trimmed_end(text).len() <= i < text.len() ==> white_space(#[trigger] text[i]),
        trimmed_end(text).len() > 0 ==> !white_space(trimmed_end(text).last()),
    decreases text.len(),
{
    if text.len() > 0 && white_space(text.last()) {
        let rest = text.drop_last();
        lemma_trimmed_end_splits(rest);
        let to = trimmed_end(text).len() as int;
        assert(text.take(to) =~= rest.take(to));
        assert forall|i: int| to <= i < text.len() implies white_space(#[trigger] text[i]) by {
            if i < text.len() - 1 {
                assert(rest[i] == text[i]);
            }
        }
    } else {
        assert(text.take(text.len() as int) =~= text);
    }
}

/// Of the ASCII characters the space and the five codes from tab to carriage return are white
/// space.
pub proof fn law_ascii_white_space(c: char)
    requires
        c as u32 <= 0x7F,
    ensures
        white_space(c) <==> c == ' ' || c == '\t' || c == '\n' || c == '\r' || c as u32 == 11 || c as u32 == 12,
{
}

/// Small letters take the place of ASCII capital ones, 32 codes above them, and every other
/// character stays.
pub proof fn law_capitals_become_small(text: &str, lower: String, i: int)
    requires
        call_ensures(to_ascii_lowercase, (text,), lower),
        0 <= i < text@.len(),
    ensures
        lower@.len() == text@.len(),
        65 <= text@[i] as u32 <= 90 ==> lower@[i] as u32 == text@[i] as u32 + 32,
        (text@[i] as u32) < 65 || text@[i] as u32 > 90 ==> lower@[i] == text@[i],
{
}

/// What a character counts for as a hexadecimal digit.
pub open spec fn hexadecimal_digit(c: char) -> Option<nat> {
    if '0' <= c <= '9' {
        Some((c as nat - 48) as nat)
    } else if 'a' <= c <= 'f' {
        Some((c as nat - 97 + 10) as nat)
    } else if 'A' <= c <= 'F' {
        Some((c as nat - 65 + 10) as nat)
    } else {
        None
    }
}

/// A number is read digit by digit: a further digit counts behind ten or sixteen times what stands
/// before it, as far as it fits, and anything else is no number.
pub proof fn law_numbers_are_read_digit_by_digit(
    chars: &[char],
    before: &[char],
    c: char,
    radix: u32,
    value: u64,
    result: Result<u64, NumberError>,
)
    requires
        radix == 10 || radix == 16,
        before@.len() > 0,
        chars@ == before@.push(c),
        before@[0] != '+' || before@.len() > 1,
        call_ensures(parse_number, (before, radix), Ok::<u64, NumberError>(value)),
        call_ensures(parse_number, (chars, radix), result),
    ensures
        ({
            let digit = hexadecimal_digit(c);
            let fits = digit is Some && digit->Some_0 < radix;
            &&& fits && value * radix + digit->Some_0 <= 0xFFFF_FFFF_FFFF_FFFF ==> result == Ok::<
                u64,
                NumberError,
            >((value * radix + digit->Some_0) as u64)
            &&& fits && value * radix + digit->Some_0 > 0xFFFF_FFFF_FFFF_FFFF ==> result == Err::<
                u64,
                NumberError,
            >(NumberError::Overflow)
            &&& !fits ==> result == Err::<u64, NumberError>(NumberError::InvalidDigit)
        }),
{
    if before@[0] == '+' {
        assert(chars@.skip(1).drop_last() =~= before@.skip(1));
        assert(chars@.skip(1).last() == c);
    } else {
        assert(chars@.drop_last() =~= before@);
    }
}

/// A single digit counts for itself; no text is no number, and neither is a sign alone.
pub proof fn law_single_digits_are_numbers(
    chars: &[char],
    c: char,
    radix: u32,
    result: Result<u64, NumberError>,
    signed: Result<i64, NumberError>,
)
    requires
        radix == 10 || radix == 16,
        chars@.len() == 0 || chars@ == seq![c],
        call_ensures(parse_number, (chars, radix), result),
        call_ensures(parse_signed, (chars, radix), signed),
    ensures
        chars@.len() == 0 <==> result == Err::<u64, _>(NumberError::Empty),
        chars@.len() == 0 <==> signed == Err::<i64, _>(NumberError::Empty),
        chars@.len() == 1 ==> {
            let digit = hexadecimal_digit(c);
            let fits = digit is Some && digit->Some_0 < radix;
            &&& fits ==> result is Ok && result->Ok_0 == digit->Some_0
            &&& fits ==> signed is Ok && signed->Ok_0 == digit->Some_0
            &&& !fits ==> result == Err::<u64, _>(NumberError::InvalidDigit)
            &&& !fits ==> signed == Err::<i64, _>(NumberError::InvalidDigit)
        },
{
    if chars@.len() == 1 {
        assert(chars@.drop_last().len() == 0);
        assert(chars@.last() == c);
        let base = radix as nat;
        assert(0 * base == 0 && 0 * (base as int) == 0) by (nonlinear_arith);
        assert(digits_number(chars@.drop_last(), base) == Ok::<nat, NumberError>(0));
        assert(signed_digits(chars@.drop_last(), base, false) == Ok::<int, NumberError>(0));
        if let Some(digit) = digit_value(c, base) {
            assert(digits_number(chars@, base) == Ok::<nat, NumberError>(digit));
            assert(signed_digits(chars@, base, false) == Ok::<int, NumberError>(digit as int));
        }
    }
}

/// A plus sign changes nothing of an unsigned number, and a number behind `0x` is hexadecimal.
pub proof fn law_signs_and_marks(
    text: &str,
    rest: &[char],
    all: &[char],
    result: Result<u64, NumberError>,
    hexadecimal: Result<u64, NumberError>,
    decimal: Result<u64, NumberError>,
)
    requires
        all@ == text@,
        call_ensures(parse_marked, (text,), result),
        text@.len() >= 2 ==> rest@ == text@.skip(2),
        call_ensures(parse_number, (rest, 16), hexadecimal),
        call_ensures(parse_number, (all, 10), decimal),
    ensures
        text@.len() >= 2 && text@[0] == '0' && (text@[1] == 'x' || text@[1] == 'X') ==> result
            == hexadecimal,
        !(text@.len() >= 2 && text@[0] == '0' && (text@[1] == 'x' || text@[1] == 'X')) ==> result
            == decimal,
{
}

/// A signed number is read away from zero: a further digit adds to its size, and it stays within
/// 64 bits.
pub proof fn law_signed_numbers_are_read_digit_by_digit(
    chars: &[char],
    before: &[char],
    c: char,
    radix: u32,
    value: i64,
    result: Result<i64, NumberError>,
)
    requires
        radix == 10 || radix == 16,
        before@.len() > 0,
        before@.len() > 1 || (before@[0] != '+' && before@[0] != '-'),
        chars@ == before@.push(c),
        call_ensures(parse_signed, (before, radix), Ok::<i64, NumberError>(value)),
        call_ensures(parse_signed, (chars, radix), result),
    ensures
        ({
            let digit = hexadecimal_digit(c);
            let fits = digit is Some && digit->Some_0 < radix;
            let next = if before@[0] == '-' {
                value * radix - digit->Some_0
            } else {
                value * radix + digit->Some_0
            };
            &&& fits && -0x8000_0000_0000_0000 <= next <= 0x7FFF_FFFF_FFFF_FFFF ==> result == Ok::<
                i64,
                NumberError,
            >(next as i64)
            &&& fits && next > 0x7FFF_FFFF_FFFF_FFFF ==> result == Err::<i64, _>(
                NumberError::Overflow,
            )
            &&& fits && next < -0x8000_0000_0000_0000 ==> result == Err::<i64, _>(
                NumberError::Underflow,
            )
            &&& !fits ==> result == Err::<i64, _>(NumberError::InvalidDigit)
        }),
{
    if before@[0] == '+' || before@[0] == '-' {
        assert(chars@.skip(1).drop_last() =~= before@.skip(1));
        assert(chars@.skip(1).last() == c);
    } else {
        assert(chars@.drop_last() =~= before@);
    }
}

/// One text is found in another exactly if something stands around it there, and begins another
/// exactly if it is its beginning.
pub proof fn law_texts_are_found(
    whole: &str,
    part: &str,
    found: bool,
    begins: bool,
    same: bool,
)
    requires
        call_ensures(contains_text, (whole, part), found),
        call_ensures(begins_with, (whole, part), begins),
        call_ensures(same_text, (whole, part), same),
    ensures
        found <==> parts_around(whole@, part@),
        begins <==> part@.is_prefix_of(whole@),
        same <==> whole@ == part@,
{
    law_parts_stand_between_others(whole@, part@);
    if part@.len() <= whole@.len() {
        assert(whole@.subrange(0, part@.len() as int) =~= whole@.take(part@.len() as int));
    }
}

/// A character is found at its first place.
pub proof fn law_characters_are_found_first(chars: &[char], c: char, found: Option<usize>, at: int)
    requires
        call_ensures(find_char, (chars, c), found),
        0 <= at <= chars@.len(),
        at < chars@.len() ==> chars@[at] == c,
        forall|k: int| 0 <= k < at ==> chars@[k] != c,
    ensures
        at < chars@.len() ==> found is Some && found->Some_0 == at,
        at == chars@.len() ==> found is None,
{
    lemma_position(chars@, c, at);
}

/// Replacing puts one character in place of another wherever that stands, and changes nothing else.
pub proof fn law_characters_are_replaced(text: &str, from: char, to: char, result: String, i: int)
    requires
        call_ensures(replace_char, (text, from, to), result),
        0 <= i < text@.len(),
    ensures
        result@.len() == text@.len(),
        text@[i] == from ==> result@[i] == to,
        text@[i] != from ==> result@[i] == text@[i],
{
}

/// Joining puts the separator between each two texts, and nowhere else.
pub proof fn law_texts_are_joined(
    strings: Vec<String>,
    before: Vec<String>,
    separator: &str,
    result: String,
    shorter: String,
)
    requires
        strings@.len() > 0,
        before@ == strings@.drop_last(),
        call_ensures(join_all, (&strings, separator), result),
        call_ensures(join_all, (&before, separator), shorter),
    ensures
        strings@.len() == 1 ==> result@ == strings@[0]@,
        strings@.len() > 1 ==> result@ == shorter@ + separator@ + strings@.last()@,
{
    assert(texts(strings@).drop_last() =~= texts(before@));
    assert(texts(strings@).last() == strings@.last()@);
    assert(texts(strings@).len() == strings@.len());
    assert(texts(strings@)[0] == strings@[0]@);
}

/// The white space a text ends with is removed, and nothing in front of it.
pub proof fn law_ends_are_trimmed(text: &str, result: String)
    requires
        call_ensures(trim_end, (text,), result),
    ensures
        result@.is_prefix_of(text@),
        forall|i: int| result@.len() <= i < text@.len() ==> white_space(#[trigger] text@[i]),
        result@.len() > 0 ==> !white_space(result@.last()),
{
    lemma_trimmed_end_splits(text@);
    let after = text@.skip(result@.len() as int);
    assert forall|i: int| result@.len() <= i < text@.len() implies white_space(
        #[trigger] text@[i],
    ) by {
        assert(after[i - result@.len()] == text@[i]);
    }
}

/// A negative number is written like its size, behind a minus sign, any other like its size alone.
pub proof fn law_negative_numbers_have_a_sign(
    text: &mut String,
    value: i64,
    more: &mut String,
    magnitude: u64,
)
    requires
        value < 0 ==> magnitude == -value && old(more)@ == old(text)@.push('-'),
        value >= 0 ==> magnitude == value && old(more)@ == old(text)@,
        call_ensures(push_signed, (text, value), ()),
        call_ensures(push_decimal, (more, magnitude), ()),
    ensures
        final(text)@ == final(more)@,
{
    assert(old(text)@.push('-') + decimal(magnitude as nat) =~= old(text)@ + (seq!['-'] + decimal(
        magnitude as nat,
    )));
}

/// Hexadecimal digits count by sixteens: the last digit is the remainder, with a letter from ten on,
/// and the quotient stands before it.
pub proof fn law_hexadecimals_count_by_sixteens(
    upper: &mut String,
    upper_front: &mut String,
    lower: &mut String,
    lower_front: &mut String,
    value: u64,
    width: usize,
)
    requires
        width > 0,
        old(upper_front)@ == old(upper)@ && old(lower_front)@ == old(lower)@,
        call_ensures(push_hex_upper, (upper, value, width), ()),
        call_ensures(push_hex_upper, (upper_front, value / 16, (width - 1) as usize), ()),
        call_ensures(push_hex_lower, (lower, value, width), ()),
        call_ensures(push_hex_lower, (lower_front, value / 16, (width - 1) as usize), ()),
    ensures
        ({
            let digit = value as nat % 16;
            &&& final(upper)@ == final(upper_front)@.push(
                if digit < 10 {
                    (48 + digit) as char
                } else {
                    (65 + digit - 10) as char
                },
            )
            &&& final(lower)@ == final(lower_front)@.push(
                if digit < 10 {
                    (48 + digit) as char
                } else {
                    (97 + digit - 10) as char
                },
            )
        }),
{
    assert(final(upper)@ =~= final(upper_front)@.push(final(upper)@.last()));
    assert(final(lower)@ =~= final(lower_front)@.push(final(lower)@.last()));
}

/// Hexadecimals without leading zeros have as many digits as the number needs, and one at least.
pub proof fn law_plain_hexadecimals_have_no_leading_zeros(
    plain: &mut String,
    front: &mut String,
    value: u64,
)
    requires
        old(front)@ == old(plain)@,
        call_ensures(push_hex_plain, (plain, value), ()),
        call_ensures(push_hex_plain, (front, value / 16), ()),
    ensures
        ({
            let digit = value as nat % 16;
            let last = if digit < 10 {
                (48 + digit) as char
            } else {
                (65 + digit - 10) as char
            };
            &&& value < 16 ==> final(plain)@ == old(plain)@.push(last)
            &&& value >= 16 ==> final(plain)@ == final(front)@.push(last)
        }),
{
    assert(final(plain)@ =~= final(plain)@.drop_last().push(final(plain)@.last()));
    if value >= 16 {
        assert(final(plain)@ =~= final(front)@.push(hex_char(value as nat % 16, 65)));
    } else {
        assert(final(plain)@ =~= old(plain)@.push(hex_char(value as nat, 65)));
    }
}

/// Texts are put together in order, places in lists by their index, and lists text by text.
pub proof fn law_texts_are_put_together(
    left: &str,
    right: &str,
    joined: String,
    index: usize,
    place: String,
    number: &mut String,
    strings: Vec<String>,
    copy: Vec<String>,
    count: usize,
    found: bool,
)
    requires
        count <= strings@.len(),
        call_ensures(join, (left, right), joined),
        call_ensures(format_indexed, (left, index), place),
        old(number)@ == left@ + "["@,
        call_ensures(push_decimal, (number, index as u64), ()),
        call_ensures(clone_texts, (&strings,), copy),
        call_ensures(occurs_in, (&strings, count, right), found),
    ensures
        joined@ == left@ + right@,
        place@ == final(number)@ + "]"@,
        copy@.len() == strings@.len(),
        forall|i: int| 0 <= i < strings@.len() ==> (#[trigger] copy@[i])@ == strings@[i]@,
        found ==> exists|i: int| 0 <= i < count && (#[trigger] strings@[i])@ == right@,
{
    assert(texts(copy@).len() == copy@.len());
    assert(texts(strings@).len() == strings@.len());
    assert forall|i: int| 0 <= i < strings@.len() implies (#[trigger] copy@[i])@ == strings@[i]@ by {
        assert(texts(copy@)[i] == texts(strings@)[i]);
    }
    if found {
        let i = choose|i: int| 0 <= i < count && #[trigger] texts(strings@)[i] == right@;
        assert(strings@[i]@ == right@);
    }
}

} // verus!
