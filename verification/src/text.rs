//! Text as users type it and as the wire carries it.

use std::string::FromUtf8Error;
use vstd::prelude::*;
use vstd::utf8::{decode_utf8, encode_utf8, valid_utf8};

verus! {

/// `std::string::FromUtf8Error`, carried through as it is. Nothing is claimed of
/// it.
#[verifier::external_type_specification]
#[verifier::external_body]
pub struct ExFromUtf8Error(std::string::FromUtf8Error);

/// `String::from_utf8`: gives the text that the bytes encode, and an error
/// exactly when they are not well-formed UTF-8.
pub assume_specification[ std::string::String::from_utf8 ](vec: Vec<u8>) -> (decoded: Result<
    String,
    FromUtf8Error,
>)
    ensures
        match decoded {
            Ok(string) => valid_utf8(vec@) && string@ == decode_utf8(vec@),
            Err(_) => !valid_utf8(vec@),
        },
;

/// The characters of a text, in order.
pub(crate) fn chars_of(text: &str) -> (chars: Vec<char>)
    ensures
        chars@ == text@,
{
    let mut chars: Vec<char> = Vec::new();
    for c in it: text.chars()
        invariant
            chars@ == it.seq().take(it.index()),
            it.seq() == text@,
    {
        chars.push(c);
    }
    chars
}

/// A set of characters that may be cut off the ends of a text.
#[derive(Clone, Copy, PartialEq, Eq, Structural)]
pub enum CutSet {
    /// The white space of Unicode.
    WhiteSpace,
    /// The character with the code zero.
    Nul,
}

/// The characters with the Unicode property `White_Space`.
pub open spec fn is_white_space(c: char) -> bool {
    let code = c as u32;
    ||| 0x9 <= code <= 0xd
    ||| code == 0x20
    ||| code == 0x85
    ||| code == 0xa0
    ||| code == 0x1680
    ||| 0x2000 <= code <= 0x200a
    ||| code == 0x2028
    ||| code == 0x2029
    ||| code == 0x202f
    ||| code == 0x205f
    ||| code == 0x3000
}

impl CutSet {
    /// Whether the set holds a character.
    pub open spec fn has(self, c: char) -> bool {
        match self {
            CutSet::WhiteSpace => is_white_space(c),
            CutSet::Nul => c == '\0',
        }
    }

    fn contains(self, c: char) -> (found: bool)
        ensures
            found == self.has(c),
    {
        match self {
            CutSet::WhiteSpace => {
                let code: u32 = c as u32;
                (0x9 <= code && code <= 0xd) || code == 0x20 || code == 0x85 || code == 0xa0
                    || code == 0x1680 || (0x2000 <= code && code <= 0x200a) || code == 0x2028
                    || code == 0x2029 || code == 0x202f || code == 0x205f || code == 0x3000
            },
            CutSet::Nul => c == '\0',
        }
    }
}

/// A text without its leading characters from a set.
pub open spec fn cut_front(text: Seq<char>, set: CutSet) -> Seq<char>
    decreases text.len(),
{
    if text.len() > 0 && set.has(text[0]) {
        cut_front(text.drop_first(), set)
    } else {
        text
    }
}

/// A text without its trailing characters from a set.
pub open spec fn cut_back(text: Seq<char>, set: CutSet) -> Seq<char>
    decreases text.len(),
{
    if text.len() > 0 && set.has(text.last()) {
        cut_back(text.drop_last(), set)
    } else {
        text
    }
}

/// A text without its leading and trailing characters from a set.
pub open spec fn cut(text: Seq<char>, set: CutSet) -> Seq<char> {
    cut_back(cut_front(text, set), set)
}

/// A text without the white space around it.
pub open spec fn trimmed(text: Seq<char>) -> Seq<char> {
    cut(text, CutSet::WhiteSpace)
}

proof fn lemma_cut_front(text: Seq<char>, set: CutSet, start: int)
    requires
        0 <= start <= text.len(),
        forall|i: int| 0 <= i < start ==> set.has(#[trigger] text[i]),
        start < text.len() ==> !set.has(text[start]),
    ensures
        cut_front(text, set) == text.skip(start),
    decreases start,
{
    if start > 0 {
        let rest = text.drop_first();
        assert forall|i: int| 0 <= i < start - 1 implies set.has(#[trigger] rest[i]) by {
            assert(rest[i] == text[i + 1]);
        }
        lemma_cut_front(rest, set, start - 1);
        assert(set.has(text[0]));
        assert(rest.skip(start - 1) =~= text.skip(start));
    } else {
        assert(text.skip(0) =~= text);
    }
}

proof fn lemma_cut_back(text: Seq<char>, set: CutSet, end: int)
    requires
        0 <= end <= text.len(),
        forall|i: int| end <= i < text.len() ==> set.has(#[trigger] text[i]),
        end > 0 ==> !set.has(text[end - 1]),
    ensures
        cut_back(text, set) == text.take(end),
    decreases text.len(),
{
    if end < text.len() {
        let rest = text.drop_last();
        assert forall|i: int| end <= i < rest.len() implies set.has(#[trigger] rest[i]) by {
            assert(rest[i] == text[i]);
        }
        lemma_cut_back(rest, set, end);
        assert(set.has(text.last()));
        assert(rest.take(end) =~= text.take(end));
    } else {
        assert(text.take(end) =~= text);
    }
}

/// A text without its leading and trailing characters from a set.
pub fn cut_ends(text: &str, set: CutSet) -> (rest: &str)
    ensures
        rest@ == cut(text@, set),
{
    let chars = chars_of(text);
    let mut start: usize = 0;
    while start < chars.len() && set.contains(chars[start])
        invariant
            start <= chars.len(),
            forall|i: int| 0 <= i < start ==> set.has(#[trigger] chars@[i]),
        ensures
            start <= chars.len(),
            forall|i: int| 0 <= i < start ==> set.has(#[trigger] chars@[i]),
            start < chars.len() ==> !set.has(chars@[start as int]),
        decreases chars.len() - start,
    {
        start += 1;
    }
    let mut end: usize = chars.len();
    while end > start && set.contains(chars[end - 1])
        invariant
            start <= end <= chars.len(),
            forall|i: int| end <= i < chars.len() ==> set.has(#[trigger] chars@[i]),
        ensures
            start <= end <= chars.len(),
            forall|i: int| end <= i < chars.len() ==> set.has(#[trigger] chars@[i]),
            end > start ==> !set.has(chars@[end - 1]),
        decreases end - start,
    {
        end -= 1;
    }
    proof {
        lemma_cut_front(text@, set, start as int);
        let tail = text@.skip(start as int);
        assert forall|i: int| end - start <= i < tail.len() implies set.has(#[trigger] tail[i]) by {
            assert(tail[i] == text@[i + start]);
        }
        lemma_cut_back(tail, set, end - start);
        assert(tail.take(end - start) =~= text@.subrange(start as int, end as int));
    }
    text.substring_char(start, end)
}

/// A text without the white space around it.
pub fn trim(text: &str) -> (rest: &str)
    ensures
        rest@ == trimmed(text@),
{
    cut_ends(text, CutSet::WhiteSpace)
}

/// An ASCII letter in lower case; any other character as it is.
pub open spec fn ascii_lower(c: char) -> char {
    if 'A' <= c <= 'Z' {
        (c as u8 + 32) as char
    } else {
        c
    }
}

/// A text with its ASCII letters in lower case.
pub open spec fn lowered(text: Seq<char>) -> Seq<char> {
    text.map_values(|c: char| ascii_lower(c))
}

fn lower(c: char) -> (l: char)
    ensures
        l == ascii_lower(c),
{
    if 'A' <= c && c <= 'Z' {
        let code: u8 = c as u8;
        (code + 32) as char
    } else {
        c
    }
}

/// Whether a text is a given word once its ASCII letters are in lower case.
pub fn is_word(text: &str, word: &str) -> (same: bool)
    ensures
        same == (lowered(text@) == word@),
{
    let chars = chars_of(text);
    let wanted = chars_of(word);
    if chars.len() != wanted.len() {
        assert(lowered(text@).len() != word@.len());
        return false;
    }
    let mut i: usize = 0;
    while i < chars.len()
        invariant
            i <= chars.len() == wanted.len(),
            chars@ == text@,
            wanted@ == word@,
            forall|j: int| 0 <= j < i ==> lowered(text@)[j] == word@[j],
        decreases chars.len() - i,
    {
        if lower(chars[i]) != wanted[i] {
            assert(lowered(text@)[i as int] != word@[i as int]);
            return false;
        }
        i += 1;
    }
    assert(lowered(text@) =~= word@);
    true
}

/// The number of characters before the first space of a text, or all of them
/// if it has none.
pub open spec fn space_at(text: Seq<char>) -> nat
    decreases text.len(),
{
    if text.len() == 0 || text[0] == ' ' {
        0
    } else {
        1 + space_at(text.drop_first())
    }
}

/// The parts of a text before and after its first space.
pub open spec fn split_at_space(text: Seq<char>) -> Option<(Seq<char>, Seq<char>)> {
    if space_at(text) < text.len() {
        Some((text.take(space_at(text) as int), text.skip(space_at(text) as int + 1)))
    } else {
        None
    }
}

proof fn lemma_space_at(text: Seq<char>, at: int)
    requires
        0 <= at <= text.len(),
        forall|i: int| 0 <= i < at ==> #[trigger] text[i] != ' ',
        at < text.len() ==> text[at] == ' ',
    ensures
        space_at(text) == at,
    decreases at,
{
    if at > 0 {
        let rest = text.drop_first();
        assert forall|i: int| 0 <= i < at - 1 implies #[trigger] rest[i] != ' ' by {
            assert(rest[i] == text[i + 1]);
        }
        assert(text[0] != ' ');
        lemma_space_at(rest, at - 1);
    }
}

/// The parts of a text before and after its first space.
pub fn split_space(text: &str) -> (parts: Option<(&str, &str)>)
    ensures
        match parts {
            Some((head, tail)) => split_at_space(text@) == Some((head@, tail@)),
            None => split_at_space(text@) is None,
        },
{
    let chars = chars_of(text);
    let mut at: usize = 0;
    while at < chars.len() && chars[at] != ' '
        invariant
            at <= chars.len(),
            forall|i: int| 0 <= i < at ==> #[trigger] chars@[i] != ' ',
        ensures
            at <= chars.len(),
            forall|i: int| 0 <= i < at ==> #[trigger] chars@[i] != ' ',
            at < chars.len() ==> chars@[at as int] == ' ',
        decreases chars.len() - at,
    {
        at += 1;
    }
    proof {
        lemma_space_at(text@, at as int);
    }
    if at < chars.len() {
        assert(text@.take(at as int) =~= text@.subrange(0, at as int));
        assert(text@.skip(at + 1) =~= text@.subrange(at + 1, text@.len() as int));
        Some((text.substring_char(0, at), text.substring_char(at + 1, chars.len())))
    } else {
        None
    }
}

/// Why a text is not a number within bounds.
#[derive(Debug, Clone, Copy, PartialEq, Eq, Structural)]
pub enum NumberError {
    /// There is nothing to read.
    Empty,
    /// Something other than a decimal digit was met.
    InvalidDigit,
    /// The number is beyond the bound.
    TooLarge,
}

impl NumberError {
    /// The error in words.
    pub open spec fn words(self) -> Seq<char> {
        match self {
            NumberError::Empty => "cannot parse integer from empty string"@,
            NumberError::InvalidDigit => "invalid digit found in string"@,
            NumberError::TooLarge => "number too large to fit in target type"@,
        }
    }

    /// The error in words.
    pub fn message(self) -> (message: String)
        ensures
            message@ == self.words(),
    {
        match self {
            NumberError::Empty => "cannot parse integer from empty string".to_string(),
            NumberError::InvalidDigit => "invalid digit found in string".to_string(),
            NumberError::TooLarge => "number too large to fit in target type".to_string(),
        }
    }
}

/// Whether a character is one of the ten decimal digits.
pub open spec fn is_digit(c: char) -> bool {
    '0' <= c <= '9'
}

/// The number that a run of digits stands for, as far as it stays within a
/// bound. The leftmost fault decides which error it is.
pub open spec fn digits_value(digits: Seq<char>, max: nat) -> Result<nat, NumberError>
    decreases digits.len(),
{
    if digits.len() == 0 {
        Ok(0)
    } else {
        match digits_value(digits.drop_last(), max) {
            Err(error) => Err(error),
            Ok(value) => {
                let next = 10 * value + (digits.last() as u32 - '0' as u32);
                if !is_digit(digits.last()) {
                    Err(NumberError::InvalidDigit)
                } else if next > max {
                    Err(NumberError::TooLarge)
                } else {
                    Ok(next as nat)
                }
            },
        }
    }
}

/// The number that a text stands for: digits, after a plus sign if there is
/// one.
pub open spec fn number_value(text: Seq<char>, max: nat) -> Result<nat, NumberError> {
    if text.len() == 0 {
        Err(NumberError::Empty)
    } else if text[0] == '+' {
        if text.len() == 1 {
            Err(NumberError::InvalidDigit)
        } else {
            digits_value(text.drop_first(), max)
        }
    } else {
        digits_value(text, max)
    }
}

proof fn lemma_digits_fault(digits: Seq<char>, upto: int, max: nat)
    requires
        0 <= upto <= digits.len(),
        digits_value(digits.take(upto), max) is Err,
    ensures
        digits_value(digits, max) == digits_value(digits.take(upto), max),
    decreases digits.len(),
{
    if upto < digits.len() {
        assert(digits.drop_last().take(upto) =~= digits.take(upto));
        lemma_digits_fault(digits.drop_last(), upto, max);
    } else {
        assert(digits.take(upto) =~= digits);
    }
}

/// Reads a number of at most `max` from a text.
pub fn parse_number(text: &str, max: u32) -> (number: Result<u32, NumberError>)
    ensures
        match number {
            Ok(value) => number_value(text@, max as nat) == Ok::<nat, NumberError>(value as nat),
            Err(error) => number_value(text@, max as nat) == Err::<nat, NumberError>(error),
        },
{
    let chars = chars_of(text);
    if chars.len() == 0 {
        return Err(NumberError::Empty);
    }
    let start: usize = if chars[0] == '+' { 1 } else { 0 };
    if start == chars.len() {
        return Err(NumberError::InvalidDigit);
    }
    let ghost digits = text@.skip(start as int);
    assert(start == 1 ==> digits =~= text@.drop_first());
    assert(start == 0 ==> digits =~= text@);
    let mut value: u64 = 0;
    let mut i: usize = start;
    assert(digits.take(0) =~= Seq::<char>::empty());
    while i < chars.len()
        invariant
            start <= i <= chars.len(),
            chars@ == text@,
            digits == text@.skip(start as int),
            number_value(text@, max as nat) == digits_value(digits, max as nat),
            value <= max,
            digits_value(digits.take(i - start), max as nat) == Ok::<nat, NumberError>(
                value as nat,
            ),
        decreases chars.len() - i,
    {
        let c = chars[i];
        proof {
            let prefix = digits.take(i - start + 1);
            assert(prefix.drop_last() =~= digits.take(i - start));
            assert(prefix.last() == c);
            if digits_value(prefix, max as nat) is Err {
                lemma_digits_fault(digits, i - start + 1, max as nat);
            }
        }
        if !('0' <= c && c <= '9') {
            return Err(NumberError::InvalidDigit);
        }
        let next: u64 = 10 * value + (c as u32 - '0' as u32) as u64;
        if next > max as u64 {
            return Err(NumberError::TooLarge);
        }
        value = next;
        i += 1;
    }
    assert(digits.take(i - start) =~= digits);
    Ok(value as u32)
}

/// The decimal digits of a number, without leading zeros.
pub open spec fn decimal(number: nat) -> Seq<char>
    decreases number,
{
    if number < 10 {
        seq![digit_char(number)]
    } else {
        decimal(number / 10).push(digit_char(number % 10))
    }
}

/// The character for a digit below ten.
pub open spec fn digit_char(digit: nat) -> char {
    (digit + '0' as u32) as char
}

fn digit_text(digit: u32) -> (text: &'static str)
    requires
        digit < 10,
    ensures
        text@ == seq![digit_char(digit as nat)],
{
    proof {
        reveal_strlit("0");
        reveal_strlit("1");
        reveal_strlit("2");
        reveal_strlit("3");
        reveal_strlit("4");
        reveal_strlit("5");
        reveal_strlit("6");
        reveal_strlit("7");
        reveal_strlit("8");
        reveal_strlit("9");
    }
    let text = match digit {
        0 => "0",
        1 => "1",
        2 => "2",
        3 => "3",
        4 => "4",
        5 => "5",
        6 => "6",
        7 => "7",
        8 => "8",
        _ => "9",
    };
    assert(text@ =~= seq![digit_char(digit as nat)]);
    text
}

/// Appends the decimal digits of a number to a text.
pub fn append_number(text: &mut String, number: u32)
    ensures
        final(text)@ == old(text)@ + decimal(number as nat),
    decreases number,
{
    if number >= 10 {
        append_number(text, number / 10);
    }
    text.append(digit_text(number % 10));
    assert(text@ =~= old(text)@ + decimal(number as nat));
}

proof fn lemma_cut_front_shape(text: Seq<char>, set: CutSet) -> (start: int)
    ensures
        0 <= start <= text.len(),
        cut_front(text, set) == text.skip(start),
        start < text.len() ==> !set.has(text[start]),
        forall|i: int| 0 <= i < start ==> set.has(#[trigger] text[i]),
    decreases text.len(),
{
    if text.len() > 0 && set.has(text[0]) {
        let rest = text.drop_first();
        let inner = lemma_cut_front_shape(rest, set);
        assert(rest.skip(inner) =~= text.skip(inner + 1));
        assert forall|i: int| 0 <= i < inner + 1 implies set.has(#[trigger] text[i]) by {
            if i > 0 {
                assert(text[i] == rest[i - 1]);
            }
        }
        inner + 1
    } else {
        assert(text.skip(0) =~= text);
        0
    }
}

proof fn lemma_cut_back_shape(text: Seq<char>, set: CutSet) -> (end: int)
    ensures
        0 <= end <= text.len(),
        cut_back(text, set) == text.take(end),
        end > 0 ==> !set.has(text[end - 1]),
        forall|i: int| end <= i < text.len() ==> set.has(#[trigger] text[i]),
    decreases text.len(),
{
    if text.len() > 0 && set.has(text.last()) {
        let rest = text.drop_last();
        let end = lemma_cut_back_shape(rest, set);
        assert(rest.take(end) =~= text.take(end));
        assert forall|i: int| end <= i < text.len() implies set.has(#[trigger] text[i]) by {
            if i < rest.len() {
                assert(text[i] == rest[i]);
            }
        }
        end
    } else {
        assert(text.take(text.len() as int) =~= text);
        text.len() as int
    }
}

/// Cutting takes characters of the set from the two ends, and only those; it
/// leaves none of them at the ends, and cutting once more changes nothing.
pub proof fn law_cut(text: Seq<char>, set: CutSet)
    ensures
        exists|start: int, end: int|
            {
                &&& 0 <= start <= end <= text.len()
                &&& cut(text, set) == #[trigger] text.subrange(start, end)
                &&& forall|i: int|
                    0 <= i < start || end <= i < text.len() ==> set.has(#[trigger] text[i])
            },
        cut(text, set).len() > 0 ==> !set.has(cut(text, set)[0]) && !set.has(
            cut(text, set).last(),
        ),
        cut(cut(text, set), set) == cut(text, set),
{
    let start = lemma_cut_front_shape(text, set);
    let tail = text.skip(start);
    let length = lemma_cut_back_shape(tail, set);
    let rest = cut(text, set);
    assert(rest =~= text.subrange(start, start + length));
    assert forall|i: int| 0 <= i < start || start + length <= i < text.len() implies set.has(
        #[trigger] text[i],
    ) by {
        if i >= start {
            assert(text[i] == tail[i - start]);
        }
    }
    if rest.len() > 0 {
        assert(rest[0] == text[start]);
        assert(rest.last() == tail[length - 1]);
    }
    lemma_cut_front(rest, set, 0);
    assert(rest.skip(0) =~= rest);
    lemma_cut_back(rest, set, rest.len() as int);
    assert(rest.take(rest.len() as int) =~= rest);
}

/// A text with characters of a set at neither end comes out unchanged when
/// such characters are put behind it and cut off again.
pub proof fn law_cut_undoes_padding(text: Seq<char>, padding: Seq<char>, set: CutSet)
    requires
        text.len() > 0 ==> !set.has(text[0]) && !set.has(text.last()),
        forall|i: int| 0 <= i < padding.len() ==> set.has(#[trigger] padding[i]),
    ensures
        cut(text + padding, set) == text,
{
    let padded = text + padding;
    if text.len() == 0 {
        assert(padded =~= padding);
        lemma_cut_front(padded, set, padded.len() as int);
        assert(padded.skip(padded.len() as int) =~= text);
        lemma_cut_back(text, set, 0);
        assert(text.take(0) =~= text);
    } else {
        assert(padded[0] == text[0]);
        lemma_cut_front(padded, set, 0);
        assert(padded.skip(0) =~= padded);
        assert forall|i: int| text.len() <= i < padded.len() implies set.has(
            #[trigger] padded[i],
        ) by {
            assert(padded[i] == padding[i - text.len()]);
        }
        assert(padded[text.len() - 1] == text.last());
        lemma_cut_back(padded, set, text.len() as int);
        assert(padded.take(text.len() as int) =~= text);
    }
}

proof fn lemma_digits_of_decimal(number: nat, max: nat)
    requires
        number <= max,
    ensures
        decimal(number).len() > 0,
        forall|i: int| 0 <= i < decimal(number).len() ==> is_digit(#[trigger] decimal(number)[i]),
        digits_value(decimal(number), max) == Ok::<nat, NumberError>(number),
    decreases number,
{
    let digits = decimal(number);
    if number < 10 {
        assert(digits.drop_last() =~= Seq::<char>::empty());
        assert(digits_value(digits.drop_last(), max) == Ok::<nat, NumberError>(0));
        assert(digits.last() == digit_char(number));
    } else {
        lemma_digits_of_decimal(number / 10, max);
        assert(digits.drop_last() =~= decimal(number / 10));
        assert(digits.last() == digit_char(number % 10));
    }
}

/// A number that is written out in decimal digits is read back unchanged, and
/// it is written with digits alone.
pub proof fn law_number_read_back(number: nat, max: nat)
    requires
        number <= max,
    ensures
        number_value(decimal(number), max) == Ok::<nat, NumberError>(number),
        decimal(number).len() > 0,
        forall|i: int| 0 <= i < decimal(number).len() ==> is_digit(#[trigger] decimal(number)[i]),
{
    lemma_digits_of_decimal(number, max);
    assert(is_digit(decimal(number)[0]));
}

proof fn lemma_digits_within_bound(digits: Seq<char>, max: nat)
    ensures
        digits_value(digits, max) matches Ok(value) ==> value <= max,
    decreases digits.len(),
{
    if digits.len() > 0 {
        lemma_digits_within_bound(digits.drop_last(), max);
    }
}

/// A number that is read from a text is within the bound.
pub proof fn law_number_within_bound(text: Seq<char>, max: nat)
    ensures
        number_value(text, max) matches Ok(value) ==> value <= max,
{
    lemma_digits_within_bound(text, max);
    lemma_digits_within_bound(text.drop_first(), max);
}

proof fn lemma_digits_are_digits(digits: Seq<char>, max: nat)
    ensures
        digits_value(digits, max) is Ok ==> forall|i: int|
            0 <= i < digits.len() ==> is_digit(#[trigger] digits[i]),
    decreases digits.len(),
{
    if digits.len() > 0 && digits_value(digits, max) is Ok {
        let front = digits.drop_last();
        lemma_digits_are_digits(front, max);
        assert forall|i: int| 0 <= i < digits.len() implies is_digit(#[trigger] digits[i]) by {
            if i < front.len() {
                assert(digits[i] == front[i]);
            }
        }
    }
}

/// A text without a plus sign from which a number is read is made of digits.
pub proof fn law_number_has_digits(text: Seq<char>, max: nat)
    requires
        number_value(text, max) is Ok,
        text[0] != '+',
    ensures
        forall|i: int| 0 <= i < text.len() ==> is_digit(#[trigger] text[i]),
{
    lemma_digits_are_digits(text, max);
}

/// A text that is split at a space is the first part, the space and the second
/// part, and the first part has no space; only a text without a space is not
/// split.
pub proof fn law_split_at_space(text: Seq<char>)
    ensures
        match split_at_space(text) {
            Some((head, tail)) => text == head + seq![' '] + tail && !head.contains(' '),
            None => !text.contains(' '),
        },
{
    lemma_space_at_shape(text);
    let at = space_at(text) as int;
    if at < text.len() {
        assert(text =~= text.take(at) + seq![' '] + text.skip(at + 1));
    }
}

proof fn lemma_space_at_shape(text: Seq<char>)
    ensures
        space_at(text) <= text.len(),
        forall|i: int| 0 <= i < space_at(text) ==> #[trigger] text[i] != ' ',
        space_at(text) < text.len() ==> text[space_at(text) as int] == ' ',
    decreases text.len(),
{
    if text.len() > 0 && text[0] != ' ' {
        let rest = text.drop_first();
        lemma_space_at_shape(rest);
        assert forall|i: int| 0 <= i < space_at(text) implies #[trigger] text[i] != ' ' by {
            if i > 0 {
                assert(text[i] == rest[i - 1]);
            }
        }
    }
}

/// Texts are encoded character by character: the bytes of two texts in a row
/// are the bytes of the one, then those of the other.
pub proof fn law_encode_concat(front: Seq<char>, back: Seq<char>)
    ensures
        encode_utf8(front + back) == encode_utf8(front) + encode_utf8(back),
    decreases front.len(),
{
    if front.len() == 0 {
        assert(front + back =~= back);
        assert(encode_utf8(front) =~= Seq::<u8>::empty());
        assert(encode_utf8(front) + encode_utf8(back) =~= encode_utf8(back));
    } else {
        law_encode_concat(front.drop_first(), back);
        assert((front + back).drop_first() =~= front.drop_first() + back);
        assert((front + back)[0] == front[0]);
        assert(encode_utf8(front + back) =~= encode_utf8(front) + encode_utf8(back));
    }
}

/// Cutting makes no text longer, in bytes.
pub proof fn law_cut_shortens(text: Seq<char>, set: CutSet)
    ensures
        encode_utf8(cut(text, set)).len() <= encode_utf8(text).len(),
{
    law_cut(text, set);
    let (start, end) = choose|start: int, end: int|
        0 <= start <= end <= text.len() && cut(text, set) == #[trigger] text.subrange(start, end);
    let front = text.take(start);
    let back = text.skip(end);
    assert(text =~= front + cut(text, set) + back);
    law_encode_concat(front + cut(text, set), back);
    law_encode_concat(front, cut(text, set));
}

/// What may be cut off a text are the 25 white space characters of Unicode, or the
/// character with the code zero.
pub proof fn law_cut_characters(c: char)
    ensures
        is_white_space(c) <==> seq![
            0x9u32,
            0xau32,
            0xbu32,
            0xcu32,
            0xdu32,
            0x20u32,
            0x85u32,
            0xa0u32,
            0x1680u32,
            0x2000u32,
            0x2001u32,
            0x2002u32,
            0x2003u32,
            0x2004u32,
            0x2005u32,
            0x2006u32,
            0x2007u32,
            0x2008u32,
            0x2009u32,
            0x200au32,
            0x2028u32,
            0x2029u32,
            0x202fu32,
            0x205fu32,
            0x3000u32,
        ].contains(c as u32),
        CutSet::WhiteSpace.has(c) <==> is_white_space(c),
        CutSet::Nul.has(c) <==> c as u32 == 0,
{
    let codes = seq![
        0x9u32,
        0xau32,
        0xbu32,
        0xcu32,
        0xdu32,
        0x20u32,
        0x85u32,
        0xa0u32,
        0x1680u32,
        0x2000u32,
        0x2001u32,
        0x2002u32,
        0x2003u32,
        0x2004u32,
        0x2005u32,
        0x2006u32,
        0x2007u32,
        0x2008u32,
        0x2009u32,
        0x200au32,
        0x2028u32,
        0x2029u32,
        0x202fu32,
        0x205fu32,
        0x3000u32,
    ];
    assert(codes[0] == 0x9);
    assert(codes[1] == 0xa);
    assert(codes[2] == 0xb);
    assert(codes[3] == 0xc);
    assert(codes[4] == 0xd);
    assert(codes[5] == 0x20);
    assert(codes[6] == 0x85);
    assert(codes[7] == 0xa0);
    assert(codes[8] == 0x1680);
    assert(codes[9] == 0x2000);
    assert(codes[10] == 0x2001);
    assert(codes[11] == 0x2002);
    assert(codes[12] == 0x2003);
    assert(codes[13] == 0x2004);
    assert(codes[14] == 0x2005);
    assert(codes[15] == 0x2006);
    assert(codes[16] == 0x2007);
    assert(codes[17] == 0x2008);
    assert(codes[18] == 0x2009);
    assert(codes[19] == 0x200a);
    assert(codes[20] == 0x2028);
    assert(codes[21] == 0x2029);
    assert(codes[22] == 0x202f);
    assert(codes[23] == 0x205f);
    assert(codes[24] == 0x3000);
}

/// Trimming keeps all characters from the first to the last one that is not white
/// space, and nothing of a text that has no other.
pub proof fn law_trimmed(text: Seq<char>)
    ensures
        exists|start: int, end: int|
            {
                &&& 0 <= start <= end <= text.len()
                &&& trimmed(text) == #[trigger] text.subrange(start, end)
                &&& start < end ==> !is_white_space(text[start]) && !is_white_space(text[end - 1])
                &&& forall|i: int|
                    0 <= i < start || end <= i < text.len() ==> is_white_space(#[trigger] text[i])
            },
{
    let set = CutSet::WhiteSpace;
    law_cut(text, set);
    let (start, end) = choose|start: int, end: int|
        {
            &&& 0 <= start <= end <= text.len()
            &&& cut(text, set) == #[trigger] text.subrange(start, end)
            &&& forall|i: int|
                0 <= i < start || end <= i < text.len() ==> set.has(#[trigger] text[i])
        };
    assert(trimmed(text) == text.subrange(start, end));
    if start < end {
        assert(trimmed(text)[0] == text[start]);
        assert(trimmed(text).last() == text[end - 1]);
    }
    assert forall|i: int| 0 <= i < start || end <= i < text.len() implies is_white_space(
        #[trigger] text[i],
    ) by {
        assert(set.has(text[i]));
    }
}

/// Lowering changes the 26 capital letters of ASCII, each to the letter 32 places
/// further on, and no other character.
pub proof fn law_lowered(text: Seq<char>)
    ensures
        lowered(text).len() == text.len(),
        forall|i: int|
            0 <= i < text.len() ==> (#[trigger] lowered(text)[i]) as u32 == text[i] as u32 + if 65
                <= text[i] as u32 <= 90 {
                32int
            } else {
                0
            },
{
}

/// The ten digits are the characters with the codes 48 to 57.
pub proof fn law_digit(c: char)
    ensures
        is_digit(c) <==> 48 <= c as u32 <= 57,
{
}

/// A number is read digit by digit, from the left: one more digit makes ten times the
/// number and the digit, unless that is beyond the bound or the character is no
/// digit, and the first such fault stays. A plus sign in front of a number changes
/// nothing.
pub proof fn law_number_by_digit(text: Seq<char>, c: char, max: nat)
    ensures
        number_value(seq![], max) == Err::<nat, NumberError>(NumberError::Empty),
        number_value(seq!['+'], max) == Err::<nat, NumberError>(NumberError::InvalidDigit),
        number_value(seq![c], max) == if !(48 <= c as u32 <= 57) {
            Err::<nat, NumberError>(NumberError::InvalidDigit)
        } else if c as u32 - 48 > max {
            Err(NumberError::TooLarge)
        } else {
            Ok((c as u32 - 48) as nat)
        },
        text.len() > 0 && text[0] != '+' ==> number_value(seq!['+'] + text, max) == number_value(
            text,
            max,
        ),
        text.len() > 1 || (text.len() == 1 && text[0] != '+') ==> number_value(
            text.push(c),
            max,
        ) == match number_value(text, max) {
            Err(error) => Err::<nat, NumberError>(error),
            Ok(value) => if !(48 <= c as u32 <= 57) {
                Err(NumberError::InvalidDigit)
            } else if 10 * value + (c as u32 - 48) > max {
                Err(NumberError::TooLarge)
            } else {
                Ok((10 * value + (c as u32 - 48)) as nat)
            },
        },
{
    reveal_with_fuel(digits_value, 2);
    assert(seq![c].drop_last() =~= seq![]);
    assert(seq!['+'].drop_last() =~= seq![]);
    assert(seq![c].last() == c);
    if text.len() > 0 {
        assert((seq!['+'] + text).drop_first() =~= text);
        let longer = text.push(c);
        assert(longer.drop_last() =~= text);
        assert(longer.drop_first() =~= text.drop_first().push(c));
        assert(text.drop_first().push(c).drop_last() =~= text.drop_first());
        assert(longer[0] == text[0]);
    }
}

/// A number is written digit by digit: ten times a number and a digit is written as
/// the number with the digit behind it.
pub proof fn law_decimal_by_digit(number: nat, digit: nat)
    requires
        digit < 10,
    ensures
        decimal(digit).len() == 1,
        decimal(digit)[0] as u32 == 48 + digit,
        number > 0 ==> decimal(10 * number + digit) == decimal(number).push(decimal(digit)[0]),
{
    if number > 0 {
        let all = 10 * number + digit;
        assert(all / 10 == number && all % 10 == digit);
    }
}

} // verus!
