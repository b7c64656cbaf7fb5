//! Text as the rest of the crate sees it: a sequence of characters, with the length of its UTF-8
//! encoding, its blank parts and its decimal numbers.

use vstd::prelude::*;
use vstd::string::*;
use vstd::utf8::*;

verus! {

/// The number of bytes in the UTF-8 encoding of `text`.
pub open spec fn utf8_len(text: Seq<char>) -> nat {
    encode_utf8(text).len()
}

/// Encoding distributes over concatenation.
pub proof fn lemma_encode_concat(left: Seq<char>, right: Seq<char>)
    ensures
        encode_utf8(left + right) == encode_utf8(left) + encode_utf8(right),
        utf8_len(left + right) == utf8_len(left) + utf8_len(right),
    decreases left.len(),
{
    if left.len() == 0 {
        assert(left + right =~= right);
        assert(encode_utf8(left) =~= Seq::<u8>::empty());
        assert(encode_utf8(left) + encode_utf8(right) =~= encode_utf8(right));
    } else {
        lemma_encode_concat(left.drop_first(), right);
        assert((left + right).drop_first() =~= left.drop_first() + right);
        assert((left + right)[0] == left[0]);
        let head = encode_scalar(left[0] as u32);
        assert(encode_utf8(left + right) =~= head + encode_utf8((left + right).drop_first()));
        assert(encode_utf8(left) =~= head + encode_utf8(left.drop_first()));
        assert(encode_utf8(left) + encode_utf8(right) =~= head + (encode_utf8(left.drop_first())
            + encode_utf8(right)));
    }
}

/// The view of an optional text.
pub open spec fn optional_view(text: Option<&str>) -> Option<Seq<char>> {
    match text {
        Some(text) => Some(text@),
        None => None,
    }
}

/// The view of an optional owned text.
pub open spec fn optional_text(text: Option<String>) -> Option<Seq<char>> {
    match text {
        Some(text) => Some(text@),
        None => None,
    }
}

/// The number of bytes of a text, as `str::len` counts them.
pub fn byte_len(text: &str) -> (len: usize)
    ensures
        len == utf8_len(text@),
{
    text.as_bytes().len()
}

/// The characters with the Unicode property `White_Space`.
pub open spec fn white_space(c: char) -> bool {
    let code = c as u32;
    ||| 0x09 <= code <= 0x0d
    ||| code == 0x20
    ||| code == 0x85
    ||| code == 0xa0
    ||| code == 0x1680
    ||| 0x2000 <= code <= 0x200a
    ||| code == 0x2028
    ||| code == 0x2029
    ||| code == 0x202f
    ||| code == 0x205f
    ||| code == 0x3000
}

/// `char::is_whitespace` tells whether a character has the Unicode property `White_Space`; the
/// property's code points are listed in [`white_space`].
pub assume_specification[ char::is_whitespace ](c: char) -> (result: bool)
    ensures
        result == white_space(c),
;

/// Whether every character of `text` is white space.
pub open spec fn blank(text: Seq<char>) -> bool {
    forall|i: int| 0 <= i < text.len() ==> white_space(#[trigger] text[i])
}

/// Whether a text holds nothing but white space.
pub fn is_blank(text: &str) -> (result: bool)
    ensures
        result == blank(text@),
{
    let mut all: bool = true;
    for c in chars: text.chars()
        invariant
            chars.seq() == text@,
            all == (forall|i: int| 0 <= i < chars.index() ==> white_space(#[trigger] text@[i])),
    {
        all = all && c.is_whitespace();
    }
    all
}

/// `text` without the white space in front.
pub open spec fn trimmed_start(text: Seq<char>) -> Seq<char>
    decreases text.len(),
{
    if text.len() > 0 && white_space(text.first()) {
        trimmed_start(text.drop_first())
    } else {
        text
    }
}

/// `text` without the white space behind.
pub open spec fn trimmed_end(text: Seq<char>) -> Seq<char>
    decreases text.len(),
{
    if text.len() > 0 && white_space(text.last()) {
        trimmed_end(text.drop_last())
    } else {
        text
    }
}

/// `text` without the white space at either end.
pub open spec fn trimmed(text: Seq<char>) -> Seq<char> {
    trimmed_end(trimmed_start(text))
}

/// `str::trim` removes leading and trailing white space, by the property `White_Space`.
pub assume_specification[ str::trim ](s: &str) -> (rest: &str)
    ensures
        rest@ == trimmed(s@),
;

/// `<str as PartialEq>::eq` compares two texts character by character.
pub assume_specification[ <str as PartialEq>::eq ](left: &str, right: &str) -> (same: bool)
    ensures
        same == (left@ == right@),
;

/// Whether two texts are equal.
pub fn same_text(left: &str, right: &str) -> (same: bool)
    ensures
        same == (left@ == right@),
{
    *left == *right
}

/// Whether `text` begins with `prefix`.
pub open spec fn has_prefix(text: Seq<char>, prefix: Seq<char>) -> bool {
    prefix.len() <= text.len() && text.take(prefix.len() as int) == prefix
}

/// Whether a text begins with a given prefix.
pub fn starts_with(text: &str, prefix: &str) -> (result: bool)
    ensures
        result == has_prefix(text@, prefix@),
{
    let prefix_len: usize = prefix.unicode_len();
    if text.unicode_len() < prefix_len {
        return false;
    }
    let head = text.substring_char(0, prefix_len);
    same_text(head, prefix)
}

/// The rest of a text behind a given prefix, or `None` where it does not begin with it.
pub fn strip_prefix<'a>(text: &'a str, prefix: &str) -> (rest: Option<&'a str>)
    ensures
        match rest {
            Some(rest) => has_prefix(text@, prefix@) && rest@ == text@.skip(prefix@.len() as int),
            None => !has_prefix(text@, prefix@),
        },
{
    if starts_with(text, prefix) {
        let rest = text.substring_char(prefix.unicode_len(), text.unicode_len());
        proof {
            assert(rest@ =~= text@.skip(prefix@.len() as int));
        }
        Some(rest)
    } else {
        None
    }
}

/// The longest prefix of `text` whose encoding takes at most `limit` bytes.
pub open spec fn prefix_within(text: Seq<char>, limit: nat) -> Seq<char>
    decreases text.len(),
{
    if text.len() == 0 || utf8_len(text) <= limit {
        text
    } else {
        prefix_within(text.drop_last(), limit)
    }
}

/// The end of every prefix of a text is a character boundary of its encoding.
pub proof fn lemma_prefix_is_boundary(prefix: Seq<char>, rest: Seq<char>)
    ensures
        is_char_boundary(encode_utf8(prefix + rest), utf8_len(prefix) as int),
    decreases prefix.len(),
{
    let text = prefix + rest;
    let bytes = encode_utf8(text);
    encode_utf8_valid_utf8(text);
    lemma_encode_concat(prefix, rest);
    if prefix.len() > 0 {
        encode_utf8_first_scalar(text);
        assert(text[0] == prefix[0]);
        assert(text.drop_first() =~= prefix.drop_first() + rest);
        lemma_prefix_is_boundary(prefix.drop_first(), rest);
        assert(pop_first_scalar(bytes) =~= encode_utf8(text.drop_first()));
        assert(encode_utf8(prefix) == encode_scalar(prefix[0] as u32) + encode_utf8(
            prefix.drop_first(),
        ));
    }
}

/// A prefix that ends within `limit`, and behind which no boundary up to `limit` lies, is the
/// longest one.
proof fn lemma_prefix_within(text: Seq<char>, prefix: Seq<char>, limit: nat)
    requires
        prefix.len() <= text.len(),
        text.take(prefix.len() as int) == prefix,
        utf8_len(prefix) <= limit,
        forall|index: int|
            utf8_len(prefix) < index <= limit ==> !#[trigger] is_char_boundary(
                encode_utf8(text),
                index,
            ),
    ensures
        prefix_within(text, limit) == prefix,
{
    assert(text.take(text.len() as int) =~= text);
    lemma_prefix_within_step(text, text, prefix, limit);
}

proof fn lemma_prefix_within_step(
    text: Seq<char>,
    current: Seq<char>,
    prefix: Seq<char>,
    limit: nat,
)
    requires
        prefix.len() <= current.len() <= text.len(),
        text.take(current.len() as int) == current,
        text.take(prefix.len() as int) == prefix,
        utf8_len(prefix) <= limit,
        forall|index: int|
            utf8_len(prefix) < index <= limit ==> !#[trigger] is_char_boundary(
                encode_utf8(text),
                index,
            ),
    ensures
        prefix_within(current, limit) == prefix,
    decreases current.len(),
{
    if current.len() == prefix.len() {
        assert(current =~= prefix);
    } else {
        let between = current.skip(prefix.len() as int);
        assert(current =~= prefix + between);
        lemma_encode_concat(prefix, between);
        encode_utf8_first_scalar(between);
        assert(encode_utf8(between).len() > 0);
        let rest = text.skip(current.len() as int);
        assert(text =~= current + rest);
        lemma_prefix_is_boundary(current, rest);
        assert(utf8_len(current) > limit);
        assert(text.take(current.drop_last().len() as int) =~= current.drop_last());
        lemma_prefix_within_step(text, current.drop_last(), prefix, limit);
    }
}

/// The longest prefix within a limit takes at most that many bytes.
pub proof fn lemma_prefix_within_fits(text: Seq<char>, limit: nat)
    ensures
        utf8_len(prefix_within(text, limit)) <= limit,
    decreases text.len(),
{
    if text.len() == 0 {
        assert(encode_utf8(text) =~= Seq::<u8>::empty());
    } else if utf8_len(text) > limit {
        lemma_prefix_within_fits(text.drop_last(), limit);
    }
}

/// Where a limit is a character boundary, the longest prefix within it is the text up to it.
pub proof fn lemma_prefix_at_boundary(text: Seq<char>, limit: nat)
    requires
        limit <= utf8_len(text),
        is_char_boundary(encode_utf8(text), limit as int),
    ensures
        encode_utf8(prefix_within(text, limit)) == encode_utf8(text).take(limit as int),
{
    let bytes = encode_utf8(text);
    encode_utf8_valid_utf8(text);
    valid_utf8_split(bytes, limit as int);
    decode_utf8_split(bytes, limit as int);
    let head = bytes.subrange(0, limit as int);
    let tail = bytes.subrange(limit as int, bytes.len() as int);
    let prefix = decode_utf8(head);
    encode_utf8_decode_utf8(text);
    decode_utf8_encode_utf8(head);
    assert(text == prefix + decode_utf8(tail));
    assert(text.take(prefix.len() as int) =~= prefix);
    lemma_prefix_within(text, prefix, limit);
}

/// The longest prefix of a text that takes at most `limit` bytes: the text up to the last
/// character boundary at or before `limit`.
pub fn floor_prefix<'a>(text: &'a str, limit: usize) -> (prefix: &'a str)
    ensures
        prefix@ == prefix_within(text@, limit as nat),
{
    if byte_len(text) <= limit {
        return text;
    }
    let ghost bytes = encode_utf8(text@);
    proof {
        encode_utf8_valid_utf8(text@);
        is_char_boundary_start_end_of_seq(bytes);
    }
    let mut end: usize = limit;
    while !text.is_char_boundary(end)
        invariant
            end <= limit < bytes.len(),
            bytes == encode_utf8(text@),
            is_char_boundary(bytes, 0),
            forall|index: int|
                end < index <= limit ==> !#[trigger] is_char_boundary(bytes, index),
        decreases end,
    {
        end = end - 1;
    }
    let (prefix, rest) = text.split_at(end);
    proof {
        lemma_encode_concat(prefix@, rest@);
        assert(encode_utf8(prefix@) + encode_utf8(rest@) =~= bytes);
        encode_utf8_decode_utf8(prefix@ + rest@);
        encode_utf8_decode_utf8(text@);
        assert(prefix@ + rest@ == text@);
        assert(text@.take(prefix@.len() as int) =~= prefix@);
        lemma_prefix_within(text@, prefix@, limit as nat);
    }
    prefix
}

/// The decimal digit for a number below ten.
pub open spec fn digit(value: nat) -> char {
    (0x30 + value) as char
}

/// A number in decimal notation, without leading zeros.
pub open spec fn decimal(number: nat) -> Seq<char>
    decreases number,
{
    if number < 10 {
        seq![digit(number)]
    } else {
        decimal(number / 10).push(digit(number % 10))
    }
}

/// `u64::to_string` writes a number in decimal notation.
#[verifier::external_body]
pub(crate) fn u64_to_string(number: u64) -> (text: String)
    ensures
        text@ == decimal(number as nat),
{
    number.to_string()
}

/// A length in decimal notation.
pub fn usize_to_string(number: usize) -> (text: String)
    ensures
        text@ == decimal(number as nat),
{
    u64_to_string(number as u64)
}

/// Whether `text` holds decimal digits only.
pub open spec fn all_digits(text: Seq<char>) -> bool {
    forall|i: int| 0 <= i < text.len() ==> '0' <= #[trigger] text[i] <= '9'
}

/// The number that a sequence of decimal digits stands for.
pub open spec fn digits_value(digits: Seq<char>) -> nat
    decreases digits.len(),
{
    if digits.len() == 0 {
        0
    } else {
        digits_value(digits.drop_last()) * 10 + (digits.last() as nat - 0x30) as nat
    }
}

/// The number that `text` stands for: at least one digit, with an optional plus sign in front.
pub open spec fn natural(text: Seq<char>) -> Option<nat> {
    let digits = if text.len() > 0 && text[0] == '+' {
        text.drop_first()
    } else {
        text
    };
    if digits.len() > 0 && all_digits(digits) {
        Some(digits_value(digits))
    } else {
        None
    }
}

/// The number that `text` stands for, where it is at most `max`.
pub open spec fn natural_up_to(text: Seq<char>, max: nat) -> Option<nat> {
    match natural(text) {
        Some(value) if value <= max => Some(value),
        _ => None,
    }
}

/// `str::parse::<u64>` accepts an optional plus sign followed by decimal digits only, where the
/// value fits in a `u64`.
#[verifier::external_body]
pub(crate) fn parse_u64(text: &str) -> (number: Option<u64>)
    ensures
        match number {
            Some(value) => natural_up_to(text@, u64::MAX as nat) == Some(value as nat),
            None => natural_up_to(text@, u64::MAX as nat) is None,
        },
{
    text.parse::<u64>().ok()
}

/// The `usize` that a text stands for in decimal notation.
pub fn parse_usize(text: &str) -> (number: Option<usize>)
    ensures
        match number {
            Some(value) => natural_up_to(text@, usize::MAX as nat) == Some(value as nat),
            None => natural_up_to(text@, usize::MAX as nat) is None,
        },
{
    match parse_u64(text) {
        Some(value) => if value <= usize::MAX as u64 {
            Some(value as usize)
        } else {
            None
        },
        None => None,
    }
}

/// Decimal notation consists of digits and stands for the number it was written from.
pub proof fn lemma_decimal(number: nat)
    ensures
        decimal(number).len() > 0,
        all_digits(decimal(number)),
        digits_value(decimal(number)) == number,
    decreases number,
{
    let last = digit(number % 10);
    assert('0' <= last <= '9');
    if number < 10 {
        assert(decimal(number).drop_last() =~= Seq::<char>::empty());
        assert(digits_value(Seq::<char>::empty()) == 0);
    } else {
        lemma_decimal(number / 10);
        assert(decimal(number).drop_last() =~= decimal(number / 10));
    }
}

/// Reading a number back from its decimal notation gives the number.
pub proof fn law_natural_of_decimal(number: nat)
    ensures
        natural(decimal(number)) == Some(number),
{
    lemma_decimal(number);
    assert('0' <= decimal(number)[0] <= '9');
}

/// Whether `left` comes before `right` in the order of their code points, a prefix first.
pub open spec fn text_less(left: Seq<char>, right: Seq<char>) -> bool
    decreases left.len(),
{
    if left.len() == 0 {
        right.len() > 0
    } else if right.len() == 0 {
        false
    } else if left[0] != right[0] {
        left[0] < right[0]
    } else {
        text_less(left.drop_first(), right.drop_first())
    }
}

/// Of two different texts exactly one comes before the other.
pub proof fn lemma_text_less_total(left: Seq<char>, right: Seq<char>)
    ensures
        left == right ==> !text_less(left, right),
        left != right ==> text_less(left, right) != text_less(right, left),
    decreases left.len(),
{
    if left.len() == 0 || right.len() == 0 {
        if left.len() == 0 && right.len() == 0 {
            assert(left =~= right);
        }
    } else if left[0] == right[0] {
        lemma_text_less_total(left.drop_first(), right.drop_first());
        if left.drop_first() == right.drop_first() {
            assert(left =~= seq![left[0]] + left.drop_first());
            assert(right =~= seq![right[0]] + right.drop_first());
        }
    }
}

/// The order of texts is transitive.
pub proof fn lemma_text_less_transitive(first: Seq<char>, second: Seq<char>, third: Seq<char>)
    requires
        text_less(first, second),
        text_less(second, third),
    ensures
        text_less(first, third),
    decreases first.len(),
{
    if first.len() > 0 && first[0] == second[0] && second[0] == third[0] {
        lemma_text_less_transitive(first.drop_first(), second.drop_first(), third.drop_first());
    }
}

/// Whether one text comes before another in the order of their code points.
pub fn text_before(left: &str, right: &str) -> (result: bool)
    ensures
        result == text_less(left@, right@),
{
    let mut left_chars = left.chars();
    let mut right_chars = right.chars();
    loop
        invariant
            text_less(
                vstd::std_specs::iter::IteratorSpec::remaining(&left_chars),
                vstd::std_specs::iter::IteratorSpec::remaining(&right_chars),
            ) == text_less(left@, right@),
            vstd::std_specs::iter::IteratorSpec::decrease(&left_chars) is Some,
        decreases vstd::std_specs::iter::IteratorSpec::decrease(&left_chars)->0,
    {
        match (left_chars.next(), right_chars.next()) {
            (None, None) => return false,
            (None, Some(_)) => return true,
            (Some(_), None) => return false,
            (Some(left_char), Some(right_char)) => {
                if left_char != right_char {
                    return left_char < right_char;
                }
            },
        }
    }
}

/// What `String::from_utf8_lossy` makes of bytes.
pub uninterp spec fn lossy_text(bytes: Seq<u8>) -> Seq<char>;

/// `String::from_utf8_lossy` decodes UTF-8, with a replacement character for what is not valid.
/// Bytes that are valid UTF-8 become the text that they encode; of others the result is only
/// named.
#[verifier::external_body]
pub(crate) fn from_utf8_lossy(bytes: &Vec<u8>) -> (decoded: String)
    ensures
        decoded@ == lossy_text(bytes@),
        valid_utf8(bytes@) ==> decoded@ == decode_utf8(bytes@),
{
    String::from_utf8_lossy(bytes).into_owned()
}

/// What `str::to_lowercase` gives for a text.
pub uninterp spec fn lowercase(text: Seq<char>) -> Seq<char>;

/// The lower-case form of an ASCII character.
pub open spec fn ascii_lower(c: char) -> char {
    if 'A' <= c <= 'Z' {
        (c as u32 + 0x20) as char
    } else {
        c
    }
}

/// `str::to_lowercase` gives the lower-case equivalent of a text by the Unicode rules. On ASCII
/// texts that is the lower-case form of each letter; on others the result is only named.
pub assume_specification[ str::to_lowercase ](s: &str) -> (lower: String)
    ensures
        lower@ == lowercase(s@),
        is_ascii_chars(s@) ==> lower@ == s@.map_values(|c: char| ascii_lower(c)),
;

/// A text in lower case: on ASCII texts the lower-case form of each letter.
pub open spec fn in_lower_case(text: Seq<char>) -> Seq<char> {
    if is_ascii_chars(text) {
        text.map_values(|c: char| ascii_lower(c))
    } else {
        lowercase(text)
    }
}

} // verus!
