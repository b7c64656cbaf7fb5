//! What holds of texts, documents and messages, and of every call that reads or writes them.

use crate::exchange_laws;
use crate::image;
use crate::image::ImageFile;
use crate::json;
use crate::json::{Json, JsonView};
use crate::markdown;
use crate::message;
use crate::message::{
    ContentView, LanguageModelRequestMessage, LanguageModelToolResultContent, MessageContent,
    MessageView,
};
use crate::piece_laws;
use crate::stripping;
use crate::stripping_laws;
use crate::text;
use crate::vision_laws;
use crate::zones;
use vstd::prelude::*;

verus! {

/// Whether a text begins with another.
pub open spec fn begins_with(whole: Seq<char>, beginning: Seq<char>) -> bool {
    exists|rest: Seq<char>| whole == #[trigger] (beginning + rest)
}

/// A prefix is what a text begins with, and what is left without it is the rest.
pub proof fn law_prefix<'a>(
    whole: &'a str,
    prefix: &str,
    begins: bool,
    rest: Option<&'a str>,
)
    requires
        call_ensures(text::starts_with, (whole, prefix), begins),
        call_ensures(text::strip_prefix, (whole, prefix), rest),
    ensures
        begins <==> begins_with(whole@, prefix@),
        rest is Some <==> begins,
        rest matches Some(rest) ==> whole@ == prefix@ + rest@,
{
    lemma_begins_with(whole@, prefix@);
    if let Some(rest) = rest {
        assert(whole@ =~= prefix@ + rest@) by {
            assert(whole@.take(prefix@.len() as int) + whole@.skip(prefix@.len() as int)
                =~= whole@);
        }
    }
}

proof fn lemma_begins_with(whole: Seq<char>, prefix: Seq<char>)
    ensures
        text::has_prefix(whole, prefix) <==> begins_with(whole, prefix),
{
    if text::has_prefix(whole, prefix) {
        assert(whole =~= prefix + whole.skip(prefix.len() as int));
    }
    if begins_with(whole, prefix) {
        let rest = choose|rest: Seq<char>| whole == #[trigger] (prefix + rest);
        assert((prefix + rest).take(prefix.len() as int) =~= prefix);
    }
}

/// What a limit leaves of a text is a beginning of it that keeps the limit, and no longer one
/// does.
pub proof fn law_beginning_within_limit<'a>(
    whole: &'a str,
    limit: usize,
    beginning: &'a str,
    longer: int,
)
    requires
        call_ensures(text::floor_prefix, (whole, limit), beginning),
    ensures
        beginning@.len() <= whole@.len(),
        beginning@ == whole@.take(beginning@.len() as int),
        text::utf8_len(beginning@) <= limit,
        beginning@.len() < longer <= whole@.len() ==> text::utf8_len(whole@.take(longer)) > limit,
{
    lemma_longest(whole@, limit as nat, longer);
    text::lemma_prefix_within_fits(whole@, limit as nat);
}

proof fn lemma_longest(whole: Seq<char>, limit: nat, longer: int)
    ensures
        ({
            let beginning = text::prefix_within(whole, limit);
            &&& beginning.len() <= whole.len()
            &&& beginning == whole.take(beginning.len() as int)
            &&& beginning.len() < longer <= whole.len() ==> text::utf8_len(whole.take(longer))
                > limit
        }),
    decreases whole.len(),
{
    let beginning = text::prefix_within(whole, limit);
    if whole.len() == 0 || text::utf8_len(whole) <= limit {
        assert(whole.take(whole.len() as int) =~= whole);
    } else {
        let shorter = whole.drop_last();
        lemma_longest(shorter, limit, longer);
        assert(shorter.take(beginning.len() as int) =~= whole.take(beginning.len() as int));
        if longer == whole.len() {
            assert(whole.take(longer) =~= whole);
        } else if beginning.len() < longer < whole.len() {
            assert(shorter.take(longer) =~= whole.take(longer));
        }
    }
}

/// The length of a text is that of its parts together, and one byte for each ASCII character.
pub proof fn law_length(whole: &str, len: usize, left: Seq<char>, right: Seq<char>)
    requires
        call_ensures(text::byte_len, (whole,), len),
        whole@ == left + right,
    ensures
        len == text::utf8_len(left) + text::utf8_len(right),
        len == vstd::utf8::encode_utf8(whole@).len(),
{
    text::lemma_encode_concat(left, right);
}

/// A text is blank exactly where no character in it is other than white space.
pub proof fn law_blank(whole: &str, blank: bool)
    requires
        call_ensures(text::is_blank, (whole,), blank),
    ensures
        !blank <==> exists|i: int| 0 <= i < whole@.len() && !text::white_space(#[trigger] whole@[i]),
{
}

/// Two texts are the same exactly where their characters are, and one comes before another where
/// it is a beginning of it, or has the smaller character where they first differ.
pub proof fn law_order_of_texts(
    left: &str,
    right: &str,
    same: bool,
    before: bool,
    common: Seq<char>,
)
    requires
        call_ensures(text::same_text, (left, right), same),
        call_ensures(text::text_before, (left, right), before),
        begins_with(left@, common),
        begins_with(right@, common),
    ensures
        same <==> left@ == right@,
        left@ == common ==> (before <==> right@.len() > common.len()),
        right@ == common ==> !before,
        left@.len() > common.len() && right@.len() > common.len() && left@[common.len() as int]
            != right@[common.len() as int] ==> (before <==> left@[common.len() as int]
            < right@[common.len() as int]),
{
    lemma_order(left@, right@, common);
}

proof fn lemma_order(left: Seq<char>, right: Seq<char>, common: Seq<char>)
    requires
        begins_with(left, common),
        begins_with(right, common),
    ensures
        left == common ==> (text::text_less(left, right) <==> right.len() > common.len()),
        right == common ==> !text::text_less(left, right),
        left.len() > common.len() && right.len() > common.len() && left[common.len() as int]
            != right[common.len() as int] ==> (text::text_less(left, right)
            <==> left[common.len() as int] < right[common.len() as int]),
    decreases common.len(),
{
    let left_rest = choose|rest: Seq<char>| left == #[trigger] (common + rest);
    let right_rest = choose|rest: Seq<char>| right == #[trigger] (common + rest);
    if common.len() > 0 {
        let shorter = common.drop_first();
        assert(left.drop_first() =~= shorter + left_rest);
        assert(right.drop_first() =~= shorter + right_rest);
        assert(left[0] == common[0] && right[0] == common[0]);
        lemma_order(left.drop_first(), right.drop_first(), shorter);
    }
}

/// A text of digits stands for the number that it writes in decimal notation, digit by digit; a
/// plus sign may stand in front of it, and nothing else stands for a number.
pub proof fn law_natural(digits: Seq<char>, last: char)
    ensures
        ({
            let longer = digits.push(last);
            let signed = seq!['+'] + digits;
            &&& text::natural(Seq::empty()) is None
            &&& '0' <= last <= '9' ==> text::natural(seq![last]) == Some(
                (last as nat - 48) as nat,
            )
            &&& !('0' <= last <= '9') ==> text::natural(longer) is None
            &&& '0' <= last <= '9' ==> (text::natural(digits) matches Some(number)
                ==> text::natural(longer) == Some((10 * number + (last as nat - 48)) as nat))
            &&& '0' <= last <= '9' && digits.len() > 1 && text::natural(digits) is None
                ==> text::natural(longer) is None
            &&& digits.len() == 0 || digits[0] != '+' ==> text::natural(signed) == text::natural(
                digits,
            )
            &&& digits.len() > 0 && digits[0] == '+' ==> text::natural(signed) is None
        }),
{
    let longer = digits.push(last);
    let signed = seq!['+'] + digits;
    let one = seq![last];
    assert(signed.drop_first() =~= digits);
    assert(one.drop_last() =~= Seq::<char>::empty());
    assert(text::digits_value(one.drop_last()) == 0);
    assert(text::digits_value(one) == (last as nat - 48) as nat) by {
        assert(one.last() == last);
    }
    if '0' <= last <= '9' {
        assert(text::all_digits(one));
    }
    if digits.len() > 0 {
        let bare = if digits[0] == '+' {
            digits.drop_first()
        } else {
            digits
        };
        let bare_longer = if longer[0] == '+' {
            longer.drop_first()
        } else {
            longer
        };
        assert(longer[0] == digits[0]);
        assert(bare_longer =~= bare.push(last));
        assert(bare_longer.drop_last() =~= bare);
        assert(bare_longer.last() == last);
        if text::all_digits(bare_longer) {
            assert forall|i: int| 0 <= i < bare.len() implies '0' <= #[trigger] bare[i] <= '9' by {
                assert(bare_longer[i] == bare[i]);
            }
            assert('0' <= bare_longer[bare.len() as int] <= '9');
        }
        if text::all_digits(bare) && '0' <= last <= '9' {
            assert(text::all_digits(bare_longer));
        }
    } else {
        assert(longer =~= one);
        if !('0' <= last <= '9') {
            if last == '+' {
                assert(longer.drop_first() =~= Seq::<char>::empty());
            } else {
                assert(longer[0] == last);
            }
        }
    }
    if digits.len() > 0 && digits[0] == '+' {
        assert(!('0' <= digits[0] <= '9'));
    }
}

/// A number is written in digits that stand for it, without leading zeros, and is read from a
/// text exactly where that stands for one that is not too large.
pub proof fn law_numbers(
    number: usize,
    written: String,
    given: &str,
    read: Option<usize>,
)
    requires
        call_ensures(text::usize_to_string, (number,), written),
        call_ensures(text::parse_usize, (given,), read),
    ensures
        text::natural(written@) == Some(number as nat),
        text::all_digits(written@),
        written@.len() > 1 ==> written@[0] != '0',
        read matches Some(value) ==> text::natural(given@) == Some(value as nat),
        read is None ==> (text::natural(given@) matches Some(value) ==> value > usize::MAX),
{
    text::law_natural_of_decimal(number as nat);
    text::lemma_decimal(number as nat);
    lemma_no_leading_zero(number as nat);
}

proof fn lemma_no_leading_zero(number: nat)
    ensures
        text::decimal(number).len() > 0,
        number > 0 ==> text::decimal(number)[0] != '0',
        number == 0 ==> text::decimal(number).len() == 1,
    decreases number,
{
    if number >= 10 {
        lemma_no_leading_zero(number / 10);
        assert(text::decimal(number)[0] == text::decimal(number / 10)[0]);
    } else {
        assert(text::decimal(number)[0] == text::digit(number));
        assert(number > 0 ==> text::digit(number) != '0');
    }
}

/// What a value has under a key, as a text and as an array.
pub proof fn law_json_value<'a>(
    value: &'a Json,
    key: &str,
    found: Option<&'a Json>,
    as_text: Option<&'a str>,
    as_array: Option<&'a Vec<Json>>,
    held: JsonView,
)
    requires
        call_ensures(Json::get, (value, key), found),
        call_ensures(Json::as_text, (value,), as_text),
        call_ensures(Json::as_array, (value,), as_array),
    ensures
        found matches Some(found) ==> vision_laws::has_under(value@, key@, found@),
        vision_laws::has_under(value@, key@, held) ==> found is Some && found->0@ == held,
        as_text is Some <==> value is Text,
        as_text matches Some(text) ==> text@ == value->Text_0@,
        as_array is Some <==> value is Array,
        as_array matches Some(items) ==> {
            &&& items@.len() == value->Array_0@.len()
            &&& forall|i: int|
                0 <= i < items@.len() ==> (#[trigger] items@[i])@ == value->Array_0@[i]@
        },
{
    vision_laws::law_member(value@, key@, held);
    if let Some(found) = found {
        vision_laws::law_member(value@, key@, found@);
    }
    if let Some(items) = as_array {
        assert forall|i: int| 0 <= i < items@.len() implies (#[trigger] items@[i])@
            == value->Array_0@[i]@ by {
            assert(json::items_of(value@)->0[i] == items@[i]@);
        }
    }
}

/// A value that is put under a key is found there, one that is taken out is not, and what is
/// under other keys stays.
pub proof fn law_json_members(
    members: &mut Vec<(String, Json)>,
    key: String,
    value: Json,
    others: &mut Vec<(String, Json)>,
    other_key: &str,
    looked_up: Seq<char>,
)
    requires
        call_ensures(json::insert_member, (members, key, value), ()),
        call_ensures(json::remove_member, (others, other_key), ()),
        json::distinct_keys(json::member_views(old(members)@)),
        json::distinct_keys(json::member_views(old(others)@)),
    ensures
        json::find_member(json::member_views(final(members)@), looked_up) == if looked_up == key@ {
            Some(value@)
        } else {
            json::find_member(json::member_views(old(members)@), looked_up)
        },
        json::find_member(json::member_views(final(others)@), looked_up) == if looked_up
            == other_key@ {
            None
        } else {
            json::find_member(json::member_views(old(others)@), looked_up)
        },
{
    lemma_inserted(json::member_views(old(members)@), key@, value@, looked_up);
    lemma_removed(json::member_views(old(others)@), other_key@, looked_up);
}

proof fn lemma_found(members: Seq<(Seq<char>, JsonView)>, key: Seq<char>)
    ensures
        ({
            let index = json::key_index(members, key) as int;
            &&& index <= members.len()
            &&& index < members.len() ==> members[index].0 == key && json::find_member(members, key)
                == Some(members[index].1)
            &&& index == members.len() ==> json::find_member(members, key) is None
            &&& forall|j: int| 0 <= j < index ==> (#[trigger] members[j]).0 != key
        }),
    decreases members.len(),
{
    if members.len() > 0 && members[0].0 != key {
        let rest = members.drop_first();
        lemma_found(rest, key);
        let index = json::key_index(rest, key) as int;
        if index < rest.len() {
            assert(members[index + 1] == rest[index]);
        }
        assert forall|j: int| 0 <= j < index + 1 implies (#[trigger] members[j]).0 != key by {
            if j > 0 {
                assert(members[j] == rest[j - 1]);
            }
        }
    }
}

/// Where keys are distinct, a member is found under its key.
proof fn lemma_found_at(members: Seq<(Seq<char>, JsonView)>, index: int)
    requires
        json::distinct_keys(members),
        0 <= index < members.len(),
    ensures
        json::find_member(members, members[index].0) == Some(members[index].1),
{
    let key = members[index].0;
    let found = json::key_index(members, key) as int;
    lemma_found(members, key);
    if found < index {
        assert(members[found].0 != members[index].0);
    }
    if index < found {
        assert(members[index].0 != key);
    }
}

proof fn lemma_not_found(members: Seq<(Seq<char>, JsonView)>, key: Seq<char>)
    requires
        forall|j: int| 0 <= j < members.len() ==> (#[trigger] members[j]).0 != key,
    ensures
        json::find_member(members, key) is None,
{
    lemma_found(members, key);
    let index = json::key_index(members, key) as int;
    if index < members.len() {
        assert(members[index].0 != key);
    }
}

proof fn lemma_inserted(
    members: Seq<(Seq<char>, JsonView)>,
    key: Seq<char>,
    value: JsonView,
    looked_up: Seq<char>,
)
    requires
        json::distinct_keys(members),
    ensures
        json::find_member(json::with_member(members, key, value), looked_up) == if looked_up
            == key {
            Some(value)
        } else {
            json::find_member(members, looked_up)
        },
{
    let index = json::key_index(members, key) as int;
    let after = json::with_member(members, key, value);
    lemma_found(members, key);
    lemma_found(members, looked_up);
    assert(json::distinct_keys(after)) by {
        assert forall|i: int, j: int| 0 <= i < j < after.len() implies (#[trigger] after[i]).0
            != (#[trigger] after[j]).0 by {
            if j < members.len() {
                assert(members[i].0 != members[j].0);
            } else {
                assert(members[i].0 != key);
            }
        }
    }
    assert(after[index] == (key, value));
    lemma_found_at(after, index);
    if looked_up != key {
        let found = json::key_index(members, looked_up) as int;
        if found < members.len() {
            assert(after[found] == members[found]);
            lemma_found_at(after, found);
        } else {
            assert forall|j: int| 0 <= j < after.len() implies (#[trigger] after[j]).0
                != looked_up by {
                if j != index {
                    assert(after[j] == members[j]);
                }
            }
            lemma_not_found(after, looked_up);
        }
    }
}

proof fn lemma_removed(members: Seq<(Seq<char>, JsonView)>, key: Seq<char>, looked_up: Seq<char>)
    requires
        json::distinct_keys(members),
    ensures
        json::find_member(json::without_member(members, key), looked_up) == if looked_up == key {
            None
        } else {
            json::find_member(members, looked_up)
        },
{
    let index = json::key_index(members, key) as int;
    let after = json::without_member(members, key);
    lemma_found(members, key);
    lemma_found(members, looked_up);
    if index < members.len() {
        let last = members.len() - 1;
        assert forall|i: int| 0 <= i < after.len() implies #[trigger] after[i] == members[if i
            == index {
            last
        } else {
            i
        }] by {}
        assert(json::distinct_keys(after)) by {
            assert forall|i: int, j: int| 0 <= i < j < after.len() implies (#[trigger] after[i]).0
                != (#[trigger] after[j]).0 by {
                let left = if i == index {
                    last
                } else {
                    i
                };
                let right = if j == index {
                    last
                } else {
                    j
                };
                if left < right {
                    assert(members[left].0 != members[right].0);
                } else {
                    assert(members[right].0 != members[left].0);
                }
            }
        }
        let found = json::key_index(members, looked_up) as int;
        if looked_up == key || found == members.len() {
            assert forall|j: int| 0 <= j < after.len() implies (#[trigger] after[j]).0
                != looked_up by {
                let origin = if j == index {
                    last
                } else {
                    j
                };
                assert(after[j] == members[origin]);
                if looked_up == key {
                    if origin < index {
                        assert(members[origin].0 != members[index].0);
                    } else {
                        assert(members[index].0 != members[origin].0);
                    }
                } else {
                    assert(members[origin].0 != looked_up);
                }
            }
            lemma_not_found(after, looked_up);
        } else {
            let place = if found == last {
                index
            } else {
                found
            };
            assert(found != index);
            assert(after[place] == members[found]);
            lemma_found_at(after, place);
        }
    }
}

/// A document that is read is the value it stands for, and a value is written as the document
/// that stands for it.
pub proof fn law_documents(
    document: &str,
    read: Result<Json, serde_json::Error>,
    value: serde_json::Value,
    opened: Json,
    json: &Json,
    closed: serde_json::Value,
    compact: Result<String, serde_json::Error>,
    pretty: String,
)
    requires
        call_ensures(json::parse_json, (document,), read),
        call_ensures(json::from_value, (value,), opened),
        call_ensures(json::to_value, (json,), closed),
        call_ensures(json::compact_json, (json,), compact),
        call_ensures(json::pretty_json, (json,), pretty),
    ensures
        read is Ok <==> json::json_document(document@) is Some,
        read matches Ok(read) ==> json::json_document(document@) == Some(read@),
        opened@ == json::json_value(value),
        json::json_value(closed) == json@,
        compact is Ok && compact->Ok_0@ == json::json_compact(json@),
        pretty@ == json::json_pretty(json@),
{
}

/// The text of a piece, where it has one: that of a text, of a thought, and of a tool's answer
/// that is one, whether or not it is an error.
pub open spec fn text_of_piece(piece: ContentView) -> Option<Seq<char>> {
    if piece is Text {
        Some(piece->Text_0)
    } else if piece is Thinking {
        Some(piece->text)
    } else if piece is ToolResult && piece->ToolResult_0.content is Text {
        Some(piece->ToolResult_0.content->Text_0)
    } else {
        None
    }
}

/// All the text of pieces: that of the first, and then that of the others.
pub open spec fn text_of_pieces(pieces: Seq<ContentView>) -> Seq<char>
    decreases pieces.len(),
{
    if pieces.len() == 0 {
        seq![]
    } else {
        let rest = text_of_pieces(pieces.drop_first());
        match text_of_piece(pieces[0]) {
            Some(text) => text + rest,
            None => rest,
        }
    }
}

proof fn lemma_text_of_pieces_push(pieces: Seq<ContentView>, piece: ContentView)
    ensures
        text_of_pieces(pieces.push(piece)) == text_of_pieces(pieces) + match text_of_piece(piece) {
            Some(text) => text,
            None => seq![],
        },
    decreases pieces.len(),
{
    let all = pieces.push(piece);
    let own = match text_of_piece(piece) {
        Some(text) => text,
        None => seq![],
    };
    if pieces.len() == 0 {
        assert(all.drop_first() =~= pieces);
        assert(text_of_pieces(all) =~= own);
    } else {
        assert(all.drop_first() =~= pieces.drop_first().push(piece));
        lemma_text_of_pieces_push(pieces.drop_first(), piece);
        assert(text_of_pieces(all) =~= text_of_pieces(pieces) + own);
    }
}

/// The text by which the length of messages is measured is all the text of their pieces.
pub proof fn law_joined_text(pieces: Seq<ContentView>)
    ensures
        message::joined_text(pieces) == text_of_pieces(pieces),
    decreases pieces.len(),
{
    if pieces.len() > 0 {
        law_joined_text(pieces.drop_last());
        lemma_text_of_pieces_push(pieces.drop_last(), pieces.last());
        assert(pieces.drop_last().push(pieces.last()) =~= pieces);
        if text_of_piece(pieces.last()) is None {
            assert(text_of_pieces(pieces.drop_last()) + seq![] =~= text_of_pieces(
                pieces.drop_last(),
            ));
        }
    }
}

/// The length of a conversation is that of all the text of its pieces.
pub proof fn law_conversation_len(messages: Seq<MessageView>)
    ensures
        stripping_laws::conversation_len(messages) == text::utf8_len(
            text_of_pieces(stripping_laws::all_contents(messages)),
        ),
{
    law_joined_text(stripping_laws::all_contents(messages));
}

/// A piece gives its text, and is empty where it has one that is blank.
pub proof fn law_piece(piece: &MessageContent, given: Option<&str>, empty: bool)
    requires
        call_ensures(MessageContent::to_str, (piece,), given),
        call_ensures(MessageContent::is_empty, (piece,), empty),
    ensures
        match piece {
            MessageContent::Text(text) => given is Some && given->0@ == text@,
            MessageContent::Thinking { text, .. } => given is Some && given->0@ == text@,
            MessageContent::ToolResult(result) => match result.content {
                LanguageModelToolResultContent::Text(text) => given is Some && given->0@ == text@,
                LanguageModelToolResultContent::Image(_) => given is None,
            },
            _ => given is None,
        },
        empty <==> given is Some && text::blank(given->0@),
{
}

/// What a tool gave back has a text exactly where it is no image.
pub proof fn law_tool_result_text(content: &LanguageModelToolResultContent, given: Option<&str>)
    requires
        call_ensures(LanguageModelToolResultContent::to_str, (content,), given),
    ensures
        given is Some <==> content is Text,
        given matches Some(text) ==> text@ == content->Text_0@,
{
}

/// A message gives all the text of its pieces, and is empty where every piece has a text and all
/// of them are blank.
pub proof fn law_message(message: &LanguageModelRequestMessage, joined: String, empty: bool)
    requires
        call_ensures(LanguageModelRequestMessage::string_contents, (message,), joined),
        call_ensures(LanguageModelRequestMessage::contents_empty, (message,), empty),
    ensures
        joined@ == text_of_pieces(message@.content),
        empty <==> forall|i: int|
            0 <= i < message.content@.len() ==> (text_of_piece(
                (#[trigger] message.content@[i])@,
            ) matches Some(text) && text::blank(text)),
{
    let pieces = message@.content;
    law_joined_text(pieces);
    assert(pieces.len() == message.content@.len());
    assert forall|i: int| 0 <= i < pieces.len() implies #[trigger] pieces[i]
        == message.content@[i]@ by {}
    if empty {
        assert forall|i: int| 0 <= i < message.content@.len() implies (text_of_piece(
            (#[trigger] message.content@[i])@,
        ) matches Some(text) && text::blank(text)) by {
            assert(message::content_empty(pieces[i]));
        }
    } else if forall|i: int|
        0 <= i < message.content@.len() ==> (text_of_piece(
            (#[trigger] message.content@[i])@,
        ) matches Some(text) && text::blank(text)) {
        assert forall|i: int| 0 <= i < pieces.len() implies message::content_empty(
            #[trigger] pieces[i],
        ) by {
            assert(pieces[i] == message.content@[i]@);
        }
    }
}

/// Whether a message holds what a tool gave back, what stripping leaves of it, and how long that
/// is.
pub proof fn law_stripped_message(
    message: &LanguageModelRequestMessage,
    answers: bool,
    nothing: bool,
    len: usize,
)
    requires
        call_ensures(stripping::holds_tool_result, (message,), answers),
        call_ensures(stripping::strips_to_nothing, (message,), nothing),
        call_ensures(stripping::stripped_content_len, (message,), len),
    ensures
        answers <==> piece_laws::answers_call(message@),
        nothing <==> {
            let left = piece_laws::pieces_left(message@.content);
            forall|i: int| 0 <= i < left.len() ==> piece_laws::says_nothing(#[trigger] left[i])
        },
        len == text::utf8_len(text_of_pieces(piece_laws::pieces_left(message@.content))),
{
    piece_laws::law_stripped_pieces(message@);
    law_joined_text(piece_laws::pieces_left(message@.content));
}

/// Lengths are added up from the first, and scanned from the last up to where they reach the
/// threshold.
pub proof fn law_lengths(
    lens: &Vec<usize>,
    count: usize,
    sum: usize,
    threshold: usize,
    start: Option<usize>,
)
    requires
        call_ensures(zones::sum_first, (lens, count), sum),
        call_ensures(zones::scan_from_end, (lens, threshold), start),
        count <= lens@.len(),
    ensures
        count == 0 ==> sum == 0,
        count > 0 ==> sum == lens@[count - 1] + stripping::total(
            zones::nats(lens@).take(count - 1),
        ),
        start matches Some(start) ==> {
            &&& start < lens@.len()
            &&& stripping::total(zones::nats(lens@).skip(start as int)) >= threshold
            &&& start + 1 < lens@.len() ==> stripping::total(
                zones::nats(lens@).skip(start + 1),
            ) < threshold
        },
        start is None ==> lens@.len() == 0 || stripping::total(zones::nats(lens@)) < threshold,
{
    let views = zones::nats(lens@);
    stripping::law_last_start(views, threshold as nat);
    assert(views.skip(0) =~= views);
    if count > 0 {
        let before = views.take(count - 1);
        assert(views.take(count as int) =~= before + seq![views[count - 1]]);
        zones::lemma_total_concat(before, seq![views[count - 1]]);
        assert(stripping::total(seq![views[count - 1]]) == views[count - 1]) by {
            lemma_total_one(views[count - 1]);
        }
    } else {
        assert(views.take(0) =~= Seq::empty());
    }
}

proof fn lemma_total_one(len: nat)
    ensures
        stripping::total(seq![len]) == len,
{
    let one = seq![len];
    assert(one.drop_first() =~= Seq::empty());
    assert(one.drop_last() =~= Seq::empty());
    assert(stripping::total(Seq::<nat>::empty()) == 0);
}

/// An image source is sent as it is where it begins as image data or as a web address, and only
/// there.
pub proof fn law_sent_as_it_is(source: &str, as_it_is: bool)
    requires
        call_ensures(image::is_sent_as_is, (source,), as_it_is),
    ensures
        as_it_is <==> begins_with(source@, "data:image/"@) || begins_with(source@, "http://"@)
            || begins_with(source@, "https://"@),
{
    lemma_begins_with(source@, "data:image/"@);
    lemma_begins_with(source@, "http://"@);
    lemma_begins_with(source@, "https://"@);
}

/// The media type that goes with an extension, in whatever case it is written.
pub open spec fn media_type(extension: Option<Seq<char>>) -> Seq<char> {
    let lower = match extension {
        Some(extension) => text::in_lower_case(extension),
        None => "png"@,
    };
    if lower == "bmp"@ {
        "image/bmp"@
    } else if lower == "gif"@ {
        "image/gif"@
    } else if lower == "webp"@ {
        "image/webp"@
    } else if lower == "jpeg"@ || lower == "jpg"@ {
        "image/jpeg"@
    } else {
        "image/png"@
    }
}

/// The URI of an image names the media type that goes with the extension, and holds the bytes in
/// Base64.
pub proof fn law_image_uri(
    extension: Option<&str>,
    bytes: &Vec<u8>,
    uri: String,
    source: &str,
    url: Result<String, String>,
)
    requires
        call_ensures(image::image_data_uri, (extension, bytes), uri),
        call_ensures(image::encode_image_source, (source, &ImageFile::Bytes(*bytes)), url),
    ensures
        ({
            let mime = if extension is Some && image::has_separator(extension->0@) {
                "image/png"@
            } else {
                media_type(text::optional_view(extension))
            };
            &&& uri@ == "data:"@ + mime + ";base64,"@ + image::base64_text(bytes@)
            &&& image::sent_as_is(source@) ==> url is Ok && url->Ok_0@ == source@
            &&& !image::sent_as_is(source@) && image::ends_in_extension(source@)
                && text::optional_view(extension) == image::name_extension(
                image::last_part(source@),
            ) ==> url is Ok && url->Ok_0@ == uri@
            &&& !image::sent_as_is(source@) && image::ends_without_dot(source@) && extension is None
                ==> url is Ok && url->Ok_0@ == uri@
        }),
{
    if extension is None || !image::has_separator(extension->0@) {
        lemma_media_type(text::optional_view(extension));
    }
}

proof fn lemma_media_type(extension: Option<Seq<char>>)
    requires
        extension matches Some(extension) ==> !image::has_separator(extension),
    ensures
        image::image_mime_type(extension) == media_type(extension),
{
    reveal_strlit("jpg");
    reveal_strlit("jpeg");
    reveal_strlit("gif");
    reveal_strlit("webp");
    reveal_strlit("bmp");
    reveal_strlit("png");
    assert("jpg"@[0] == 'j' && "jpeg"@[0] == 'j' && "gif"@[0] == 'g' && "webp"@[0] == 'w'
        && "bmp"@[0] == 'b' && "png"@[0] == 'p');
}

/// The media type by a lower-case extension.
pub proof fn law_media_type_by_extension(extension: &str, mime: &'static str)
    requires
        call_ensures(image::mime_type_for, (extension,), mime),
    ensures
        extension@ == "jpg"@ || extension@ == "jpeg"@ ==> mime@ == "image/jpeg"@,
        extension@ == "gif"@ ==> mime@ == "image/gif"@,
        extension@ == "webp"@ ==> mime@ == "image/webp"@,
        extension@ == "bmp"@ ==> mime@ == "image/bmp"@,
        extension@ != "jpg"@ && extension@ != "jpeg"@ && extension@ != "gif"@ && extension@
            != "webp"@ && extension@ != "bmp"@ ==> mime@ == "image/png"@,
{
    reveal_strlit("jpg");
    reveal_strlit("jpeg");
    reveal_strlit("gif");
    reveal_strlit("webp");
    reveal_strlit("bmp");
    reveal_strlit("png");
    assert("jpg"@[0] == 'j' && "jpeg"@[0] == 'j' && "gif"@[0] == 'g' && "webp"@[0] == 'w'
        && "bmp"@[0] == 'b' && "png"@[0] == 'p');
}

/// The name of a file is what stands behind the last separator of its path, and its extension
/// what stands behind the last dot of the name, which does not begin with it.
pub proof fn law_file_name(directory: Seq<char>, separator: char, stem: Seq<char>, behind: Seq<char>)
    requires
        image::is_separator(separator),
        !image::has_separator(stem),
        !image::has_separator(behind),
        !behind.contains('.'),
    ensures
        ({
            let name = stem + seq!['.'] + behind;
            let path = directory + seq![separator] + name;
            &&& image::last_part(path) == name
            &&& image::last_part(name) == name
            &&& stem.len() > 0 ==> image::name_extension(name) == Some(behind)
            &&& stem.len() == 0 ==> image::name_extension(name) is None
            &&& !stem.contains('.') ==> image::name_extension(stem) is None
        }),
{
    let name = stem + seq!['.'] + behind;
    let path = directory + seq![separator] + name;
    assert(!image::has_separator(name)) by {
        if image::has_separator(name) {
            let i = choose|i: int| 0 <= i < name.len() && image::is_separator(#[trigger] name[i]);
            if i < stem.len() {
                assert(stem[i] == name[i]);
            } else if i > stem.len() {
                assert(behind[i - stem.len() - 1] == name[i]);
            }
        }
    }
    lemma_last_part(directory + seq![separator], name);
    lemma_last_part(Seq::empty(), name);
    assert(Seq::<char>::empty() + name =~= name);
    lemma_split(stem, behind);
    lemma_no_split(stem);
}

proof fn lemma_last_part(before: Seq<char>, name: Seq<char>)
    requires
        !image::has_separator(name),
        before.len() == 0 || image::is_separator(before.last()),
    ensures
        image::last_part(before + name) == name,
    decreases name.len(),
{
    let path = before + name;
    if name.len() == 0 {
        assert(path =~= before);
    } else {
        let shorter = name.drop_last();
        assert(!image::is_separator(name[name.len() - 1]));
        assert(!image::has_separator(shorter)) by {
            if image::has_separator(shorter) {
                let i = choose|i: int|
                    0 <= i < shorter.len() && image::is_separator(#[trigger] shorter[i]);
                assert(name[i] == shorter[i]);
            }
        }
        assert(path.drop_last() =~= before + shorter);
        lemma_last_part(before, shorter);
        assert(shorter.push(name.last()) =~= name);
    }
}

proof fn lemma_split(stem: Seq<char>, behind: Seq<char>)
    requires
        !behind.contains('.'),
    ensures
        image::split_at_last(stem + seq!['.'] + behind, '.') == Some((stem, behind)),
    decreases behind.len(),
{
    let name = stem + seq!['.'] + behind;
    if behind.len() == 0 {
        assert(name.last() == '.');
        assert(name.drop_last() =~= stem);
        assert(behind =~= Seq::empty());
    } else {
        let shorter = behind.drop_last();
        assert(behind.contains(behind.last()));
        assert(!shorter.contains('.')) by {
            if shorter.contains('.') {
                let i = choose|i: int| 0 <= i < shorter.len() && shorter[i] == '.';
                assert(behind[i] == '.');
            }
        }
        lemma_split(stem, shorter);
        assert(name.drop_last() =~= stem + seq!['.'] + shorter);
        assert(shorter.push(behind.last()) =~= behind);
    }
}

proof fn lemma_no_split(name: Seq<char>)
    ensures
        !name.contains('.') ==> image::split_at_last(name, '.') is None,
    decreases name.len(),
{
    if name.len() > 0 && !name.contains('.') {
        assert(name.contains(name.last()));
        let shorter = name.drop_last();
        if shorter.contains('.') {
            let i = choose|i: int| 0 <= i < shorter.len() && shorter[i] == '.';
            assert(name[i] == '.');
        }
        lemma_no_split(shorter);
    }
}

/// The Markdown of a message begins with its role and holds that of each piece in order; the
/// inputs of its tool calls are written out in their order.
pub proof fn law_formatted_message(
    message: &LanguageModelRequestMessage,
    code_blocks: &Vec<String>,
    written: String,
    inputs: Vec<String>,
    first: Seq<ContentView>,
    second: Seq<ContentView>,
)
    requires
        call_ensures(
            markdown::format_request_message_as_markdown,
            (message, code_blocks),
            written,
        ),
        call_ensures(markdown::tool_input_texts, (message,), inputs),
        message@.content == first + second,
        code_blocks@.len() == markdown::tool_use_count(message@.content),
    ensures
        ({
            let blocks = markdown::string_views(code_blocks@);
            let heading = match message.role {
                message::Role::System => "## System"@,
                message::Role::User => "## User"@,
                message::Role::Assistant => "## Assistant"@,
            };
            let mark = if message.cache {
                " [cached]"@
            } else {
                seq![]
            };
            &&& written@ == heading + mark + "\n\n"@ + (markdown::contents_markdown(first, blocks)
                + markdown::contents_markdown(
                second,
                blocks.skip(markdown::tool_use_count(first) as int),
            )) + "\n"@
            &&& markdown::string_views(inputs@) == markdown::tool_inputs(first)
                + markdown::tool_inputs(second)
        }),
{
    let blocks = markdown::string_views(code_blocks@);
    assert(blocks.len() == code_blocks@.len());
    exchange_laws::law_message_markdown(message@, blocks);
    exchange_laws::law_pieces_in_order(first, second, blocks);
}

} // verus!
