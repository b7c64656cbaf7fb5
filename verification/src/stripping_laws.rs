//! What the first tier of compaction keeps of a conversation.

use crate::message;
use crate::message::{ContentView, MessageView};
use crate::stripping;
use crate::text;
use crate::zones;
use vstd::prelude::*;

verus! {

/// The pieces of all messages, one after the other.
pub open spec fn all_contents(messages: Seq<MessageView>) -> Seq<ContentView>
    decreases messages.len(),
{
    if messages.len() == 0 {
        Seq::empty()
    } else {
        all_contents(messages.drop_last()) + messages.last().content
    }
}

/// Whether a piece is the result of a tool that failed.
pub open spec fn is_error_result(content: ContentView) -> bool {
    match content {
        ContentView::ToolResult(tool_result) => tool_result.is_error,
        _ => false,
    }
}

/// The results of tools that failed, in order.
pub open spec fn error_results(contents: Seq<ContentView>) -> Seq<ContentView>
    decreases contents.len(),
{
    if contents.len() == 0 {
        Seq::empty()
    } else if is_error_result(contents.last()) {
        error_results(contents.drop_last()).push(contents.last())
    } else {
        error_results(contents.drop_last())
    }
}

proof fn lemma_error_results_concat(first: Seq<ContentView>, second: Seq<ContentView>)
    ensures
        error_results(first + second) == error_results(first) + error_results(second),
    decreases second.len(),
{
    if second.len() == 0 {
        assert(first + second =~= first);
        assert(error_results(first) + error_results(second) =~= error_results(first));
    } else {
        assert((first + second).drop_last() =~= first + second.drop_last());
        lemma_error_results_concat(first, second.drop_last());
        assert(error_results(first + second) =~= error_results(first) + error_results(second));
    }
}

proof fn lemma_error_results_stripped(contents: Seq<ContentView>)
    ensures
        error_results(stripping::stripped_contents(contents)) == error_results(contents),
    decreases contents.len(),
{
    if contents.len() > 0 {
        let before = stripping::stripped_contents(contents.drop_last());
        lemma_error_results_stripped(contents.drop_last());
        if stripping::survives(contents.last()) {
            let added = stripping::shortened(contents.last());
            assert(before.push(added).drop_last() =~= before);
        }
    }
}

proof fn lemma_error_results_of_negligible(contents: Seq<ContentView>)
    requires
        forall|i: int| 0 <= i < contents.len() ==> stripping::negligible(#[trigger] contents[i]),
    ensures
        error_results(contents) == Seq::<ContentView>::empty(),
    decreases contents.len(),
{
    if contents.len() > 0 {
        assert(stripping::negligible(contents[contents.len() - 1]));
        assert forall|i: int| 0 <= i < contents.drop_last().len() implies stripping::negligible(
            #[trigger] contents.drop_last()[i],
        ) by {
            assert(contents.drop_last()[i] == contents[i]);
        }
        lemma_error_results_of_negligible(contents.drop_last());
    }
}

proof fn lemma_all_contents_push(messages: Seq<MessageView>, message: MessageView)
    ensures
        all_contents(messages.push(message)) == all_contents(messages) + message.content,
{
    assert(messages.push(message).drop_last() =~= messages);
}

proof fn lemma_all_contents_concat(first: Seq<MessageView>, second: Seq<MessageView>)
    ensures
        all_contents(first + second) == all_contents(first) + all_contents(second),
    decreases second.len(),
{
    if second.len() == 0 {
        assert(first + second =~= first);
        assert(all_contents(first) + all_contents(second) =~= all_contents(first));
    } else {
        assert((first + second).drop_last() =~= first + second.drop_last());
        lemma_all_contents_concat(first, second.drop_last());
        assert(all_contents(first + second) =~= all_contents(first) + all_contents(second));
    }
}

/// Joining messages of one role keeps every piece in its place.
pub proof fn lemma_all_contents_merged(messages: Seq<MessageView>)
    ensures
        all_contents(stripping::merged(messages)) == all_contents(messages),
    decreases messages.len(),
{
    if messages.len() > 0 {
        let before = stripping::merged(messages.drop_last());
        let message = messages.last();
        lemma_all_contents_merged(messages.drop_last());
        if before.len() > 0 && before.last().role == message.role {
            let both = stripping::joined(before.last(), message);
            lemma_all_contents_push(before.drop_last(), both);
            assert(all_contents(before) == all_contents(before.drop_last())
                + before.last().content);
            assert(all_contents(before.drop_last()) + (before.last().content + message.content)
                =~= all_contents(before) + message.content);
        } else {
            lemma_all_contents_push(before, message);
        }
    }
}

proof fn lemma_error_results_without_empty(messages: Seq<MessageView>)
    ensures
        error_results(all_contents(stripping::without_empty(messages))) == error_results(
            all_contents(messages),
        ),
    decreases messages.len(),
{
    if messages.len() > 0 {
        let before = messages.drop_last();
        let message = messages.last();
        lemma_error_results_without_empty(before);
        lemma_error_results_concat(all_contents(before), message.content);
        if stripping::removable(message) {
            lemma_error_results_of_negligible(message.content);
            assert(error_results(all_contents(before)) + Seq::<ContentView>::empty()
                =~= error_results(all_contents(before)));
        } else {
            let kept = stripping::without_empty(before);
            lemma_all_contents_push(kept, message);
            lemma_error_results_concat(all_contents(kept), message.content);
        }
    }
}

proof fn lemma_error_results_stripped_before(messages: Seq<MessageView>, start: int, count: int)
    requires
        0 <= count <= messages.len(),
    ensures
        error_results(all_contents(stripping::stripped_before(messages, start).take(count)))
            == error_results(all_contents(messages.take(count))),
    decreases count,
{
    let stripped = stripping::stripped_before(messages, start);
    if count == 0 {
        assert(stripped.take(0) =~= messages.take(0));
    } else {
        let last = count - 1;
        lemma_error_results_stripped_before(messages, start, last);
        assert(stripped.take(count) =~= stripped.take(last).push(stripped[last]));
        assert(messages.take(count) =~= messages.take(last).push(messages[last]));
        lemma_all_contents_push(stripped.take(last), stripped[last]);
        lemma_all_contents_push(messages.take(last), messages[last]);
        lemma_error_results_concat(all_contents(stripped.take(last)), stripped[last].content);
        lemma_error_results_concat(all_contents(messages.take(last)), messages[last].content);
        lemma_error_results_stripped(messages[last].content);
    }
}

/// What compaction leaves are the pieces of the older messages that are kept, and all pieces of
/// the recent ones.
proof fn lemma_all_contents_compacted(messages: Seq<MessageView>, threshold: nat)
    ensures
        ({
            let start = stripping::strip_start(messages, threshold) as int;
            let older = stripping::stripped_before(messages, start).take(start);
            &&& start <= messages.len()
            &&& all_contents(stripping::compacted(messages, threshold)) == all_contents(
                stripping::without_empty(older),
            ) + all_contents(messages.skip(start))
            &&& all_contents(messages) == all_contents(messages.take(start)) + all_contents(
                messages.skip(start),
            )
        }),
{
    let start = stripping::strip_start(messages, threshold) as int;
    let older = stripping::stripped_before(messages, start).take(start);
    stripping::lemma_strip_start(messages, threshold);
    lemma_all_contents_merged(stripping::without_empty(older));
    lemma_all_contents_concat(stripping::cleaned_before(messages, start), messages.skip(start));
    lemma_all_contents_concat(messages.take(start), messages.skip(start));
    assert(messages =~= messages.take(start) + messages.skip(start));
}

/// Compaction never removes an error result: all of them are there afterwards, in the same
/// order.
pub proof fn law_error_results_kept(messages: Seq<MessageView>, threshold: nat)
    ensures
        error_results(all_contents(stripping::compacted(messages, threshold))) == error_results(
            all_contents(messages),
        ),
{
    let start = stripping::strip_start(messages, threshold) as int;
    let older = stripping::stripped_before(messages, start).take(start);
    let recent = all_contents(messages.skip(start));
    lemma_all_contents_compacted(messages, threshold);
    lemma_error_results_concat(all_contents(stripping::without_empty(older)), recent);
    lemma_error_results_concat(all_contents(messages.take(start)), recent);
    lemma_error_results_without_empty(older);
    lemma_error_results_stripped_before(messages, start, start);
}

/// Within the threshold from the end nothing changes: each of those messages is there as it was,
/// behind whatever is left of the older ones.
pub proof fn law_recent_messages_unchanged(messages: Seq<MessageView>, threshold: nat)
    requires
        threshold > 0,
    ensures
        ({
            let start = stripping::recent_start(stripping::message_lens(messages), threshold);
            let compacted = stripping::compacted(messages, threshold);
            let recent = messages.len() - start;
            &&& 0 <= recent <= compacted.len()
            &&& compacted.skip(compacted.len() - recent) == messages.skip(start as int)
        }),
{
    let start = stripping::recent_start(stripping::message_lens(messages), threshold) as int;
    let compacted = stripping::compacted(messages, threshold);
    let from = stripping::strip_start(messages, threshold) as int;
    stripping::law_last_start(stripping::message_lens(messages), threshold);
    stripping::lemma_strip_start(messages, threshold);
    assert(from == start || from == 0);
    assert(compacted.skip(compacted.len() - (messages.len() - start)) =~= messages.skip(start));
}

/// Whether `part` occurs within `whole` without a gap.
pub open spec fn occurs_in(part: Seq<ContentView>, whole: Seq<ContentView>) -> bool {
    exists|at: int|
        0 <= at <= whole.len() - part.len() && #[trigger] whole.subrange(at, at + part.len())
            == part
}

/// Whether one of the messages has the role of `message` and holds all its pieces without a gap.
pub open spec fn holds(messages: Seq<MessageView>, message: MessageView) -> bool {
    exists|i: int|
        0 <= i < messages.len() && (#[trigger] messages[i]).role == message.role && occurs_in(
            message.content,
            messages[i].content,
        )
}

proof fn lemma_holds_itself(messages: Seq<MessageView>, index: int)
    requires
        0 <= index < messages.len(),
    ensures
        holds(messages, messages[index]),
{
    let whole = messages[index].content;
    assert(whole.subrange(0int, 0int + whole.len()) =~= whole);
    assert(occurs_in(whole, messages[index].content));
}

/// Joining messages of one role keeps the pieces of each together.
proof fn lemma_merged_holds(messages: Seq<MessageView>, message: MessageView)
    requires
        messages.contains(message),
    ensures
        holds(stripping::merged(messages), message),
    decreases messages.len(),
{
    let before = messages.drop_last();
    let merged_before = stripping::merged(before);
    let last = messages.last();
    let after = stripping::merged(messages);
    let part = message.content;
    let joins = merged_before.len() > 0 && merged_before.last().role == last.role;
    assert(after == stripping::appended(merged_before, last));
    if last == message {
        let end = after.len() - 1;
        let whole = after[end].content;
        let at = whole.len() - part.len();
        assert(after[end].role == last.role);
        assert(whole.subrange(at, at + part.len()) =~= part);
        assert(occurs_in(part, whole));
    } else {
        let place = choose|i: int| 0 <= i < messages.len() && messages[i] == message;
        assert(before[place] == message);
        lemma_merged_holds(before, message);
        let found = choose|i: int|
            0 <= i < merged_before.len() && (#[trigger] merged_before[i]).role == message.role
                && occurs_in(part, merged_before[i].content);
        let old_whole = merged_before[found].content;
        let at = choose|at: int|
            0 <= at <= old_whole.len() - part.len() && #[trigger] old_whole.subrange(
                at,
                at + part.len(),
            ) == part;
        let whole = after[found].content;
        assert(after[found].role == message.role);
        assert(whole.subrange(at, at + part.len()) =~= old_whole.subrange(at, at + part.len()));
        assert(occurs_in(part, whole));
    }
}

proof fn lemma_without_empty_contains(messages: Seq<MessageView>, index: int)
    requires
        0 <= index < messages.len(),
        !stripping::removable(messages[index]),
    ensures
        stripping::without_empty(messages).contains(messages[index]),
    decreases messages.len(),
{
    let before = stripping::without_empty(messages.drop_last());
    let kept = stripping::without_empty(messages);
    if index == messages.len() - 1 {
        assert(kept[before.len() as int] == messages[index]);
    } else {
        lemma_without_empty_contains(messages.drop_last(), index);
        let place = choose|i: int| 0 <= i < before.len() && before[i] == messages[index];
        assert(kept[place] == messages[index]);
    }
}

/// A message within the threshold from the end, and one of the last three with tool results,
/// survives compaction: one message of its role holds all its pieces without a gap.
pub proof fn law_protected_messages_survive(
    messages: Seq<MessageView>,
    threshold: nat,
    index: int,
)
    requires
        0 <= index < messages.len(),
        index >= stripping::deep_omit_start(stripping::message_lens(messages), threshold)
            || stripping::protected(messages, index),
    ensures
        holds(stripping::compacted(messages, threshold), messages[index]),
{
    let start = stripping::strip_start(messages, threshold) as int;
    let compacted = stripping::compacted(messages, threshold);
    let cleaned = stripping::cleaned_before(messages, start);
    stripping::lemma_strip_start(messages, threshold);
    if index >= start {
        let place = cleaned.len() + index - start;
        assert(compacted[place] == messages[index]);
        lemma_holds_itself(compacted, place);
    } else {
        let older = stripping::stripped_before(messages, start).take(start);
        let content = messages[index].content;
        assert(older[index] == messages[index]);
        let result = choose|i: int| 0 <= i < content.len() && #[trigger] content[i] is ToolResult;
        assert(!stripping::negligible(messages[index].content[result]));
        lemma_without_empty_contains(older, index);
        lemma_merged_holds(stripping::without_empty(older), messages[index]);
        let found = choose|i: int|
            0 <= i < cleaned.len() && (#[trigger] cleaned[i]).role == messages[index].role
                && occurs_in(content, cleaned[i].content);
        assert(compacted[found] == cleaned[found]);
    }
}

/// Whether no message is empty, and no two consecutive ones have the same role.
pub open spec fn in_shape(messages: Seq<MessageView>) -> bool {
    &&& forall|i: int| 0 <= i < messages.len() ==> !stripping::removable(#[trigger] messages[i])
    &&& forall|i: int, j: int|
        0 <= i && j == i + 1 && j < messages.len() ==> (#[trigger] messages[i]).role != (
        #[trigger] messages[j]).role
}

proof fn lemma_merged_shape(messages: Seq<MessageView>)
    requires
        forall|i: int| 0 <= i < messages.len() ==> !stripping::removable(#[trigger] messages[i]),
    ensures
        in_shape(stripping::merged(messages)),
    decreases messages.len(),
{
    if messages.len() > 0 {
        let before = stripping::merged(messages.drop_last());
        let message = messages.last();
        lemma_merged_shape(messages.drop_last());
        assert(!stripping::removable(messages[messages.len() - 1]));
        if before.len() > 0 && before.last().role == message.role {
            let both = stripping::joined(before.last(), message);
            let first = before.last().content;
            assert(!stripping::removable(before[before.len() - 1]));
            let filled = choose|i: int|
                0 <= i < first.len() && !stripping::negligible(#[trigger] first[i]);
            assert(both.content[filled] == first[filled]);
            assert(!stripping::removable(both));
        }
    }
}

proof fn lemma_without_empty_shape(messages: Seq<MessageView>)
    ensures
        forall|i: int|
            0 <= i < stripping::without_empty(messages).len() ==> !stripping::removable(
                #[trigger] stripping::without_empty(messages)[i],
            ),
    decreases messages.len(),
{
    if messages.len() > 0 {
        let before = stripping::without_empty(messages.drop_last());
        let kept = stripping::without_empty(messages);
        lemma_without_empty_shape(messages.drop_last());
        assert forall|i: int| 0 <= i < kept.len() implies !stripping::removable(
            #[trigger] kept[i],
        ) by {
            if i < before.len() {
                assert(kept[i] == before[i]);
            }
        }
    }
}

/// Of what compaction leaves of the older messages none is empty, and no two consecutive ones
/// have the same role.
pub proof fn law_compacted_shape(messages: Seq<MessageView>, threshold: nat)
    ensures
        ({
            let recent = messages.len() - stripping::strip_start(messages, threshold);
            let compacted = stripping::compacted(messages, threshold);
            &&& 0 <= recent <= compacted.len()
            &&& in_shape(compacted.take(compacted.len() - recent))
        }),
{
    let start = stripping::strip_start(messages, threshold) as int;
    let older = stripping::stripped_before(messages, start).take(start);
    let compacted = stripping::compacted(messages, threshold);
    stripping::lemma_strip_start(messages, threshold);
    lemma_without_empty_shape(older);
    lemma_merged_shape(stripping::without_empty(older));
    assert(compacted.take(compacted.len() - (messages.len() - start))
        =~= stripping::cleaned_before(messages, start));
}

/// The length in bytes of all texts of the messages.
pub open spec fn conversation_len(messages: Seq<MessageView>) -> nat {
    text::utf8_len(message::joined_text(all_contents(messages)))
}

proof fn lemma_joined_text_concat(first: Seq<ContentView>, second: Seq<ContentView>)
    ensures
        text::utf8_len(message::joined_text(first + second)) == text::utf8_len(
            message::joined_text(first),
        ) + text::utf8_len(message::joined_text(second)),
    decreases second.len(),
{
    if second.len() == 0 {
        assert(first + second =~= first);
        assert(text::utf8_len(Seq::<char>::empty()) == 0);
    } else {
        let rest = second.drop_last();
        lemma_joined_text_concat(first, rest);
        assert(first + second =~= (first + rest).push(second.last()));
        assert(second =~= rest.push(second.last()));
        stripping::lemma_joined_text_push(first + rest, second.last());
        stripping::lemma_joined_text_push(rest, second.last());
    }
}

proof fn lemma_stripped_before_len(messages: Seq<MessageView>, start: int, count: int)
    requires
        0 <= count <= messages.len(),
    ensures
        conversation_len(stripping::stripped_before(messages, start).take(count))
            <= conversation_len(messages.take(count)),
    decreases count,
{
    let stripped = stripping::stripped_before(messages, start);
    if count == 0 {
        assert(stripped.take(0) =~= messages.take(0));
    } else {
        let last = count - 1;
        lemma_stripped_before_len(messages, start, last);
        assert(stripped.take(count) =~= stripped.take(last).push(stripped[last]));
        assert(messages.take(count) =~= messages.take(last).push(messages[last]));
        lemma_all_contents_push(stripped.take(last), stripped[last]);
        lemma_all_contents_push(messages.take(last), messages[last]);
        lemma_joined_text_concat(all_contents(stripped.take(last)), stripped[last].content);
        lemma_joined_text_concat(all_contents(messages.take(last)), messages[last].content);
        stripping::lemma_stripped_len(messages[last].content);
    }
}

proof fn lemma_without_empty_len(messages: Seq<MessageView>)
    ensures
        conversation_len(stripping::without_empty(messages)) <= conversation_len(messages),
    decreases messages.len(),
{
    if messages.len() > 0 {
        let before = messages.drop_last();
        lemma_without_empty_len(before);
        lemma_joined_text_concat(all_contents(before), messages.last().content);
        if !stripping::removable(messages.last()) {
            let kept = stripping::without_empty(before);
            lemma_all_contents_push(kept, messages.last());
            lemma_joined_text_concat(all_contents(kept), messages.last().content);
        }
    }
}

/// The length of a conversation is the sum of the lengths of its messages.
pub proof fn lemma_conversation_len(messages: Seq<MessageView>)
    ensures
        conversation_len(messages) == stripping::total(stripping::message_lens(messages)),
    decreases messages.len(),
{
    let lens = stripping::message_lens(messages);
    if messages.len() == 0 {
        assert(text::utf8_len(Seq::<char>::empty()) == 0);
    } else {
        let before = messages.drop_last();
        lemma_conversation_len(before);
        lemma_joined_text_concat(all_contents(before), messages.last().content);
        zones::lemma_total_take(lens, messages.len() - 1);
        assert(lens.take(messages.len() - 1) =~= stripping::message_lens(before));
        assert(lens.take(messages.len() as int) =~= lens);
    }
}

/// The lengths of a conversation after compaction add up to those of the older messages that are
/// kept and those of the recent ones.
pub proof fn lemma_compacted_total(messages: Seq<MessageView>, threshold: nat)
    ensures
        ({
            let start = stripping::strip_start(messages, threshold) as int;
            let older = stripping::stripped_before(messages, start).take(start);
            stripping::total(stripping::message_lens(stripping::compacted(messages, threshold)))
                == stripping::total(stripping::message_lens(stripping::without_empty(older)))
                + stripping::total(stripping::message_lens(messages.skip(start)))
        }),
{
    let start = stripping::strip_start(messages, threshold) as int;
    let older = stripping::stripped_before(messages, start).take(start);
    lemma_all_contents_compacted(messages, threshold);
    lemma_joined_text_concat(
        all_contents(stripping::without_empty(older)),
        all_contents(messages.skip(start)),
    );
    lemma_conversation_len(stripping::compacted(messages, threshold));
    lemma_conversation_len(stripping::without_empty(older));
    lemma_conversation_len(messages.skip(start));
}

/// Compaction never makes a conversation longer.
pub proof fn law_compaction_shrinks(messages: Seq<MessageView>, threshold: nat)
    ensures
        conversation_len(stripping::compacted(messages, threshold)) <= conversation_len(messages),
{
    let start = stripping::strip_start(messages, threshold) as int;
    let older = stripping::stripped_before(messages, start).take(start);
    let recent = all_contents(messages.skip(start));
    lemma_all_contents_compacted(messages, threshold);
    lemma_joined_text_concat(all_contents(stripping::without_empty(older)), recent);
    lemma_joined_text_concat(all_contents(messages.take(start)), recent);
    lemma_without_empty_len(older);
    lemma_stripped_before_len(messages, start, start);
}

} // verus!
