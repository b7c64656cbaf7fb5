//! The first tier of compaction: old tool calls, tool results and thinking are taken out of the
//! messages that lie further back than a threshold.

use crate::message;
use crate::message::{
    ContentView, LanguageModelRequestMessage, MessageContent, MessageView,
};
use crate::text;
use vstd::prelude::*;
use vstd::string::*;

verus! {

/// Number of recent messages with tool results that are never stripped.
pub const UNCOMPACTED_RECENT_AGENT_MESSAGES: usize = 3;

/// The sum of a sequence of lengths.
pub open spec fn total(lens: Seq<nat>) -> nat
    decreases lens.len(),
{
    if lens.len() == 0 {
        0
    } else {
        lens[0] + total(lens.drop_first())
    }
}

/// The lengths of the messages.
pub open spec fn message_lens(messages: Seq<MessageView>) -> Seq<nat> {
    messages.map_values(|message: MessageView| message::message_len(message))
}

/// The last index from which the lengths up to the end add up to at least `threshold`.
pub open spec fn last_start(lens: Seq<nat>, threshold: nat) -> Option<nat>
    decreases lens.len(),
{
    if lens.len() == 0 {
        None
    } else {
        match last_start(lens.drop_first(), threshold) {
            Some(start) => Some(start + 1),
            None => if total(lens) >= threshold {
                Some(0)
            } else {
                None
            },
        }
    }
}

/// The index from which content falls within `threshold` bytes from the end: the number of
/// messages where the threshold is zero, zero where all content falls within it.
pub open spec fn recent_start(lens: Seq<nat>, threshold: nat) -> nat {
    if threshold == 0 {
        lens.len()
    } else {
        match last_start(lens, threshold) {
            Some(start) => start,
            None => 0,
        }
    }
}

/// Where the lengths behind `from` do not reach the threshold or reach it at `start`, the same
/// holds of the whole sequence.
pub proof fn lemma_last_start_skip(lens: Seq<nat>, threshold: nat, from: int)
    requires
        0 <= from <= lens.len(),
        last_start(lens.skip(from), threshold) is Some,
    ensures
        last_start(lens, threshold) == Some(
            (last_start(lens.skip(from), threshold)->0 + from) as nat,
        ),
    decreases from,
{
    if from == 0 {
        assert(lens.skip(0) =~= lens);
    } else {
        assert(lens.skip(from - 1).drop_first() =~= lens.skip(from));
        lemma_last_start_skip(lens, threshold, from - 1);
    }
}

/// The index that [`last_start`] gives is the last one from which the lengths reach the
/// threshold; where it gives none, no index has that property.
pub proof fn law_last_start(lens: Seq<nat>, threshold: nat)
    ensures
        match last_start(lens, threshold) {
            Some(start) => {
                &&& start < lens.len()
                &&& total(lens.skip(start as int)) >= threshold
                &&& forall|later: int|
                    start < later < lens.len() ==> total(#[trigger] lens.skip(later)) < threshold
            },
            None => forall|index: int|
                0 <= index < lens.len() ==> total(#[trigger] lens.skip(index)) < threshold,
        },
    decreases lens.len(),
{
    if lens.len() > 0 {
        let rest = lens.drop_first();
        law_last_start(rest, threshold);
        assert(lens.skip(0) =~= lens);
        assert forall|index: int| 1 <= index < lens.len() implies #[trigger] lens.skip(index)
            == rest.skip(index - 1) by {
            assert(lens.skip(index) =~= rest.skip(index - 1));
        }
        if last_start(rest, threshold) is Some {
            let start = last_start(rest, threshold)->0;
            assert(lens.skip((start + 1) as int) == rest.skip(start as int));
            assert forall|later: int| start + 1 < later < lens.len() implies total(
                #[trigger] lens.skip(later),
            ) < threshold by {
                assert(lens.skip(later) == rest.skip(later - 1));
            }
        } else {
            assert forall|index: int| 1 <= index < lens.len() implies total(
                #[trigger] lens.skip(index),
            ) < threshold by {
                assert(lens.skip(index) == rest.skip(index - 1));
            }
            assert(forall|later: int|
                0 < later < lens.len() ==> total(#[trigger] lens.skip(later)) < threshold);
        }
    }
}

/// Where all content together stays below the threshold, everything is recent.
pub proof fn law_short_conversation_is_recent(lens: Seq<nat>, threshold: nat)
    requires
        total(lens) < threshold,
    ensures
        last_start(lens, threshold) is None,
        recent_start(lens, threshold) == 0,
    decreases lens.len(),
{
    if lens.len() > 0 {
        law_short_conversation_is_recent(lens.drop_first(), threshold);
    }
}

/// Finds the message index from which content falls within `chars_threshold` bytes from the end.
/// Returns the number of messages when the threshold is 0 (nothing within range).
/// Returns 0 when total content is smaller than the threshold (everything is within range).
pub fn compute_recent_start_index(
    messages: &[LanguageModelRequestMessage],
    chars_threshold: usize,
) -> (start: usize)
    ensures
        start == recent_start(
            message_lens(message::message_views(messages@)),
            chars_threshold as nat,
        ),
{
    if chars_threshold == 0 {
        return messages.len();
    }
    let ghost lens = message_lens(message::message_views(messages@));
    let mut chars_from_end: usize = 0;
    let mut i: usize = messages.len();
    proof {
        assert(lens.skip(i as int).len() == 0);
    }
    while i > 0
        invariant
            i <= messages@.len(),
            lens == message_lens(message::message_views(messages@)),
            chars_threshold > 0,
            chars_from_end == total(lens.skip(i as int)),
            last_start(lens.skip(i as int), chars_threshold as nat) is None,
        decreases i,
    {
        i = i - 1;
        let contents = messages[i].string_contents();
        let len: usize = text::byte_len(contents.as_str());
        proof {
            assert(lens[i as int] == len);
            assert(lens.skip(i as int).drop_first() =~= lens.skip(i + 1));
            assert(total(lens.skip(i as int)) == len + chars_from_end);
        }
        let longer: usize = chars_from_end.saturating_add(len);
        if longer >= chars_threshold {
            proof {
                lemma_last_start_skip(lens, chars_threshold as nat, i as int);
            }
            return i;
        }
        chars_from_end = longer;
    }
    proof {
        assert(lens.skip(0) =~= lens);
    }
    0
}

/// The note that stands in for omitted thinking of `chars` characters.
pub open spec fn omission_note(chars: nat) -> Seq<char> {
    "[thinking omitted - was "@ + text::decimal(chars) + " characters]\n"@
}

/// A thinking text, replaced by the note where that is shorter.
pub open spec fn shortened_thinking(thinking: Seq<char>) -> Seq<char> {
    let note = omission_note(thinking.len());
    if text::utf8_len(thinking) > text::utf8_len(note) {
        note
    } else {
        thinking
    }
}

/// Whether stripping keeps a piece: everything but tool calls and the results of tools that
/// succeeded.
pub open spec fn survives(content: ContentView) -> bool {
    match content {
        ContentView::ToolUse(_) => false,
        ContentView::ToolResult(tool_result) => tool_result.is_error,
        _ => true,
    }
}

/// A piece with its thinking shortened.
pub open spec fn shortened(content: ContentView) -> ContentView {
    match content {
        ContentView::Thinking { text, signature } => ContentView::Thinking {
            text: shortened_thinking(text),
            signature,
        },
        _ => content,
    }
}

/// The pieces that stripping keeps, with their thinking shortened.
pub open spec fn stripped_contents(contents: Seq<ContentView>) -> Seq<ContentView>
    decreases contents.len(),
{
    if contents.len() == 0 {
        Seq::empty()
    } else {
        let before = stripped_contents(contents.drop_last());
        if survives(contents.last()) {
            before.push(shortened(contents.last()))
        } else {
            before
        }
    }
}

/// A message with its contents stripped.
pub open spec fn stripped_message(message: MessageView) -> MessageView {
    MessageView { content: stripped_contents(message.content), ..message }
}

/// Whether a message holds the result of a tool.
pub open spec fn has_tool_result(message: MessageView) -> bool {
    exists|i: int| 0 <= i < message.content.len() && #[trigger] message.content[i] is ToolResult
}

/// The number of messages that hold the result of a tool.
pub open spec fn tool_result_messages(messages: Seq<MessageView>) -> nat
    decreases messages.len(),
{
    if messages.len() == 0 {
        0
    } else {
        (if has_tool_result(messages[0]) {
            1nat
        } else {
            0nat
        }) + tool_result_messages(messages.drop_first())
    }
}

/// Whether the message at `index` is among the last ones with tool results, which are never
/// stripped.
pub open spec fn protected(messages: Seq<MessageView>, index: int) -> bool {
    &&& has_tool_result(messages[index])
    &&& tool_result_messages(messages.skip(index)) <= UNCOMPACTED_RECENT_AGENT_MESSAGES
}

/// The messages with those before `start` stripped that are not protected.
pub open spec fn stripped_before(messages: Seq<MessageView>, start: int) -> Seq<MessageView> {
    Seq::new(
        messages.len(),
        |i: int|
            if i < start && !protected(messages, i) {
                stripped_message(messages[i])
            } else {
                messages[i]
            },
    )
}

/// Whether a piece is nothing to keep a message for: a blank text that is not the result of a
/// tool.
pub open spec fn negligible(content: ContentView) -> bool {
    message::content_empty(content) && !(content is ToolResult)
}

/// Whether a message is empty: it holds blank texts at most, and no result of a tool. A tool
/// result that stripping leaves is an error or protected, and is kept even where it is blank.
pub open spec fn removable(message: MessageView) -> bool {
    forall|i: int| 0 <= i < message.content.len() ==> negligible(#[trigger] message.content[i])
}

/// The messages that are not empty.
pub open spec fn without_empty(messages: Seq<MessageView>) -> Seq<MessageView>
    decreases messages.len(),
{
    if messages.len() == 0 {
        Seq::empty()
    } else {
        let before = without_empty(messages.drop_last());
        if removable(messages.last()) {
            before
        } else {
            before.push(messages.last())
        }
    }
}

/// Two messages of one role as one.
pub open spec fn joined(first: MessageView, second: MessageView) -> MessageView {
    MessageView {
        role: first.role,
        content: first.content + second.content,
        cache: first.cache || second.cache,
        reasoning_details: if first.reasoning_details is None {
            second.reasoning_details
        } else {
            first.reasoning_details
        },
    }
}

/// `message` behind `messages`, joined to the last one where their roles agree.
pub open spec fn appended(messages: Seq<MessageView>, message: MessageView) -> Seq<MessageView> {
    if messages.len() > 0 && messages.last().role == message.role {
        messages.drop_last().push(joined(messages.last(), message))
    } else {
        messages.push(message)
    }
}

/// The messages with consecutive ones of one role joined.
pub open spec fn merged(messages: Seq<MessageView>) -> Seq<MessageView>
    decreases messages.len(),
{
    if messages.len() == 0 {
        Seq::empty()
    } else {
        appended(merged(messages.drop_last()), messages.last())
    }
}

/// The index before which messages are stripped; nothing is stripped for a threshold of zero.
pub open spec fn deep_omit_start(lens: Seq<nat>, threshold: nat) -> nat {
    if threshold > 0 {
        recent_start(lens, threshold)
    } else {
        0
    }
}

/// The index before which the messages of a conversation are stripped: none are where no message
/// holds the result of a tool.
pub open spec fn strip_start(messages: Seq<MessageView>, threshold: nat) -> nat {
    if tool_result_messages(messages) == 0 {
        0
    } else {
        deep_omit_start(message_lens(messages), threshold)
    }
}

/// What is left of the messages before `start`: stripped, without the empty ones, and with
/// consecutive ones of one role joined.
pub open spec fn cleaned_before(messages: Seq<MessageView>, start: int) -> Seq<MessageView> {
    merged(without_empty(stripped_before(messages, start).take(start)))
}

/// The messages after the first tier of compaction: what is left of the older ones, and the
/// recent ones as they are.
pub open spec fn compacted(messages: Seq<MessageView>, threshold: nat) -> Seq<MessageView> {
    let start = strip_start(messages, threshold) as int;
    cleaned_before(messages, start) + messages.skip(start)
}

/// Stripping begins within the conversation.
pub proof fn lemma_strip_start(messages: Seq<MessageView>, threshold: nat)
    ensures
        strip_start(messages, threshold) <= messages.len(),
        strip_start(messages, threshold) == 0 ==> compacted(messages, threshold) == messages,
{
    law_last_start(message_lens(messages), threshold);
    if strip_start(messages, threshold) == 0 {
        let older = stripped_before(messages, 0).take(0);
        assert(older =~= Seq::empty());
        assert(without_empty(older) =~= Seq::empty());
        assert(merged(without_empty(older)) =~= Seq::empty());
        assert(compacted(messages, threshold) =~= messages);
    }
}

/// The note that stands in for omitted thinking.
fn thinking_note(thinking: &str) -> (note: String)
    ensures
        note@ == omission_note(thinking@.len()),
{
    let mut note = "[thinking omitted - was ".to_owned();
    note.append(text::usize_to_string(thinking.unicode_len()).as_str());
    note.append(" characters]\n");
    note
}

/// The pieces of a message that stripping keeps, with their thinking shortened.
fn strip_contents(contents: Vec<MessageContent>) -> (kept: Vec<MessageContent>)
    ensures
        message::content_views(kept@) == stripped_contents(message::content_views(contents@)),
{
    let ghost views = message::content_views(contents@);
    let mut kept: Vec<MessageContent> = Vec::new();
    proof {
        assert(views.take(0) =~= Seq::empty());
        assert(message::content_views(kept@) =~= Seq::empty());
    }
    for content in iter: contents
        invariant
            iter.seq() == contents@,
            views == message::content_views(contents@),
            message::content_views(kept@) == stripped_contents(views.take(iter.index())),
    {
        let ghost before = kept@;
        proof {
            assert(views.take(iter.index() + 1).drop_last() =~= views.take(iter.index()));
            assert(views.take(iter.index() + 1).last() == content@);
        }
        match content {
            MessageContent::ToolUse(_) => {},
            MessageContent::ToolResult(tool_result) => {
                if tool_result.is_error {
                    kept.push(MessageContent::ToolResult(tool_result));
                    proof {
                        assert(message::content_views(kept@) =~= message::content_views(
                            before,
                        ).push(content@));
                    }
                }
            },
            MessageContent::Thinking { text, signature } => {
                let note = thinking_note(text.as_str());
                let omitted = text::byte_len(text.as_str()) > text::byte_len(note.as_str());
                let shown = if omitted {
                    note
                } else {
                    text
                };
                kept.push(MessageContent::Thinking { text: shown, signature });
                proof {
                    assert(message::content_views(kept@) =~= message::content_views(before).push(
                        shortened(content@),
                    ));
                }
            },
            other => {
                kept.push(other);
                proof {
                    assert(message::content_views(kept@) =~= message::content_views(before).push(
                        content@,
                    ));
                }
            },
        }
    }
    proof {
        assert(views.take(contents@.len() as int) =~= views);
    }
    kept
}

/// Whether a message holds the result of a tool.
pub fn holds_tool_result(message: &LanguageModelRequestMessage) -> (result: bool)
    ensures
        result == has_tool_result(message@),
{
    let mut i: usize = 0;
    while i < message.content.len()
        invariant
            i <= message.content@.len(),
            forall|j: int| 0 <= j < i ==> !(#[trigger] message@.content[j] is ToolResult),
        decreases message.content.len() - i,
    {
        assert(message@.content[i as int] == message.content@[i as int]@);
        if let MessageContent::ToolResult(_) = &message.content[i] {
            return true;
        }
        i = i + 1;
    }
    false
}

/// The further back one starts, the more messages with tool results one counts.
proof fn lemma_tool_result_messages_monotone(messages: Seq<MessageView>, from: int, to: int)
    requires
        0 <= from <= to <= messages.len(),
    ensures
        tool_result_messages(messages.skip(from)) >= tool_result_messages(messages.skip(to)),
    decreases to - from,
{
    if from < to {
        assert(messages.skip(from).drop_first() =~= messages.skip(from + 1));
        lemma_tool_result_messages_monotone(messages, from + 1, to);
    }
}

/// The first index from which at most [`UNCOMPACTED_RECENT_AGENT_MESSAGES`] messages hold tool
/// results, and whether any message holds one, where `holds` tells of each whether it does.
pub(crate) fn protection_start(
    holds: &Vec<bool>,
    Ghost(views): Ghost<Seq<MessageView>>,
) -> (result: (usize, bool))
    requires
        holds@.len() == views.len(),
        forall|i: int| 0 <= i < views.len() ==> #[trigger] holds@[i] == has_tool_result(views[i]),
    ensures
        result.0 <= views.len(),
        result.1 == (tool_result_messages(views) > 0),
        forall|i: int|
            0 <= i < views.len() ==> (i >= result.0) == (tool_result_messages(
                #[trigger] views.skip(i),
            ) <= UNCOMPACTED_RECENT_AGENT_MESSAGES),
{
    let mut start: usize = holds.len();
    let mut count: usize = 0;
    proof {
        assert(views.skip(start as int).len() == 0);
    }
    while start > 0
        invariant
            holds@.len() == views.len(),
            forall|i: int|
                0 <= i < views.len() ==> #[trigger] holds@[i] == has_tool_result(views[i]),
            start <= views.len(),
            count == tool_result_messages(views.skip(start as int)),
            count <= UNCOMPACTED_RECENT_AGENT_MESSAGES,
        ensures
            start <= views.len(),
            count == tool_result_messages(views.skip(start as int)),
            count <= UNCOMPACTED_RECENT_AGENT_MESSAGES,
            start > 0 ==> count > 0 && tool_result_messages(views.skip(start - 1))
                > UNCOMPACTED_RECENT_AGENT_MESSAGES,
        decreases start,
    {
        proof {
            assert(views.skip(start - 1).drop_first() =~= views.skip(start as int));
            assert(views.skip(start - 1)[0] == views[start - 1]);
        }
        let held: bool = holds[start - 1];
        if held && count == UNCOMPACTED_RECENT_AGENT_MESSAGES {
            break;
        }
        if held {
            count = count + 1;
        }
        start = start - 1;
    }
    proof {
        assert(views.skip(0) =~= views);
        lemma_tool_result_messages_monotone(views, 0, start as int);
        assert forall|i: int| 0 <= i < views.len() implies (i >= start) == (tool_result_messages(
            #[trigger] views.skip(i),
        ) <= UNCOMPACTED_RECENT_AGENT_MESSAGES) by {
            if i >= start {
                lemma_tool_result_messages_monotone(views, start as int, i);
            } else {
                lemma_tool_result_messages_monotone(views, i, start - 1);
            }
        }
    }
    (start, count > 0)
}

/// Whether a message is empty.
fn is_removable(message: &LanguageModelRequestMessage) -> (result: bool)
    ensures
        result == removable(message@),
{
    let ghost content = message@.content;
    let blank: bool = message.contents_empty();
    let held: bool = holds_tool_result(message);
    proof {
        if held {
            let i = choose|i: int| 0 <= i < content.len() && #[trigger] content[i] is ToolResult;
            assert(!negligible(message@.content[i]));
        } else if !blank {
            let i = choose|i: int|
                0 <= i < content.len() && !message::content_empty(#[trigger] content[i]);
            assert(!negligible(message@.content[i]));
        }
    }
    blank && !held
}

/// Whether nothing but an empty message is left of a message when it is stripped.
pub fn strips_to_nothing(message: &LanguageModelRequestMessage) -> (result: bool)
    ensures
        result == removable(stripped_message(message@)),
{
    let ghost views = message@.content;
    let mut nothing: bool = true;
    let mut i: usize = 0;
    proof {
        assert(views.take(0) =~= Seq::empty());
    }
    while i < message.content.len()
        invariant
            i <= message.content@.len(),
            views == message::content_views(message.content@),
            nothing == (forall|j: int|
                0 <= j < stripped_contents(views.take(i as int)).len() ==> negligible(
                    #[trigger] stripped_contents(views.take(i as int))[j],
                )),
        decreases message.content.len() - i,
    {
        let ghost content = views[i as int];
        let ghost before = stripped_contents(views.take(i as int));
        let ghost after = stripped_contents(views.take(i + 1));
        proof {
            assert(content == message.content@[i as int]@);
            assert(views.take(i + 1).drop_last() =~= views.take(i as int));
            assert(views.take(i + 1).last() == content);
        }
        let negligible_piece: bool = match &message.content[i] {
            MessageContent::ToolUse(_) => true,
            MessageContent::ToolResult(tool_result) => !tool_result.is_error,
            MessageContent::Thinking { text, .. } => {
                let note = thinking_note(text.as_str());
                proof {
                    lemma_note_not_blank(text@.len());
                }
                text::byte_len(text.as_str()) <= text::byte_len(note.as_str())
                    && text::is_blank(text.as_str())
            },
            MessageContent::Text(text) => text::is_blank(text.as_str()),
            MessageContent::RedactedThinking(_) => false,
            MessageContent::Image(_) => false,
        };
        proof {
            assert(negligible_piece == (!survives(content) || negligible(shortened(content))));
            if survives(content) {
                assert(after == before.push(shortened(content)));
                assert(after[before.len() as int] == shortened(content));
                assert(forall|j: int| 0 <= j < before.len() ==> after[j] == #[trigger] before[j]);
                assert(forall|j: int| 0 <= j < before.len() ==> #[trigger] after[j] == before[j]);
            }
        }
        nothing = nothing && negligible_piece;
        i = i + 1;
    }
    proof {
        assert(views.take(i as int) =~= views);
        assert(stripped_message(message@).content == stripped_contents(views));
    }
    nothing
}

/// The note for omitted thinking is not blank.
proof fn lemma_note_not_blank(chars: nat)
    ensures
        !text::blank(omission_note(chars)),
{
    reveal_strlit("[thinking omitted - was ");
    assert(omission_note(chars)[0] == '[');
    assert(!text::white_space('['));
}

/// Two messages of one role as one.
fn join(
    first: LanguageModelRequestMessage,
    second: LanguageModelRequestMessage,
) -> (both: LanguageModelRequestMessage)
    ensures
        both@ == joined(first@, second@),
{
    let mut content = first.content;
    let mut rest = second.content;
    content.append(&mut rest);
    proof {
        assert(message::content_views(content@) =~= message::content_views(first.content@)
            + message::content_views(second.content@));
    }
    let reasoning_details = if first.reasoning_details.is_none() {
        second.reasoning_details
    } else {
        first.reasoning_details
    };
    LanguageModelRequestMessage {
        role: first.role,
        content,
        cache: first.cache || second.cache,
        reasoning_details,
    }
}

/// Compacts old messages by stripping tool content beyond a threshold from the end.
///
/// Two zones based on distance from the end:
/// - Within `deep_omit_threshold_chars` from the end: fully protected (no changes)
/// - Before `deep_omit_threshold_chars` from the end: tool calls and tool results removed
///   entirely, thinking omitted, empty messages cleaned up and consecutive ones of the same role
///   merged
///
/// Additionally, the last [`UNCOMPACTED_RECENT_AGENT_MESSAGES`] messages with tool results are
/// always protected. Error results are never removed. Nothing changes where no message holds a
/// tool result.
pub fn compact_old_tool_results(
    messages: &mut Vec<LanguageModelRequestMessage>,
    deep_omit_threshold_chars: usize,
)
    ensures
        message::message_views(final(messages)@) == compacted(
            message::message_views(old(messages)@),
            deep_omit_threshold_chars as nat,
        ),
{
    let ghost views = message::message_views(messages@);
    proof {
        lemma_strip_start(views, deep_omit_threshold_chars as nat);
    }
    let mut holds: Vec<bool> = Vec::new();
    let mut k: usize = 0;
    while k < messages.len()
        invariant
            k <= messages@.len(),
            views == message::message_views(messages@),
            holds@.len() == k,
            forall|j: int| 0 <= j < k ==> #[trigger] holds@[j] == has_tool_result(views[j]),
        decreases messages.len() - k,
    {
        assert(views[k as int] == messages@[k as int]@);
        holds.push(holds_tool_result(&messages[k]));
        k = k + 1;
    }
    let (protected_from, any_tool_result) = protection_start(&holds, Ghost(views));
    if !any_tool_result {
        return;
    }
    if deep_omit_threshold_chars == 0 {
        return;
    }
    let start: usize = compute_recent_start_index(messages.as_slice(), deep_omit_threshold_chars);
    if start == 0 {
        return;
    }
    let ghost all = messages@;
    let mut recent = messages.split_off(start);
    let mut pending: Vec<LanguageModelRequestMessage> = Vec::new();
    std::mem::swap(&mut pending, messages);
    let ghost older = pending@;
    let ghost stripped = stripped_before(views, start as int);
    let mut kept: Vec<LanguageModelRequestMessage> = Vec::new();
    let mut i: usize = 0;
    proof {
        assert(stripped.take(0) =~= Seq::empty());
        assert(message::message_views(kept@) =~= Seq::empty());
    }
    for message in iter: pending
        invariant
            iter.seq() == older,
            older == pending@,
            older == all.take(start as int),
            start <= all.len(),
            older.len() == start,
            i == iter.index(),
            views == message::message_views(all),
            stripped == stripped_before(views, start as int),
            holds@.len() == views.len(),
            forall|j: int|
                0 <= j < views.len() ==> #[trigger] holds@[j] == has_tool_result(views[j]),
            forall|j: int|
                0 <= j < views.len() ==> (j >= protected_from) == (tool_result_messages(
                    #[trigger] views.skip(j),
                ) <= UNCOMPACTED_RECENT_AGENT_MESSAGES),
            message::message_views(kept@) == merged(
                without_empty(stripped.take(iter.index())),
            ),
    {
        proof {
            assert(older[i as int] == all[i as int]);
            assert(views[i as int] == message@);
            assert(views.skip(i as int).len() == views.len() - i);
            assert(stripped.take(i + 1).drop_last() =~= stripped.take(i as int));
            assert(stripped.take(i + 1).last() == stripped[i as int]);
        }
        let is_protected: bool = i >= protected_from && holds[i];
        let message = if !is_protected {
            LanguageModelRequestMessage {
                role: message.role,
                content: strip_contents(message.content),
                cache: message.cache,
                reasoning_details: message.reasoning_details,
            }
        } else {
            message
        };
        assert(message@ == stripped[i as int]);
        if !is_removable(&message) {
            let ghost before = message::message_views(kept@);
            let ghost kept_before = without_empty(stripped.take(i as int));
            proof {
                assert(kept_before.push(message@).drop_last() =~= kept_before);
            }
            match kept.pop() {
                Some(last) => {
                    let ghost rest = kept@;
                    proof {
                        assert(before.last() == last@);
                        assert(before.drop_last() =~= message::message_views(rest));
                    }
                    if last.role == message.role {
                        let ghost both = joined(last@, message@);
                        kept.push(join(last, message));
                        proof {
                            assert(message::message_views(kept@) =~= message::message_views(
                                rest,
                            ).push(both));
                        }
                    } else {
                        let ghost view = message@;
                        kept.push(last);
                        kept.push(message);
                        proof {
                            assert(message::message_views(kept@) =~= before.push(view));
                        }
                    }
                },
                None => {
                    let ghost view = message@;
                    kept.push(message);
                    proof {
                        assert(message::message_views(kept@) =~= before.push(view));
                    }
                },
            }
        }
        i = i + 1;
    }
    let ghost cleaned = message::message_views(kept@);
    kept.append(&mut recent);
    proof {
        assert(message::message_views(kept@) =~= cleaned + views.skip(start as int));
    }
    *messages = kept;
}

/// The text of one more piece comes behind the texts before it.
pub proof fn lemma_joined_text_push(contents: Seq<ContentView>, content: ContentView)
    ensures
        message::joined_text(contents.push(content)) == message::joined_text(contents)
            + match message::content_text(content) {
            Some(text) => text,
            None => Seq::empty(),
        },
        text::utf8_len(message::joined_text(contents.push(content))) == text::utf8_len(
            message::joined_text(contents),
        ) + match message::content_text(content) {
            Some(text) => text::utf8_len(text),
            None => 0,
        },
{
    assert(contents.push(content).drop_last() =~= contents);
    let added = match message::content_text(content) {
        Some(text) => text,
        None => Seq::empty(),
    };
    text::lemma_encode_concat(message::joined_text(contents), added);
}

/// The first pieces of a message have no more text than all of them.
pub proof fn lemma_joined_text_take(contents: Seq<ContentView>, count: int)
    requires
        0 <= count <= contents.len(),
    ensures
        text::utf8_len(message::joined_text(contents.take(count))) <= text::utf8_len(
            message::joined_text(contents),
        ),
    decreases contents.len() - count,
{
    if count == contents.len() {
        assert(contents.take(count) =~= contents);
    } else {
        assert(contents.take(count + 1) =~= contents.take(count).push(contents[count]));
        lemma_joined_text_push(contents.take(count), contents[count]);
        lemma_joined_text_take(contents, count + 1);
    }
}

/// Stripping makes no text longer.
pub proof fn lemma_stripped_len(contents: Seq<ContentView>)
    ensures
        text::utf8_len(message::joined_text(stripped_contents(contents))) <= text::utf8_len(
            message::joined_text(contents),
        ),
    decreases contents.len(),
{
    if contents.len() > 0 {
        let before = contents.drop_last();
        lemma_stripped_len(before);
        assert(contents =~= before.push(contents.last()));
        lemma_joined_text_push(before, contents.last());
        if survives(contents.last()) {
            lemma_joined_text_push(stripped_contents(before), shortened(contents.last()));
        }
    }
}

/// The length in bytes of a message's texts after stripping: tool calls and successful tool
/// results are removed, thinking is replaced with a note where that is shorter.
pub fn stripped_content_len(message: &LanguageModelRequestMessage) -> (len: usize)
    requires
        message::message_len(message@) <= usize::MAX,
    ensures
        len == message::message_len(stripped_message(message@)),
{
    let ghost views = message@.content;
    let mut len: usize = 0;
    let mut i: usize = 0;
    proof {
        assert(views.take(0) =~= Seq::empty());
    }
    while i < message.content.len()
        invariant
            i <= message.content@.len(),
            views == message::content_views(message.content@),
            text::utf8_len(message::joined_text(views)) <= usize::MAX,
            len == text::utf8_len(message::joined_text(stripped_contents(views.take(i as int)))),
        decreases message.content.len() - i,
    {
        let ghost content = views[i as int];
        let ghost before = stripped_contents(views.take(i as int));
        proof {
            assert(content == message.content@[i as int]@);
            assert(views.take(i + 1).drop_last() =~= views.take(i as int));
            assert(views.take(i + 1).last() == content);
            lemma_joined_text_push(before, shortened(content));
            lemma_stripped_len(views.take(i + 1));
            lemma_joined_text_take(views, i + 1);
        }
        match &message.content[i] {
            MessageContent::Text(text) => {
                let added: usize = text::byte_len(text.as_str());
                len = len + added;
            },
            MessageContent::Thinking { text, .. } => {
                let note = thinking_note(text.as_str());
                let full: usize = text::byte_len(text.as_str());
                let short: usize = text::byte_len(note.as_str());
                let added: usize = if short < full {
                    short
                } else {
                    full
                };
                len = len + added;
            },
            MessageContent::RedactedThinking(_) => {},
            MessageContent::ToolResult(tool_result) => {
                if tool_result.is_error {
                    if let Some(text) = tool_result.content.to_str() {
                        let added: usize = text::byte_len(text);
                        len = len + added;
                    }
                }
            },
            MessageContent::ToolUse(_) => {},
            MessageContent::Image(_) => {},
        }
        i = i + 1;
    }
    proof {
        assert(views.take(i as int) =~= views);
    }
    len
}

} // verus!
