//! What the first tier of compaction leaves of a conversation, piece by piece.

use crate::message;
use crate::message::{ContentView, MessageView, Role};
use crate::stripping;
use crate::stripping_laws;
use crate::text;
use crate::zones;
use crate::zones::{CompactionConfig, RenderedView};
use vstd::prelude::*;

verus! {

/// Pieces, each with the role in which it is said.
pub open spec fn said(role: Role, contents: Seq<ContentView>) -> Seq<(Role, ContentView)> {
    Seq::new(contents.len(), |i: int| (role, contents[i]))
}

/// The pieces of all messages, one after the other, each with the role in which it is said.
pub open spec fn pieces(messages: Seq<MessageView>) -> Seq<(Role, ContentView)>
    decreases messages.len(),
{
    if messages.len() == 0 {
        Seq::empty()
    } else {
        pieces(messages.drop_last()) + said(messages.last().role, messages.last().content)
    }
}

/// Whether a message answers a tool call.
pub open spec fn answers_call(message: MessageView) -> bool {
    exists|i: int|
        0 <= i < message.content.len() && #[trigger] message.content[i] matches
            ContentView::ToolResult(_)
}

/// The number of messages that answer tool calls.
pub open spec fn answers(messages: Seq<MessageView>) -> nat
    decreases messages.len(),
{
    if messages.len() == 0 {
        0
    } else if answers_call(messages.last()) {
        answers(messages.drop_last()) + 1
    } else {
        answers(messages.drop_last())
    }
}

/// The number of bytes of text behind a message.
pub open spec fn chars_behind(messages: Seq<MessageView>, index: int) -> nat {
    stripping_laws::conversation_len(messages.skip(index + 1))
}

/// Whether compaction has to leave a message alone: where there is no threshold or no tool was
/// called, where less text than the threshold stands behind the message, and where it is one of
/// the last three that answer tool calls.
pub open spec fn left_alone(messages: Seq<MessageView>, threshold: nat, index: int) -> bool {
    ||| threshold == 0
    ||| forall|i: int| 0 <= i < messages.len() ==> !answers_call(#[trigger] messages[i])
    ||| chars_behind(messages, index) < threshold
    ||| answers_call(messages[index]) && answers(messages.skip(index + 1)) < 3
}

/// What stands in for a thought that is taken out.
pub open spec fn thought_note(thought: Seq<char>) -> Seq<char> {
    "[thinking omitted - was "@ + text::decimal(thought.len()) + " characters]\n"@
}

/// What is left of a piece that is not left alone: nothing of a tool call and of what a tool gave
/// back without an error, a note of a thought that is longer than the note, all of anything else.
pub open spec fn piece_left(piece: ContentView) -> Seq<ContentView> {
    match piece {
        ContentView::ToolUse(_) => seq![],
        ContentView::ToolResult(result) => if result.is_error {
            seq![piece]
        } else {
            seq![]
        },
        ContentView::Thinking { text, signature } => if text::utf8_len(text) > text::utf8_len(
            thought_note(text),
        ) {
            seq![ContentView::Thinking { text: thought_note(text), signature }]
        } else {
            seq![piece]
        },
        ContentView::Text(_) => seq![piece],
        ContentView::Image(_) => seq![piece],
        ContentView::RedactedThinking(_) => seq![piece],
    }
}

/// What is left of the pieces of a message, one after the other.
pub open spec fn pieces_left(contents: Seq<ContentView>) -> Seq<ContentView>
    decreases contents.len(),
{
    if contents.len() == 0 {
        seq![]
    } else {
        piece_left(contents[0]) + pieces_left(contents.drop_first())
    }
}

/// Whether a piece says nothing: a text or a thought of white space only.
pub open spec fn says_nothing(piece: ContentView) -> bool {
    match piece {
        ContentView::Text(text) => text::blank(text),
        ContentView::Thinking { text, .. } => text::blank(text),
        _ => false,
    }
}

/// What compaction leaves of the message at an index. Where that says nothing, nothing is left.
pub open spec fn message_left(messages: Seq<MessageView>, threshold: nat, index: int) -> Seq<
    ContentView,
> {
    let content = messages[index].content;
    if left_alone(messages, threshold, index) {
        content
    } else {
        let left = pieces_left(content);
        if forall|i: int| 0 <= i < left.len() ==> says_nothing(#[trigger] left[i]) {
            seq![]
        } else {
            left
        }
    }
}

/// What compaction leaves of the first messages, one after the other.
pub open spec fn all_left(messages: Seq<MessageView>, threshold: nat, count: int) -> Seq<
    (Role, ContentView),
>
    decreases count,
{
    if count <= 0 {
        seq![]
    } else {
        all_left(messages, threshold, count - 1) + said(
            messages[count - 1].role,
            message_left(messages, threshold, count - 1),
        )
    }
}

/// Compaction takes out tool calls, what tools gave back without an error, long thoughts, and
/// messages of which nothing is left, and only where it has to leave nothing alone; every other
/// piece is there afterwards, unchanged, in the same order and in the same role.
pub proof fn law_compaction_by_piece(messages: Seq<MessageView>, threshold: nat)
    ensures
        pieces(stripping::compacted(messages, threshold)) == all_left(
            messages,
            threshold,
            messages.len() as int,
        ),
{
    let start = stripping::strip_start(messages, threshold) as int;
    let stripped = stripping::stripped_before(messages, start);
    let older = stripped.take(start);
    stripping::lemma_strip_start(messages, threshold);
    lemma_pieces_concat(stripping::cleaned_before(messages, start), messages.skip(start));
    lemma_pieces_merged(stripping::without_empty(older));
    lemma_older_left(messages, threshold, start);
    lemma_recent_left(messages, threshold, messages.len() as int);
    assert(messages.skip(start).take(messages.len() - start) =~= messages.skip(start));
}

proof fn lemma_pieces_push(messages: Seq<MessageView>, message: MessageView)
    ensures
        pieces(messages.push(message)) == pieces(messages) + said(message.role, message.content),
{
    assert(messages.push(message).drop_last() =~= messages);
}

proof fn lemma_pieces_concat(first: Seq<MessageView>, second: Seq<MessageView>)
    ensures
        pieces(first + second) == pieces(first) + pieces(second),
    decreases second.len(),
{
    if second.len() == 0 {
        assert(first + second =~= first);
        assert(pieces(first) + pieces(second) =~= pieces(first));
    } else {
        assert((first + second).drop_last() =~= first + second.drop_last());
        lemma_pieces_concat(first, second.drop_last());
        assert(pieces(first + second) =~= pieces(first) + pieces(second));
    }
}

proof fn lemma_pieces_merged(messages: Seq<MessageView>)
    ensures
        pieces(stripping::merged(messages)) == pieces(messages),
    decreases messages.len(),
{
    if messages.len() > 0 {
        let before = stripping::merged(messages.drop_last());
        let message = messages.last();
        lemma_pieces_merged(messages.drop_last());
        if before.len() > 0 && before.last().role == message.role {
            let both = stripping::joined(before.last(), message);
            lemma_pieces_push(before.drop_last(), both);
            assert(said(both.role, both.content) =~= said(before.last().role, before.last().content)
                + said(message.role, message.content));
            assert(pieces(before) == pieces(before.drop_last()) + said(
                before.last().role,
                before.last().content,
            ));
            assert(pieces(before.drop_last()) + (said(before.last().role, before.last().content)
                + said(message.role, message.content)) =~= pieces(before) + said(
                message.role,
                message.content,
            ));
        } else {
            lemma_pieces_push(before, message);
        }
    }
}

proof fn lemma_stripped_contents(contents: Seq<ContentView>)
    ensures
        stripping::stripped_contents(contents) == pieces_left(contents),
    decreases contents.len(),
{
    if contents.len() > 0 {
        let before = contents.drop_last();
        lemma_stripped_contents(before);
        lemma_pieces_left_push(before, contents.last());
        assert(before.push(contents.last()) =~= contents);
        assert(stripping::stripped_contents(contents) =~= pieces_left(before) + piece_left(
            contents.last(),
        ));
    }
}

proof fn lemma_pieces_left_push(contents: Seq<ContentView>, piece: ContentView)
    ensures
        pieces_left(contents.push(piece)) == pieces_left(contents) + piece_left(piece),
    decreases contents.len(),
{
    let all = contents.push(piece);
    if contents.len() == 0 {
        assert(all.drop_first() =~= contents);
        assert(piece_left(piece) + pieces_left(contents) =~= pieces_left(contents) + piece_left(
            piece,
        ));
    } else {
        assert(all.drop_first() =~= contents.drop_first().push(piece));
        lemma_pieces_left_push(contents.drop_first(), piece);
        assert(pieces_left(all) =~= pieces_left(contents) + piece_left(piece));
    }
}

proof fn lemma_answers_push(messages: Seq<MessageView>, message: MessageView)
    ensures
        stripping::tool_result_messages(messages.push(message))
            == stripping::tool_result_messages(messages) + if answers_call(message) {
            1nat
        } else {
            0nat
        },
    decreases messages.len(),
{
    let all = messages.push(message);
    assert(stripping::has_tool_result(message) == answers_call(message));
    if messages.len() == 0 {
        assert(all.drop_first() =~= messages);
    } else {
        assert(all.drop_first() =~= messages.drop_first().push(message));
        lemma_answers_push(messages.drop_first(), message);
    }
}

proof fn lemma_answers(messages: Seq<MessageView>)
    ensures
        stripping::tool_result_messages(messages) == answers(messages),
        answers(messages) == 0 <==> forall|i: int|
            0 <= i < messages.len() ==> !answers_call(#[trigger] messages[i]),
    decreases messages.len(),
{
    if messages.len() > 0 {
        let before = messages.drop_last();
        lemma_answers(before);
        lemma_answers_push(before, messages.last());
        assert(before.push(messages.last()) =~= messages);
        assert forall|i: int| 0 <= i < before.len() implies #[trigger] before[i]
            == messages[i] by {}
        if answers(messages) == 0 {
            assert forall|i: int| 0 <= i < messages.len() implies !answers_call(
                #[trigger] messages[i],
            ) by {
                if i < before.len() {
                    assert(before[i] == messages[i]);
                }
            }
        } else {
            if answers_call(messages.last()) {
                assert(answers_call(messages[messages.len() - 1]));
            } else {
                let i = choose|i: int| 0 <= i < before.len() && answers_call(#[trigger] before[i]);
                assert(answers_call(messages[i]));
            }
        }
    }
}

/// Which messages are stripped.
proof fn lemma_left_alone(messages: Seq<MessageView>, threshold: nat, index: int)
    requires
        0 <= index < messages.len(),
    ensures
        left_alone(messages, threshold, index) <==> {
            ||| index >= stripping::strip_start(messages, threshold)
            ||| stripping::protected(messages, index)
        },
{
    let lens = stripping::message_lens(messages);
    let start = stripping::strip_start(messages, threshold) as int;
    let behind = messages.skip(index + 1);
    lemma_answers(messages);
    stripping::law_last_start(lens, threshold);
    stripping_laws::lemma_conversation_len(behind);
    assert(stripping::message_lens(behind) =~= lens.skip(index + 1));
    if threshold > 0 && answers(messages) > 0 {
        if index < start {
            assert(lens.skip(index + 1) =~= lens.subrange(index + 1, start) + lens.skip(start));
            zones::lemma_total_concat(lens.subrange(index + 1, start), lens.skip(start));
        } else if index + 1 == messages.len() {
            assert(lens.skip(index + 1) =~= Seq::empty());
        }
    }
    assert(messages.skip(index).drop_first() =~= behind);
    assert(messages.skip(index)[0] == messages[index]);
    assert(stripping::has_tool_result(messages[index]) == answers_call(messages[index]));
    lemma_answers(behind);
}

/// Stripping a message leaves of its pieces what is left of each, and the message is removed
/// where that says nothing.
pub proof fn law_stripped_pieces(message: MessageView)
    ensures
        stripping::stripped_message(message).content == pieces_left(message.content),
        stripping::removable(stripping::stripped_message(message)) <==> {
            let left = pieces_left(message.content);
            forall|i: int| 0 <= i < left.len() ==> says_nothing(#[trigger] left[i])
        },
        stripping::has_tool_result(message) <==> answers_call(message),
{
    lemma_stripped_contents(message.content);
    lemma_says_nothing(pieces_left(message.content));
}

/// The index that [`stripping::recent_start`] gives parts the messages: less text than the
/// threshold stands behind each from there on, and at least as much behind each before it.
pub proof fn law_recent_start(messages: Seq<MessageView>, threshold: nat, index: int)
    requires
        threshold > 0,
        0 <= index < messages.len(),
    ensures
        index >= stripping::recent_start(stripping::message_lens(messages), threshold)
            <==> chars_behind(messages, index) < threshold,
{
    let lens = stripping::message_lens(messages);
    let start = stripping::recent_start(lens, threshold) as int;
    let behind = messages.skip(index + 1);
    stripping::law_last_start(lens, threshold);
    stripping_laws::lemma_conversation_len(behind);
    assert(stripping::message_lens(behind) =~= lens.skip(index + 1));
    if index < start {
        assert(lens.skip(index + 1) =~= lens.subrange(index + 1, start) + lens.skip(start));
        zones::lemma_total_concat(lens.subrange(index + 1, start), lens.skip(start));
    } else if index + 1 == messages.len() {
        assert(lens.skip(index + 1) =~= Seq::empty());
    }
}

/// A message that is left alone is there after compaction: one message of its role holds all its
/// pieces without a gap.
pub proof fn law_left_alone_survives(messages: Seq<MessageView>, threshold: nat, index: int)
    requires
        0 <= index < messages.len(),
        left_alone(messages, threshold, index),
    ensures
        stripping_laws::holds(stripping::compacted(messages, threshold), messages[index]),
{
    let compacted = stripping::compacted(messages, threshold);
    lemma_left_alone(messages, threshold, index);
    if stripping::tool_result_messages(messages) > 0 || stripping::protected(messages, index) {
        stripping_laws::law_protected_messages_survive(messages, threshold, index);
    } else {
        let content = messages[index].content;
        stripping::lemma_strip_start(messages, threshold);
        assert(compacted[index] == messages[index]);
        assert(content.subrange(0int, 0int + content.len()) =~= content);
        assert(stripping_laws::occurs_in(content, content));
    }
}

proof fn lemma_says_nothing(contents: Seq<ContentView>)
    ensures
        (forall|i: int|
            0 <= i < contents.len() ==> stripping::negligible(#[trigger] contents[i])) <==> (
        forall|i: int| 0 <= i < contents.len() ==> says_nothing(#[trigger] contents[i])),
{
    assert forall|i: int| 0 <= i < contents.len() implies stripping::negligible(
        #[trigger] contents[i],
    ) == says_nothing(contents[i]) by {}
}

proof fn lemma_older_left(messages: Seq<MessageView>, threshold: nat, count: int)
    requires
        0 <= count <= stripping::strip_start(messages, threshold) <= messages.len(),
    ensures
        ({
            let start = stripping::strip_start(messages, threshold) as int;
            let stripped = stripping::stripped_before(messages, start);
            pieces(stripping::without_empty(stripped.take(count))) == all_left(
                messages,
                threshold,
                count,
            )
        }),
    decreases count,
{
    let start = stripping::strip_start(messages, threshold) as int;
    let stripped = stripping::stripped_before(messages, start);
    if count == 0 {
        assert(stripped.take(0) =~= Seq::empty());
    } else {
        let last = count - 1;
        let message = stripped[last];
        lemma_older_left(messages, threshold, last);
        lemma_left_alone(messages, threshold, last);
        assert(stripped.take(count).drop_last() =~= stripped.take(last));
        assert(stripped.take(count).last() == message);
        let before = stripping::without_empty(stripped.take(last));
        lemma_pieces_push(before, message);
        if stripping::protected(messages, last) {
            let content = messages[last].content;
            let result = choose|i: int|
                0 <= i < content.len() && #[trigger] content[i] is ToolResult;
            assert(!stripping::negligible(message.content[result]));
        } else {
            lemma_stripped_contents(messages[last].content);
            lemma_says_nothing(message.content);
            if stripping::removable(message) {
                assert(all_left(messages, threshold, last) + said(message.role, seq![])
                    =~= all_left(messages, threshold, last));
            }
        }
    }
}

proof fn lemma_recent_left(messages: Seq<MessageView>, threshold: nat, count: int)
    requires
        stripping::strip_start(messages, threshold) <= count <= messages.len(),
    ensures
        ({
            let start = stripping::strip_start(messages, threshold) as int;
            all_left(messages, threshold, count) == all_left(messages, threshold, start) + pieces(
                messages.skip(start).take(count - start),
            )
        }),
    decreases count,
{
    let start = stripping::strip_start(messages, threshold) as int;
    let recent = messages.skip(start).take(count - start);
    if count == start {
        assert(recent =~= Seq::empty());
        assert(all_left(messages, threshold, start) + pieces(recent) =~= all_left(
            messages,
            threshold,
            start,
        ));
    } else {
        let last = count - 1;
        lemma_recent_left(messages, threshold, last);
        lemma_left_alone(messages, threshold, last);
        assert(recent.drop_last() =~= messages.skip(start).take(last - start));
        assert(recent.last() == messages[last]);
        assert(all_left(messages, threshold, count) =~= all_left(messages, threshold, start)
            + pieces(recent));
    }
}

/// Whether a piece is one that compaction never takes out: a text that says something, an image,
/// redacted thinking, or what a tool gave back with an error.
pub open spec fn always_stays(piece: ContentView) -> bool {
    match piece {
        ContentView::Text(text) => exists|i: int|
            0 <= i < text.len() && !text::white_space(#[trigger] text[i]),
        ContentView::Image(_) => true,
        ContentView::RedactedThinking(_) => true,
        ContentView::ToolResult(result) => result.is_error,
        ContentView::ToolUse(_) => false,
        ContentView::Thinking { .. } => false,
    }
}

/// The pieces among others that compaction never takes out, in order.
pub open spec fn staying(said_pieces: Seq<(Role, ContentView)>) -> Seq<(Role, ContentView)>
    decreases said_pieces.len(),
{
    if said_pieces.len() == 0 {
        seq![]
    } else if always_stays(said_pieces.last().1) {
        staying(said_pieces.drop_last()).push(said_pieces.last())
    } else {
        staying(said_pieces.drop_last())
    }
}

/// Compaction removes nothing but tool calls, results without an error, thinking and blank
/// messages: the texts that are not blank, the images, the redacted thinking and the error
/// results of all messages are there afterwards, unchanged, in the same order and the same roles.
pub proof fn law_everything_else_stays(messages: Seq<MessageView>, threshold: nat)
    ensures
        staying(pieces(stripping::compacted(messages, threshold))) == staying(pieces(messages)),
{
    law_compaction_by_piece(messages, threshold);
    lemma_staying_left(messages, threshold, messages.len() as int);
    assert(messages.take(messages.len() as int) =~= messages);
}

proof fn lemma_staying_concat(first: Seq<(Role, ContentView)>, second: Seq<(Role, ContentView)>)
    ensures
        staying(first + second) == staying(first) + staying(second),
    decreases second.len(),
{
    if second.len() == 0 {
        assert(first + second =~= first);
        assert(staying(first) + staying(second) =~= staying(first));
    } else {
        assert((first + second).drop_last() =~= first + second.drop_last());
        lemma_staying_concat(first, second.drop_last());
        assert(staying(first + second) =~= staying(first) + staying(second));
    }
}

proof fn lemma_staying_left(messages: Seq<MessageView>, threshold: nat, count: int)
    requires
        0 <= count <= messages.len(),
    ensures
        staying(all_left(messages, threshold, count)) == staying(pieces(messages.take(count))),
    decreases count,
{
    if count == 0 {
        assert(messages.take(0) =~= Seq::empty());
    } else {
        let last = count - 1;
        let role = messages[last].role;
        let content = messages[last].content;
        let left = message_left(messages, threshold, last);
        lemma_staying_left(messages, threshold, last);
        assert(messages.take(count).drop_last() =~= messages.take(last));
        lemma_staying_concat(all_left(messages, threshold, last), said(role, left));
        lemma_staying_concat(pieces(messages.take(last)), said(role, content));
        lemma_staying_pieces(role, content);
        let some_left = pieces_left(content);
        if forall|i: int| 0 <= i < some_left.len() ==> says_nothing(#[trigger] some_left[i]) {
            lemma_nothing_stays(role, some_left);
            assert(staying(said(role, seq![])) =~= seq![]);
        }
    }
}

proof fn lemma_nothing_stays(role: Role, contents: Seq<ContentView>)
    requires
        forall|i: int| 0 <= i < contents.len() ==> says_nothing(#[trigger] contents[i]),
    ensures
        staying(said(role, contents)) == Seq::<(Role, ContentView)>::empty(),
    decreases contents.len(),
{
    if contents.len() > 0 {
        let before = contents.drop_last();
        assert forall|i: int| 0 <= i < before.len() implies says_nothing(#[trigger] before[i]) by {
            assert(before[i] == contents[i]);
        }
        lemma_nothing_stays(role, before);
        assert(said(role, contents).drop_last() =~= said(role, before));
        assert(says_nothing(contents[contents.len() - 1]));
    }
}

proof fn lemma_staying_pieces(role: Role, contents: Seq<ContentView>)
    ensures
        staying(said(role, pieces_left(contents))) == staying(said(role, contents)),
    decreases contents.len(),
{
    if contents.len() == 0 {
        assert(pieces_left(contents) =~= contents);
    } else {
        let before = contents.drop_last();
        let piece = contents.last();
        let left = piece_left(piece);
        lemma_staying_pieces(role, before);
        lemma_pieces_left_push(before, piece);
        assert(before.push(piece) =~= contents);
        assert(said(role, pieces_left(contents)) =~= said(role, pieces_left(before)) + said(
            role,
            left,
        ));
        assert(said(role, contents) =~= said(role, before) + said(role, seq![piece]));
        lemma_staying_concat(said(role, pieces_left(before)), said(role, left));
        lemma_staying_concat(said(role, before), said(role, seq![piece]));
        let one = said(role, seq![piece]);
        assert(one.drop_last() =~= seq![]);
        assert(one.last() == (role, piece));
        if left.len() == 1 {
            let only = said(role, left);
            assert(only.drop_last() =~= seq![]);
            assert(only.last() == (role, left[0]));
            assert(staying(only) =~= staying(one));
        } else {
            assert(said(role, left) =~= seq![]);
            assert(staying(one) =~= seq![]);
        }
    }
}

/// The length of a request message as the model sees it is the length of what compaction leaves
/// of it.
pub proof fn law_visible_lens_by_piece(
    messages: Seq<RenderedView>,
    config: CompactionConfig,
    index: int,
)
    requires
        0 <= index < zones::all_requests(messages).len(),
    ensures
        zones::conversation_lens(messages, config).len() == zones::all_requests(messages).len(),
        zones::conversation_lens(messages, config)[index] == text::utf8_len(
            message::joined_text(
                message_left(
                    zones::all_requests(messages),
                    (config.deep_omit_threshold_tokens * 4) as nat,
                    index,
                ),
            ),
        ),
{
    let requests = zones::all_requests(messages);
    let threshold = (config.deep_omit_threshold_tokens * 4) as nat;
    let start = stripping::strip_start(requests, threshold) as int;
    lemma_left_alone(requests, threshold, index);
    lemma_stripped_contents(requests[index].content);
    lemma_says_nothing(pieces_left(requests[index].content));
    let content = requests[index].content;
    let stripped = stripping::stripped_before(requests, start)[index];
    assert(message::joined_text(Seq::empty()) =~= Seq::<char>::empty());
    assert(text::utf8_len(Seq::<char>::empty()) == 0);
    if index < start && stripping::protected(requests, index) {
        let result = choose|i: int| 0 <= i < content.len() && #[trigger] content[i] is ToolResult;
        assert(stripped == requests[index]);
        assert(!stripping::negligible(stripped.content[result]));
    } else if index < start {
        assert(stripped.content == pieces_left(content));
    }
}

/// Whether a message is made of a run of messages of one role: it holds their pieces in order, is
/// marked for caching where one of them is, and has the first reasoning details that one of them
/// has.
pub open spec fn made_of(whole: MessageView, run: Seq<MessageView>) -> bool {
    &&& run.len() > 0
    &&& forall|i: int| 0 <= i < run.len() ==> (#[trigger] run[i]).role == whole.role
    &&& whole.content == stripping_laws::all_contents(run)
    &&& whole.cache <==> exists|i: int| 0 <= i < run.len() && (#[trigger] run[i]).cache
    &&& whole.reasoning_details is None ==> forall|i: int|
        0 <= i < run.len() ==> (#[trigger] run[i]).reasoning_details is None
    &&& whole.reasoning_details is Some ==> exists|i: int|
        {
            &&& 0 <= i < run.len()
            &&& (#[trigger] run[i]).reasoning_details == whole.reasoning_details
            &&& forall|j: int| 0 <= j < i ==> (#[trigger] run[j]).reasoning_details is None
        }
}

/// Whether a message is made of the run of messages from one index up to another.
pub open spec fn is_run(
    whole: MessageView,
    messages: Seq<MessageView>,
    from: int,
    to: int,
) -> bool {
    &&& 0 <= from
    &&& from < to
    &&& to <= messages.len()
    &&& made_of(whole, messages.subrange(from, to))
}

/// Whether messages are made of runs of others that follow one another, where `cuts` tells where
/// each run begins, and at last where the last one ends.
pub open spec fn made_of_runs(
    wholes: Seq<MessageView>,
    messages: Seq<MessageView>,
    cuts: Seq<int>,
) -> bool {
    &&& cuts.len() == wholes.len() + 1
    &&& cuts[0] == 0
    &&& cuts.last() == messages.len()
    &&& forall|i: int|
        #![trigger wholes[i]]
        0 <= i < wholes.len() ==> is_run(wholes[i], messages, cuts[i], cuts[i + 1])
}

/// Joining messages makes each of a run of messages of one role, and loses none.
pub proof fn law_joined_from_runs(messages: Seq<MessageView>)
    ensures
        exists|cuts: Seq<int>| #[trigger]
            made_of_runs(stripping::merged(messages), messages, cuts),
    decreases messages.len(),
{
    let wholes = stripping::merged(messages);
    if messages.len() == 0 {
        assert(made_of_runs(wholes, messages, seq![0int]));
    } else {
        let before = messages.drop_last();
        let message = messages.last();
        let earlier = stripping::merged(before);
        law_joined_from_runs(before);
        let cuts = choose|cuts: Seq<int>| #[trigger] made_of_runs(earlier, before, cuts);
        let last = earlier.len() - 1;
        if earlier.len() > 0 && earlier.last().role == message.role {
            let longer = cuts.update(cuts.len() - 1, messages.len() as int);
            assert(wholes.len() == earlier.len());
            assert(longer[0] == cuts[0]);
            assert(longer.last() == messages.len());
            assert forall|i: int|
                #![trigger wholes[i]]
                0 <= i < wholes.len() implies is_run(
                wholes[i],
                messages,
                longer[i],
                longer[i + 1],
            ) by {
                assert(is_run(earlier[i], before, cuts[i], cuts[i + 1]));
                if i < last {
                    assert(wholes[i] == earlier[i]);
                    assert(cuts[i + 1] <= before.len());
                    assert(messages.subrange(longer[i], longer[i + 1]) =~= before.subrange(
                        cuts[i],
                        cuts[i + 1],
                    ));
                } else {
                    let run = before.subrange(cuts[i], cuts[i + 1]);
                    assert(cuts[i + 1] == before.len());
                    assert(messages.subrange(longer[i], longer[i + 1]) =~= run.push(message));
                    lemma_longer_run(earlier[i], run, message);
                }
            }
            assert(made_of_runs(wholes, messages, longer));
        } else {
            let longer = cuts.push(messages.len() as int);
            assert(longer[0] == cuts[0]);
            assert(wholes.len() == earlier.len() + 1);
            assert forall|i: int|
                #![trigger wholes[i]]
                0 <= i < wholes.len() implies is_run(
                wholes[i],
                messages,
                longer[i],
                longer[i + 1],
            ) by {
                if i < earlier.len() {
                    assert(wholes[i] == earlier[i]);
                    assert(is_run(earlier[i], before, cuts[i], cuts[i + 1]));
                    assert(messages.subrange(longer[i], longer[i + 1]) =~= before.subrange(
                        cuts[i],
                        cuts[i + 1],
                    ));
                } else {
                    let run = messages.subrange(longer[i], longer[i + 1]);
                    assert(cuts.last() == before.len());
                    assert(run =~= seq![message]);
                    assert(run.drop_last() =~= Seq::empty());
                    assert(stripping_laws::all_contents(run.drop_last()) =~= Seq::empty());
                    assert(stripping_laws::all_contents(run) =~= message.content);
                    assert(run[0] == message);
                }
            }
            assert(made_of_runs(wholes, messages, longer));
        }
    }
}

proof fn lemma_longer_run(whole: MessageView, run: Seq<MessageView>, message: MessageView)
    requires
        made_of(whole, run),
        whole.role == message.role,
    ensures
        made_of(stripping::joined(whole, message), run.push(message)),
{
    let both = stripping::joined(whole, message);
    let longer = run.push(message);
    assert(longer.drop_last() =~= run);
    assert(longer[run.len() as int] == message);
    assert forall|i: int| 0 <= i < run.len() implies longer[i] == #[trigger] run[i] by {}
    if whole.cache {
        let i = choose|i: int| 0 <= i < run.len() && (#[trigger] run[i]).cache;
        assert(longer[i].cache);
    }
    if both.cache && !message.cache {
        let i = choose|i: int| 0 <= i < run.len() && (#[trigger] run[i]).cache;
        assert(longer[i].cache);
    }
    if !both.cache {
        assert forall|i: int| 0 <= i < longer.len() implies !(#[trigger] longer[i]).cache by {
            if i < run.len() {
                assert(longer[i] == run[i]);
            }
        }
    }
    assert forall|i: int| 0 <= i < longer.len() implies (#[trigger] longer[i]).role == both.role by {
        if i < run.len() {
            assert(longer[i] == run[i]);
        }
    }
    if whole.reasoning_details is Some {
        let i = choose|i: int|
            {
                &&& 0 <= i < run.len()
                &&& (#[trigger] run[i]).reasoning_details == whole.reasoning_details
                &&& forall|j: int| 0 <= j < i ==> (#[trigger] run[j]).reasoning_details is None
            };
        assert(longer[i].reasoning_details == both.reasoning_details);
        assert forall|j: int| 0 <= j < i implies (#[trigger] longer[j]).reasoning_details is None by {
            assert(longer[j] == run[j]);
        }
    } else {
        assert forall|j: int| 0 <= j < run.len() implies (
        #[trigger] longer[j]).reasoning_details is None by {
            assert(longer[j] == run[j]);
        }
        if both.reasoning_details is Some {
            assert(longer[run.len() as int].reasoning_details == both.reasoning_details);
        }
    }
}

} // verus!
