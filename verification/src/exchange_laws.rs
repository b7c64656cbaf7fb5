//! What holds of everything that goes to a model or comes from one: the summary that arrives, the
//! messages that it is stored as, Markdown, and images.

use crate::image;
use crate::json;
use crate::markdown;
use crate::message::{ContentView, MessageView, Role, ToolResultContentView};
use crate::summary;
use crate::summary::{EventView, LanguageModelCompletionEvent, StepView};
use crate::text;
use crate::thread;
use crate::thread::{
    AgentMessageContent, Message, UserMessageContent, UserMessageId,
};
use vstd::prelude::*;

verus! {

/// What a model sends counts for what it is: a text for its characters, a stop for the end, a
/// failure for its reason, and nothing else for anything.
pub proof fn law_events_mean_what_they_are(
    text: String,
    input_tokens: u64,
    output_tokens: u64,
    error: String,
)
    ensures
        summary::event_view(Ok(LanguageModelCompletionEvent::Text(text))) == EventView::Text(text@),
        summary::event_view(Ok(LanguageModelCompletionEvent::Stop)) is Stop,
        summary::event_view(
            Ok(LanguageModelCompletionEvent::UsageUpdate { input_tokens, output_tokens }),
        ) is Ignored,
        summary::event_view(Ok(LanguageModelCompletionEvent::Other)) is Ignored,
        summary::event_view(Err(error)) == EventView::Failed(error@),
{
}

/// The texts among events, one after the other.
pub open spec fn texts_of(events: Seq<(bool, EventView)>) -> Seq<char>
    decreases events.len(),
{
    if events.len() == 0 {
        seq![]
    } else {
        texts_of(events.drop_last()) + match events.last().1 {
            EventView::Text(text) => text,
            _ => seq![],
        }
    }
}

/// Whether a stream goes on after an event: the user has not cancelled, and the event is neither
/// a stop nor a failure.
pub open spec fn goes_on(event: (bool, EventView)) -> bool {
    !event.0 && (event.1 is Text || event.1 is Ignored)
}

/// A summary is the texts that come before the stream ends, in order, whether a stop or the user
/// ends it; a failure leaves no summary, only its reason. What comes behind has no effect.
pub proof fn law_summary_is_what_came_before_the_end(
    events: Seq<(bool, EventView)>,
    last: (bool, EventView),
    rest: Seq<(bool, EventView)>,
)
    requires
        forall|i: int| 0 <= i < events.len() ==> goes_on(#[trigger] events[i]),
        !goes_on(last),
    ensures
        summary::summary_outcome(Seq::empty(), events) == Ok::<_, Seq<char>>(texts_of(events)),
        summary::summary_outcome(Seq::empty(), events.push(last) + rest) == match last {
            (false, EventView::Failed(error)) => Err(error),
            _ => Ok(texts_of(events)),
        },
{
    lemma_stream(Seq::empty(), events, seq![last] + rest);
    lemma_stream(Seq::empty(), events, Seq::empty());
    let collected = texts_of(events);
    assert(events.push(last) + rest =~= events + (seq![last] + rest));
    assert(events + Seq::empty() =~= events);
    assert(Seq::<char>::empty() + collected =~= collected);
    assert((seq![last] + rest)[0] == last);
}

proof fn lemma_stream(
    collected: Seq<char>,
    events: Seq<(bool, EventView)>,
    rest: Seq<(bool, EventView)>,
)
    requires
        forall|i: int| 0 <= i < events.len() ==> goes_on(#[trigger] events[i]),
    ensures
        summary::summary_outcome(collected, events + rest) == summary::summary_outcome(
            collected + texts_of(events),
            rest,
        ),
    decreases events.len(),
{
    if events.len() == 0 {
        assert(events + rest =~= rest);
        assert(collected + texts_of(events) =~= collected);
    } else {
        let before = events.drop_last();
        let last = events.last();
        assert forall|i: int| 0 <= i < before.len() implies goes_on(#[trigger] before[i]) by {
            assert(before[i] == events[i]);
        }
        lemma_stream(collected, before, seq![last] + rest);
        assert(events + rest =~= before + (seq![last] + rest));
        assert(goes_on(events[events.len() - 1]));
        let more = seq![last] + rest;
        assert(more[0] == last);
        assert(more.drop_first() =~= rest);
        let so_far = collected + texts_of(before);
        match last.1 {
            EventView::Text(text) => {
                assert(so_far + text =~= collected + texts_of(events));
            },
            _ => {
                assert(texts_of(events) =~= texts_of(before));
            },
        }
        assert(summary::summary_outcome(so_far, more) == summary::summary_outcome(
            collected + texts_of(events),
            rest,
        ));
    }
}

/// One event at a time: a text is collected, a stop or the user ends the stream with what was
/// collected, and a failure ends it with its reason.
pub proof fn law_summary_step(collected: Seq<char>, event: EventView)
    ensures
        summary::summary_step(collected, true, event) == (collected, StepView::Finished),
        event matches EventView::Text(text) ==> summary::summary_step(collected, false, event) == (
            collected + text,
            StepView::Continue,
        ),
        event is Stop ==> summary::summary_step(collected, false, event) == (
            collected,
            StepView::Finished,
        ),
        event is Ignored ==> summary::summary_step(collected, false, event) == (
            collected,
            StepView::Continue,
        ),
        event matches EventView::Failed(error) ==> summary::summary_step(
            collected,
            false,
            event,
        ) == (collected, StepView::Failed(error)),
{
}

/// A summary is stored as one text of the user under its heading, and answered by one text of the
/// agent, which called no tools.
pub proof fn law_stored_summary(
    stored: Message,
    answer: Message,
    id: UserMessageId,
    summary: Seq<char>,
)
    requires
        thread::holds_summary(stored, id, summary),
        thread::acknowledges_summary(answer),
    ensures
        stored matches Message::User(message) && {
            &&& message.id == id
            &&& message.content@.len() == 1
            &&& message.content@[0] matches UserMessageContent::Text(text) && text@
                == "[Earlier conversation summary]\n"@ + summary
        },
        answer matches Message::Agent(message) && {
            &&& message.content@.len() == 1
            &&& message.content@[0] matches AgentMessageContent::Text(text) && text@
                == "Understood. I'll keep this summary in mind for context in our continued conversation."@
            &&& message.tool_results@.len() == 0
            &&& message.reasoning_details is None
        },
{
}

/// The ids of messages of the user are those that such a message among them has, and no others.
pub proof fn law_user_ids(messages: Seq<Message>, id: Seq<char>, index: int)
    ensures
        0 <= index < messages.len() ==> (messages[index] matches Message::User(message)
            ==> thread::user_ids(messages).contains(message.id.0@)),
        (forall|i: int|
            0 <= i < messages.len() ==> (#[trigger] messages[i] matches Message::User(message)
                ==> message.id.0@ != id)) ==> !thread::user_ids(messages).contains(id),
{
}

/// The Markdown of a message is a heading for its role, which tells whether it is cached, and the
/// Markdown of its pieces, one after the other.
pub proof fn law_message_markdown(message: MessageView, code_blocks: Seq<Seq<char>>)
    ensures
        ({
            let heading = match message.role {
                Role::System => "## System"@,
                Role::User => "## User"@,
                Role::Assistant => "## Assistant"@,
            };
            let mark = if message.cache {
                " [cached]"@
            } else {
                seq![]
            };
            markdown::message_markdown(message, code_blocks) == heading + mark + "\n\n"@
                + markdown::contents_markdown(message.content, code_blocks) + "\n"@
        }),
{
}

/// The Markdown of pieces is that of the first and then that of the others; each tool call takes
/// the next of the code blocks.
pub proof fn law_pieces_in_order(
    first: Seq<ContentView>,
    second: Seq<ContentView>,
    code_blocks: Seq<Seq<char>>,
)
    requires
        code_blocks.len() == markdown::tool_use_count(first + second),
    ensures
        markdown::tool_use_count(first) <= code_blocks.len(),
        markdown::contents_markdown(first + second, code_blocks) == markdown::contents_markdown(
            first,
            code_blocks,
        ) + markdown::contents_markdown(
            second,
            code_blocks.skip(markdown::tool_use_count(first) as int),
        ),
        markdown::tool_inputs(first + second) == markdown::tool_inputs(first)
            + markdown::tool_inputs(second),
        markdown::tool_use_count(first + second) == markdown::tool_use_count(first)
            + markdown::tool_use_count(second),
{
    lemma_counts(first, second);
    lemma_pieces(first, second, code_blocks);
}

proof fn lemma_counts(first: Seq<ContentView>, second: Seq<ContentView>)
    ensures
        markdown::tool_use_count(first + second) == markdown::tool_use_count(first)
            + markdown::tool_use_count(second),
    decreases second.len(),
{
    if second.len() == 0 {
        assert(first + second =~= first);
    } else {
        assert((first + second).drop_last() =~= first + second.drop_last());
        lemma_counts(first, second.drop_last());
    }
}

proof fn lemma_pieces(
    first: Seq<ContentView>,
    second: Seq<ContentView>,
    code_blocks: Seq<Seq<char>>,
)
    requires
        markdown::tool_use_count(first + second) <= code_blocks.len(),
    ensures
        markdown::contents_markdown(first + second, code_blocks) == markdown::contents_markdown(
            first,
            code_blocks,
        ) + markdown::contents_markdown(
            second,
            code_blocks.skip(markdown::tool_use_count(first) as int),
        ),
        markdown::tool_inputs(first + second) == markdown::tool_inputs(first)
            + markdown::tool_inputs(second),
    decreases second.len(),
{
    let used = markdown::tool_use_count(first) as int;
    let later = code_blocks.skip(used);
    lemma_counts(first, second);
    if second.len() == 0 {
        assert(first + second =~= first);
        assert(markdown::contents_markdown(first, code_blocks) + markdown::contents_markdown(
            second,
            later,
        ) =~= markdown::contents_markdown(first, code_blocks));
        assert(markdown::tool_inputs(first) + markdown::tool_inputs(second)
            =~= markdown::tool_inputs(first));
    } else {
        let before = second.drop_last();
        let piece = second.last();
        lemma_counts(first, before);
        assert((first + second).drop_last() =~= first + before);
        lemma_pieces(first, before, code_blocks);
        let position = markdown::tool_use_count(before) as int;
        if piece is ToolUse {
            assert(later[position] == code_blocks[used + position]);
        }
        assert(markdown::content_markdown(piece, later[position]) == markdown::content_markdown(
            piece,
            code_blocks[used + position],
        ));
        assert(markdown::contents_markdown(first + second, code_blocks)
            =~= markdown::contents_markdown(first, code_blocks) + markdown::contents_markdown(
            second,
            later,
        ));
        assert(markdown::tool_inputs(first + second) =~= markdown::tool_inputs(first)
            + markdown::tool_inputs(second));
    }
}

/// The Markdown of a piece: a text as it is, thinking between its marks, a tool call with its
/// name, its id and the code block with its input, a result with the name and the id of its call,
/// a mark where it is an error, and its text; images and redacted thinking as marks only.
pub proof fn law_piece_markdown(piece: ContentView, code_block: Seq<char>)
    ensures
        ({
            let shown = markdown::contents_markdown(seq![piece], seq![code_block]);
            match piece {
                ContentView::Text(text) => shown == text + "\n"@,
                ContentView::Thinking { text, .. } => shown == "<thinking>\n"@ + text
                    + "\n</thinking>\n"@,
                ContentView::RedactedThinking(_) => shown == "<redacted_thinking />\n"@,
                ContentView::Image(_) => shown == "<image />\n"@,
                ContentView::ToolUse(call) => shown == "**Tool Use**: "@ + call.name + " (ID: "@
                    + call.id + ")\n"@ + code_block + "\n"@ && markdown::tool_inputs(seq![piece])
                    == seq![json::json_pretty(call.input)],
                ContentView::ToolResult(result) => {
                    let mark = if result.is_error {
                        "**ERROR:**\n"@
                    } else {
                        seq![]
                    };
                    let given = match result.content {
                        ToolResultContentView::Text(text) => text + "\n\n"@,
                        ToolResultContentView::Image(_) => "<image />\n\n"@,
                    };
                    shown == "**Tool Result**: "@ + result.tool_name + " (ID: "@
                        + result.tool_use_id + ")\n"@ + mark + given
                },
            }
        }),
        !(piece is ToolUse) ==> markdown::tool_inputs(seq![piece]).len() == 0,
        markdown::tool_use_count(seq![piece]) == if piece is ToolUse {
            1nat
        } else {
            0nat
        },
{
    let one = seq![piece];
    assert(one.drop_last() =~= Seq::empty());
    assert(markdown::contents_markdown(one.drop_last(), seq![code_block]) =~= Seq::empty());
    assert(markdown::tool_inputs(one.drop_last()) =~= Seq::empty());
    assert(markdown::tool_use_count(one.drop_last()) == 0);
    assert(markdown::contents_markdown(one, seq![code_block]) =~= markdown::content_markdown(
        piece,
        code_block,
    ));
    if let ContentView::ToolUse(call) = piece {
        assert(markdown::tool_inputs(one) =~= seq![json::json_pretty(call.input)]);
    }
}

/// Image data and web addresses are sent as they are, whatever follows their beginning; a path
/// from the root never is.
pub proof fn law_what_is_sent_as_it_is(rest: Seq<char>)
    ensures
        image::sent_as_is("data:image/"@ + rest),
        image::sent_as_is("http://"@ + rest),
        image::sent_as_is("https://"@ + rest),
        !image::sent_as_is(seq!['/'] + rest),
        !image::sent_as_is("file:"@ + rest),
        !image::sent_as_is(Seq::empty()),
{
    reveal_strlit("data:image/");
    reveal_strlit("http://");
    reveal_strlit("https://");
    reveal_strlit("file:");
    assert(("data:image/"@ + rest).take(11) =~= "data:image/"@);
    assert(("http://"@ + rest).take(7) =~= "http://"@);
    assert(("https://"@ + rest).take(8) =~= "https://"@);
    let path = seq!['/'] + rest;
    let file = "file:"@ + rest;
    assert(path[0] == '/' && file[0] == 'f');
    lemma_begins(path, "data:image/"@);
    lemma_begins(path, "http://"@);
    lemma_begins(path, "https://"@);
    lemma_begins(file, "data:image/"@);
    lemma_begins(file, "http://"@);
    lemma_begins(file, "https://"@);
}

proof fn lemma_begins(whole: Seq<char>, prefix: Seq<char>)
    requires
        prefix.len() > 0,
        whole.len() > 0,
    ensures
        text::has_prefix(whole, prefix) ==> whole[0] == prefix[0],
{
    if text::has_prefix(whole, prefix) {
        assert(whole.take(prefix.len() as int)[0] == whole[0]);
    }
}

/// The media type of an image goes by its extension, in whatever case it is written: JPEG, GIF,
/// WebP and BMP images are known by theirs, and anything else is taken for PNG.
pub proof fn law_media_type(extension: Seq<char>)
    requires
        !image::has_separator(extension),
    ensures
        ({
            let lower = text::in_lower_case(extension);
            let mime = image::image_mime_type(Some(extension));
            &&& mime == "image/jpeg"@ <==> lower == "jpg"@ || lower == "jpeg"@
            &&& mime == "image/gif"@ <==> lower == "gif"@
            &&& mime == "image/webp"@ <==> lower == "webp"@
            &&& mime == "image/bmp"@ <==> lower == "bmp"@
            &&& mime == "image/png"@ <==> lower != "jpg"@ && lower != "jpeg"@ && lower != "gif"@
                && lower != "webp"@ && lower != "bmp"@
            &&& image::image_mime_type(None) == "image/png"@
        }),
{
    reveal_strlit("image/jpeg");
    reveal_strlit("image/gif");
    reveal_strlit("image/webp");
    reveal_strlit("image/bmp");
    reveal_strlit("image/png");
    reveal_strlit("jpg");
    reveal_strlit("jpeg");
    reveal_strlit("gif");
    reveal_strlit("webp");
    reveal_strlit("bmp");
    reveal_strlit("png");
    assert("image/jpeg"@[6] == 'j' && "image/gif"@[6] == 'g' && "image/webp"@[6] == 'w'
        && "image/bmp"@[6] == 'b' && "image/png"@[6] == 'p');
    assert("jpg"@[0] == 'j' && "jpeg"@[0] == 'j' && "gif"@[0] == 'g' && "webp"@[0] == 'w'
        && "bmp"@[0] == 'b' && "png"@[0] == 'p');
}

/// The case of an ASCII extension makes no difference.
pub proof fn law_case_makes_no_difference(extension: Seq<char>, other: Seq<char>)
    requires
        vstd::utf8::is_ascii_chars(extension),
        vstd::utf8::is_ascii_chars(other),
        !image::has_separator(extension),
        !image::has_separator(other),
        extension.len() == other.len(),
        forall|i: int|
            0 <= i < extension.len() ==> #[trigger] extension[i] == other[i] || ('A'
                <= extension[i] <= 'Z' && other[i] as u32 == extension[i] as u32 + 0x20),
    ensures
        image::image_mime_type(Some(extension)) == image::image_mime_type(Some(other)),
{
    assert(text::in_lower_case(extension) =~= text::in_lower_case(other));
}

/// The data URI of an image names its media type and holds its bytes in Base64, so that images
/// with the same media type have the same URI only where they have the same Base64.
pub proof fn law_data_uri(mime_type: Seq<char>, bytes: Seq<u8>, other: Seq<u8>)
    ensures
        text::has_prefix(
            image::data_uri(mime_type, bytes),
            "data:"@ + mime_type + ";base64,"@,
        ),
        image::data_uri(mime_type, bytes).skip(("data:"@ + mime_type + ";base64,"@).len() as int)
            == image::base64_text(bytes),
        image::data_uri(mime_type, bytes) == image::data_uri(mime_type, other)
            ==> image::base64_text(bytes) == image::base64_text(other),
{
    let head = "data:"@ + mime_type + ";base64,"@;
    let uri = image::data_uri(mime_type, bytes);
    assert(uri.take(head.len() as int) =~= head);
    assert(uri.skip(head.len() as int) =~= image::base64_text(bytes));
    assert(image::data_uri(mime_type, other).skip(head.len() as int) =~= image::base64_text(other));
}

} // verus!
