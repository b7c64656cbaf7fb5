//! What holds of every run of the vision tool.

use crate::json;
use crate::json::JsonView;
use crate::text;
use crate::vision;
use crate::vision::{
    AnswerView, NextView, OutputView, VisionEnd, VisionEnvironment, VisionToolInput,
    VisionToolSettings,
};
use vstd::prelude::*;
use vstd::utf8::*;

verus! {

/// The outcome of a whole reply: what was received of the answer, or why there is none.
pub open spec fn reply_outcome(answer: AnswerView, lines: Seq<Option<Seq<char>>>) -> Result<
    AnswerView,
    Seq<char>,
>
    decreases lines.len(),
{
    if lines.len() == 0 {
        Ok(answer)
    } else {
        let step = vision::line_step(answer, lines[0]);
        match step.next {
            NextView::Continue => reply_outcome(step.answer, lines.drop_first()),
            NextView::Finished => Ok(step.answer),
            NextView::Failed(error) => Err(error),
        }
    }
}

/// Whether a line ends the reply once `answer` has been received.
pub open spec fn ends_reply(answer: AnswerView, line: Option<Seq<char>>) -> bool {
    !(vision::line_step(answer, line).next is Continue)
}

/// Whether a line ends a reply does not depend on what was received before it.
pub proof fn law_end_of_reply_is_in_the_line(
    answer: AnswerView,
    other: AnswerView,
    line: Option<Seq<char>>,
)
    ensures
        vision::line_step(answer, line).next == vision::line_step(other, line).next,
{
}

/// What comes behind a line that ends the reply has no effect.
pub proof fn law_reply_ends(
    answer: AnswerView,
    lines: Seq<Option<Seq<char>>>,
    rest: Seq<Option<Seq<char>>>,
)
    requires
        exists|i: int| 0 <= i < lines.len() && ends_reply(answer, #[trigger] lines[i]),
    ensures
        reply_outcome(answer, lines + rest) == reply_outcome(answer, lines),
    decreases lines.len(),
{
    let i = choose|i: int| 0 <= i < lines.len() && ends_reply(answer, #[trigger] lines[i]);
    assert((lines + rest)[0] == lines[0]);
    if !ends_reply(answer, lines[0]) {
        let later = lines.drop_first();
        let received = vision::line_step(answer, lines[0]).answer;
        assert(later[i - 1] == lines[i]);
        assert(ends_reply(received, later[i - 1]));
        assert((lines + rest).drop_first() =~= later + rest);
        law_reply_ends(received, later, rest);
    }
}

/// What a line adds to an answer.
pub open spec fn line_adds(line: Option<Seq<char>>) -> AnswerView {
    vision::line_step(
        AnswerView { thinking: Seq::empty(), content: Seq::empty() },
        line,
    ).answer
}

/// An answer with another behind it.
pub open spec fn followed_by(answer: AnswerView, more: AnswerView) -> AnswerView {
    AnswerView {
        thinking: answer.thinking + more.thinking,
        content: answer.content + more.content,
    }
}

/// What the lines add to an answer, one after the other.
pub open spec fn lines_add(lines: Seq<Option<Seq<char>>>) -> AnswerView
    decreases lines.len(),
{
    if lines.len() == 0 {
        AnswerView { thinking: Seq::empty(), content: Seq::empty() }
    } else {
        followed_by(line_adds(lines[0]), lines_add(lines.drop_first()))
    }
}

proof fn lemma_line_adds(answer: AnswerView, line: Option<Seq<char>>)
    ensures
        vision::line_step(answer, line).answer == followed_by(answer, line_adds(line)),
{
    let after = vision::line_step(answer, line).answer;
    let more = line_adds(line);
    assert(after.thinking =~= answer.thinking + more.thinking);
    assert(after.content =~= answer.content + more.content);
}

/// The answer is what the lines add, in order, up to the one that ends the reply, which counts
/// itself.
pub proof fn law_reply_collects_lines(answer: AnswerView, lines: Seq<Option<Seq<char>>>)
    requires
        forall|i: int| 0 <= i < lines.len() - 1 ==> !ends_reply(answer, #[trigger] lines[i]),
        lines.len() > 0 ==> !(vision::line_step(answer, lines.last()).next is Failed),
    ensures
        reply_outcome(answer, lines) == Ok::<_, Seq<char>>(
            followed_by(answer, lines_add(lines)),
        ),
    decreases lines.len(),
{
    let whole = followed_by(answer, lines_add(lines));
    if lines.len() == 0 {
        assert(whole.thinking =~= answer.thinking);
        assert(whole.content =~= answer.content);
    } else {
        let rest = lines.drop_first();
        let received = vision::line_step(answer, lines[0]).answer;
        lemma_line_adds(answer, lines[0]);
        let later = followed_by(received, lines_add(rest));
        assert(later.thinking =~= whole.thinking);
        assert(later.content =~= whole.content);
        if lines.len() == 1 {
            assert(lines[0] == lines.last());
            assert(reply_outcome(received, rest) == Ok::<_, Seq<char>>(received));
            assert(later.thinking =~= received.thinking);
            assert(later.content =~= received.content);
        } else {
            assert(rest.last() == lines.last());
            assert forall|i: int| 0 <= i < rest.len() - 1 implies !ends_reply(
                received,
                #[trigger] rest[i],
            ) by {
                assert(rest[i] == lines[i + 1]);
                assert(!ends_reply(answer, lines[i + 1]));
            }
            assert(!ends_reply(answer, lines[0]));
            law_reply_collects_lines(received, rest);
        }
    }
}

/// Whether one answer continues another.
pub open spec fn continues(longer: AnswerView, shorter: AnswerView) -> bool {
    &&& text::has_prefix(longer.thinking, shorter.thinking)
    &&& text::has_prefix(longer.content, shorter.content)
}

/// Nothing that was received is lost: every line continues the answer.
pub proof fn law_answer_only_grows(answer: AnswerView, line: Option<Seq<char>>)
    ensures
        continues(vision::line_step(answer, line).answer, answer),
{
    let longer = vision::line_step(answer, line).answer;
    assert(longer.thinking.take(answer.thinking.len() as int) =~= answer.thinking);
    assert(longer.content.take(answer.content.len() as int) =~= answer.content);
}

/// A preview is shown exactly where the line brings content, and it shows that content: all of
/// it, or a prefix with an ellipsis. It takes few bytes.
pub proof fn law_preview(answer: AnswerView, line: Option<Seq<char>>)
    ensures
        vision::line_step(answer, line).preview matches Some(preview) ==> {
            &&& preview == vision::preview_of(vision::line_step(answer, line).answer.content)
            &&& text::utf8_len(preview) <= vision::PREVIEW_LIMIT + 3
        },
        vision::line_step(answer, line).preview is None ==> vision::line_step(
            answer,
            line,
        ).answer.content == answer.content,
{
    let content = vision::line_step(answer, line).answer.content;
    let prefix = text::prefix_within(content, vision::PREVIEW_LIMIT as nat);
    text::lemma_prefix_within_fits(content, vision::PREVIEW_LIMIT as nat);
    text::lemma_encode_concat(prefix, "..."@);
    lemma_ellipsis();
}

/// What an event lets be shown is the preview of the answer that it leads to.
pub proof fn law_event_preview(answer: AnswerView, event: JsonView)
    ensures
        ({
            let step = vision::event_step(answer, event);
            step.preview matches Some(preview) ==> preview == vision::preview_of(
                step.answer.content,
            )
        }),
{
}

proof fn lemma_ellipsis()
    ensures
        text::utf8_len("..."@) == 3,
{
    reveal_strlit("...");
    reveal_with_fuel(encode_utf8, 4);
    assert("..."@ =~= seq!['.', '.', '.']);
    assert(encode_utf8("..."@).len() == 3);
}

/// Where the settings have a key, the environment has no say.
pub proof fn law_settings_come_first(
    settings: VisionToolSettings,
    environment: VisionEnvironment,
    other: VisionEnvironment,
)
    requires
        settings.api_key is Some,
    ensures
        vision::vision_config(Some(settings), environment) is Some,
        vision::vision_config(Some(settings), environment) == vision::vision_config(
            Some(settings),
            other,
        ),
{
}

/// A long image source appears in the title with its first bytes, exactly.
pub proof fn law_title_cuts_source(input: VisionToolInput)
    requires
        text::utf8_len(input.image_source@) > vision::TITLE_SOURCE_LIMIT,
        is_char_boundary(
            encode_utf8(input.image_source@),
            vision::TITLE_SOURCE_PREFIX as int,
        ),
    ensures
        exists|short: Seq<char>|
            vision::title_of(Some(input)) == "Analyze image: "@ + (short + "..."@)
                && #[trigger] encode_utf8(short) == encode_utf8(input.image_source@).take(
                vision::TITLE_SOURCE_PREFIX as int,
            ),
{
    let source = input.image_source@;
    let short = text::prefix_within(source, vision::TITLE_SOURCE_PREFIX as nat);
    text::lemma_prefix_at_boundary(source, vision::TITLE_SOURCE_PREFIX as nat);
    assert(vision::title_of(Some(input)) == "Analyze image: "@ + (short + "..."@));
}

/// Where the settings have a key, the configuration takes its key from the settings, and its URL
/// and its model are those of the settings wherever they are set; a default stands in only for
/// one that is not set.
pub proof fn law_config_of_settings(
    settings: VisionToolSettings,
    environment: VisionEnvironment,
)
    requires
        settings.api_key is Some,
    ensures
        vision::vision_config(Some(settings), environment) matches Some(config) && {
            &&& config.api_key == settings.api_key->0@
            &&& match settings.api_url {
                Some(api_url) => config.api_url == api_url@,
                None => config.api_url == "https://api.z.ai/api/coding/paas/v4/"@,
            }
            &&& match settings.model {
                Some(model) => config.model == model@,
                None => config.model == "glm-4.6v"@,
            }
        },
{
}

/// Without a key in the settings, the environment has to give one: of its three variables the
/// first that is set. URL and model then come from the environment too, wherever they are set,
/// and the settings have no say. Without any key there is no configuration.
pub proof fn law_config_of_environment(
    settings: Option<VisionToolSettings>,
    environment: VisionEnvironment,
)
    requires
        settings is None || settings->0.api_key is None,
    ensures
        vision::vision_config(settings, environment) is None <==> environment.z_ai_api_key is None
            && environment.zhipu_api_key is None && environment.zai_api_key is None,
        vision::vision_config(settings, environment) matches Some(config) ==> {
            &&& environment.z_ai_api_key matches Some(key) ==> config.api_key == key@
            &&& environment.z_ai_api_key is None ==> (environment.zhipu_api_key matches Some(key)
                ==> config.api_key == key@)
            &&& environment.z_ai_api_key is None && environment.zhipu_api_key is None ==> (
            environment.zai_api_key matches Some(key) ==> config.api_key == key@)
            &&& match environment.z_ai_base_url {
                Some(api_url) => config.api_url == api_url@,
                None => config.api_url == "https://api.z.ai/api/coding/paas/v4/"@,
            }
            &&& match environment.z_ai_vision_model {
                Some(model) => config.model == model@,
                None => config.model == "glm-4.6v"@,
            }
        },
{
}

/// Whether an object has a value under a key, which no earlier member has.
pub open spec fn has_under(object: JsonView, key: Seq<char>, value: JsonView) -> bool {
    &&& object is Object
    &&& exists|i: int|
        {
            &&& 0 <= i < object->Object_0.len()
            &&& #[trigger] object->Object_0[i] == (key, value)
            &&& forall|j: int| 0 <= j < i ==> (#[trigger] object->Object_0[j]).0 != key
        }
}

proof fn lemma_find_member(members: Seq<(Seq<char>, JsonView)>, key: Seq<char>)
    ensures
        match json::find_member(members, key) {
            Some(value) => exists|i: int|
                {
                    &&& 0 <= i < members.len()
                    &&& #[trigger] members[i] == (key, value)
                    &&& forall|j: int| 0 <= j < i ==> (#[trigger] members[j]).0 != key
                },
            None => forall|j: int| 0 <= j < members.len() ==> (#[trigger] members[j]).0 != key,
        },
    decreases members.len(),
{
    if members.len() > 0 {
        if members[0].0 == key {
            assert(members[0] == (key, members[0].1));
        } else {
            let rest = members.drop_first();
            lemma_find_member(rest, key);
            assert forall|j: int| 1 <= j < members.len() implies #[trigger] members[j] == rest[j
                - 1] by {}
            if let Some(value) = json::find_member(members, key) {
                let i = choose|i: int|
                    {
                        &&& 0 <= i < rest.len()
                        &&& #[trigger] rest[i] == (key, value)
                        &&& forall|j: int| 0 <= j < i ==> (#[trigger] rest[j]).0 != key
                    };
                assert(members[i + 1] == (key, value));
                assert forall|j: int| 0 <= j < i + 1 implies (#[trigger] members[j]).0 != key by {
                    if j > 0 {
                        assert(members[j] == rest[j - 1]);
                    }
                }
            } else {
                assert forall|j: int| 0 <= j < members.len() implies (#[trigger] members[j]).0
                    != key by {
                    if j > 0 {
                        assert(members[j] == rest[j - 1]);
                    }
                }
            }
        }
    }
}

/// Looking up a key in a JSON value gives the value that an object has under it, and nothing
/// where there is none.
pub proof fn law_member(object: JsonView, key: Seq<char>, value: JsonView)
    ensures
        json::member(object, key) == Some(value) <==> has_under(object, key, value),
{
    if object is Object {
        let members = object->Object_0;
        lemma_find_member(members, key);
        if has_under(object, key, value) {
            let i = choose|i: int|
                {
                    &&& 0 <= i < members.len()
                    &&& #[trigger] members[i] == (key, value)
                    &&& forall|j: int| 0 <= j < i ==> (#[trigger] members[j]).0 != key
                };
            if let Some(found) = json::find_member(members, key) {
                let k = choose|k: int|
                    {
                        &&& 0 <= k < members.len()
                        &&& #[trigger] members[k] == (key, found)
                        &&& forall|j: int| 0 <= j < k ==> (#[trigger] members[j]).0 != key
                    };
                if i < k {
                    assert(members[i].0 != key);
                }
                if k < i {
                    assert(members[k].0 != key);
                }
            }
        }
    }
}

/// Whether an event reports an error with a message.
pub open spec fn reports(event: JsonView, message: Seq<char>) -> bool {
    exists|error: JsonView| #[trigger]
        has_under(event, "error"@, error) && has_under(error, "message"@, JsonView::Text(message))
}

/// Whether the first choice of an event brings a piece of the answer.
pub open spec fn brings(event: JsonView, choice: JsonView, delta: JsonView) -> bool {
    &&& exists|choices: Seq<JsonView>| #[trigger]
        has_under(event, "choices"@, JsonView::Array(choices)) && choices.len() > 0 && choices[0]
            == choice
    &&& has_under(choice, "delta"@, delta)
}

proof fn lemma_reports(event: JsonView)
    ensures
        match vision::event_error(event) {
            Some(message) => reports(event, message),
            None => forall|message: Seq<char>| !#[trigger] reports(event, message),
        },
{
    if let Some(message) = vision::event_error(event) {
        let error = json::member(event, "error"@)->0;
        law_member(event, "error"@, error);
        law_member(error, "message"@, JsonView::Text(message));
        assert(has_under(event, "error"@, error));
    } else {
        assert forall|message: Seq<char>| !#[trigger] reports(event, message) by {
            if reports(event, message) {
                let error = choose|error: JsonView| #[trigger]
                    has_under(event, "error"@, error) && has_under(
                        error,
                        "message"@,
                        JsonView::Text(message),
                    );
                law_member(event, "error"@, error);
                law_member(error, "message"@, JsonView::Text(message));
            }
        }
    }
}

proof fn lemma_brings(event: JsonView, choice: JsonView, delta: JsonView)
    ensures
        brings(event, choice, delta) <==> vision::first_choice(event) == Some(choice)
            && json::member(choice, "delta"@) == Some(delta),
{
    law_member(choice, "delta"@, delta);
    if brings(event, choice, delta) {
        let choices = choose|choices: Seq<JsonView>| #[trigger]
            has_under(event, "choices"@, JsonView::Array(choices)) && choices.len() > 0
                && choices[0] == choice;
        law_member(event, "choices"@, JsonView::Array(choices));
    }
    if vision::first_choice(event) == Some(choice) {
        let choices = json::member(event, "choices"@)->0;
        law_member(event, "choices"@, choices);
        assert(has_under(event, "choices"@, JsonView::Array(choices->Array_0)));
    }
}

/// An event that reports an error ends the reply with that error, whatever else it brings.
pub proof fn law_reported_error_fails(answer: AnswerView, event: JsonView, message: Seq<char>)
    requires
        reports(event, message),
    ensures
        vision::event_step(answer, event).next == NextView::Failed(
            "Vision API stream error: "@ + message,
        ),
        vision::event_step(answer, event).answer == answer,
        vision::event_step(answer, event).preview is None,
{
    lemma_reports(event);
    let found = vision::event_error(event)->0;
    let error = choose|error: JsonView| #[trigger]
        has_under(event, "error"@, error) && has_under(
            error,
            "message"@,
            JsonView::Text(message),
        );
    law_member(event, "error"@, error);
    law_member(error, "message"@, JsonView::Text(message));
    assert(found == message);
}

/// An event that reports no error adds to the answer exactly the content and the reasoning that
/// its first choice brings, shows the answer where it brings content, and ends the reply where
/// it names a reason for finishing.
pub proof fn law_event_adds_its_piece(
    answer: AnswerView,
    event: JsonView,
    choice: JsonView,
    delta: JsonView,
)
    requires
        forall|message: Seq<char>| !#[trigger] reports(event, message),
        brings(event, choice, delta),
    ensures
        ({
            let step = vision::event_step(answer, event);
            &&& forall|content: Seq<char>| #[trigger]
                has_under(delta, "content"@, JsonView::Text(content)) ==> step.answer.content
                    == answer.content + content && step.preview is Some
            &&& (forall|content: Seq<char>|
                !#[trigger] has_under(delta, "content"@, JsonView::Text(content)))
                ==> step.answer.content == answer.content && step.preview is None
            &&& forall|reasoning: Seq<char>| #[trigger]
                has_under(delta, "reasoning_content"@, JsonView::Text(reasoning))
                    ==> step.answer.thinking == answer.thinking + reasoning
            &&& (forall|reasoning: Seq<char>|
                !#[trigger] has_under(delta, "reasoning_content"@, JsonView::Text(reasoning)))
                ==> step.answer.thinking == answer.thinking
            &&& step.next is Finished || step.next is Continue
            &&& step.next is Finished <==> exists|reason: Seq<char>| #[trigger]
                has_under(choice, "finish_reason"@, JsonView::Text(reason))
        }),
{
    lemma_reports(event);
    lemma_brings(event, choice, delta);
    lemma_member_text(delta, "content"@);
    lemma_member_text(delta, "reasoning_content"@);
    lemma_member_text(choice, "finish_reason"@);
}

proof fn lemma_member_text(object: JsonView, key: Seq<char>)
    ensures
        match vision::member_text(object, key) {
            Some(text) => has_under(object, key, JsonView::Text(text)) && forall|other: Seq<char>|
                #[trigger] has_under(object, key, JsonView::Text(other)) ==> other == text,
            None => forall|other: Seq<char>|
                !#[trigger] has_under(object, key, JsonView::Text(other)),
        },
{
    assert forall|other: Seq<char>| #[trigger]
        has_under(object, key, JsonView::Text(other)) <==> json::member(object, key) == Some(
            JsonView::Text(other),
        ) by {
        law_member(object, key, JsonView::Text(other));
    }
}

/// An event that reports no error and brings nothing is passed over.
pub proof fn law_other_events_are_passed_over(answer: AnswerView, event: JsonView)
    requires
        forall|message: Seq<char>| !#[trigger] reports(event, message),
        forall|choice: JsonView, delta: JsonView| !#[trigger] brings(event, choice, delta),
    ensures
        vision::event_step(answer, event).answer == answer,
        vision::event_step(answer, event).preview is None,
        vision::event_step(answer, event).next is Continue,
{
    lemma_reports(event);
    if let Some(choice) = vision::first_choice(event) {
        if let Some(delta) = json::member(choice, "delta"@) {
            lemma_brings(event, choice, delta);
        }
    }
}

/// A line that does not begin with `data:` is passed over; where no more lines can be read, or a
/// line has the data `[DONE]`, the reply is complete. The data of a line is what stands behind
/// `data:`, without the white space around it; what is no JSON document is passed over, and any
/// other is taken as an event.
pub proof fn law_lines(answer: AnswerView, line: Seq<char>, rest: Seq<char>)
    ensures
        ({
            let step = vision::line_step(answer, None);
            step.next is Finished && step.answer == answer && step.preview is None
        }),
        !text::has_prefix(line, "data:"@) ==> ({
            let step = vision::line_step(answer, Some(line));
            step.next is Continue && step.answer == answer && step.preview is None
        }),
        text::trimmed(rest) == "[DONE]"@ ==> ({
            let step = vision::line_step(answer, Some("data:"@ + rest));
            step.next is Finished && step.answer == answer && step.preview is None
        }),
        text::trimmed(rest) != "[DONE]"@ ==> match json::json_document(text::trimmed(rest)) {
            None => {
                let step = vision::line_step(answer, Some("data:"@ + rest));
                step.next is Continue && step.answer == answer && step.preview is None
            },
            Some(event) => vision::line_step(answer, Some("data:"@ + rest)) == vision::event_step(
                answer,
                event,
            ),
        },
{
    reveal_strlit("data:");
    reveal_strlit("data: ");
    let whole = "data:"@ + rest;
    assert(whole.take(5) =~= "data:"@);
    assert(whole.skip(5) =~= rest);
    assert("data: "@.take(5) =~= "data:"@);
    if text::has_prefix(whole, "data: "@) {
        assert(whole.take(6)[5] == ' ');
        assert(rest[0] == ' ');
        assert(text::white_space(' '));
        assert(whole.skip(6) =~= rest.drop_first());
        assert(text::trimmed_start(rest) == text::trimmed_start(rest.drop_first()));
    }
    if text::has_prefix(line, "data: "@) {
        assert(line.take(5) =~= line.take(6).take(5));
    }
}

/// What is shown of an answer is all of it where it takes no more than 300 bytes; else as much of
/// its beginning as fits in these, and an ellipsis.
pub proof fn law_preview_shows_the_beginning(content: Seq<char>)
    ensures
        text::utf8_len(content) <= 300 ==> vision::preview_of(content) == content,
        text::utf8_len(content) > 300 ==> exists|shown: int|
            {
                &&& 0 <= shown < content.len()
                &&& vision::preview_of(content) == #[trigger] content.take(shown) + "..."@
                &&& text::utf8_len(content.take(shown)) <= 300
                &&& text::utf8_len(content.take(shown + 1)) > 300
            },
{
    if text::utf8_len(content) > 300 {
        assert(content.take(content.len() as int) =~= content);
        let shown = lemma_longest_prefix(content, 300, content.len() as int);
        assert(vision::preview_of(content) == content.take(shown) + "..."@);
    }
}

proof fn lemma_longest_prefix(content: Seq<char>, limit: nat, count: int) -> (shown: int)
    requires
        0 <= count <= content.len(),
        text::utf8_len(content.take(count)) > limit,
    ensures
        0 <= shown < count,
        text::prefix_within(content.take(count), limit) == content.take(shown),
        text::utf8_len(content.take(shown)) <= limit,
        text::utf8_len(content.take(shown + 1)) > limit,
    decreases count,
{
    let part = content.take(count);
    if count == 0 {
        assert(encode_utf8(part) =~= Seq::<u8>::empty());
        0
    } else {
        assert(part.drop_last() =~= content.take(count - 1));
        assert(text::prefix_within(part, limit) == text::prefix_within(part.drop_last(), limit));
        if text::utf8_len(content.take(count - 1)) > limit {
            lemma_longest_prefix(content, limit, count - 1)
        } else {
            assert(text::prefix_within(content.take(count - 1), limit) == content.take(count - 1));
            count - 1
        }
    }
}

/// A source that takes no more than 60 bytes appears whole in the title.
pub proof fn law_title_shows_source(input: VisionToolInput)
    requires
        text::utf8_len(input.image_source@) <= 60,
    ensures
        vision::title_of(Some(input)) == "Analyze image: "@ + input.image_source@,
        vision::title_of(None) == "Analyze image"@,
{
}

/// Whether a message is one of the user, with two parts.
pub open spec fn user_says(message: JsonView, first: JsonView, second: JsonView) -> bool {
    &&& has_under(message, "role"@, JsonView::Text("user"@))
    &&& has_under(message, "content"@, JsonView::Array(seq![first, second]))
}

/// Whether a part of a message is the image under a URL.
pub open spec fn shows_image(part: JsonView, image_url: Seq<char>) -> bool {
    &&& has_under(part, "type"@, JsonView::Text("image_url"@))
    &&& exists|url: JsonView| #[trigger]
        has_under(part, "image_url"@, url) && has_under(url, "url"@, JsonView::Text(image_url))
}

/// A request names the model, asks for a stream and for thinking, limits the answer, and holds
/// one message of the user: the image, and behind it the prompt.
pub proof fn law_request_body(
    model: Seq<char>,
    prompt: Seq<char>,
    image_data_url: Seq<char>,
)
    ensures
        ({
            let body = vision::body_view(model, prompt, image_data_url);
            &&& has_under(body, "model"@, JsonView::Text(model))
            &&& has_under(body, "stream"@, JsonView::Bool(true))
            &&& has_under(body, "max_tokens"@, JsonView::Number(json::json_number(32768)))
            &&& exists|thinking: JsonView| #[trigger]
                has_under(body, "thinking"@, thinking) && has_under(
                    thinking,
                    "type"@,
                    JsonView::Text("enabled"@),
                )
            &&& exists|message: JsonView, image: JsonView, question: JsonView|
                {
                    &&& has_under(body, "messages"@, JsonView::Array(seq![message]))
                    &&& #[trigger] user_says(message, image, question)
                    &&& shows_image(image, image_data_url)
                    &&& has_under(question, "type"@, JsonView::Text("text"@))
                    &&& has_under(question, "text"@, JsonView::Text(prompt))
                }
        }),
{
    let body = vision::body_view(model, prompt, image_data_url);
    let members = body->Object_0;
    let message = members[1].1->Array_0[0];
    let image = message->Object_0[1].1->Array_0[0];
    let question = message->Object_0[1].1->Array_0[1];
    let url = image->Object_0[1].1;
    let thinking = members[2].1;
    reveal_strlit("model");
    reveal_strlit("messages");
    reveal_strlit("thinking");
    reveal_strlit("stream");
    reveal_strlit("max_tokens");
    reveal_strlit("type");
    reveal_strlit("image_url");
    reveal_strlit("text");
    reveal_strlit("role");
    reveal_strlit("content");
    assert(members[0].0.len() == 5 && members[1].0.len() == 8 && members[2].0.len() == 8
        && members[3].0.len() == 6 && members[4].0.len() == 10);
    assert(members[1].0[0] == 'm' && members[2].0[0] == 't');
    assert(members[0] == ("model"@, JsonView::Text(model)));
    assert(members[1].1->Array_0 =~= seq![message]);
    assert(members[1] == ("messages"@, JsonView::Array(seq![message])));
    assert(members[2] == ("thinking"@, thinking));
    assert(members[3] == ("stream"@, JsonView::Bool(true)));
    assert(members[4] == ("max_tokens"@, JsonView::Number(json::json_number(32768))));
    assert(thinking->Object_0[0] == ("type"@, JsonView::Text("enabled"@)));
    assert(message->Object_0[0] == ("role"@, JsonView::Text("user"@)));
    assert("role"@.len() == 4 && "content"@.len() == 7);
    assert(message->Object_0[1].1->Array_0 =~= seq![image, question]);
    assert(message->Object_0[1] == ("content"@, JsonView::Array(seq![image, question])));
    assert(image->Object_0[0] == ("type"@, JsonView::Text("image_url"@)));
    assert("type"@.len() == 4 && "image_url"@.len() == 9);
    assert(image->Object_0[1] == ("image_url"@, url));
    assert(url->Object_0[0] == ("url"@, JsonView::Text(image_data_url)));
    assert(question->Object_0[0] == ("type"@, JsonView::Text("text"@)));
    assert("type"@[1] == 'y' && "text"@[1] == 'e');
    assert(question->Object_0[1] == ("text"@, JsonView::Text(prompt)));
    assert(has_under(body, "thinking"@, thinking));
    assert(has_under(message, "content"@, JsonView::Array(seq![image, question])));
    assert(has_under(image, "image_url"@, url));
    assert(user_says(message, image, question));
}

/// What the tool hands back is the answer that came, and nothing but that is a success; a failure
/// tells its reason.
pub proof fn law_outcome(description: String, error: String)
    ensures
        vision::run_outcome(VisionEnd::Answered(Ok(description))) == Ok::<_, OutputView>(
            OutputView::Success(description@),
        ),
        vision::run_outcome(VisionEnd::Answered(Err(error))) == Err::<OutputView, _>(
            OutputView::Error("Vision analysis failed: "@ + error@),
        ),
        vision::run_outcome(VisionEnd::Cancelled) == Err::<OutputView, _>(
            OutputView::Error("Vision analysis cancelled by user"@),
        ),
{
}

} // verus!
