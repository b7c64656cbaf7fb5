//! What holds of every call: how the results of the library's functions, and what these change,
//! relate to what they are called with.

use crate::compact_modal::{CompactMessagesModal, CompactPhase};
use crate::compaction;
use crate::compaction::{CompactionDebugInfo, CompactionError, CompactionPlan, LanguageModel};
use crate::compaction_settings;
use crate::compaction_settings::{
    CompactionSettingsModal, ConfiguredModel, ModelPurpose, ProviderModels,
};
use crate::dialog_laws;
use crate::form::ToggleState;
use crate::image;
use crate::image::ImageFile;
use crate::json;
use crate::json::{Json, JsonView};
use crate::message;
use crate::message::LanguageModelRequestMessage;
use crate::piece_laws;
use crate::plan_laws;
use crate::provider;
use crate::provider::{
    AddLlmProviderInput, Mode, ModelInputView, ProviderError, ProviderUpdate, RegisteredProvider,
    SavePlan,
};
use crate::provider_laws;
use crate::provider_modal;
use crate::provider_modal::{AddLlmProviderModal, Capability};
use crate::rules;
use crate::rules::{RuleFile, RulesDirContext, RulesDirectoryEntry, RulesScan, RulesWorktree};
use crate::rules_laws;
use crate::rules_settings;
use crate::rules_settings::RulesDirectorySettingsModal;
use crate::settings;
use crate::settings::{
    AgentModels, AvailableModel, LanguageModelSelection, ProviderTable, SettingsContent,
};
use crate::stripping;
use crate::stripping_laws;
use crate::summary::{LanguageModelCompletionEvent, SummaryStep, SummaryStream};
use crate::text;
use crate::thread;
use crate::thread::{
    AgentMessageContent, Message, RequestTokenUsage, UserMessageContent, UserMessageId,
};
use crate::vision;
use crate::vision::{
    AnswerView, ReplyNext, ReplyStep, VisionConfig, VisionEnd, VisionEnvironment, VisionReply,
    VisionRequest, VisionToolInput, VisionToolOutput, VisionToolSettings,
};
use crate::vision_laws;
use crate::zones;
use crate::zones::{CompactionConfig, CompactionZones, RenderedMessage, RenderedView};
use vstd::prelude::*;

verus! {

/// Where automatic compaction makes a plan, it is for the given model; it replaces the messages
/// before the smaller of the point at which the conversation is parted and the start of the turn,
/// and asks for the summary of exactly these. Where it makes none, none is owed.
pub proof fn law_automatic_compaction(
    messages: &[RenderedMessage],
    model: Option<LanguageModel>,
    config: &CompactionConfig,
    turn_start_index: Option<usize>,
    result: Result<Option<CompactionPlan>, CompactionError>,
)
    requires
        call_ensures(
            compaction::prepare_message_compaction,
            (messages, model, config, turn_start_index),
            result,
        ),
    ensures
        ({
            let views = zones::rendered_views(messages@);
            &&& result is Ok
            &&& result->Ok_0 matches Some(plan) ==> {
                &&& model == Some(plan.model)
                &&& 0 < plan.boundary_index < messages@.len()
                &&& turn_start_index matches Some(turn_start) ==> plan.boundary_index <= turn_start
                &&& plan_laws::asks_for_summary(
                    plan.request@,
                    views.take(plan.boundary_index as int),
                    plan.model.max_token_count as nat,
                )
                &&& exists|at: int, stored: int| #[trigger]
                    plan_laws::plan_owed(views, *config, turn_start_index, at, stored)
                        && plan.boundary_index == plan_laws::replaced_before(
                        stored,
                        turn_start_index,
                    )
            }
            &&& result->Ok_0 is None ==> model is None || forall|at: int, stored: int|
                !#[trigger] plan_laws::plan_owed(views, *config, turn_start_index, at, stored)
        }),
{
    let views = zones::rendered_views(messages@);
    let max_token_count = match model {
        Some(model) => Some(model.max_token_count as nat),
        None => None,
    };
    plan_laws::law_plan_covers_what_it_replaces(views, max_token_count, *config, turn_start_index);
    if result->Ok_0 is None && model is Some {
        assert forall|at: int, stored: int|
            !#[trigger] plan_laws::plan_owed(views, *config, turn_start_index, at, stored) by {
            if plan_laws::plan_owed(views, *config, turn_start_index, at, stored) {
                plan_laws::law_plan_is_made_where_owed(
                    views,
                    max_token_count,
                    *config,
                    turn_start_index,
                    at,
                    stored,
                );
            }
        }
    }
}

/// A plan that a user asks for replaces the messages of the given range and asks for the summary
/// of exactly these. There is none for a range that is empty or goes beyond the conversation, and
/// for messages without Markdown.
pub proof fn law_manual_compaction(
    messages: &[RenderedMessage],
    start: usize,
    end: usize,
    model: LanguageModel,
    result: Result<CompactionPlan, CompactionError>,
)
    requires
        call_ensures(
            compaction::prepare_manual_compaction,
            (messages, start, end, model),
            result,
        ),
    ensures
        ({
            let valid = start < end <= messages@.len();
            let range = zones::rendered_views(messages@).subrange(start as int, end as int);
            match result {
                Ok(plan) => {
                    &&& valid
                    &&& plan.model == model
                    &&& plan.boundary_index == end
                    &&& plan_laws::asks_for_summary(
                        plan.request@,
                        range,
                        model.max_token_count as nat,
                    )
                },
                Err(CompactionError::InvalidRange { start: from, end: to }) => !valid && from
                    == start && to == end,
                Err(CompactionError::NoContent) => valid && plan_laws::markdown_of(range).len()
                    == 0,
            }
        }),
{
    let range = zones::rendered_views(messages@).subrange(start as int, end as int);
    plan_laws::law_summary_request(range, model.max_token_count as nat);
}

/// The figures that are shown on a conversation are right.
pub proof fn law_debug_info(
    messages: &[RenderedMessage],
    config: &CompactionConfig,
    auto_compact_enabled: bool,
    info: CompactionDebugInfo,
)
    requires
        call_ensures(
            compaction::compute_compaction_debug_info,
            (messages, config, auto_compact_enabled),
            info,
        ),
    ensures
        plan_laws::right_figures(
            info,
            zones::rendered_views(messages@),
            *config,
            auto_compact_enabled,
        ),
{
    plan_laws::law_debug_info_figures(
        info,
        zones::rendered_views(messages@),
        *config,
        auto_compact_enabled,
    );
}

/// The analysis of a conversation counts and measures its requests, tells from which message each
/// comes, where that is asked for, and finds the point at which the conversation is parted.
pub proof fn law_analyzed_zones(
    messages: &[RenderedMessage],
    config: &CompactionConfig,
    build_stored_mapping: bool,
    zones: CompactionZones,
    request: int,
)
    requires
        call_ensures(
            zones::analyze_compaction_zones,
            (messages, config, build_stored_mapping),
            zones,
        ),
    ensures
        ({
            let views = zones::rendered_views(messages@);
            let requests = zones::all_requests(views);
            let lens = zones::conversation_lens(views, *config);
            let stored = zones.request_to_stored@[request] as int;
            let threshold = (config.summary_threshold_tokens * 4) as nat;
            &&& zones.request_message_count == requests.len()
            &&& zones::nats(zones.visible_lens@) == lens
            &&& zones.total_original_chars == stripping_laws::conversation_len(requests)
            &&& zones.total_visible_chars == stripping_laws::conversation_len(
                stripping::compacted(requests, (config.deep_omit_threshold_tokens * 4) as nat),
            )
            &&& !build_stored_mapping ==> zones.request_to_stored@.len() == 0
            &&& build_stored_mapping ==> zones.request_to_stored@.len() == requests.len()
            &&& build_stored_mapping && 0 <= request < requests.len() ==> {
                &&& 0 <= stored < messages@.len()
                &&& plan_laws::requests_before(views, stored) <= request
                    < plan_laws::requests_before(views, stored + 1)
            }
            &&& zones.boundary_req_idx < requests.len() ==> plan_laws::recent_from(
                lens,
                threshold,
                zones.boundary_req_idx as int,
            )
            &&& zones.boundary_req_idx >= requests.len() ==> zones.boundary_req_idx
                == requests.len() && (requests.len() > 0 ==> stripping::total(lens) < threshold)
        }),
{
    let views = zones::rendered_views(messages@);
    let view = zones@;
    if zones::all_requests(views).len() > 0 {
        let within = if 0 <= request < zones::all_requests(views).len() {
            request
        } else {
            0
        };
        plan_laws::law_analysis(views, *config, build_stored_mapping, within);
    } else {
        lemma_nothing_analyzed(views, *config, build_stored_mapping);
    }
    assert(view.boundary_req_idx == zones.boundary_req_idx);
    assert(view.request_message_count == zones.request_message_count);
    assert(view.total_original_chars == zones.total_original_chars);
    assert(view.total_visible_chars == zones.total_visible_chars);
    assert(view.request_to_stored.len() == zones.request_to_stored@.len());
    if build_stored_mapping && 0 <= request < zones::all_requests(views).len() {
        assert(view.request_to_stored[request] == zones.request_to_stored@[request]);
    }
}

proof fn lemma_nothing_analyzed(
    messages: Seq<RenderedView>,
    config: CompactionConfig,
    build_stored_mapping: bool,
)
    requires
        zones::all_requests(messages).len() == 0,
    ensures
        ({
            let zones = zones::zones_of(messages, config, build_stored_mapping);
            let requests = zones::all_requests(messages);
            &&& zones.request_to_stored.len() == 0
            &&& zones.boundary_req_idx == 0
            &&& zones.total_original_chars == stripping_laws::conversation_len(requests)
            &&& zones.total_visible_chars == stripping_laws::conversation_len(
                stripping::compacted(requests, (config.deep_omit_threshold_tokens * 4) as nat),
            )
        }),
{
    let requests = zones::all_requests(messages);
    stripping_laws::lemma_conversation_len(requests);
    stripping_laws::lemma_conversation_len(
        stripping::compacted(requests, (config.deep_omit_threshold_tokens * 4) as nat),
    );
    zones::lemma_origins_len(messages);
}

/// Compaction takes out of a conversation what the pieces of its messages say, and leaves what
/// lies within the threshold from the end as it is.
pub proof fn law_compacted_conversation(
    messages: &mut Vec<LanguageModelRequestMessage>,
    threshold: usize,
)
    requires
        call_ensures(stripping::compact_old_tool_results, (messages, threshold), ()),
    ensures
        ({
            let before = message::message_views(old(messages)@);
            let after = message::message_views(final(messages)@);
            &&& piece_laws::pieces(after) == piece_laws::all_left(
                before,
                threshold as nat,
                before.len() as int,
            )
            &&& piece_laws::staying(piece_laws::pieces(after)) == piece_laws::staying(
                piece_laws::pieces(before),
            )
            &&& forall|index: int|
                0 <= index < before.len() && piece_laws::left_alone(
                    before,
                    threshold as nat,
                    index,
                ) ==> stripping_laws::holds(after, #[trigger] before[index])
        }),
{
    let before = message::message_views(old(messages)@);
    piece_laws::law_compaction_by_piece(before, threshold as nat);
    piece_laws::law_everything_else_stays(before, threshold as nat);
    assert forall|index: int|
        0 <= index < before.len() && piece_laws::left_alone(
            before,
            threshold as nat,
            index,
        ) implies stripping_laws::holds(
        message::message_views(final(messages)@),
        #[trigger] before[index],
    ) by {
        piece_laws::law_left_alone_survives(before, threshold as nat, index);
    }
}

/// Content is recent from the returned index on: less text than the threshold stands behind each
/// message from there on, and at least as much behind each before it.
pub proof fn law_recent_start_index(
    messages: &[LanguageModelRequestMessage],
    threshold: usize,
    start: usize,
    index: int,
)
    requires
        call_ensures(stripping::compute_recent_start_index, (messages, threshold), start),
    ensures
        start <= messages@.len(),
        threshold == 0 ==> start == messages@.len(),
        threshold > 0 && 0 <= index < messages@.len() ==> (index >= start
            <==> piece_laws::chars_behind(
            message::message_views(messages@),
            index,
        ) < threshold),
{
    let views = message::message_views(messages@);
    if threshold > 0 && 0 <= index < views.len() {
        piece_laws::law_recent_start(views, threshold as nat, index);
    }
    stripping::law_last_start(stripping::message_lens(views), threshold as nat);
}

/// The thresholds that settings give are those that they set, and defaults for the others.
pub proof fn law_config_from_settings(
    section: Option<&zones::CompactionSettingsContent>,
    config: CompactionConfig,
)
    requires
        call_ensures(CompactionConfig::from_settings, (section,), config),
    ensures
        config.deep_omit_threshold_tokens == if section is Some
            && section->0.deep_omit_threshold_tokens is Some {
            section->0.deep_omit_threshold_tokens->0
        } else {
            80_000
        },
        config.summary_threshold_tokens == if section is Some
            && section->0.summary_threshold_tokens is Some {
            section->0.summary_threshold_tokens->0
        } else {
            80_000
        },
        config.min_content_chars == if section is Some && section->0.min_content_chars is Some {
            section->0.min_content_chars->0
        } else {
            60_000
        },
{
}

/// A summary takes the place of the messages before the boundary: one message of the user with
/// the summary under its heading, one answer of the agent, and then every other message as it
/// was. The usage is forgotten of the replaced messages of the user, and of no others.
pub proof fn law_summary_replaces_messages(
    messages: &mut Vec<Message>,
    usage: &mut RequestTokenUsage,
    boundary_index: usize,
    summary_text: String,
    summary_id: UserMessageId,
    id: Seq<char>,
)
    requires
        boundary_index <= old(messages)@.len(),
        call_ensures(
            thread::apply_message_compaction,
            (messages, usage, boundary_index, summary_text, summary_id),
            (),
        ),
    ensures
        ({
            let before = old(messages)@;
            let after = final(messages)@;
            let replaced = exists|i: int|
                0 <= i < boundary_index && (#[trigger] before[i] matches Message::User(message)
                    && message.id.0@ == id);
            &&& after.len() == before.len() - boundary_index + 2
            &&& after[0] matches Message::User(message) && {
                &&& message.id == summary_id
                &&& message.content@.len() == 1
                &&& message.content@[0] matches UserMessageContent::Text(text) && text@
                    == "[Earlier conversation summary]\n"@ + summary_text@
            }
            &&& after[1] matches Message::Agent(message) && {
                &&& message.content@.len() == 1
                &&& message.content@[0] matches AgentMessageContent::Text(text) && text@
                    == "Understood. I'll keep this summary in mind for context in our continued conversation."@
                &&& message.tool_results@.len() == 0
                &&& message.reasoning_details is None
            }
            &&& forall|i: int|
                boundary_index <= i < before.len() ==> after[i - boundary_index + 2]
                    == #[trigger] before[i]
            &&& final(usage)@.contains_key(id) <==> old(usage)@.contains_key(id) && !replaced
            &&& final(usage)@.contains_key(id) ==> final(usage)@[id] == old(usage)@[id]
        }),
{
    let before = old(messages)@;
    let after = final(messages)@;
    let older = before.take(boundary_index as int);
    assert forall|i: int| boundary_index <= i < before.len() implies after[i - boundary_index + 2]
        == #[trigger] before[i] by {
        assert(after.skip(2)[i - boundary_index] == before.skip(boundary_index as int)[i
            - boundary_index]);
    }
    if thread::user_ids(older).contains(id) {
        let i = choose|i: int|
            0 <= i < older.len() && (#[trigger] older[i] matches Message::User(message)
                && message.id.0@ == id);
        assert(before[i] == older[i]);
    }
    if exists|i: int|
        0 <= i < boundary_index && (#[trigger] before[i] matches Message::User(message)
            && message.id.0@ == id) {
        let i = choose|i: int|
            0 <= i < boundary_index && (#[trigger] before[i] matches Message::User(message)
                && message.id.0@ == id);
        assert(older[i] == before[i]);
        assert(thread::user_ids(older).contains(id));
    }
}

/// A text is collected; a stop, or the user, ends the summary with what was collected; a failure
/// ends it without one; anything else is passed over.
pub proof fn law_summary_event(
    stream: &mut SummaryStream,
    cancelled: bool,
    event: Result<LanguageModelCompletionEvent, String>,
    step: SummaryStep,
)
    requires
        call_ensures(SummaryStream::on_event, (stream, cancelled, event), step),
    ensures
        !(!cancelled && event is Ok && event->Ok_0 is Text) ==> final(stream).text@
            == old(stream).text@,
        cancelled ==> step is Finished,
        !cancelled ==> match event {
            Ok(LanguageModelCompletionEvent::Text(text)) => step is Continue && final(stream).text@
                == old(stream).text@ + text@,
            Ok(LanguageModelCompletionEvent::Stop) => step is Finished,
            Ok(_) => step is Continue,
            Err(error) => step matches SummaryStep::Failed(reason) && reason@ == error@,
        },
{
    assert(step@ == step@);
}

/// The tool is configured by the settings where they have a key, else by the environment where
/// that has one, and not at all otherwise.
pub proof fn law_vision_config(
    settings: Option<&VisionToolSettings>,
    environment: &VisionEnvironment,
    result: Result<VisionConfig, VisionToolOutput>,
)
    requires
        call_ensures(vision::read_config, (settings, environment), result),
    ensures
        ({
            let by_settings = settings is Some && settings->0.api_key is Some;
            let by_environment = environment.z_ai_api_key is Some
                || environment.zhipu_api_key is Some || environment.zai_api_key is Some;
            &&& result is Ok <==> by_settings || by_environment
            &&& result matches Err(output) ==> output matches VisionToolOutput::Error { error }
                && error@
                == "Vision tool not configured. Set `vision_tool.api_key` in settings, or set Z_AI_API_KEY environment variable."@
            &&& result matches Ok(config) ==> {
                let url = if by_settings {
                    settings->0.api_url
                } else {
                    environment.z_ai_base_url
                };
                let model = if by_settings {
                    settings->0.model
                } else {
                    environment.z_ai_vision_model
                };
                &&& config.api_key@ == if by_settings {
                    settings->0.api_key->0@
                } else if environment.z_ai_api_key is Some {
                    environment.z_ai_api_key->0@
                } else if environment.zhipu_api_key is Some {
                    environment.zhipu_api_key->0@
                } else {
                    environment.zai_api_key->0@
                }
                &&& config.api_url@ == if url is Some {
                    url->0@
                } else {
                    "https://api.z.ai/api/coding/paas/v4/"@
                }
                &&& config.model@ == if model is Some {
                    model->0@
                } else {
                    "glm-4.6v"@
                }
            }
        }),
{
    if let Ok(config) = result {
        assert(config@.api_key == config.api_key@);
    }
    if let Err(output) = result {
        assert(output@ is Error);
    }
}

/// Requests go below the configured address, with the key, without white space around it, as
/// their bearer token.
pub proof fn law_where_requests_go(
    api_url: &str,
    endpoint: String,
    api_key: &str,
    header: String,
)
    requires
        call_ensures(vision::chat_endpoint, (api_url,), endpoint),
        call_ensures(vision::authorization, (api_key,), header),
    ensures
        endpoint@ == api_url@ + "chat/completions"@,
        exists|token: Seq<char>| #[trigger]
            rules_laws::bare_text(api_key@, token) && header@ == "Bearer "@ + token,
{
    rules_laws::law_trimmed_is_bare(api_key@);
}

/// What is sent is the compact form of a request that names the model and holds the image and the
/// prompt.
pub proof fn law_what_is_sent(
    model: &str,
    prompt: &str,
    image_data_url: &str,
    body: Json,
    request: Result<String, String>,
)
    requires
        call_ensures(vision::request_body, (model, prompt, image_data_url), body),
        call_ensures(vision::request_text, (model, prompt, image_data_url), request),
    ensures
        request is Ok,
        request->Ok_0@ == json::json_compact(body@),
        vision_laws::has_under(body@, "model"@, JsonView::Text(model@)),
        vision_laws::has_under(body@, "stream"@, JsonView::Bool(true)),
        vision_laws::has_under(body@, "max_tokens"@, JsonView::Number(json::json_number(32768))),
        exists|thinking: JsonView| #[trigger]
            vision_laws::has_under(body@, "thinking"@, thinking) && vision_laws::has_under(
                thinking,
                "type"@,
                JsonView::Text("enabled"@),
            ),
        exists|message: JsonView, image: JsonView, question: JsonView|
            {
                &&& vision_laws::has_under(body@, "messages"@, JsonView::Array(seq![message]))
                &&& #[trigger] vision_laws::user_says(message, image, question)
                &&& vision_laws::shows_image(image, image_data_url@)
                &&& vision_laws::has_under(question, "type"@, JsonView::Text("text"@))
                &&& vision_laws::has_under(question, "text"@, JsonView::Text(prompt@))
            },
{
    vision_laws::law_request_body(model@, prompt@, image_data_url@);
}

/// A reply without success is told with its status and its body.
pub proof fn law_status_error(
    status: &str,
    body: &str,
    error: String,
    bytes: &Vec<u8>,
    error_of_bytes: String,
)
    requires
        call_ensures(vision::status_error, (status, body), error),
        call_ensures(vision::status_error_from_bytes, (status, bytes), error_of_bytes),
    ensures
        error@ == "Vision API error (status "@ + status@ + "): "@ + body@,
        error_of_bytes@ == "Vision API error (status "@ + status@ + "): "@ + text::lossy_text(
            bytes@,
        ),
{
}

/// An answer is what its content is, and fails where that is empty.
pub proof fn law_finished_answer(reply: VisionReply, answer: Result<String, String>)
    requires
        call_ensures(VisionReply::finish, (reply,), answer),
    ensures
        answer is Ok <==> reply.content_text@.len() > 0,
        answer matches Ok(content) ==> content@ == reply.content_text@,
        answer matches Err(error) ==> error@ == "Vision model returned no content"@,
{
    assert(reply@.content == reply.content_text@);
}

/// Whether a preview shows an answer: all of it where it takes no more than 300 bytes, else as
/// much of its beginning as fits in these, and an ellipsis.
pub open spec fn shows_beginning(content: Seq<char>, preview: Seq<char>) -> bool {
    &&& text::utf8_len(content) <= 300 ==> preview == content
    &&& text::utf8_len(content) > 300 ==> exists|shown: int|
        {
            &&& 0 <= shown < content.len()
            &&& preview == #[trigger] content.take(shown) + "..."@
            &&& text::utf8_len(content.take(shown)) <= 300
            &&& text::utf8_len(content.take(shown + 1)) > 300
        }
}

/// Whether the answer grew by what a choice brings, and the reply goes on unless the choice names
/// a reason for finishing.
pub open spec fn piece_taken(
    before: AnswerView,
    after: AnswerView,
    step: ReplyStep,
    choice: JsonView,
    delta: JsonView,
) -> bool {
    &&& forall|content: Seq<char>| #[trigger]
        vision_laws::has_under(delta, "content"@, JsonView::Text(content)) ==> after.content
            == before.content + content && step.preview is Some && shows_beginning(
            after.content,
            step.preview->0@,
        )
    &&& (forall|content: Seq<char>|
        !#[trigger] vision_laws::has_under(delta, "content"@, JsonView::Text(content)))
        ==> after.content == before.content && step.preview is None
    &&& forall|reasoning: Seq<char>| #[trigger]
        vision_laws::has_under(delta, "reasoning_content"@, JsonView::Text(reasoning))
            ==> after.thinking == before.thinking + reasoning
    &&& (forall|reasoning: Seq<char>|
        !#[trigger] vision_laws::has_under(delta, "reasoning_content"@, JsonView::Text(reasoning)))
        ==> after.thinking == before.thinking
    &&& step.next is Finished || step.next is Continue
    &&& step.next is Finished <==> exists|reason: Seq<char>| #[trigger]
        vision_laws::has_under(choice, "finish_reason"@, JsonView::Text(reason))
}

/// Whether an event was taken into a reply: an error that it reports ends the reply, else the
/// answer grows by what its first choice brings, and one that brings nothing is passed over.
pub open spec fn event_taken(
    before: AnswerView,
    after: AnswerView,
    step: ReplyStep,
    event: JsonView,
) -> bool {
    &&& forall|message: Seq<char>| #[trigger]
        vision_laws::reports(event, message) ==> after == before && step.preview is None && (
        step.next matches ReplyNext::Failed(error) && error@ == "Vision API stream error: "@
            + message)
    &&& (forall|message: Seq<char>| !#[trigger] vision_laws::reports(event, message)) ==> {
        &&& forall|choice: JsonView, delta: JsonView| #[trigger]
            vision_laws::brings(event, choice, delta) ==> piece_taken(
                before,
                after,
                step,
                choice,
                delta,
            )
        &&& (forall|choice: JsonView, delta: JsonView|
            !#[trigger] vision_laws::brings(event, choice, delta)) ==> after == before
            && step.preview is None && step.next is Continue
    }
}

proof fn lemma_event_taken(
    before: AnswerView,
    after: AnswerView,
    step: ReplyStep,
    event: JsonView,
)
    requires
        step.describes(after) == vision::event_step(before, event),
    ensures
        event_taken(before, after, step, event),
{
    let view = step.describes(after);
    assert(view.answer == after && view.next == step.next@);
    assert(view.preview is Some <==> step.preview is Some);
    assert forall|message: Seq<char>| #[trigger]
        vision_laws::reports(event, message) implies after == before && step.preview is None && (
    step.next matches ReplyNext::Failed(error) && error@ == "Vision API stream error: "@
        + message) by {
        vision_laws::law_reported_error_fails(before, event, message);
    }
    if forall|message: Seq<char>| !#[trigger] vision_laws::reports(event, message) {
        assert forall|choice: JsonView, delta: JsonView| #[trigger]
            vision_laws::brings(event, choice, delta) implies piece_taken(
            before,
            after,
            step,
            choice,
            delta,
        ) by {
            vision_laws::law_event_adds_its_piece(before, event, choice, delta);
            vision_laws::law_event_preview(before, event);
            vision_laws::law_preview_shows_the_beginning(after.content);
        }
        if forall|choice: JsonView, delta: JsonView|
            !#[trigger] vision_laws::brings(event, choice, delta) {
            vision_laws::law_other_events_are_passed_over(before, event);
        }
    }
}

/// An event is taken into the reply.
pub proof fn law_reply_event(reply: &mut VisionReply, event: &Json, step: ReplyStep)
    requires
        call_ensures(VisionReply::on_event, (reply, event), step),
    ensures
        event_taken(old(reply)@, final(reply)@, step, event@),
        final(reply)@.content == final(reply).content_text@,
{
    lemma_event_taken(old(reply)@, final(reply)@, step, event@);
}

/// A line is passed over unless it has data; the data is what stands behind `data:`, without the
/// white space around it, and is taken as an event where it is a JSON document. The reply is
/// complete where no more lines can be read, or where the data is `[DONE]`.
pub proof fn law_reply_line(
    reply: &mut VisionReply,
    line: Option<&str>,
    step: ReplyStep,
    rest: Seq<char>,
    data: Seq<char>,
)
    requires
        call_ensures(VisionReply::on_line, (reply, line), step),
        data == text::trimmed(rest),
    ensures
        ({
            let untouched = final(reply)@ == old(reply)@ && step.preview is None;
            &&& line is None ==> untouched && step.next is Finished
            &&& line is Some && !text::has_prefix(line->0@, "data:"@) ==> untouched
                && step.next is Continue
            &&& line is Some && line->0@ == "data:"@ + rest ==> {
                &&& data == "[DONE]"@ ==> untouched && step.next is Finished
                &&& data != "[DONE]"@ ==> match json::json_document(data) {
                    Some(event) => event_taken(old(reply)@, final(reply)@, step, event),
                    None => untouched && step.next is Continue,
                }
            }
        }),
{
    let before = old(reply)@;
    let view = step.describes(final(reply)@);
    assert(view.answer == final(reply)@ && view.next == step.next@);
    assert(view.preview is Some <==> step.preview is Some);
    match line {
        Some(line) => {
            vision_laws::law_lines(before, line@, rest);
            if line@ == "data:"@ + rest && data != "[DONE]"@ {
                if let Some(event) = json::json_document(data) {
                    lemma_event_taken(before, final(reply)@, step, event);
                }
            }
        },
        None => {
            vision_laws::law_lines(before, rest, rest);
        },
    }
}

/// A run goes on with the input and the configuration, where it has both; else it ends with the
/// first that is missing.
pub proof fn law_begun_run(
    input: Result<VisionToolInput, String>,
    config: Result<VisionConfig, VisionToolOutput>,
    request: Result<VisionRequest, VisionToolOutput>,
)
    requires
        call_ensures(vision::begin_run, (input, config), request),
    ensures
        request is Ok <==> input is Ok && config is Ok,
        request matches Ok(request) ==> request.input == input->Ok_0 && request.config
            == config->Ok_0,
        input is Ok && config is Err ==> request->Err_0 == config->Err_0,
        input matches Err(error) ==> (request->Err_0 matches VisionToolOutput::Error { error: told }
            && told@ == "Failed to receive tool input: "@ + error@),
{
    if input is Err {
        assert(request->Err_0@ is Error);
    }
}

/// An image is sent under its own address or data, or as the data of its file; a file that is not
/// there, or cannot be read, ends the run.
pub proof fn law_loaded_image(
    image_source: &str,
    file: &ImageFile,
    url: Result<String, VisionToolOutput>,
)
    requires
        call_ensures(vision::load_image, (image_source, file), url),
    ensures
        image::sent_as_is(image_source@) ==> url is Ok && url->Ok_0@ == image_source@,
        !image::sent_as_is(image_source@) ==> match file {
            ImageFile::Bytes(bytes) => url is Ok && {
                &&& exists|mime: Seq<char>| url->Ok_0@ == #[trigger] image::data_uri(mime, bytes@)
                &&& image::ends_in_extension(image_source@) || image::ends_without_dot(
                    image_source@,
                ) ==> url->Ok_0@ == "data:"@ + image::image_mime_type(
                    image::name_extension(image::last_part(image_source@)),
                ) + ";base64,"@ + image::base64_text(bytes@)
            },
            ImageFile::Missing => url matches Err(VisionToolOutput::Error { error }) && error@
                == "Failed to load image: Image file not found: "@ + image_source@,
            ImageFile::Unreadable => url matches Err(VisionToolOutput::Error { error }) && error@
                == "Failed to load image: Failed to read image file"@,
        },
{
    reveal_strlit("Failed to load image: ");
    reveal_strlit("Image file not found: ");
    reveal_strlit("Failed to read image file");
    reveal_strlit("Failed to load image: Image file not found: ");
    reveal_strlit("Failed to load image: Failed to read image file");
    assert("Failed to load image: "@ + "Image file not found: "@
        =~= "Failed to load image: Image file not found: "@);
    assert("Failed to load image: "@ + "Failed to read image file"@
        =~= "Failed to load image: Failed to read image file"@);
    if !image::sent_as_is(image_source@) {
        if url is Err {
            assert(url->Err_0@ is Error);
            assert("Failed to load image: "@ + ("Image file not found: "@ + image_source@)
                =~= "Failed to load image: "@ + "Image file not found: "@ + image_source@);
        }
        if let ImageFile::Bytes(bytes) = file {
            let extension = choose|extension: Option<Seq<char>>| #[trigger]
                image::possible_extension(image_source@, extension) && url->Ok_0@
                    == image::data_uri(image::image_mime_type(extension), bytes@);
            assert(url->Ok_0@ == image::data_uri(image::image_mime_type(extension), bytes@));
        }
    }
}

/// A run hands back the answer that came, and an error in every other case.
pub proof fn law_ended_run(end: VisionEnd, outcome: Result<VisionToolOutput, VisionToolOutput>)
    requires
        call_ensures(vision::end_run, (end,), outcome),
    ensures
        match end {
            VisionEnd::Answered(Ok(answer)) => outcome matches Ok(VisionToolOutput::Success {
                description,
            }) && description@ == answer@,
            VisionEnd::Answered(Err(reason)) => outcome matches Err(VisionToolOutput::Error {
                error,
            }) && error@ == "Vision analysis failed: "@ + reason@,
            VisionEnd::Cancelled => outcome matches Err(VisionToolOutput::Error { error })
                && error@ == "Vision analysis cancelled by user"@,
        },
{
    if let Ok(output) = outcome {
        assert(output@ is Success);
    }
    if let Err(output) = outcome {
        assert(output@ is Error);
    }
}

/// A scan starts with nothing gathered, and with every file with rules at the paths of the
/// worktrees to read, each once.
pub proof fn law_started_scan(worktrees: &[RulesWorktree], scan: RulesScan)
    requires
        call_ensures(rules::scan_rules_directories, (worktrees,), scan),
    ensures
        scan.well_formed(),
        scan@.gathered.len() == 0,
        ({
            let found = rules::candidate_files(worktrees@);
            scan@.pending == rules_laws::found_once(found, found.len() as int)
        }),
{
    rules_laws::law_first_path_counts(rules::candidate_files(worktrees@));
}

/// The file that is read next is the first that is pending; its text is gathered, unless it
/// cannot be read, is blank, or would exceed the limit, which ends the scan.
pub proof fn law_read_file(
    scan: &mut RulesScan,
    contents: Option<&str>,
    next: Option<&RuleFile>,
    before: &RulesScan,
)
    requires
        old(scan)@.pending.len() > 0,
        *before == *old(scan),
        call_ensures(RulesScan::next_file, (before,), next),
        call_ensures(RulesScan::on_file, (scan, contents), ()),
    ensures
        next is Some && next->0@ == old(scan)@.pending[0],
        contents is None || text::blank(contents->0@) ==> final(scan)@.gathered
            == old(scan)@.gathered && final(scan)@.pending == old(scan)@.pending.drop_first(),
        contents is Some && !text::blank(contents->0@) ==> exists|bare: Seq<char>| #[trigger]
            rules_laws::bare_text(contents->0@, bare) && if rules_laws::gathered_bytes(
                old(scan)@.gathered,
            ) + text::utf8_len(bare) <= 200_000 {
                &&& final(scan)@.gathered.len() == old(scan)@.gathered.len() + 1
                &&& final(scan)@.gathered.drop_last() == old(scan)@.gathered
                &&& final(scan)@.gathered.last().file == next->0@
                &&& final(scan)@.gathered.last().text == bare
                &&& final(scan)@.pending == old(scan)@.pending.drop_first()
            } else {
                final(scan)@.gathered == old(scan)@.gathered && final(scan)@.pending.len() == 0
            },
{
    let read = match contents {
        Some(contents) => Some(contents@),
        None => None,
    };
    rules_laws::law_scan_step(old(scan)@, read);
    if contents is Some && !text::blank(contents->0@) {
        let bare = choose|bare: Seq<char>| #[trigger]
            rules_laws::bare_text(contents->0@, bare) && bare.len() > 0
                && if rules_laws::gathered_bytes(old(scan)@.gathered) + text::utf8_len(bare)
                <= 200_000 {
                &&& final(scan)@.gathered == old(scan)@.gathered.push(
                    rules::GatheredView { file: old(scan)@.pending[0], text: bare },
                )
                &&& final(scan)@.pending == old(scan)@.pending.drop_first()
            } else {
                final(scan)@.gathered == old(scan)@.gathered && final(scan)@.pending.len() == 0
            };
        assert(rules_laws::bare_text(contents->0@, bare));
        if final(scan)@.gathered.len() > old(scan)@.gathered.len() {
            assert(final(scan)@.gathered.drop_last() =~= old(scan)@.gathered);
        }
    }
}

/// What a scan hands back holds all that was gathered, by configured path and worktree, and in the
/// order of these. A scan is over where nothing is pending.
pub proof fn law_finished_scan(
    scan: RulesScan,
    groups: Vec<RulesDirContext>,
    next: Option<&RuleFile>,
)
    requires
        call_ensures(RulesScan::finish, (scan,), groups),
        call_ensures(RulesScan::next_file, (&scan,), next),
    ensures
        next is None <==> scan@.pending.len() == 0,
        ({
            let views = rules::group_views(groups@);
            &&& forall|i: int|
                0 <= i < views.len() ==> (#[trigger] views[i]).files.len() > 0 && views[i].files
                    == rules_laws::gathered_for(
                    scan@.gathered,
                    views[i].directory_path,
                    views[i].worktree_root_name,
                )
            &&& forall|i: int|
                0 <= i < scan@.gathered.len() ==> rules_laws::in_some_group(
                    views,
                    (#[trigger] scan@.gathered[i]).file,
                )
            &&& forall|i: int, j: int|
                0 <= i < j < views.len() ==> rules_laws::comes_before(
                    (#[trigger] views[i]).directory_path,
                    (#[trigger] views[j]).directory_path,
                ) || views[i].directory_path == views[j].directory_path
                    && rules_laws::comes_before(
                    views[i].worktree_root_name,
                    views[j].worktree_root_name,
                )
        }),
{
    rules_laws::law_groups(rules::group_views(groups@), scan@.gathered);
}

/// What saving a form takes: the key in the form is written under the address in the form, and
/// under no other, exactly where there is one; the provider is put in the settings under the name
/// in the form, with that address; and the credentials of an address that is left are deleted.
pub proof fn law_saved_form(
    input: &AddLlmProviderInput,
    mode: &Mode,
    registry: &[RegisteredProvider],
    providers: &ProviderTable,
    result: Result<SavePlan, ProviderError>,
)
    requires
        call_ensures(
            provider::save_provider_to_settings,
            (input, mode, registry, providers),
            result,
        ),
    ensures
        result matches Ok(plan) ==> {
            let key = input.api_key.text@;
            &&& plan.write_credentials is Some <==> key.len() > 0
            &&& plan.write_credentials matches Some(credentials) ==> credentials.password@ == key
                && credentials.url@ == input.api_url.text@
            &&& plan.update.provider_name@ == input.provider_name.text@
            &&& plan.update.content.api_url@ == input.api_url.text@
            &&& plan.update.content.available_models@.len() == input.models@.len()
            &&& forall|i: int|
                0 <= i < input.models@.len() ==> provider_laws::as_entered(
                    (#[trigger] plan.update.content.available_models@[i])@,
                    input.models@[i]@,
                )
            &&& mode matches Mode::Edit { provider_id } ==> {
                &&& plan.update.renamed_from is Some <==> provider_id@
                    != input.provider_name.text@
                &&& plan.update.renamed_from matches Some(old_name) ==> old_name@ == provider_id@
                &&& plan.delete_credentials is Some <==> providers@.contains_key(provider_id@)
                    && providers@[provider_id@].api_url@ != input.api_url.text@
                &&& plan.delete_credentials matches Some(url) ==> url@
                    == providers@[provider_id@].api_url@
            }
            &&& mode is Add ==> plan.update.renamed_from is None && plan.delete_credentials is None
        },
{
    if let Ok(plan) = result {
        let view = plan@;
        provider_laws::law_plan_saves_the_form(input@, mode.edited(), registry@, providers@);
        provider_laws::law_plan_moves_the_provider(input@, mode.edited(), registry@, providers@);
        assert(view.update.content == plan.update.content@);
        assert(view.update.content.available_models == settings::model_views(
            plan.update.content.available_models@,
        ));
        assert(input@.models.len() == input.models@.len());
        let models = plan.update.content.available_models@;
        assert forall|i: int| 0 <= i < input.models@.len() implies provider_laws::as_entered(
            (#[trigger] models[i])@,
            input.models@[i]@,
        ) by {
            assert(view.update.content.available_models[i] == models[i]@);
            assert(input@.models[i] == input.models@[i]@);
        }
    }
}

/// Whether a model in the form is wrong: it is wrong by itself, or has the name of one before it.
pub open spec fn wrong_at(inputs: Seq<ModelInputView>, index: int, error: ProviderError) -> bool {
    match provider::parsed_model(inputs[index]) {
        Err(fault) => error == fault,
        Ok(model) => error == ProviderError::ModelNamesNotUnique && exists|earlier: int|
            0 <= earlier < index && (#[trigger] inputs[earlier]).name.text == model.name,
    }
}

/// A form is refused for the first thing that is wrong with it, and for nothing else.
pub proof fn law_refused_form(
    input: &AddLlmProviderInput,
    mode: &Mode,
    registry: &[RegisteredProvider],
    providers: &ProviderTable,
    result: Result<SavePlan, ProviderError>,
)
    requires
        call_ensures(
            provider::save_provider_to_settings,
            (input, mode, registry, providers),
            result,
        ),
    ensures
        ({
            let name = input.provider_name.text@;
            let taken = exists|i: int|
                0 <= i < registry@.len() && provider_laws::goes_by(#[trigger] registry@[i], name);
            let own = mode matches Mode::Edit { provider_id } && provider_id@ == name;
            let named = name.len() > 0;
            let addressed = input.api_url.text@.len() > 0;
            let keyed = input.api_key.text@.len() > 0 || !(mode is Add);
            match result {
                Ok(_) => named && addressed && keyed && (taken ==> own),
                Err(ProviderError::ProviderNameEmpty) => !named,
                Err(ProviderError::ApiUrlEmpty) => named && !addressed,
                Err(ProviderError::ApiKeyEmpty) => named && addressed && !keyed,
                Err(ProviderError::ProviderNameTaken) => named && addressed && keyed && taken
                    && !own,
                Err(error) => named && addressed && keyed && exists|i: int|
                    0 <= i < input.models@.len() && #[trigger] wrong_at(input@.models, i, error),
            }
        }),
{
    provider_laws::law_form_is_refused_for_its_first_fault(
        input@,
        mode.edited(),
        registry@,
        providers@,
    );
    provider_laws::law_model_faults(input@.models);
    assert(input@.models.len() == input.models@.len());
    if let Err(error) = provider::parsed_models(input@.models) {
        let inputs = input@.models;
        let i = choose|i: int|
            {
                &&& 0 <= i < inputs.len()
                &&& provider::parsed_models(#[trigger] inputs.take(i)) is Ok
                &&& match provider::parsed_model(inputs[i]) {
                    Err(fault) => error == fault,
                    Ok(model) => error == ProviderError::ModelNamesNotUnique && exists|j: int|
                        0 <= j < i && (#[trigger] inputs[j]).name.text == model.name,
                }
            };
        assert(wrong_at(inputs, i, error));
    }
}

/// Adding a provider writes its key and puts it in the settings, unless its name is taken.
pub proof fn law_added_provider(
    provider_name: String,
    api_url: String,
    api_key: String,
    models: Vec<AvailableModel>,
    registry: &[RegisteredProvider],
    result: Result<SavePlan, ProviderError>,
)
    requires
        call_ensures(
            provider::save_new_provider,
            (provider_name, api_url, api_key, models, registry),
            result,
        ),
    ensures
        result is Ok <==> !exists|i: int|
            0 <= i < registry@.len() && provider_laws::goes_by(
                #[trigger] registry@[i],
                provider_name@,
            ),
        result matches Ok(plan) ==> {
            &&& plan.write_credentials matches Some(credentials) && credentials.url@ == api_url@
                && credentials.password@ == api_key@
            &&& plan.delete_credentials is None
            &&& plan.update.renamed_from is None
            &&& plan.update.provider_name@ == provider_name@
            &&& plan.update.content.api_url@ == api_url@
            &&& settings::model_views(plan.update.content.available_models@)
                == settings::model_views(models@)
        },
        result matches Err(error) ==> error == ProviderError::ProviderNameTaken,
{
    lemma_taken(registry@, provider_name@);
    provider_laws::law_update_writes_every_key(
        Seq::empty(),
        provider_name@,
        api_url@,
        api_key@,
        settings::model_views(models@),
        None,
    );
    if let Ok(plan) = result {
        assert(plan@.update.content == plan.update.content@);
        assert(plan@.write_credentials is Some);
    }
}

proof fn lemma_taken(registry: Seq<RegisteredProvider>, name: Seq<char>)
    ensures
        provider::name_taken(registry, name) <==> exists|i: int|
            0 <= i < registry.len() && provider_laws::goes_by(#[trigger] registry[i], name),
{
    if provider::name_taken(registry, name) {
        let i = choose|i: int|
            0 <= i < registry.len() && ((#[trigger] registry[i]).id@ == name || registry[i].name@
                == name);
        assert(provider_laws::goes_by(registry[i], name));
    }
    if exists|i: int| 0 <= i < registry.len() && provider_laws::goes_by(#[trigger] registry[i], name)
    {
        let i = choose|i: int|
            0 <= i < registry.len() && provider_laws::goes_by(#[trigger] registry[i], name);
        assert(registry[i].id@ == name || registry[i].name@ == name);
    }
}

/// Changing a provider writes its key where one is given, moves it where its name or its address
/// changes, and is refused only where another provider has the new name.
pub proof fn law_changed_provider(
    provider_id: &str,
    provider_name: String,
    api_url: String,
    api_key: String,
    models: Vec<AvailableModel>,
    registry: &[RegisteredProvider],
    providers: &ProviderTable,
    result: Result<SavePlan, ProviderError>,
)
    requires
        call_ensures(
            provider::update_existing_provider,
            (provider_id, provider_name, api_url, api_key, models, registry, providers),
            result,
        ),
    ensures
        result is Err <==> provider_name@ != provider_id@ && exists|i: int|
            0 <= i < registry@.len() && provider_laws::goes_by(
                #[trigger] registry@[i],
                provider_name@,
            ),
        result matches Err(error) ==> error == ProviderError::ProviderNameTaken,
        result matches Ok(plan) ==> {
            &&& plan.write_credentials is Some <==> api_key@.len() > 0
            &&& plan.write_credentials matches Some(credentials) ==> credentials.url@ == api_url@
                && credentials.password@ == api_key@
            &&& plan.delete_credentials is Some <==> providers@.contains_key(provider_id@)
                && providers@[provider_id@].api_url@ != api_url@
            &&& plan.delete_credentials matches Some(url) ==> url@
                == providers@[provider_id@].api_url@
            &&& plan.update.renamed_from is Some <==> provider_name@ != provider_id@
            &&& plan.update.renamed_from matches Some(old_name) ==> old_name@ == provider_id@
            &&& plan.update.provider_name@ == provider_name@
            &&& plan.update.content.api_url@ == api_url@
            &&& settings::model_views(plan.update.content.available_models@)
                == settings::model_views(models@)
        },
{
    lemma_taken(registry@, provider_name@);
    if let Ok(plan) = result {
        assert(plan@.update.content == plan.update.content@);
        assert(plan@.write_credentials is Some <==> plan.write_credentials is Some);
        assert(plan@.delete_credentials is Some <==> plan.delete_credentials is Some);
        assert(plan@.update.renamed_from is Some <==> plan.update.renamed_from is Some);
    }
}

/// The settings change once the key was written, or none was to be, and then as planned; a key
/// that could not be written leaves them as they are.
pub proof fn law_settings_wait_for_the_key(
    plan: SavePlan,
    written: bool,
    result: Result<ProviderUpdate, ProviderError>,
)
    requires
        call_ensures(SavePlan::after_credentials, (plan, written), result),
    ensures
        result is Err <==> plan.write_credentials is Some && !written,
        result matches Ok(update) ==> update == plan.update,
        result matches Err(error) ==> error == ProviderError::ApiKeyNotWritten,
{
}

/// An update configures the provider under its name, takes it out under its old one, which is to
/// be unregistered, and leaves every other provider and all other settings alone.
pub proof fn law_applied_update(
    update: ProviderUpdate,
    settings: &mut SettingsContent,
    unregistered: Option<String>,
    other: Seq<char>,
)
    requires
        call_ensures(ProviderUpdate::apply, (update, settings), unregistered),
    ensures
        ({
            let before = settings::providers_of(*old(settings));
            let after = settings::providers_of(*final(settings));
            let name = update.provider_name@;
            let left = update.renamed_from matches Some(old_name) && old_name@ == other;
            &&& after.contains_key(name) && after[name] == update.content
            &&& other != name && left ==> !after.contains_key(other)
            &&& other != name && !left ==> (after.contains_key(other) <==> before.contains_key(
                other,
            ))
            &&& other != name && after.contains_key(other) ==> after[other] == before[other]
            &&& final(settings).agent == old(settings).agent
            &&& unregistered == update.renamed_from
        }),
{
}

/// A provider that could not be saved keeps its dialog open with the error, and what was entered
/// in it.
pub proof fn law_saved_provider(
    modal: &mut AddLlmProviderModal,
    outcome: Result<(), ProviderError>,
    closes: bool,
)
    requires
        call_ensures(AddLlmProviderModal::saved, (modal, outcome), closes),
    ensures
        closes <==> outcome is Ok,
        outcome matches Err(error) ==> final(modal).last_error == Some(error),
        outcome is Ok ==> final(modal).last_error == old(modal).last_error,
        final(modal).input == old(modal).input,
        final(modal).provider == old(modal).provider,
        final(modal).mode == old(modal).mode,
{
}

/// Setting a check box of a model changes that box of that model, and nothing else in the form.
pub proof fn law_set_capability(
    modal: &mut AddLlmProviderModal,
    index: usize,
    capability: Capability,
    state: ToggleState,
    model: int,
    other: Capability,
)
    requires
        index < old(modal).input.models@.len(),
        0 <= model < old(modal).input.models@.len(),
        call_ensures(AddLlmProviderModal::set_capability, (modal, index, capability, state), ()),
    ensures
        ({
            let before = old(modal).input@;
            let after = final(modal).input@;
            &&& after.models.len() == before.models.len()
            &&& after.provider_name == before.provider_name
            &&& after.api_url == before.api_url
            &&& after.api_key == before.api_key
            &&& after.models[model].name == before.models[model].name
            &&& after.models[model].max_completion_tokens
                == before.models[model].max_completion_tokens
            &&& after.models[model].max_output_tokens == before.models[model].max_output_tokens
            &&& after.models[model].max_tokens == before.models[model].max_tokens
            &&& final(modal).mode == old(modal).mode
            &&& final(modal).provider == old(modal).provider
            &&& final(modal).last_error == old(modal).last_error
            &&& provider_modal::capability_state(after.models[model].capabilities, other)
                == if model == index && other == capability {
                state
            } else {
                provider_modal::capability_state(before.models[model].capabilities, other)
            }
        }),
{
    let before = old(modal).input@;
    assert(before.models.len() == old(modal).input.models@.len());
    provider_laws::law_capabilities_are_independent(
        before.models[index as int].capabilities,
        capability,
        state,
        other,
    );
}

/// The boundary is set to the position, or to the end where that lies beyond it.
pub proof fn law_boundary_is_set(
    modal: &mut CompactMessagesModal,
    position: usize,
    changed: bool,
)
    requires
        old(modal).well_formed(),
        call_ensures(CompactMessagesModal::set_boundary, (modal, position), changed),
    ensures
        final(modal).boundary == if position <= old(modal).summaries@.len() {
            position as int
        } else {
            old(modal).summaries@.len() as int
        },
        changed <==> final(modal).boundary != old(modal).boundary,
        final(modal).summaries == old(modal).summaries,
        final(modal).max_boundary == old(modal).max_boundary,
        final(modal).phase@ == old(modal).phase@,
        final(modal)@.last_error == old(modal)@.last_error,
        final(modal)@.summary_input == old(modal)@.summary_input,
{
    assert(final(modal)@.boundary == final(modal).boundary);
    assert(final(modal)@.phase == final(modal).phase@);
}

/// A summary is written for as many messages as are selected, and an error is shown where none
/// are.
pub proof fn law_summary_is_generated(
    modal: &mut CompactMessagesModal,
    boundary: Option<usize>,
)
    requires
        call_ensures(CompactMessagesModal::generate_summary, (modal,), boundary),
    ensures
        old(modal).boundary > 0 ==> boundary == Some(old(modal).boundary) && *final(modal)
            == *old(modal),
        old(modal).boundary == 0 ==> boundary is None && final(modal).last_error is Some
            && final(modal).last_error->0@ == "No messages selected to compact"@,
        final(modal).boundary == old(modal).boundary,
        final(modal).summaries == old(modal).summaries,
        final(modal).phase@ == old(modal).phase@,
        final(modal)@.summary_input == old(modal)@.summary_input,
{
    assert(final(modal)@.boundary == final(modal).boundary);
    assert(final(modal)@.last_error is Some <==> final(modal).last_error is Some);
}

/// A plan is carried out; where there is none, the reason is shown and the selection goes on.
pub proof fn law_prepared_summary(
    modal: &mut CompactMessagesModal,
    preparation: Result<Option<CompactionPlan>, String>,
    plan: Option<CompactionPlan>,
)
    requires
        call_ensures(CompactMessagesModal::prepared, (modal, preparation), plan),
    ensures
        preparation matches Ok(Some(made)) ==> plan == Some(made) && final(modal).phase is Generating
            && final(modal).last_error is None,
        !(preparation is Ok && preparation->Ok_0 is Some) ==> plan is None && final(modal).phase@
            == old(modal).phase@ && final(modal).last_error is Some,
        preparation matches Ok(None) ==> final(modal).last_error->0@
            == "No summarization model configured. Please configure a model first."@,
        preparation matches Err(error) ==> final(modal).last_error->0@
            == "Failed to prepare compaction: "@ + error@,
        final(modal).boundary == old(modal).boundary,
        final(modal).summaries == old(modal).summaries,
        final(modal)@.summary_input == old(modal)@.summary_input,
{
    assert(final(modal)@.boundary == final(modal).boundary);
    assert(final(modal)@.last_error is Some <==> final(modal).last_error is Some);
    assert(final(modal)@.phase is Generating <==> final(modal).phase is Generating);
    assert(final(modal)@.phase == final(modal).phase@);
}

/// The messages are replaced by the summary that is shown: the text in the field while it is
/// edited, the summary otherwise, and by nothing where that is empty or there is no summary.
pub proof fn law_replaced_messages(
    modal: &CompactMessagesModal,
    replaced: Option<(usize, String)>,
)
    requires
        call_ensures(CompactMessagesModal::replace_messages, (modal,), replaced),
    ensures
        replaced matches Some((boundary, text)) ==> boundary == modal.boundary && text@.len() > 0
            && modal.phase is Reviewing && if modal.phase->is_editing {
            modal.summary_input is Some && text@ == modal.summary_input->0.text@
        } else {
            text@ == modal.phase->summary_text@
        },
        modal.phase matches CompactPhase::Reviewing { summary_text, is_editing } ==> {
            &&& !is_editing && summary_text@.len() > 0 ==> replaced is Some
            &&& is_editing && modal.summary_input is Some && modal.summary_input->0.text@.len() > 0
                ==> replaced is Some
        },
{
    assert(modal@.phase == modal.phase@);
    if let Some(input) = modal.summary_input {
        assert(modal@.summary_input == Some(input@));
        assert(input@.text == input.text@);
    }
}

/// What a dialog for the compaction settings saves is what its fields say, each for itself, with a
/// default for what is no number; nothing but the thresholds changes in the settings.
pub proof fn law_saved_settings(
    modal: &CompactionSettingsModal,
    settings: &mut SettingsContent,
    config: CompactionConfig,
)
    requires
        call_ensures(CompactionSettingsModal::save_config, (modal, settings), config),
    ensures
        dialog_laws::entered(
            modal.deep_omit_threshold_tokens.text@,
            u64::MAX as nat,
            80_000,
            config.deep_omit_threshold_tokens as nat,
        ),
        dialog_laws::entered(
            modal.summary_threshold_tokens.text@,
            u64::MAX as nat,
            80_000,
            config.summary_threshold_tokens as nat,
        ),
        dialog_laws::entered(
            modal.min_content_chars.text@,
            usize::MAX as nat,
            60_000,
            config.min_content_chars as nat,
        ),
        zones::configured(settings::agent_of(*final(settings)).compaction) == config,
        settings::compaction_of(*final(settings)).enabled == settings::compaction_of(
            *old(settings),
        ).enabled,
        settings::agent_of(*final(settings)).thread_summary_model == settings::agent_of(
            *old(settings),
        ).thread_summary_model,
        settings::agent_of(*final(settings)).subagent_models == settings::agent_of(
            *old(settings),
        ).subagent_models,
        final(settings).language_models == old(settings).language_models,
{
    dialog_laws::law_thresholds_are_read_field_by_field(modal@);
    dialog_laws::law_saving_thresholds_changes_them_alone(*old(settings), config);
}

/// The switch for automatic compaction is turned over, in the dialog and in the settings, and
/// nothing else is changed.
pub proof fn law_toggled_switch(
    modal: &mut CompactionSettingsModal,
    settings: &mut SettingsContent,
    enabled: bool,
)
    requires
        call_ensures(CompactionSettingsModal::toggle_auto_compact, (modal, settings), enabled),
    ensures
        enabled == !old(modal).auto_compact_enabled,
        final(modal).auto_compact_enabled == enabled,
        final(modal)@.deep_omit_threshold_tokens == old(modal)@.deep_omit_threshold_tokens,
        final(modal)@.summary_threshold_tokens == old(modal)@.summary_threshold_tokens,
        final(modal)@.min_content_chars == old(modal)@.min_content_chars,
        settings::compaction_of(*final(settings)).enabled == Some(enabled),
        zones::configured(settings::agent_of(*final(settings)).compaction) == zones::configured(
            settings::agent_of(*old(settings)).compaction,
        ),
        settings::agent_of(*final(settings)).thread_summary_model == settings::agent_of(
            *old(settings),
        ).thread_summary_model,
        settings::agent_of(*final(settings)).subagent_models == settings::agent_of(
            *old(settings),
        ).subagent_models,
        final(settings).language_models == old(settings).language_models,
{
    assert(final(modal)@.auto_compact_enabled == final(modal).auto_compact_enabled);
}

/// A reset gives the defaults to the conversation, to the fields and to the settings.
pub proof fn law_reset_settings(
    modal: &mut CompactionSettingsModal,
    settings: &mut SettingsContent,
    config: CompactionConfig,
)
    requires
        call_ensures(CompactionSettingsModal::reset_defaults, (modal, settings), config),
    ensures
        config.deep_omit_threshold_tokens == 80_000,
        config.summary_threshold_tokens == 80_000,
        config.min_content_chars == 60_000,
        text::natural(final(modal).deep_omit_threshold_tokens.text@) == Some(80_000nat),
        text::natural(final(modal).summary_threshold_tokens.text@) == Some(80_000nat),
        text::natural(final(modal).min_content_chars.text@) == Some(60_000nat),
        final(modal).auto_compact_enabled == old(modal).auto_compact_enabled,
        final(settings).agent is Some ==> final(settings).agent->0.compaction is None,
        final(settings).agent is Some <==> old(settings).agent is Some,
        final(settings).agent is Some ==> final(settings).agent->0.thread_summary_model
            == old(settings).agent->0.thread_summary_model,
        final(settings).agent is Some ==> final(settings).agent->0.subagent_models
            == old(settings).agent->0.subagent_models,
        final(settings).language_models == old(settings).language_models,
{
    text::law_natural_of_decimal(80_000);
    text::law_natural_of_decimal(60_000);
    let after = final(modal)@;
    assert(after.auto_compact_enabled == final(modal).auto_compact_enabled);
    assert(after.deep_omit_threshold_tokens.text == final(modal).deep_omit_threshold_tokens.text@);
    assert(after.summary_threshold_tokens.text == final(modal).summary_threshold_tokens.text@);
    assert(after.min_content_chars.text == final(modal).min_content_chars.text@);
}

/// A model that is picked for a purpose is saved for that purpose and no other.
pub proof fn law_saved_selection(
    purpose: ModelPurpose,
    selection: LanguageModelSelection,
    settings: &mut SettingsContent,
    other: ModelPurpose,
)
    requires
        call_ensures(compaction_settings::save_selection, (purpose, selection, settings), ()),
    ensures
        ({
            let before = settings::agent_of(*old(settings));
            let after = settings::agent_of(*final(settings));
            &&& compaction_settings::chosen(other, compaction_settings::agent_models(after))
                == if other == purpose {
                Some(selection)
            } else {
                compaction_settings::chosen(other, compaction_settings::agent_models(before))
            }
            &&& purpose is Summary ==> after.thread_summary_model == Some(selection)
            &&& purpose is Fast ==> after.subagent_models->0.fast == Some(selection)
            &&& purpose is Standard ==> after.subagent_models->0.standard == Some(selection)
            &&& purpose is Powerful ==> after.subagent_models->0.powerful == Some(selection)
            &&& after.compaction == before.compaction
            &&& final(settings).language_models == old(settings).language_models
        }),
{
    compaction_settings::law_purposes_are_independent(
        settings::agent_of(*old(settings)),
        purpose,
        selection,
        other,
    );
}

/// A picker shows the model that is chosen for its purpose, as far as that is resolved, and none
/// where none is chosen.
pub proof fn law_picked_model<'a>(
    purpose: ModelPurpose,
    models: &AgentModels,
    registry: &'a [ProviderModels],
    picked: Option<ConfiguredModel<'a>>,
    selection: &LanguageModelSelection,
    resolved: Option<ConfiguredModel<'a>>,
)
    requires
        call_ensures(compaction_settings::picked_model, (purpose, models, registry), picked),
        call_ensures(
            compaction_settings::resolve_configured_model,
            (selection, registry),
            resolved,
        ),
    ensures
        ({
            let chosen = if purpose is Summary {
                models.thread_summary_model
            } else if purpose is Fast {
                models.subagent_models.fast
            } else if purpose is Standard {
                models.subagent_models.standard
            } else {
                models.subagent_models.powerful
            };
            &&& chosen is None ==> picked is None
            &&& chosen == Some(*selection) ==> {
                &&& picked is Some <==> resolved is Some
                &&& picked matches Some(picked) ==> *picked.provider == *resolved->0.provider
                    && *picked.model == *resolved->0.model
            }
        }),
{
}

/// Switching an entry turns that one over, and has to be saved; there is nothing to save where
/// there is no such entry.
pub proof fn law_toggled_entry(
    modal: &mut RulesDirectorySettingsModal,
    index: usize,
    saves: bool,
)
    requires
        call_ensures(RulesDirectorySettingsModal::toggle_entry, (modal, index), saves),
    ensures
        saves <==> index < old(modal).entries@.len(),
        final(modal).entries@.len() == old(modal).entries@.len(),
        final(modal).worktree_abs_path == old(modal).worktree_abs_path,
        final(modal).worktree_id == old(modal).worktree_id,
        forall|i: int|
            0 <= i < old(modal).entries@.len() ==> (#[trigger] final(modal).entries@[i]).path@
                == old(modal).entries@[i].path@ && final(modal).entries@[i].enabled == if i
                == index {
                if old(modal).entries@[i].enabled == Some(false) {
                    Some(true)
                } else {
                    Some(false)
                }
            } else {
                old(modal).entries@[i].enabled
            },
{
    let before = rules_settings::entry_views(old(modal).entries@);
    let after = rules_settings::entry_views(final(modal).entries@);
    dialog_laws::law_switched_entry(before, index as int);
    assert(after.len() == final(modal).entries@.len());
    assert forall|i: int| 0 <= i < old(modal).entries@.len() implies (
    #[trigger] final(modal).entries@[i]).path@ == old(modal).entries@[i].path@
        && final(modal).entries@[i].enabled == if i == index {
        if old(modal).entries@[i].enabled == Some(false) {
            Some(true)
        } else {
            Some(false)
        }
    } else {
        old(modal).entries@[i].enabled
    } by {
        assert(after[i] == final(modal).entries@[i]@);
        assert(before[i] == old(modal).entries@[i]@);
        assert(after[i].path == before[i].path);
    }
}

/// Removing an entry removes that one; the others keep their order.
pub proof fn law_removed_entry(
    modal: &mut RulesDirectorySettingsModal,
    index: usize,
    saves: bool,
)
    requires
        call_ensures(RulesDirectorySettingsModal::remove_entry, (modal, index), saves),
    ensures
        ({
            let before = rules_settings::entry_views(old(modal).entries@);
            let after = rules_settings::entry_views(final(modal).entries@);
            &&& saves <==> index < before.len()
            &&& !saves ==> after == before
            &&& saves ==> after == before.take(index as int) + before.skip(index + 1)
            &&& final(modal).worktree_abs_path == old(modal).worktree_abs_path
            &&& final(modal).worktree_id == old(modal).worktree_id
        }),
{
    let before = rules_settings::entry_views(old(modal).entries@);
    assert(before.len() == old(modal).entries@.len());
    if index < before.len() {
        rules_settings::law_removing(before, index as int);
    }
}

/// Entries are saved in settings that are an object, and only there: under their key, which is
/// taken out where there are none. What stands under any other key stays.
pub proof fn law_saved_entries(
    entries: &Vec<RulesDirectoryEntry>,
    entries_json: serde_json::Value,
    settings: serde_json::Value,
    edited: (bool, serde_json::Value),
    key: Seq<char>,
)
    requires
        call_ensures(
            rules_settings::save_to_settings_value,
            (entries, entries_json, settings),
            edited,
        ),
        json::well_formed(json::json_value(settings)),
    ensures
        ({
            let before = json::json_value(settings);
            let after = json::json_value(edited.1);
            &&& edited.0 <==> before is Object
            &&& !edited.0 ==> after == before
            &&& edited.0 && entries@.len() == 0 ==> json::member(after, "rules_directories"@) is None
            &&& edited.0 && entries@.len() > 0 ==> json::member(after, "rules_directories"@)
                == Some(json::json_value(entries_json))
            &&& key != "rules_directories"@ ==> json::member(after, key) == json::member(
                before,
                key,
            )
        }),
{
    let before = json::json_value(settings);
    if before is Object {
        rules_settings::law_saved_entries_are_read_back(
            before,
            entries@.len() == 0,
            json::json_value(entries_json),
            key,
        );
    }
}

} // verus!
