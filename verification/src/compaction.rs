//! The second tier of compaction: the older part of a conversation is handed to a model, and its
//! summary takes the place of the messages that it covers.

use crate::message;
use crate::message::{ContentView, LanguageModelRequestMessage, MessageContent, MessageView, Role};
use crate::stripping;
use crate::text;
use crate::thread;
use crate::zones;
use crate::zones::{CompactionConfig, RenderedMessage, RenderedView};
use vstd::prelude::*;
use vstd::string::*;

verus! {

/// Prompt prefix placed before the conversation content when requesting a summary.
pub const COMPACT_PROMPT_PREFIX: &'static str = "## Conversation to summarize

The following is an earlier portion of a conversation between a user and an AI coding assistant.
Tool outputs have been truncated or omitted, and thinking has been removed.

";

/// Prompt suffix placed after the conversation content, reinforcing the summarization instruction
/// so the model does not mistake the last message as a prompt to respond to.
pub const COMPACT_PROMPT_SUFFIX: &'static str = "
---

INSTRUCTION: Summarize the conversation above (excluding any Recent Context section).
Do NOT respond to it as an assistant.

Focus on the **narrative flow** of the conversation — what was discussed, decided, and why.
The summary will be used as context for continuing this conversation, so prioritize information
that remains relevant regardless of how files or errors change later.

Cover these aspects in chronological order:

1. **User's intent and requests** — what the user wanted to accomplish, stated goals,
   constraints, and preferences expressed during the conversation
2. **Discussion and decisions** — key design choices made, alternatives considered and why
   they were accepted or rejected, any agreements or disagreements between user and assistant
3. **Conversation trajectory** — how the topic evolved, what led to what, whether the user
   redirected or refined their requests, and how the scope changed over time
4. **Important context to preserve** — domain-specific terminology, project conventions,
   user-styled naming or coding preferences, references to prior decisions from before this
   conversation that were mentioned

Avoid summarizing transient technical state that will be stale by the time this summary is read:
file contents, error messages, line numbers, variable values, test results. These can be
re-examined from the codebase directly when needed.

Target approximately 5000 tokens. Write in clear prose — not just bullet lists.
";

/// Characters of the model's window that are left for the summary itself.
pub const SUMMARY_RESERVE_CHARS: usize = 12_000;

/// What a request to a model is made for.
#[derive(Debug, Clone, Copy, PartialEq, Eq, Structural)]
pub enum CompletionIntent {
    ThreadContextSummarization,
}

/// A request to a language model.
#[derive(Debug, PartialEq)]
pub struct LanguageModelRequest {
    pub intent: Option<CompletionIntent>,
    pub messages: Vec<LanguageModelRequestMessage>,
}

/// What a [`LanguageModelRequest`] stands for.
pub struct RequestView {
    pub intent: Option<CompletionIntent>,
    pub messages: Seq<MessageView>,
}

impl View for LanguageModelRequest {
    type V = RequestView;

    open spec fn view(&self) -> RequestView {
        RequestView { intent: self.intent, messages: message::message_views(self.messages@) }
    }
}

/// The model that writes a summary, with the size of its window in tokens.
#[derive(Debug, PartialEq)]
pub struct LanguageModel {
    pub id: String,
    pub max_token_count: u64,
}

impl LanguageModel {
    /// Whether the window, converted to characters, fits in a `usize`.
    pub open spec fn fits(self) -> bool {
        self.max_token_count * zones::CHARS_PER_TOKEN <= usize::MAX
    }
}

/// Why no compaction request can be made.
#[derive(Debug, Clone, Copy, PartialEq, Eq, Structural)]
pub enum CompactionError {
    NoContent,
    InvalidRange { start: usize, end: usize },
}

impl CompactionError {
    /// The text that tells a user about this error.
    pub open spec fn text(self) -> Seq<char> {
        match self {
            CompactionError::NoContent => "No content to compact"@,
            CompactionError::InvalidRange { start, end } => "Invalid message range: "@
                + text::decimal(start as nat) + ".."@ + text::decimal(end as nat),
        }
    }

    /// The text that tells a user about this error.
    pub fn message(&self) -> (message: String)
        ensures
            message@ == self.text(),
    {
        match self {
            CompactionError::NoContent => "No content to compact".to_owned(),
            CompactionError::InvalidRange { start, end } => {
                let mut message = "Invalid message range: ".to_owned();
                message.append(text::usize_to_string(*start).as_str());
                message.append("..");
                message.append(text::usize_to_string(*end).as_str());
                message
            },
        }
    }
}

/// Plan describing what should be summarized.
#[derive(Debug, PartialEq)]
pub struct CompactionPlan {
    pub model: LanguageModel,
    pub request: LanguageModelRequest,
    pub boundary_index: usize,
}

/// The number of characters of conversation that fit in the window of a model beside the prompt
/// and the summary.
pub open spec fn max_formatted_chars(max_token_count: nat) -> nat {
    let window = max_token_count * zones::CHARS_PER_TOKEN;
    let reserved = text::utf8_len(COMPACT_PROMPT_PREFIX@) + text::utf8_len(COMPACT_PROMPT_SUFFIX@)
        + SUMMARY_RESERVE_CHARS;
    if window > reserved {
        (window - reserved) as nat
    } else {
        0
    }
}

/// The Markdown of the messages.
pub open spec fn markdowns(messages: Seq<RenderedView>) -> Seq<Seq<char>> {
    messages.map_values(|message: RenderedView| message.markdown)
}

/// `formatted` with entries behind it, up to the first one that would exceed `max` bytes. The
/// first entry with any text is always taken.
pub open spec fn formatted_from(entries: Seq<Seq<char>>, max: nat, formatted: Seq<char>) -> Seq<
    char,
>
    decreases entries.len(),
{
    if entries.len() == 0 {
        formatted
    } else if formatted.len() > 0 && text::utf8_len(formatted) + text::utf8_len(entries[0]) > max {
        formatted
    } else {
        formatted_from(entries.drop_first(), max, formatted + entries[0])
    }
}

/// The part of a conversation that is put before the model.
pub open spec fn formatted_conversation(
    messages: Seq<RenderedView>,
    max_token_count: nat,
) -> Seq<char> {
    formatted_from(markdowns(messages), max_formatted_chars(max_token_count), Seq::empty())
}

/// The request for a summary of the messages, or `None` where they have no Markdown.
pub open spec fn summary_request(messages: Seq<RenderedView>, max_token_count: nat) -> Option<
    RequestView,
> {
    let formatted = formatted_conversation(messages, max_token_count);
    if formatted.len() == 0 {
        None
    } else {
        Some(
            RequestView {
                intent: Some(CompletionIntent::ThreadContextSummarization),
                messages: seq![
                    MessageView {
                        role: Role::User,
                        content: seq![
                            message::ContentView::Text(
                                COMPACT_PROMPT_PREFIX@ + formatted + COMPACT_PROMPT_SUFFIX@,
                            ),
                        ],
                        cache: false,
                        reasoning_details: None,
                    },
                ],
            },
        )
    }
}

/// Builds the request for a summary of the messages, with the length of the conversation in it.
fn build_compaction_request(messages: &[RenderedMessage], model: &LanguageModel) -> (result: Result<
    (usize, LanguageModelRequest),
    CompactionError,
>)
    requires
        model.fits(),
    ensures
        match result {
            Ok((formatted_len, request)) => {
                &&& summary_request(
                    zones::rendered_views(messages@),
                    model.max_token_count as nat,
                ) == Some(request@)
                &&& formatted_len == text::utf8_len(
                    formatted_conversation(
                        zones::rendered_views(messages@),
                        model.max_token_count as nat,
                    ),
                )
            },
            Err(error) => {
                &&& error == CompactionError::NoContent
                &&& summary_request(
                    zones::rendered_views(messages@),
                    model.max_token_count as nat,
                ) is None
            },
        },
{
    let window: usize = (model.max_token_count as usize) * zones::CHARS_PER_TOKEN;
    let prefix_len: usize = text::byte_len(COMPACT_PROMPT_PREFIX);
    let suffix_len: usize = text::byte_len(COMPACT_PROMPT_SUFFIX);
    let max: usize = window.saturating_sub(prefix_len).saturating_sub(suffix_len).saturating_sub(
        SUMMARY_RESERVE_CHARS,
    );
    assert(max == max_formatted_chars(model.max_token_count as nat));
    let ghost entries = markdowns(zones::rendered_views(messages@));
    let ghost whole = formatted_from(entries, max as nat, Seq::empty());
    let mut formatted = String::new();
    let mut i: usize = 0;
    proof {
        assert(entries.skip(0) =~= entries);
    }
    while i < messages.len()
        invariant_except_break
            formatted_from(entries.skip(i as int), max as nat, formatted@) == whole,
        invariant
            i <= messages@.len(),
            entries == markdowns(zones::rendered_views(messages@)),
        ensures
            formatted@ == whole,
        decreases messages.len() - i,
    {
        let entry = messages[i].markdown.as_str();
        proof {
            assert(entries.skip(i as int)[0] == entry@);
            assert(entries.skip(i as int).drop_first() =~= entries.skip(i + 1));
        }
        let formatted_len: usize = text::byte_len(formatted.as_str());
        let entry_len: usize = text::byte_len(entry);
        if !formatted.as_str().is_empty() && (entry_len > max || formatted_len > max - entry_len) {
            break;
        }
        formatted.append(entry);
        i = i + 1;
    }
    if formatted.as_str().is_empty() {
        return Err(CompactionError::NoContent);
    }
    let formatted_len: usize = text::byte_len(formatted.as_str());
    let mut full_content = COMPACT_PROMPT_PREFIX.to_owned();
    full_content.append(formatted.as_str());
    full_content.append(COMPACT_PROMPT_SUFFIX);
    let content: Vec<MessageContent> = vec![MessageContent::Text(full_content)];
    let messages: Vec<LanguageModelRequestMessage> = vec![
        LanguageModelRequestMessage {
            role: Role::User,
            content,
            cache: false,
            reasoning_details: None,
        },
    ];
    let request = LanguageModelRequest {
        intent: Some(CompletionIntent::ThreadContextSummarization),
        messages,
    };
    proof {
        assert(message::content_views(content@) =~= seq![content@[0]@]);
        assert(message::message_views(messages@) =~= seq![messages@[0]@]);
    }
    Ok((formatted_len, request))
}

/// The formatted length of messages: that of their Markdown.
pub open spec fn formatted_len(messages: Seq<RenderedView>) -> nat {
    stripping::total(
        messages.map_values(|message: RenderedView| text::utf8_len(message.markdown)),
    )
}

/// Whether the formatted length of the first `count` messages is at least `min`.
fn formatted_len_reaches(messages: &[RenderedMessage], count: usize, min: usize) -> (reaches: bool)
    requires
        count <= messages@.len(),
    ensures
        reaches == (formatted_len(zones::rendered_views(messages@).take(count as int)) >= min),
{
    let ghost views = zones::rendered_views(messages@).take(count as int);
    let ghost lens = views.map_values(|message: RenderedView| text::utf8_len(message.markdown));
    let mut sum: usize = 0;
    let mut i: usize = 0;
    while i < count
        invariant
            i <= count <= messages@.len(),
            views == zones::rendered_views(messages@).take(count as int),
            lens == views.map_values(|message: RenderedView| text::utf8_len(message.markdown)),
            sum == if stripping::total(lens.take(i as int)) <= usize::MAX {
                stripping::total(lens.take(i as int)) as int
            } else {
                usize::MAX as int
            },
        decreases count - i,
    {
        proof {
            zones::lemma_total_take(lens, i as int);
            assert(views[i as int].markdown == messages@[i as int].markdown@);
        }
        sum = sum.saturating_add(text::byte_len(messages[i].markdown.as_str()));
        i = i + 1;
    }
    assert(lens.take(i as int) =~= lens);
    sum >= min
}

/// Whether a stored message is the summary of an earlier part of the conversation.
pub open spec fn is_summary(message: RenderedView) -> bool {
    &&& message.request.len() == 1
    &&& message.request[0].role == Role::User
    &&& message.request[0].content.len() == 1
    &&& message.request[0].content[0] matches ContentView::Text(text) && text::has_prefix(
        text,
        thread::SUMMARY_HEADING@,
    )
}

/// Whether a stored message is the agent's answer to a summary.
pub open spec fn is_summary_acknowledgment(message: RenderedView) -> bool {
    &&& message.request.len() == 1
    &&& message.request[0].role == Role::Assistant
    &&& message.request[0].content.len() == 1
    &&& message.request[0].content[0] == ContentView::Text(thread::SUMMARY_ACKNOWLEDGMENT@)
}

/// Whether messages are summarized already: they are a summary, with no more than the answer to
/// it.
pub open spec fn already_summarized(messages: Seq<RenderedView>) -> bool {
    &&& 0 < messages.len() <= 2
    &&& is_summary(messages[0])
    &&& messages.len() == 2 ==> is_summary_acknowledgment(messages[1])
}

/// The text of a message that holds nothing else and has the given role.
fn only_text(message: &RenderedMessage, role: Role) -> (text: Option<&str>)
    ensures
        match text {
            Some(text) => {
                &&& message@.request.len() == 1
                &&& message@.request[0].role == role
                &&& message@.request[0].content.len() == 1
                &&& message@.request[0].content[0] == ContentView::Text(text@)
            },
            None => !{
                &&& message@.request.len() == 1
                &&& message@.request[0].role == role
                &&& message@.request[0].content.len() == 1
                &&& message@.request[0].content[0] is Text
            },
        },
{
    if message.request.len() != 1 {
        return None;
    }
    let request = &message.request[0];
    assert(message@.request[0] == request@);
    if request.role != role || request.content.len() != 1 {
        return None;
    }
    assert(request@.content[0] == request.content@[0]@);
    match &request.content[0] {
        MessageContent::Text(text) => Some(text.as_str()),
        _ => None,
    }
}

/// Whether the first `count` messages are summarized already.
fn is_already_summarized(messages: &[RenderedMessage], count: usize) -> (result: bool)
    requires
        0 < count <= messages@.len(),
    ensures
        result == already_summarized(zones::rendered_views(messages@).take(count as int)),
{
    let ghost views = zones::rendered_views(messages@).take(count as int);
    if count > 2 {
        return false;
    }
    assert(views[0] == messages@[0]@);
    match only_text(&messages[0], Role::User) {
        Some(text) => if !text::starts_with(text, thread::SUMMARY_HEADING) {
            return false;
        },
        None => return false,
    }
    if count == 1 {
        return true;
    }
    assert(views[1] == messages@[1]@);
    match only_text(&messages[1], Role::Assistant) {
        Some(text) => text::same_text(text, thread::SUMMARY_ACKNOWLEDGMENT),
        None => false,
    }
}

/// The index before which stored messages would be summarized, or `None` where there is too
/// little to summarize, or nothing that is not summarized already.
pub open spec fn planned_boundary(
    messages: Seq<RenderedView>,
    config: CompactionConfig,
    turn_start_index: Option<usize>,
) -> Option<nat> {
    let zones = zones::zones_of(messages, config, true);
    let boundary = zones.boundary_req_idx;
    if boundary == 0 || boundary >= zones.request_message_count {
        None
    } else if stripping::total(zones.visible_lens.take(boundary as int))
        < config.min_content_chars {
        None
    } else {
        let stored = zones.request_to_stored[boundary as int];
        let capped = match turn_start_index {
            Some(max_index) => if (max_index as nat) < stored {
                max_index as nat
            } else {
                stored
            },
            None => stored,
        };
        if formatted_len(messages.take(stored as int)) < config.min_content_chars {
            None
        } else if capped == 0 || already_summarized(messages.take(capped as int)) {
            None
        } else {
            Some(capped)
        }
    }
}

/// The request that automatic compaction makes of a conversation, with the index before which
/// messages are summarized.
pub open spec fn automatic_plan(
    messages: Seq<RenderedView>,
    max_token_count: Option<nat>,
    config: CompactionConfig,
    turn_start_index: Option<usize>,
) -> Option<(RequestView, nat)> {
    match (max_token_count, planned_boundary(messages, config, turn_start_index)) {
        (Some(max_token_count), Some(boundary)) => {
            match summary_request(messages.take(boundary as int), max_token_count) {
                Some(request) => Some((request, boundary)),
                None => None,
            }
        },
        _ => None,
    }
}

/// The boundary of a plan is the index of a stored message, with others before it, and never lies
/// behind the start of the turn.
pub proof fn law_planned_boundary(
    messages: Seq<RenderedView>,
    config: CompactionConfig,
    turn_start_index: Option<usize>,
)
    ensures
        planned_boundary(messages, config, turn_start_index) matches Some(boundary) ==> 0
            < boundary < messages.len() && (turn_start_index matches Some(max_index) ==> boundary
            <= max_index),
{
    zones::lemma_origins_len(messages);
    let zones = zones::zones_of(messages, config, true);
    if planned_boundary(messages, config, turn_start_index) is Some {
        assert(zones.request_to_stored[zones.boundary_req_idx as int] < messages.len());
    }
}

/// A message of the user that holds the text with which a summary is stored is known as one.
pub proof fn law_stored_summary_is_recognized(message: RenderedView, summary: Seq<char>)
    requires
        message.request.len() == 1,
        message.request[0].role == Role::User,
        message.request[0].content == seq![ContentView::Text(thread::SUMMARY_HEADING@ + summary)],
    ensures
        is_summary(message),
{
    let heading = thread::SUMMARY_HEADING@;
    assert((heading + summary).take(heading.len() as int) =~= heading);
}

/// A summary, and the answer to it, are not summarized again by themselves: where a conversation
/// begins with them, a plan covers at least one message more.
pub proof fn law_summary_not_summarized_again(
    messages: Seq<RenderedView>,
    config: CompactionConfig,
    turn_start_index: Option<usize>,
)
    requires
        messages.len() >= 2,
        is_summary(messages[0]),
        is_summary_acknowledgment(messages[1]),
    ensures
        planned_boundary(messages, config, turn_start_index) matches Some(boundary) ==> boundary
            > 2,
{
    law_planned_boundary(messages, config, turn_start_index);
}

/// Analyzes the conversation messages and, if enough old content exists, builds a
/// summarization request for the model. Returns `Ok(None)` when compaction should be
/// skipped (no model, not enough content, boundary too small, already summarized, nothing to
/// format). There is enough content where, before the boundary, both what the model sees and the
/// Markdown reach `min_content_chars`.
pub fn prepare_message_compaction(
    messages: &[RenderedMessage],
    summarization_model: Option<LanguageModel>,
    config: &CompactionConfig,
    turn_start_index: Option<usize>,
) -> (result: Result<Option<CompactionPlan>, CompactionError>)
    requires
        summarization_model matches Some(model) ==> model.fits() && config.fits()
            && stripping::total(
            stripping::message_lens(zones::all_requests(zones::rendered_views(messages@))),
        ) <= usize::MAX,
    ensures
        result is Ok,
        ({
            let plan = automatic_plan(
                zones::rendered_views(messages@),
                match summarization_model {
                    Some(model) => Some(model.max_token_count as nat),
                    None => None,
                },
                *config,
                turn_start_index,
            );
            match result->Ok_0 {
                Some(made) => {
                    &&& plan == Some((made.request@, made.boundary_index as nat))
                    &&& summarization_model == Some(made.model)
                },
                None => plan is None,
            }
        }),
{
    let model = match summarization_model {
        Some(model) => model,
        None => return Ok(None),
    };
    let ghost views = zones::rendered_views(messages@);
    let zones = zones::analyze_compaction_zones(messages, config, true);
    if zones.boundary_req_idx == 0 || zones.boundary_req_idx >= zones.request_message_count {
        return Ok(None);
    }
    proof {
        zones::law_visible_at_most_original(views, *config);
        zones::law_visible_lens_add_up(views, *config);
        zones::lemma_origins_len(views);
        law_planned_boundary(views, *config, turn_start_index);
    }
    let content_to_compact_chars: usize = zones::sum_first(
        &zones.visible_lens,
        zones.boundary_req_idx,
    );
    if content_to_compact_chars < config.min_content_chars {
        return Ok(None);
    }
    assert(zones@.request_to_stored[zones.boundary_req_idx as int]
        == zones.request_to_stored@[zones.boundary_req_idx as int]);
    let mut boundary_index: usize = zones.request_to_stored[zones.boundary_req_idx];
    if !formatted_len_reaches(messages, boundary_index, config.min_content_chars) {
        return Ok(None);
    }
    if let Some(max_index) = turn_start_index {
        if max_index < boundary_index {
            boundary_index = max_index;
        }
    }
    if boundary_index == 0 {
        return Ok(None);
    }
    if is_already_summarized(messages, boundary_index) {
        return Ok(None);
    }
    let messages_to_compact = &messages[0..boundary_index];
    proof {
        assert(zones::rendered_views(messages_to_compact@) =~= views.take(boundary_index as int));
    }
    match build_compaction_request(messages_to_compact, &model) {
        Ok((_, request)) => Ok(Some(CompactionPlan { model, request, boundary_index })),
        Err(_) => Ok(None),
    }
}

/// Prepares a compaction request for the messages from `start` up to `end`.
pub fn prepare_manual_compaction(
    messages: &[RenderedMessage],
    start: usize,
    end: usize,
    model: LanguageModel,
) -> (result: Result<CompactionPlan, CompactionError>)
    requires
        model.fits(),
    ensures
        ({
            let valid = start < end <= messages@.len();
            let request = summary_request(
                zones::rendered_views(messages@).subrange(start as int, end as int),
                model.max_token_count as nat,
            );
            match result {
                Ok(plan) => {
                    &&& valid
                    &&& request == Some(plan.request@)
                    &&& plan.boundary_index == end
                    &&& plan.model == model
                },
                Err(CompactionError::InvalidRange { start: from, end: to }) => {
                    &&& !valid
                    &&& from == start
                    &&& to == end
                },
                Err(CompactionError::NoContent) => valid && request is None,
            }
        }),
{
    if start >= end || end > messages.len() {
        return Err(CompactionError::InvalidRange { start, end });
    }
    let messages_to_compact = &messages[start..end];
    proof {
        assert(zones::rendered_views(messages_to_compact@) =~= zones::rendered_views(
            messages@,
        ).subrange(start as int, end as int));
    }
    match build_compaction_request(messages_to_compact, &model) {
        Ok((_, request)) => Ok(CompactionPlan { model, request, boundary_index: end }),
        Err(error) => Err(error),
    }
}

/// Debug info for compaction state, used by the UI to display real-time metrics.
#[derive(Debug, Clone, Copy, PartialEq, Eq, Structural)]
pub struct CompactionDebugInfo {
    /// Total chars of all request messages before Tier 1 stripping.
    pub total_original_chars: usize,
    /// Total chars after Tier 1 stripping (what the LLM actually sees).
    pub total_visible_chars: usize,
    /// Chars removed by Tier 1 stripping (original - visible).
    pub stripped_chars: usize,
    /// Chars of content that would be eligible for summarization (before summary boundary).
    pub compactable_chars: usize,
    /// Chars of recent content that is protected (after summary boundary).
    pub recent_chars: usize,
    /// The min_content_chars threshold.
    pub min_content_chars: usize,
    /// The summary threshold converted to chars.
    pub summary_threshold_chars: usize,
    /// Whether auto compact is enabled.
    pub auto_compact_enabled: bool,
    /// Number of stored messages.
    pub message_count: usize,
    /// Number of request messages (1 stored message can produce multiple request messages).
    pub request_message_count: usize,
    /// Whether there's enough content to trigger compaction: what the model sees of it, and its
    /// Markdown.
    pub would_compact: bool,
}

/// The length of what would be summarized: nothing where the boundary leaves nothing out or
/// nothing in.
pub open spec fn compactable_len(zones: zones::ZonesView) -> nat {
    if zones.boundary_req_idx == 0 || zones.boundary_req_idx >= zones.request_message_count {
        0
    } else {
        stripping::total(zones.visible_lens.take(zones.boundary_req_idx as int))
    }
}

/// Whether `info` describes the conversation under `config`.
pub open spec fn describes(
    info: CompactionDebugInfo,
    messages: Seq<RenderedView>,
    config: CompactionConfig,
    auto_compact_enabled: bool,
) -> bool {
    let zones = zones::zones_of(messages, config, false);
    &&& info.total_original_chars == zones.total_original_chars
    &&& info.total_visible_chars == zones.total_visible_chars
    &&& info.stripped_chars == zones.total_original_chars - zones.total_visible_chars
    &&& info.compactable_chars == compactable_len(zones)
    &&& info.recent_chars == zones.total_visible_chars - compactable_len(zones)
    &&& info.min_content_chars == config.min_content_chars
    &&& info.summary_threshold_chars == config.summary_threshold_tokens * zones::CHARS_PER_TOKEN
    &&& info.auto_compact_enabled == auto_compact_enabled
    &&& info.message_count == messages.len()
    &&& info.request_message_count == zones.request_message_count
    &&& info.would_compact == {
        &&& auto_compact_enabled
        &&& 0 < zones.boundary_req_idx < zones.request_message_count
        &&& compactable_len(zones) >= config.min_content_chars
        &&& formatted_len(
            messages.take(zones::origins(messages)[zones.boundary_req_idx as int] as int),
        ) >= config.min_content_chars
    }
}

/// Calculates compaction debug info for the current conversation state.
pub fn compute_compaction_debug_info(
    messages: &[RenderedMessage],
    config: &CompactionConfig,
    auto_compact_enabled: bool,
) -> (info: CompactionDebugInfo)
    requires
        config.fits(),
        stripping::total(
            stripping::message_lens(zones::all_requests(zones::rendered_views(messages@))),
        ) <= usize::MAX,
    ensures
        describes(info, zones::rendered_views(messages@), *config, auto_compact_enabled),
{
    let ghost views = zones::rendered_views(messages@);
    let summary_threshold_chars: usize = (config.summary_threshold_tokens as usize)
        * zones::CHARS_PER_TOKEN;
    let zones = zones::analyze_compaction_zones(messages, config, true);
    proof {
        zones::law_visible_at_most_original(views, *config);
        zones::law_visible_lens_add_up(views, *config);
        zones::lemma_origins_len(views);
    }
    let stripped_chars: usize = zones.total_original_chars.saturating_sub(
        zones.total_visible_chars,
    );
    let in_range: bool = zones.boundary_req_idx != 0 && zones.boundary_req_idx
        < zones.request_message_count;
    let compactable_chars: usize = if in_range {
        zones::sum_first(&zones.visible_lens, zones.boundary_req_idx)
    } else {
        0
    };
    proof {
        let lens = zones@.visible_lens;
        let boundary = zones@.boundary_req_idx as int;
        if in_range {
            assert(lens =~= lens.take(boundary) + lens.skip(boundary));
            zones::lemma_total_concat(lens.take(boundary), lens.skip(boundary));
        }
    }
    let recent_chars: usize = zones.total_visible_chars - compactable_chars;
    let enough_formatted: bool = in_range && {
        assert(zones@.request_to_stored[zones.boundary_req_idx as int]
            == zones.request_to_stored@[zones.boundary_req_idx as int]);
        formatted_len_reaches(
            messages,
            zones.request_to_stored[zones.boundary_req_idx],
            config.min_content_chars,
        )
    };
    CompactionDebugInfo {
        total_original_chars: zones.total_original_chars,
        total_visible_chars: zones.total_visible_chars,
        stripped_chars,
        compactable_chars,
        recent_chars,
        min_content_chars: config.min_content_chars,
        summary_threshold_chars,
        auto_compact_enabled,
        message_count: messages.len(),
        request_message_count: zones.request_message_count,
        would_compact: auto_compact_enabled && enough_formatted && compactable_chars
            >= config.min_content_chars,
    }
}

/// Where there is anything to summarize, what is left behind the boundary reaches the threshold,
/// and with one message less it would not.
pub proof fn law_recent_part_reaches_threshold(
    messages: Seq<RenderedView>,
    config: CompactionConfig,
)
    ensures
        ({
            let zones = zones::zones_of(messages, config, false);
            let lens = zones.visible_lens;
            let boundary = zones.boundary_req_idx as int;
            let threshold = config.summary_threshold_tokens * zones::CHARS_PER_TOKEN;
            boundary < zones.request_message_count ==> {
                &&& stripping::total(lens.skip(boundary)) >= threshold
                &&& boundary + 1 < zones.request_message_count ==> stripping::total(
                    lens.skip(boundary + 1),
                ) < threshold
            }
        }),
{
    let zones = zones::zones_of(messages, config, false);
    stripping::law_last_start(
        zones.visible_lens,
        (config.summary_threshold_tokens * zones::CHARS_PER_TOKEN) as nat,
    );
}

/// The recent part of a conversation is what lies behind the summary boundary.
pub proof fn law_recent_chars(
    info: CompactionDebugInfo,
    messages: Seq<RenderedView>,
    config: CompactionConfig,
    auto_compact_enabled: bool,
)
    requires
        describes(info, messages, config, auto_compact_enabled),
    ensures
        ({
            let zones = zones::zones_of(messages, config, false);
            0 < zones.boundary_req_idx < zones.request_message_count ==> info.recent_chars
                == stripping::total(zones.visible_lens.skip(zones.boundary_req_idx as int))
        }),
        info.compactable_chars + info.recent_chars == info.total_visible_chars,
        info.total_visible_chars + info.stripped_chars == info.total_original_chars,
{
    let zones = zones::zones_of(messages, config, false);
    let lens = zones.visible_lens;
    let boundary = zones.boundary_req_idx as int;
    zones::law_visible_lens_add_up(messages, config);
    if 0 < boundary < zones.request_message_count {
        assert(lens =~= lens.take(boundary) + lens.skip(boundary));
        zones::lemma_total_concat(lens.take(boundary), lens.skip(boundary));
    }
}

/// Where automatic compaction makes a plan, the debug info says that it would; where the info
/// says so, a plan is made, unless the boundary falls in the first stored message or is capped
/// to it, or the messages before it are summarized already or have no Markdown.
pub proof fn law_debug_info_agrees_with_plan(
    info: CompactionDebugInfo,
    messages: Seq<RenderedView>,
    max_token_count: nat,
    config: CompactionConfig,
    turn_start_index: Option<usize>,
)
    requires
        describes(info, messages, config, true),
    ensures
        automatic_plan(messages, Some(max_token_count), config, turn_start_index) is Some
            ==> info.would_compact,
        info.would_compact ==> {
            let zones = zones::zones_of(messages, config, true);
            let stored = zones.request_to_stored[zones.boundary_req_idx as int];
            let capped = match turn_start_index {
                Some(max_index) => if (max_index as nat) < stored {
                    max_index as nat
                } else {
                    stored
                },
                None => stored,
            };
            automatic_plan(messages, Some(max_token_count), config, turn_start_index) is Some <==> {
                &&& capped > 0
                &&& !already_summarized(messages.take(capped as int))
                &&& formatted_conversation(messages.take(capped as int), max_token_count).len() > 0
            }
        },
{
}

proof fn lemma_formatted_from(entries: Seq<Seq<char>>, max: nat, formatted: Seq<char>)
    ensures
        ({
            let whole = formatted_from(entries, max, formatted);
            ||| whole == formatted
            ||| text::utf8_len(whole) <= max
            ||| formatted.len() == 0 && exists|i: int|
                0 <= i < entries.len() && #[trigger] entries[i] == whole
        }),
    decreases entries.len(),
{
    if entries.len() > 0 {
        let longer = formatted + entries[0];
        let whole = formatted_from(entries, max, formatted);
        let rest = entries.drop_first();
        lemma_formatted_from(rest, max, longer);
        text::lemma_encode_concat(formatted, entries[0]);
        if formatted.len() == 0 {
            assert(longer =~= entries[0]);
            if exists|i: int| 0 <= i < rest.len() && #[trigger] rest[i] == whole {
                let i = choose|i: int| 0 <= i < rest.len() && #[trigger] rest[i] == whole;
                assert(entries[i + 1] == whole);
            }
        }
    }
}

/// The conversation in a request fits in the window of the model beside the prompt and the
/// summary, unless it is a single message.
pub proof fn law_formatted_fits(messages: Seq<RenderedView>, max_token_count: nat)
    ensures
        ({
            let whole = formatted_conversation(messages, max_token_count);
            ||| text::utf8_len(whole) <= max_formatted_chars(max_token_count)
            ||| exists|i: int| 0 <= i < messages.len() && whole == (#[trigger] messages[i]).markdown
        }),
{
    let entries = markdowns(messages);
    let max = max_formatted_chars(max_token_count);
    let whole = formatted_conversation(messages, max_token_count);
    lemma_formatted_from(entries, max, Seq::empty());
    assert(text::utf8_len(Seq::<char>::empty()) == 0);
    if text::utf8_len(whole) > max {
        let i = choose|i: int| 0 <= i < entries.len() && #[trigger] entries[i] == whole;
        assert(messages[i].markdown == whole);
    }
}

} // verus!
