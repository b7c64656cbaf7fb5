//! What holds of every plan to summarize the older part of a conversation, and of the figures on
//! it.

use crate::compaction;
use crate::compaction::{CompactionDebugInfo, CompletionIntent, RequestView};
use crate::message::{ContentView, Role};
use crate::stripping;
use crate::stripping_laws;
use crate::text;
use crate::zones;
use crate::zones::{CompactionConfig, RenderedView};
use vstd::prelude::*;

verus! {

/// The number of request messages that the first stored messages become.
pub open spec fn requests_before(messages: Seq<RenderedView>, count: int) -> nat {
    zones::all_requests(messages.take(count)).len()
}

/// The Markdown of messages, one after the other.
pub open spec fn markdown_of(messages: Seq<RenderedView>) -> Seq<char>
    decreases messages.len(),
{
    if messages.len() == 0 {
        seq![]
    } else {
        markdown_of(messages.drop_last()) + messages.last().markdown
    }
}

/// The request messages of a conversation are those of its stored messages, one after the other.
pub proof fn law_requests_in_order(first: Seq<RenderedView>, second: Seq<RenderedView>)
    ensures
        zones::all_requests(first + second) == zones::all_requests(first) + zones::all_requests(
            second,
        ),
        first.len() == 1 ==> zones::all_requests(first) == first[0].request,
    decreases second.len(),
{
    if first.len() == 1 {
        assert(first.drop_last() =~= Seq::empty());
        assert(zones::all_requests(first.drop_last()) =~= Seq::empty());
        assert(zones::all_requests(first) =~= first[0].request);
    }
    if second.len() == 0 {
        assert(first + second =~= first);
        assert(zones::all_requests(first) + zones::all_requests(second) =~= zones::all_requests(
            first,
        ));
    } else {
        assert((first + second).drop_last() =~= first + second.drop_last());
        law_requests_in_order(first, second.drop_last());
        assert(zones::all_requests(first + second) =~= zones::all_requests(first)
            + zones::all_requests(second));
    }
}

/// Whether the recent part of a conversation begins with a request message: from there on the
/// model sees at least as many characters as the threshold says, and from no later message.
pub open spec fn recent_from(lens: Seq<nat>, threshold: nat, request: int) -> bool {
    &&& 0 <= request < lens.len()
    &&& stripping::total(lens.skip(request)) >= threshold
    &&& forall|later: int|
        request < later < lens.len() ==> stripping::total(#[trigger] lens.skip(later)) < threshold
}

/// Whether a conversation is parted between what is old and what is recent at a request message,
/// which the stored message at an index becomes or is among those that it becomes.
pub open spec fn parted_at(
    messages: Seq<RenderedView>,
    config: CompactionConfig,
    request: int,
    stored: int,
) -> bool {
    &&& recent_from(
        zones::conversation_lens(messages, config),
        (config.summary_threshold_tokens * 4) as nat,
        request,
    )
    &&& 0 <= stored < messages.len()
    &&& requests_before(messages, stored) <= request < requests_before(messages, stored + 1)
}

/// Whether enough lies before the point at which a conversation is parted: of what the model
/// sees, and of Markdown.
pub open spec fn enough_before(
    messages: Seq<RenderedView>,
    config: CompactionConfig,
    request: int,
    stored: int,
) -> bool {
    &&& request > 0
    &&& stripping::total(zones::conversation_lens(messages, config).take(request))
        >= config.min_content_chars
    &&& text::utf8_len(markdown_of(messages.take(stored))) >= config.min_content_chars
}

/// The index before which messages are replaced: that of the stored message at which the
/// conversation is parted, or the start of the turn where that comes first.
pub open spec fn replaced_before(stored: int, turn_start_index: Option<usize>) -> int {
    match turn_start_index {
        Some(turn_start) => if turn_start as int <= stored {
            turn_start as int
        } else {
            stored
        },
        None => stored,
    }
}

/// Whether a message becomes one request message, with nothing in it but a text.
pub open spec fn only_says(message: RenderedView, role: Role, text: Seq<char>) -> bool {
    &&& message.request.len() == 1
    &&& message.request[0].role == role
    &&& message.request[0].content == seq![ContentView::Text(text)]
}

/// Whether messages are no more than an earlier summary and the answer to it.
pub open spec fn only_a_summary(messages: Seq<RenderedView>) -> bool {
    &&& messages.len() == 1 || messages.len() == 2
    &&& exists|summary: Seq<char>| #[trigger]
        only_says(messages[0], Role::User, "[Earlier conversation summary]\n"@ + summary)
    &&& messages.len() == 2 ==> only_says(
        messages[1],
        Role::Assistant,
        "Understood. I'll keep this summary in mind for context in our continued conversation."@,
    )
}

/// The number of characters of Markdown that a request has room for.
pub open spec fn room(max_token_count: nat) -> int {
    4 * max_token_count - text::utf8_len(compaction::COMPACT_PROMPT_PREFIX@) - text::utf8_len(
        compaction::COMPACT_PROMPT_SUFFIX@,
    ) - 12_000
}

/// Whether a request puts the first `count` of some messages before the model: in order, as many
/// as there is room for, and at least the first that has any Markdown.
pub open spec fn takes_messages(
    messages: Seq<RenderedView>,
    max_token_count: nat,
    count: int,
) -> bool {
    &&& 0 <= count <= messages.len()
    &&& forall|i: int|
        0 <= i < count ==> markdown_of(#[trigger] messages.take(i)).len() == 0 || text::utf8_len(
            markdown_of(messages.take(i + 1)),
        ) <= room(max_token_count)
    &&& count < messages.len() ==> markdown_of(messages.take(count)).len() > 0 && text::utf8_len(
        markdown_of(messages.take(count + 1)),
    ) > room(max_token_count)
}

/// Whether a request asks for the summary of messages: the user says, between the two parts of
/// the prompt, the Markdown of the messages, from the first on.
pub open spec fn asks_for_summary(
    request: RequestView,
    messages: Seq<RenderedView>,
    max_token_count: nat,
) -> bool {
    &&& request.intent == Some(CompletionIntent::ThreadContextSummarization)
    &&& request.messages.len() == 1
    &&& request.messages[0].role == Role::User
    &&& !request.messages[0].cache
    &&& request.messages[0].reasoning_details is None
    &&& exists|count: int| #[trigger]
        takes_messages(messages, max_token_count, count) && markdown_of(messages.take(count)).len()
            > 0 && request.messages[0].content == seq![
            ContentView::Text(
                compaction::COMPACT_PROMPT_PREFIX@ + markdown_of(messages.take(count))
                    + compaction::COMPACT_PROMPT_SUFFIX@,
            ),
        ]
}

/// A request is made for the summary of messages that have any Markdown, and for no others; it
/// asks for the summary of exactly these.
pub proof fn law_summary_request(messages: Seq<RenderedView>, max_token_count: nat)
    ensures
        compaction::summary_request(messages, max_token_count) is Some <==> markdown_of(
            messages,
        ).len() > 0,
        compaction::summary_request(messages, max_token_count) matches Some(request)
            ==> asks_for_summary(request, messages, max_token_count),
{
    let formatted = compaction::formatted_conversation(messages, max_token_count);
    let entries = compaction::markdowns(messages);
    assert(messages.take(0) =~= Seq::empty());
    assert(entries.skip(0) =~= entries);
    assert(markdown_of(messages.take(0)) =~= Seq::empty());
    let count = lemma_formatted(messages, max_token_count, 0);
    assert(takes_messages(messages, max_token_count, count));
    assert(messages.take(messages.len() as int) =~= messages);
    if formatted.len() == 0 {
        assert(count == messages.len());
    } else {
        lemma_markdown_grows(messages, count, messages.len() as int);
    }
}

proof fn lemma_markdown_step(messages: Seq<RenderedView>, count: int)
    requires
        0 <= count < messages.len(),
    ensures
        markdown_of(messages.take(count + 1)) == markdown_of(messages.take(count))
            + messages[count].markdown,
        text::utf8_len(markdown_of(messages.take(count + 1))) == text::utf8_len(
            markdown_of(messages.take(count)),
        ) + text::utf8_len(messages[count].markdown),
{
    assert(messages.take(count + 1).drop_last() =~= messages.take(count));
    assert(messages.take(count + 1).last() == messages[count]);
    text::lemma_encode_concat(markdown_of(messages.take(count)), messages[count].markdown);
}

proof fn lemma_markdown_grows(messages: Seq<RenderedView>, count: int, more: int)
    requires
        0 <= count <= more <= messages.len(),
    ensures
        markdown_of(messages.take(count)).len() <= markdown_of(messages.take(more)).len(),
    decreases more - count,
{
    if count < more {
        lemma_markdown_step(messages, more - 1);
        lemma_markdown_grows(messages, count, more - 1);
    }
}

proof fn lemma_room(max_token_count: nat, len: nat)
    requires
        len > 0,
    ensures
        len > compaction::max_formatted_chars(max_token_count) <==> len > room(max_token_count),
{
}

proof fn lemma_formatted(messages: Seq<RenderedView>, max_token_count: nat, from: int) -> (count:
    int)
    requires
        0 <= from <= messages.len(),
        forall|i: int|
            0 <= i < from ==> markdown_of(#[trigger] messages.take(i)).len() == 0
                || text::utf8_len(markdown_of(messages.take(i + 1))) <= room(max_token_count),
    ensures
        takes_messages(messages, max_token_count, count),
        compaction::formatted_from(
            compaction::markdowns(messages).skip(from),
            compaction::max_formatted_chars(max_token_count),
            markdown_of(messages.take(from)),
        ) == markdown_of(messages.take(count)),
    decreases messages.len() - from,
{
    let entries = compaction::markdowns(messages);
    let rest = entries.skip(from);
    let max = compaction::max_formatted_chars(max_token_count);
    let formatted = markdown_of(messages.take(from));
    if from == messages.len() {
        from
    } else {
        lemma_markdown_step(messages, from);
        assert(rest[0] == messages[from].markdown);
        assert(rest.drop_first() =~= entries.skip(from + 1));
        let longer = text::utf8_len(markdown_of(messages.take(from + 1)));
        if formatted.len() > 0 {
            vstd::utf8::encode_utf8_first_scalar(formatted);
            lemma_room(max_token_count, longer);
        }
        if formatted.len() > 0 && longer > max {
            from
        } else {
            lemma_formatted(messages, max_token_count, from + 1)
        }
    }
}

proof fn lemma_requests_grow(messages: Seq<RenderedView>, count: int, more: int)
    requires
        0 <= count <= more <= messages.len(),
    ensures
        requests_before(messages, count) <= requests_before(messages, more),
    decreases more - count,
{
    if count < more {
        assert(messages.take(more).drop_last() =~= messages.take(more - 1));
        lemma_requests_grow(messages, count, more - 1);
    }
}

/// The stored message that a request message comes from.
proof fn lemma_origin(messages: Seq<RenderedView>, request: int)
    requires
        0 <= request < zones::all_requests(messages).len(),
    ensures
        request < zones::origins(messages).len(),
        ({
            let stored = zones::origins(messages)[request] as int;
            &&& stored < messages.len()
            &&& requests_before(messages, stored) <= request < requests_before(
                messages,
                stored + 1,
            )
        }),
    decreases messages.len(),
{
    zones::lemma_origins_len(messages);
    let before = messages.drop_last();
    zones::lemma_origins_len(before);
    let stored = zones::origins(messages)[request] as int;
    if request < zones::all_requests(before).len() {
        lemma_origin(before, request);
        assert(zones::origins(before)[request] == stored);
        assert(before.take(stored) =~= messages.take(stored));
        assert(before.take(stored + 1) =~= messages.take(stored + 1));
    } else {
        assert(stored == messages.len() - 1);
        assert(messages.take(stored) =~= before);
        assert(messages.take(stored + 1) =~= messages);
    }
}

proof fn lemma_one_origin(messages: Seq<RenderedView>, request: int, stored: int, other: int)
    requires
        0 <= stored < messages.len(),
        0 <= other < messages.len(),
        requests_before(messages, stored) <= request < requests_before(messages, stored + 1),
        requests_before(messages, other) <= request < requests_before(messages, other + 1),
    ensures
        stored == other,
{
    if stored < other {
        lemma_requests_grow(messages, stored + 1, other);
    }
    if other < stored {
        lemma_requests_grow(messages, other + 1, stored);
    }
}

/// A conversation is parted at one point at most, and that is the one that the analysis finds.
proof fn lemma_parted(messages: Seq<RenderedView>, config: CompactionConfig)
    ensures
        ({
            let zones = zones::zones_of(messages, config, true);
            let request = zones.boundary_req_idx as int;
            let stored = zones.request_to_stored[request] as int;
            &&& zones.request_message_count == zones.visible_lens.len()
            &&& request < zones.request_message_count ==> parted_at(
                messages,
                config,
                request,
                stored,
            )
            &&& forall|at: int, in_message: int| #[trigger]
                parted_at(messages, config, at, in_message) ==> at == request && in_message
                    == stored && request < zones.request_message_count
        }),
{
    let zones = zones::zones_of(messages, config, true);
    let lens = zones.visible_lens;
    let threshold = (config.summary_threshold_tokens * 4) as nat;
    let request = zones.boundary_req_idx as int;
    let stored = zones.request_to_stored[request] as int;
    stripping::law_last_start(lens, threshold);
    assert(lens.len() == zones::all_requests(messages).len());
    if request < lens.len() {
        lemma_origin(messages, request);
    }
    assert forall|at: int, in_message: int| #[trigger]
        parted_at(messages, config, at, in_message) implies at == request && in_message == stored
        && request < lens.len() by {
        assert(stripping::total(lens.skip(at)) >= threshold);
        if request < lens.len() {
            assert(stripping::total(lens.skip(request)) >= threshold);
            lemma_one_origin_at(messages, at, request, in_message, stored, lens, threshold);
        }
    }
}

proof fn lemma_one_origin_at(
    messages: Seq<RenderedView>,
    at: int,
    request: int,
    in_message: int,
    stored: int,
    lens: Seq<nat>,
    threshold: nat,
)
    requires
        recent_from(lens, threshold, at),
        recent_from(lens, threshold, request),
        0 <= stored < messages.len(),
        0 <= in_message < messages.len(),
        requests_before(messages, stored) <= request < requests_before(messages, stored + 1),
        requests_before(messages, in_message) <= at < requests_before(messages, in_message + 1),
    ensures
        at == request,
        in_message == stored,
{
    assert(stripping::total(lens.skip(at)) >= threshold);
    assert(stripping::total(lens.skip(request)) >= threshold);
    lemma_one_origin(messages, at, in_message, stored);
}

proof fn lemma_formatted_len(messages: Seq<RenderedView>)
    ensures
        compaction::formatted_len(messages) == text::utf8_len(markdown_of(messages)),
    decreases messages.len(),
{
    let lens = messages.map_values(|message: RenderedView| text::utf8_len(message.markdown));
    if messages.len() == 0 {
        assert(text::utf8_len(Seq::<char>::empty()) == 0);
    } else {
        let before = messages.drop_last();
        lemma_formatted_len(before);
        text::lemma_encode_concat(markdown_of(before), messages.last().markdown);
        zones::lemma_total_take(lens, messages.len() - 1);
        assert(lens.take(messages.len() - 1) =~= before.map_values(
            |message: RenderedView| text::utf8_len(message.markdown),
        ));
        assert(lens.take(messages.len() as int) =~= lens);
    }
}

proof fn lemma_only_a_summary(messages: Seq<RenderedView>)
    ensures
        compaction::already_summarized(messages) <==> only_a_summary(messages),
{
    let heading = "[Earlier conversation summary]\n"@;
    let answer =
        "Understood. I'll keep this summary in mind for context in our continued conversation."@;
    if compaction::already_summarized(messages) {
        let content = messages[0].request[0].content;
        let text = content[0]->Text_0;
        let summary = text.skip(heading.len() as int);
        assert(text =~= heading + summary);
        assert(content =~= seq![ContentView::Text(heading + summary)]);
        assert(only_says(messages[0], Role::User, heading + summary));
        if messages.len() == 2 {
            assert(messages[1].request[0].content =~= seq![ContentView::Text(answer)]);
        }
    }
    if only_a_summary(messages) {
        let summary = choose|summary: Seq<char>| #[trigger]
            only_says(messages[0], Role::User, heading + summary);
        assert((heading + summary).take(heading.len() as int) =~= heading);
    }
}

/// Whether a plan is owed: the conversation is parted at a point with enough before it, and what
/// would be replaced is not empty, not summarized already, and has Markdown.
pub open spec fn plan_owed(
    messages: Seq<RenderedView>,
    config: CompactionConfig,
    turn_start_index: Option<usize>,
    request: int,
    stored: int,
) -> bool {
    let replaced = messages.take(replaced_before(stored, turn_start_index));
    &&& parted_at(messages, config, request, stored)
    &&& enough_before(messages, config, request, stored)
    &&& replaced_before(stored, turn_start_index) > 0
    &&& !only_a_summary(replaced)
    &&& markdown_of(replaced).len() > 0
}

/// Where automatic compaction makes a plan, the plan's boundary is the smaller of the stored
/// message at which the conversation is parted and the start of the turn, and its request asks
/// for the summary of exactly the messages before that boundary: every message that is replaced
/// is put before the model, as far as there is room, and none that is recent is replaced.
pub proof fn law_plan_covers_what_it_replaces(
    messages: Seq<RenderedView>,
    max_token_count: Option<nat>,
    config: CompactionConfig,
    turn_start_index: Option<usize>,
)
    ensures
        compaction::automatic_plan(messages, max_token_count, config, turn_start_index) matches
            Some((request, boundary)) ==> {
            &&& max_token_count is Some
            &&& 0 < boundary < messages.len()
            &&& asks_for_summary(request, messages.take(boundary as int), max_token_count->0)
            &&& exists|at: int, stored: int| #[trigger]
                plan_owed(messages, config, turn_start_index, at, stored) && boundary
                    == replaced_before(stored, turn_start_index)
        },
{
    if let Some((request, boundary)) = compaction::automatic_plan(
        messages,
        max_token_count,
        config,
        turn_start_index,
    ) {
        let zones = zones::zones_of(messages, config, true);
        let at = zones.boundary_req_idx as int;
        let stored = zones.request_to_stored[at] as int;
        lemma_parted(messages, config);
        lemma_formatted_len(messages.take(stored));
        lemma_only_a_summary(messages.take(boundary as int));
        law_summary_request(messages.take(boundary as int), max_token_count->0);
        assert(plan_owed(messages, config, turn_start_index, at, stored));
    }
}

/// Automatic compaction makes a plan wherever one is owed and there is a model.
pub proof fn law_plan_is_made_where_owed(
    messages: Seq<RenderedView>,
    max_token_count: Option<nat>,
    config: CompactionConfig,
    turn_start_index: Option<usize>,
    at: int,
    stored: int,
)
    requires
        max_token_count is Some,
        plan_owed(messages, config, turn_start_index, at, stored),
    ensures
        compaction::automatic_plan(messages, max_token_count, config, turn_start_index) is Some,
{
    let boundary = replaced_before(stored, turn_start_index);
    lemma_parted(messages, config);
    lemma_formatted_len(messages.take(stored));
    lemma_only_a_summary(messages.take(boundary));
    law_summary_request(messages.take(boundary), max_token_count->0);
}

/// Whether figures on the compaction of a conversation are right: how long it is before and after
/// stripping, what lies before and behind the point at which it is parted, and whether that is
/// enough.
pub open spec fn right_figures(
    info: CompactionDebugInfo,
    messages: Seq<RenderedView>,
    config: CompactionConfig,
    auto_compact_enabled: bool,
) -> bool {
    let requests = zones::all_requests(messages);
    let lens = zones::conversation_lens(messages, config);
    let left = stripping::compacted(requests, (config.deep_omit_threshold_tokens * 4) as nat);
    &&& info.total_original_chars == stripping_laws::conversation_len(requests)
    &&& info.total_visible_chars == stripping_laws::conversation_len(left)
    &&& info.total_visible_chars + info.stripped_chars == info.total_original_chars
    &&& info.compactable_chars + info.recent_chars == info.total_visible_chars
    &&& info.message_count == messages.len()
    &&& info.request_message_count == requests.len()
    &&& info.min_content_chars == config.min_content_chars
    &&& info.summary_threshold_chars == config.summary_threshold_tokens * 4
    &&& info.auto_compact_enabled == auto_compact_enabled
    &&& forall|at: int, stored: int| #[trigger]
        parted_at(messages, config, at, stored) ==> {
            &&& info.compactable_chars == stripping::total(lens.take(at))
            &&& info.would_compact <==> auto_compact_enabled && enough_before(
                messages,
                config,
                at,
                stored,
            )
        }
    &&& (forall|at: int, stored: int| !#[trigger] parted_at(messages, config, at, stored))
        ==> info.compactable_chars == 0 && !info.would_compact
}

/// What the figures on the compaction of a conversation say is right.
pub proof fn law_debug_info_figures(
    info: CompactionDebugInfo,
    messages: Seq<RenderedView>,
    config: CompactionConfig,
    auto_compact_enabled: bool,
)
    requires
        compaction::describes(info, messages, config, auto_compact_enabled),
    ensures
        right_figures(info, messages, config, auto_compact_enabled),
{
    let requests = zones::all_requests(messages);
    let threshold = (config.deep_omit_threshold_tokens * 4) as nat;
    let zones = zones::zones_of(messages, config, true);
    let lens = zones.visible_lens;
    let at = zones.boundary_req_idx as int;
    let stored = zones.request_to_stored[at] as int;
    stripping_laws::lemma_conversation_len(requests);
    stripping_laws::lemma_conversation_len(stripping::compacted(requests, threshold));
    compaction::law_recent_chars(info, messages, config, auto_compact_enabled);
    lemma_parted(messages, config);
    if at < lens.len() {
        lemma_formatted_len(messages.take(stored));
        if at == 0 {
            assert(lens.take(0) =~= Seq::empty());
        }
    }
}

/// What the analysis of a conversation tells: the request messages, the stored message that each
/// comes from, and the point at which the conversation is parted, which is its end where even all
/// of it stays below the threshold.
pub proof fn law_analysis(
    messages: Seq<RenderedView>,
    config: CompactionConfig,
    build_stored_mapping: bool,
    request: int,
)
    requires
        0 <= request < zones::all_requests(messages).len(),
    ensures
        ({
            let zones = zones::zones_of(messages, config, build_stored_mapping);
            let stored = zones.request_to_stored[request] as int;
            let at = zones.boundary_req_idx as int;
            &&& zones.request_message_count == zones::all_requests(messages).len()
            &&& zones.visible_lens == zones::conversation_lens(messages, config)
            &&& zones.total_original_chars == stripping_laws::conversation_len(
                zones::all_requests(messages),
            )
            &&& zones.total_visible_chars == stripping_laws::conversation_len(
                stripping::compacted(
                    zones::all_requests(messages),
                    (config.deep_omit_threshold_tokens * 4) as nat,
                ),
            )
            &&& !build_stored_mapping ==> zones.request_to_stored.len() == 0
            &&& build_stored_mapping ==> {
                &&& zones.request_to_stored.len() == zones.request_message_count
                &&& 0 <= stored < messages.len()
                &&& requests_before(messages, stored) <= request < requests_before(
                    messages,
                    stored + 1,
                )
            }
            &&& at < zones.request_message_count ==> recent_from(
                zones.visible_lens,
                (config.summary_threshold_tokens * 4) as nat,
                at,
            )
            &&& at >= zones.request_message_count ==> at == zones.request_message_count
                && stripping::total(zones.visible_lens) < config.summary_threshold_tokens * 4
        }),
{
    let requests = zones::all_requests(messages);
    let threshold = (config.deep_omit_threshold_tokens * 4) as nat;
    let lens = zones::conversation_lens(messages, config);
    stripping_laws::lemma_conversation_len(requests);
    stripping_laws::lemma_conversation_len(stripping::compacted(requests, threshold));
    zones::lemma_origins_len(messages);
    lemma_origin(messages, request);
    lemma_parted(messages, config);
    stripping::law_last_start(lens, (config.summary_threshold_tokens * 4) as nat);
    assert(lens.skip(0) =~= lens);
}

} // verus!
