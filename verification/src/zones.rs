//! The second tier of compaction looks at a whole conversation at once: how much of it the model
//! sees, and where the part begins that is recent enough to be left alone.

use crate::message;
use crate::message::{LanguageModelRequestMessage, MessageView};
use crate::stripping;
use crate::stripping_laws;
use crate::text;
use vstd::prelude::*;

verus! {

/// Approximate characters per token, used for estimating token counts from char counts.
pub const CHARS_PER_TOKEN: usize = 4;

/// Configurable thresholds for compaction behavior.
#[derive(Debug, Clone, Copy, PartialEq, Eq, Structural)]
pub struct CompactionConfig {
    /// Approximate tokens from end beyond which deep omit occurs (Tier 1: tool result stripping).
    pub deep_omit_threshold_tokens: u64,
    /// Approximate tokens from end beyond which auto compact triggers (Tier 2: message
    /// summarization). Content before this boundary is eligible for summarization.
    pub summary_threshold_tokens: u64,
    /// Minimum content length (chars) to trigger auto compact. Both the formatted content, which
    /// is the Markdown of the messages, and what the model sees of them have to reach it.
    /// Content below this threshold is considered too small to warrant a summary.
    pub min_content_chars: usize,
}

/// The thresholds that hold where nothing is configured.
pub open spec fn default_config() -> CompactionConfig {
    CompactionConfig {
        deep_omit_threshold_tokens: 80_000,
        summary_threshold_tokens: 80_000,
        min_content_chars: 60_000,
    }
}

impl Default for CompactionConfig {
    fn default() -> (config: Self)
        ensures
            config == default_config(),
    {
        CompactionConfig {
            deep_omit_threshold_tokens: 80_000,
            summary_threshold_tokens: 80_000,
            min_content_chars: 60_000,
        }
    }
}

/// The compaction section of the settings. What is absent takes its default.
#[derive(Debug, Clone, Copy, PartialEq, Eq, Structural)]
pub struct CompactionSettingsContent {
    pub enabled: Option<bool>,
    pub deep_omit_threshold_tokens: Option<u64>,
    pub summary_threshold_tokens: Option<u64>,
    pub min_content_chars: Option<usize>,
}

impl CompactionSettingsContent {
    /// A section in which nothing is set.
    pub fn new() -> (section: Self)
        ensures
            section.enabled is None,
            section.deep_omit_threshold_tokens is None,
            section.summary_threshold_tokens is None,
            section.min_content_chars is None,
    {
        CompactionSettingsContent {
            enabled: None,
            deep_omit_threshold_tokens: None,
            summary_threshold_tokens: None,
            min_content_chars: None,
        }
    }
}

/// The configuration that a section of the settings stands for.
pub open spec fn configured(section: Option<CompactionSettingsContent>) -> CompactionConfig {
    match section {
        Some(section) => CompactionConfig {
            deep_omit_threshold_tokens: match section.deep_omit_threshold_tokens {
                Some(tokens) => tokens,
                None => default_config().deep_omit_threshold_tokens,
            },
            summary_threshold_tokens: match section.summary_threshold_tokens {
                Some(tokens) => tokens,
                None => default_config().summary_threshold_tokens,
            },
            min_content_chars: match section.min_content_chars {
                Some(chars) => chars,
                None => default_config().min_content_chars,
            },
        },
        None => default_config(),
    }
}

impl CompactionConfig {
    /// The configuration that the settings give, with defaults for what they leave out.
    pub fn from_settings(section: Option<&CompactionSettingsContent>) -> (config: Self)
        ensures
            config == configured(
                match section {
                    Some(section) => Some(*section),
                    None => None,
                },
            ),
    {
        let fallback = CompactionConfig::default();
        match section {
            Some(section) => CompactionConfig {
                deep_omit_threshold_tokens: section.deep_omit_threshold_tokens.unwrap_or(
                    fallback.deep_omit_threshold_tokens,
                ),
                summary_threshold_tokens: section.summary_threshold_tokens.unwrap_or(
                    fallback.summary_threshold_tokens,
                ),
                min_content_chars: section.min_content_chars.unwrap_or(fallback.min_content_chars),
            },
            None => fallback,
        }
    }

    /// Whether both thresholds, converted to characters, fit in a `usize`.
    pub open spec fn fits(self) -> bool {
        &&& self.deep_omit_threshold_tokens * CHARS_PER_TOKEN <= usize::MAX
        &&& self.summary_threshold_tokens * CHARS_PER_TOKEN <= usize::MAX
    }
}

/// A stored message in the forms that compaction reads: the request messages that it becomes,
/// and its Markdown.
#[derive(Debug, PartialEq)]
pub struct RenderedMessage {
    pub request: Vec<LanguageModelRequestMessage>,
    pub markdown: String,
}

/// What a [`RenderedMessage`] stands for.
pub struct RenderedView {
    pub request: Seq<MessageView>,
    pub markdown: Seq<char>,
}

impl View for RenderedMessage {
    type V = RenderedView;

    open spec fn view(&self) -> RenderedView {
        RenderedView {
            request: message::message_views(self.request@),
            markdown: self.markdown@,
        }
    }
}

/// The messages that a sequence of rendered messages stands for.
pub open spec fn rendered_views(messages: Seq<RenderedMessage>) -> Seq<RenderedView> {
    messages.map_values(|message: RenderedMessage| message@)
}

/// The request messages of all stored messages, one after the other.
pub open spec fn all_requests(messages: Seq<RenderedView>) -> Seq<MessageView>
    decreases messages.len(),
{
    if messages.len() == 0 {
        Seq::empty()
    } else {
        all_requests(messages.drop_last()) + messages.last().request
    }
}

/// For each request message, the index of the stored message that it comes from.
pub open spec fn origins(messages: Seq<RenderedView>) -> Seq<nat>
    decreases messages.len(),
{
    if messages.len() == 0 {
        Seq::empty()
    } else {
        origins(messages.drop_last()) + Seq::new(
            messages.last().request.len(),
            |i: int| (messages.len() - 1) as nat,
        )
    }
}

/// The length of what is left of a stripped message: nothing where it is empty, as it is dropped
/// then.
pub open spec fn kept_len(message: MessageView) -> nat {
    if stripping::removable(message) {
        0
    } else {
        message::message_len(message)
    }
}

/// The length of each request message as the model sees it: stripped before `start`, but for the
/// protected ones.
pub open spec fn visible_lens(requests: Seq<MessageView>, start: nat) -> Seq<nat> {
    Seq::new(
        requests.len(),
        |i: int|
            if i < start {
                kept_len(stripping::stripped_before(requests, start as int)[i])
            } else {
                message::message_len(requests[i])
            },
    )
}

/// The index of the first request message that is recent: the number of messages where even all
/// of them together stay below the threshold.
pub open spec fn summary_boundary(lens: Seq<nat>, threshold: nat) -> nat {
    match stripping::last_start(lens, threshold) {
        Some(start) => start,
        None => lens.len(),
    }
}

/// What the analysis of a conversation yields.
pub struct ZonesView {
    pub request_message_count: nat,
    pub request_to_stored: Seq<nat>,
    pub visible_lens: Seq<nat>,
    pub boundary_req_idx: nat,
    pub total_original_chars: nat,
    pub total_visible_chars: nat,
}

/// The lengths of the request messages as the model sees them under `config`.
pub open spec fn conversation_lens(messages: Seq<RenderedView>, config: CompactionConfig) -> Seq<
    nat,
> {
    let requests = all_requests(messages);
    visible_lens(
        requests,
        stripping::strip_start(
            requests,
            (config.deep_omit_threshold_tokens * CHARS_PER_TOKEN) as nat,
        ),
    )
}

/// The zones of a conversation under `config`.
pub open spec fn zones_of(
    messages: Seq<RenderedView>,
    config: CompactionConfig,
    build_stored_mapping: bool,
) -> ZonesView {
    let requests = all_requests(messages);
    let visible = conversation_lens(messages, config);
    ZonesView {
        request_message_count: requests.len(),
        request_to_stored: if build_stored_mapping {
            origins(messages)
        } else {
            Seq::empty()
        },
        visible_lens: visible,
        boundary_req_idx: summary_boundary(
            visible,
            (config.summary_threshold_tokens * CHARS_PER_TOKEN) as nat,
        ),
        total_original_chars: stripping::total(stripping::message_lens(requests)),
        total_visible_chars: stripping::total(
            stripping::message_lens(
                stripping::compacted(
                    requests,
                    (config.deep_omit_threshold_tokens * CHARS_PER_TOKEN) as nat,
                ),
            ),
        ),
    }
}

/// Shared intermediate result of analyzing conversation messages for compaction.
#[derive(Debug, PartialEq)]
pub struct CompactionZones {
    /// Number of request messages produced from the stored messages.
    pub request_message_count: usize,
    /// Maps each request message index back to the stored message index.
    /// Only populated when asked for.
    pub request_to_stored: Vec<usize>,
    /// LLM-visible length for each request message (after Tier 1 stripping).
    pub visible_lens: Vec<usize>,
    /// Index in the request messages where the summary boundary falls.
    pub boundary_req_idx: usize,
    /// Total chars of all request messages before Tier 1 stripping.
    pub total_original_chars: usize,
    /// Total chars after Tier 1 stripping (what the LLM actually sees).
    pub total_visible_chars: usize,
}

/// Lengths as mathematical numbers.
pub open spec fn nats(lens: Seq<usize>) -> Seq<nat> {
    lens.map_values(|len: usize| len as nat)
}

impl View for CompactionZones {
    type V = ZonesView;

    open spec fn view(&self) -> ZonesView {
        ZonesView {
            request_message_count: self.request_message_count as nat,
            request_to_stored: nats(self.request_to_stored@),
            visible_lens: nats(self.visible_lens@),
            boundary_req_idx: self.boundary_req_idx as nat,
            total_original_chars: self.total_original_chars as nat,
            total_visible_chars: self.total_visible_chars as nat,
        }
    }
}

/// Totals add up over concatenation.
pub proof fn lemma_total_concat(first: Seq<nat>, second: Seq<nat>)
    ensures
        stripping::total(first + second) == stripping::total(first) + stripping::total(second),
    decreases first.len(),
{
    if first.len() == 0 {
        assert(first + second =~= second);
    } else {
        assert((first + second).drop_first() =~= first.drop_first() + second);
        lemma_total_concat(first.drop_first(), second);
    }
}

/// A prefix and one more length add up to the next prefix, and no prefix exceeds the whole.
pub proof fn lemma_total_take(lens: Seq<nat>, count: int)
    requires
        0 <= count < lens.len(),
    ensures
        stripping::total(lens.take(count + 1)) == stripping::total(lens.take(count)) + lens[count],
        stripping::total(lens.take(count + 1)) <= stripping::total(lens),
{
    let one = seq![lens[count]];
    assert(lens.take(count + 1) =~= lens.take(count) + one);
    lemma_total_concat(lens.take(count), one);
    assert(one.drop_first() =~= Seq::empty());
    assert(stripping::total(one.drop_first()) == 0);
    assert(lens =~= lens.take(count + 1) + lens.skip(count + 1));
    lemma_total_concat(lens.take(count + 1), lens.skip(count + 1));
}

/// Smaller lengths have a smaller total.
pub proof fn lemma_total_le(small: Seq<nat>, large: Seq<nat>)
    requires
        small.len() == large.len(),
        forall|i: int| 0 <= i < small.len() ==> #[trigger] small[i] <= #[trigger] large[i],
    ensures
        stripping::total(small) <= stripping::total(large),
    decreases small.len(),
{
    if small.len() > 0 {
        assert(small[0] <= large[0]);
        assert forall|i: int| 0 <= i < small.drop_first().len() implies
            #[trigger] small.drop_first()[i] <= #[trigger] large.drop_first()[i] by {
            assert(small[i + 1] <= large[i + 1]);
        }
        lemma_total_le(small.drop_first(), large.drop_first());
    }
}

/// The sum of the first `count` lengths.
pub fn sum_first(lens: &Vec<usize>, count: usize) -> (sum: usize)
    requires
        count <= lens@.len(),
        stripping::total(nats(lens@)) <= usize::MAX,
    ensures
        sum == stripping::total(nats(lens@).take(count as int)),
{
    let ghost all = nats(lens@);
    let mut sum: usize = 0;
    let mut i: usize = 0;
    while i < count
        invariant
            i <= count <= lens@.len(),
            all == nats(lens@),
            stripping::total(all) <= usize::MAX,
            sum == stripping::total(all.take(i as int)),
        decreases count - i,
    {
        proof {
            lemma_total_take(all, i as int);
        }
        sum = sum + lens[i];
        i = i + 1;
    }
    sum
}

/// The last index from which the lengths up to the end reach the threshold.
pub fn scan_from_end(lens: &Vec<usize>, threshold: usize) -> (start: Option<usize>)
    ensures
        match start {
            Some(start) => stripping::last_start(nats(lens@), threshold as nat) == Some(
                start as nat,
            ),
            None => stripping::last_start(nats(lens@), threshold as nat) is None,
        },
{
    let ghost all = nats(lens@);
    let mut from_end: usize = 0;
    let mut i: usize = lens.len();
    proof {
        assert(all.skip(i as int).len() == 0);
    }
    while i > 0
        invariant
            i <= lens@.len(),
            all == nats(lens@),
            from_end == stripping::total(all.skip(i as int)),
            stripping::last_start(all.skip(i as int), threshold as nat) is None,
        decreases i,
    {
        i = i - 1;
        proof {
            assert(all.skip(i as int).drop_first() =~= all.skip(i + 1));
        }
        let longer: usize = from_end.saturating_add(lens[i]);
        if longer >= threshold {
            proof {
                stripping::lemma_last_start_skip(all, threshold as nat, i as int);
            }
            return Some(i);
        }
        from_end = longer;
    }
    proof {
        assert(all.skip(0) =~= all);
    }
    None
}

/// Where the request messages of the stored message at `index` stand among all of them.
pub proof fn lemma_requests_at(messages: Seq<RenderedView>, index: int)
    requires
        0 <= index < messages.len(),
    ensures
        all_requests(messages).len() == origins(messages).len(),
        all_requests(messages.take(index + 1)).len() == all_requests(messages.take(index)).len()
            + messages[index].request.len(),
        all_requests(messages.take(index + 1)).len() <= all_requests(messages).len(),
        forall|j: int|
            0 <= j < messages[index].request.len() ==> {
                let at = all_requests(messages.take(index)).len() + j;
                &&& all_requests(messages)[at] == #[trigger] messages[index].request[j]
                &&& origins(messages)[at] == index
            },
    decreases messages.len(),
{
    assert(messages.take(index + 1).drop_last() =~= messages.take(index));
    lemma_origins_len(messages);
    lemma_origins_len(messages.take(index));
    if index == messages.len() - 1 {
        assert(messages.take(index + 1) =~= messages);
        assert(messages.drop_last() =~= messages.take(index));
    } else {
        let before = messages.drop_last();
        lemma_requests_at(before, index);
        assert(before.take(index) =~= messages.take(index));
        assert(before.take(index + 1) =~= messages.take(index + 1));
        lemma_origins_len(before);
        assert(before[index] == messages[index]);
        assert forall|j: int| 0 <= j < messages[index].request.len() implies {
            let at = all_requests(messages.take(index)).len() + j;
            &&& all_requests(messages)[at] == #[trigger] messages[index].request[j]
            &&& origins(messages)[at] == index
        } by {
            let at = all_requests(messages.take(index)).len() + j;
            assert(all_requests(before)[at] == before[index].request[j]);
        }
    }
}

/// There is one origin for each request message, and it is the index of a stored message.
pub proof fn lemma_origins_len(messages: Seq<RenderedView>)
    ensures
        all_requests(messages).len() == origins(messages).len(),
        forall|i: int| 0 <= i < origins(messages).len() ==> #[trigger] origins(messages)[i]
            < messages.len(),
    decreases messages.len(),
{
    if messages.len() > 0 {
        lemma_origins_len(messages.drop_last());
    }
}

/// The length of each request message, where it is asked for its origin, and whether it holds the
/// result of a tool.
fn request_lens(messages: &[RenderedMessage], build_stored_mapping: bool) -> (result: (
    Vec<usize>,
    Vec<usize>,
    Vec<bool>,
))
    ensures
        result.2@.len() == all_requests(rendered_views(messages@)).len(),
        forall|k: int|
            0 <= k < result.2@.len() ==> #[trigger] result.2@[k] == stripping::has_tool_result(
                all_requests(rendered_views(messages@))[k],
            ),
        nats(result.0@) == stripping::message_lens(all_requests(rendered_views(messages@))),
        nats(result.1@) == if build_stored_mapping {
            origins(rendered_views(messages@))
        } else {
            Seq::empty()
        },
{
    let ghost views = rendered_views(messages@);
    let ghost requests = all_requests(views);
    let mut lens: Vec<usize> = Vec::new();
    let mut stored: Vec<usize> = Vec::new();
    let mut holds: Vec<bool> = Vec::new();
    let mut i: usize = 0;
    proof {
        lemma_origins_len(views);
        assert(all_requests(views.take(0)) =~= Seq::empty());
    }
    while i < messages.len()
        invariant
            i <= messages@.len(),
            views == rendered_views(messages@),
            requests == all_requests(views),
            lens@.len() == all_requests(views.take(i as int)).len(),
            lens@.len() <= requests.len(),
            requests.len() == origins(views).len(),
            forall|k: int|
                0 <= k < lens@.len() ==> #[trigger] lens@[k] == message::message_len(requests[k]),
            holds@.len() == lens@.len(),
            forall|k: int|
                0 <= k < holds@.len() ==> #[trigger] holds@[k] == stripping::has_tool_result(
                    requests[k],
                ),
            stored@.len() == if build_stored_mapping {
                lens@.len()
            } else {
                0
            },
            forall|k: int| 0 <= k < stored@.len() ==> #[trigger] stored@[k] == origins(views)[k],
        decreases messages.len() - i,
    {
        let ghost base = lens@.len();
        let ghost own = views[i as int].request;
        proof {
            lemma_requests_at(views, i as int);
            assert(own == message::message_views(messages@[i as int].request@));
        }
        let mut j: usize = 0;
        while j < messages[i].request.len()
            invariant
                i < messages@.len(),
                j <= messages@[i as int].request@.len(),
                own == message::message_views(messages@[i as int].request@),
                base + own.len() <= requests.len(),
                requests.len() == origins(views).len(),
                forall|k: int|
                    0 <= k < own.len() ==> requests[base + k] == #[trigger] own[k]
                        && origins(views)[base + k] == i,
                lens@.len() == base + j,
                forall|k: int|
                    0 <= k < lens@.len() ==> #[trigger] lens@[k] == message::message_len(
                        requests[k],
                    ),
                holds@.len() == lens@.len(),
                forall|k: int|
                    0 <= k < holds@.len() ==> #[trigger] holds@[k] == stripping::has_tool_result(
                        requests[k],
                    ),
                stored@.len() == if build_stored_mapping {
                    lens@.len()
                } else {
                    0
                },
                forall|k: int|
                    0 <= k < stored@.len() ==> #[trigger] stored@[k] == origins(views)[k],
            decreases messages@[i as int].request@.len() - j,
        {
            let contents = messages[i].request[j].string_contents();
            assert(requests[base + j] == own[j as int]);
            lens.push(text::byte_len(contents.as_str()));
            holds.push(stripping::holds_tool_result(&messages[i].request[j]));
            if build_stored_mapping {
                stored.push(i);
            }
            j = j + 1;
        }
        i = i + 1;
    }
    proof {
        assert(views.take(i as int) =~= views);
        assert(nats(lens@) =~= stripping::message_lens(requests));
        assert(nats(stored@) =~= if build_stored_mapping {
            origins(views)
        } else {
            Seq::empty()
        });
    }
    (lens, stored, holds)
}

/// The lengths of the request messages with those before `start` stripped, but for those from
/// `protected_from` on that hold the result of a tool.
fn lens_seen_by_model(
    messages: &[RenderedMessage],
    start: usize,
    holds: &Vec<bool>,
    protected_from: usize,
) -> (visible: Vec<usize>)
    requires
        holds@.len() == all_requests(rendered_views(messages@)).len(),
        forall|k: int|
            0 <= k < holds@.len() ==> #[trigger] holds@[k] == stripping::has_tool_result(
                all_requests(rendered_views(messages@))[k],
            ),
        forall|k: int|
            0 <= k < holds@.len() ==> (k >= protected_from) == (stripping::tool_result_messages(
                #[trigger] all_requests(rendered_views(messages@)).skip(k),
            ) <= stripping::UNCOMPACTED_RECENT_AGENT_MESSAGES),
        stripping::total(stripping::message_lens(all_requests(rendered_views(messages@))))
            <= usize::MAX,
    ensures
        nats(visible@) == visible_lens(all_requests(rendered_views(messages@)), start as nat),
{
    let ghost views = rendered_views(messages@);
    let ghost requests = all_requests(views);
    let mut visible: Vec<usize> = Vec::new();
    let mut i: usize = 0;
    proof {
        assert(all_requests(views.take(0)) =~= Seq::empty());
    }
    while i < messages.len()
        invariant
            i <= messages@.len(),
            views == rendered_views(messages@),
            requests == all_requests(views),
            stripping::total(stripping::message_lens(requests)) <= usize::MAX,
            holds@.len() == requests.len(),
            forall|k: int|
                0 <= k < holds@.len() ==> #[trigger] holds@[k] == stripping::has_tool_result(
                    requests[k],
                ),
            forall|k: int|
                0 <= k < holds@.len() ==> (k >= protected_from) == (
                stripping::tool_result_messages(#[trigger] requests.skip(k))
                    <= stripping::UNCOMPACTED_RECENT_AGENT_MESSAGES),
            visible@.len() == all_requests(views.take(i as int)).len(),
            visible@.len() <= requests.len(),
            forall|k: int|
                0 <= k < visible@.len() ==> #[trigger] visible@[k] == visible_lens(
                    requests,
                    start as nat,
                )[k],
        decreases messages.len() - i,
    {
        let ghost base = visible@.len();
        let ghost own = views[i as int].request;
        proof {
            lemma_requests_at(views, i as int);
            assert(own == message::message_views(messages@[i as int].request@));
        }
        let mut j: usize = 0;
        while j < messages[i].request.len()
            invariant
                i < messages@.len(),
                j <= messages@[i as int].request@.len(),
                own == message::message_views(messages@[i as int].request@),
                base + own.len() <= requests.len(),
                stripping::total(stripping::message_lens(requests)) <= usize::MAX,
                holds@.len() == requests.len(),
                forall|k: int|
                    0 <= k < holds@.len() ==> #[trigger] holds@[k] == stripping::has_tool_result(
                        requests[k],
                    ),
                forall|k: int|
                    0 <= k < holds@.len() ==> (k >= protected_from) == (
                    stripping::tool_result_messages(#[trigger] requests.skip(k))
                        <= stripping::UNCOMPACTED_RECENT_AGENT_MESSAGES),
                forall|k: int| 0 <= k < own.len() ==> requests[base + k] == #[trigger] own[k],
                visible@.len() == base + j,
                forall|k: int|
                    0 <= k < visible@.len() ==> #[trigger] visible@[k] == visible_lens(
                        requests,
                        start as nat,
                    )[k],
            decreases messages@[i as int].request@.len() - j,
        {
            proof {
                assert(requests[base + j] == own[j as int]);
                lemma_total_take(stripping::message_lens(requests), base + j);
            }
            let request = &messages[i].request[j];
            let at: usize = visible.len();
            let len: usize = if at < start && !(at >= protected_from && holds[at]) {
                if stripping::strips_to_nothing(request) {
                    0
                } else {
                    stripping::stripped_content_len(request)
                }
            } else {
                let contents = request.string_contents();
                text::byte_len(contents.as_str())
            };
            proof {
                assert(requests.skip(at as int).len() == requests.len() - at);
                if at < start && at >= protected_from && holds@[at as int] {
                    lemma_protected_kept(requests, at as int);
                }
            }
            visible.push(len);
            j = j + 1;
        }
        i = i + 1;
    }
    proof {
        assert(views.take(i as int) =~= views);
        assert(nats(visible@) =~= visible_lens(requests, start as nat));
    }
    visible
}

/// A message that holds the result of a tool is not dropped.
proof fn lemma_protected_kept(requests: Seq<MessageView>, at: int)
    requires
        stripping::has_tool_result(requests[at]),
    ensures
        kept_len(requests[at]) == message::message_len(requests[at]),
{
    let content = requests[at].content;
    let result = choose|i: int| 0 <= i < content.len() && #[trigger] content[i] is ToolResult;
    assert(!stripping::negligible(requests[at].content[result]));
}

proof fn lemma_kept_lens(requests: Seq<MessageView>, start: nat, count: int)
    requires
        0 <= count <= start <= requests.len(),
    ensures
        stripping::total(visible_lens(requests, start).take(count)) == stripping::total(
            stripping::message_lens(
                stripping::without_empty(
                    stripping::stripped_before(requests, start as int).take(count),
                ),
            ),
        ),
    decreases count,
{
    let visible = visible_lens(requests, start);
    let stripped = stripping::stripped_before(requests, start as int);
    if count == 0 {
        assert(visible.take(0) =~= Seq::empty());
        assert(stripped.take(0) =~= Seq::empty());
    } else {
        let last = count - 1;
        let before = stripping::without_empty(stripped.take(last));
        lemma_kept_lens(requests, start, last);
        lemma_total_take(visible, last);
        assert(stripped.take(count).drop_last() =~= stripped.take(last));
        assert(stripped.take(count).last() == stripped[last]);
        if !stripping::removable(stripped[last]) {
            let lens = stripping::message_lens(before.push(stripped[last]));
            lemma_total_take(lens, before.len() as int);
            assert(lens.take(before.len() as int) =~= stripping::message_lens(before));
            assert(lens.take(before.len() as int + 1) =~= lens);
        }
    }
}

/// The lengths of the messages as the model sees them add up to the length of the conversation
/// that is left after the first tier of compaction.
pub proof fn law_visible_lens_add_up(messages: Seq<RenderedView>, config: CompactionConfig)
    ensures
        stripping::total(conversation_lens(messages, config)) == zones_of(
            messages,
            config,
            false,
        ).total_visible_chars,
{
    let requests = all_requests(messages);
    let threshold = (config.deep_omit_threshold_tokens * CHARS_PER_TOKEN) as nat;
    let start = stripping::strip_start(requests, threshold);
    let visible = conversation_lens(messages, config);
    stripping::lemma_strip_start(requests, threshold);
    stripping_laws::lemma_compacted_total(requests, threshold);
    lemma_kept_lens(requests, start, start as int);
    assert(visible =~= visible.take(start as int) + stripping::message_lens(
        requests.skip(start as int),
    ));
    lemma_total_concat(
        visible.take(start as int),
        stripping::message_lens(requests.skip(start as int)),
    );
}

/// What the model sees of a conversation is no longer than the conversation.
pub proof fn law_visible_at_most_original(messages: Seq<RenderedView>, config: CompactionConfig)
    ensures
        zones_of(messages, config, false).total_visible_chars
            <= zones_of(messages, config, false).total_original_chars,
{
    let requests = all_requests(messages);
    let threshold = (config.deep_omit_threshold_tokens * CHARS_PER_TOKEN) as nat;
    stripping_laws::law_compaction_shrinks(requests, threshold);
    stripping_laws::lemma_conversation_len(requests);
    stripping_laws::lemma_conversation_len(stripping::compacted(requests, threshold));
}

/// Analyzes the conversation messages and computes the shared compaction zone data:
/// request message counts, Tier 1 stripping, visible lengths, and summary boundary.
pub fn analyze_compaction_zones(
    messages: &[RenderedMessage],
    config: &CompactionConfig,
    build_stored_mapping: bool,
) -> (zones: CompactionZones)
    requires
        config.fits(),
        stripping::total(stripping::message_lens(all_requests(rendered_views(messages@))))
            <= usize::MAX,
    ensures
        zones@ == zones_of(rendered_views(messages@), *config, build_stored_mapping),
{
    let ghost views = rendered_views(messages@);
    let (lens, request_to_stored, holds) = request_lens(messages, build_stored_mapping);
    let (protected_from, any_tool_result) = stripping::protection_start(
        &holds,
        Ghost(all_requests(views)),
    );
    let deep_omit_chars: usize = (config.deep_omit_threshold_tokens as usize) * CHARS_PER_TOKEN;
    let strip_start: usize = if any_tool_result && deep_omit_chars > 0 {
        match scan_from_end(&lens, deep_omit_chars) {
            Some(start) => start,
            None => 0,
        }
    } else {
        0
    };
    proof {
        law_visible_at_most_original(views, *config);
        law_visible_lens_add_up(views, *config);
        assert(nats(lens@).take(lens@.len() as int) =~= nats(lens@));
    }
    let total_original_chars: usize = sum_first(&lens, lens.len());
    let visible = lens_seen_by_model(messages, strip_start, &holds, protected_from);
    proof {
        assert(nats(visible@).take(visible@.len() as int) =~= nats(visible@));
    }
    let total_visible_chars: usize = sum_first(&visible, visible.len());
    let summary_chars: usize = (config.summary_threshold_tokens as usize) * CHARS_PER_TOKEN;
    let boundary_req_idx: usize = match scan_from_end(&visible, summary_chars) {
        Some(start) => start,
        None => visible.len(),
    };
    CompactionZones {
        request_message_count: lens.len(),
        request_to_stored,
        visible_lens: visible,
        boundary_req_idx,
        total_original_chars,
        total_visible_chars,
    }
}

} // verus!
