//! The stored conversation, and how a summary takes the place of its older messages.

use crate::json::Json;
use crate::message::{LanguageModelImage, LanguageModelToolResult, LanguageModelToolUse};
use vstd::hash_map::*;
use vstd::prelude::*;
use vstd::string::*;

verus! {

/// Identifies a message of the user.
#[derive(Debug, PartialEq)]
pub struct UserMessageId(pub String);

/// One piece of a message of the user.
#[derive(Debug, PartialEq)]
pub enum UserMessageContent {
    Text(String),
    Mention { uri: String, content: String },
    Image(LanguageModelImage),
}

/// A message of the user.
#[derive(Debug, PartialEq)]
pub struct UserMessage {
    pub id: UserMessageId,
    pub content: Vec<UserMessageContent>,
}

/// One piece of a message of the agent.
#[derive(Debug, PartialEq)]
pub enum AgentMessageContent {
    Text(String),
    Thinking { text: String, signature: Option<String> },
    RedactedThinking(String),
    ToolUse(LanguageModelToolUse),
}

/// A message of the agent, with the results of the tools that it called.
#[derive(Debug, PartialEq)]
pub struct AgentMessage {
    pub content: Vec<AgentMessageContent>,
    pub tool_results: Vec<(String, LanguageModelToolResult)>,
    pub reasoning_details: Option<Json>,
}

/// A stored message.
#[derive(Debug, PartialEq)]
pub enum Message {
    User(UserMessage),
    Agent(AgentMessage),
    Resume,
}

/// The tokens that a request used.
#[derive(Debug, Clone, Copy, PartialEq, Eq, Structural)]
pub struct TokenUsage {
    pub input_tokens: u64,
    pub output_tokens: u64,
}

/// The tokens that were used on each message of the user.
pub struct RequestTokenUsage {
    usage: StringHashMap<TokenUsage>,
}

impl View for RequestTokenUsage {
    type V = Map<Seq<char>, TokenUsage>;

    closed spec fn view(&self) -> Map<Seq<char>, TokenUsage> {
        self.usage@
    }
}

impl RequestTokenUsage {
    /// A table without entries.
    pub fn new() -> (table: Self)
        ensures
            table@ == Map::<Seq<char>, TokenUsage>::empty(),
    {
        RequestTokenUsage { usage: StringHashMap::new() }
    }

    /// Records the usage on a message.
    pub fn insert(&mut self, id: UserMessageId, usage: TokenUsage)
        ensures
            final(self)@ == old(self)@.insert(id.0@, usage),
    {
        self.usage.insert(id.0, usage);
    }

    /// The usage on a message, where one is recorded.
    pub fn get(&self, id: &UserMessageId) -> (usage: Option<TokenUsage>)
        ensures
            match usage {
                Some(usage) => self@.contains_key(id.0@) && self@[id.0@] == usage,
                None => !self@.contains_key(id.0@),
            },
    {
        match self.usage.get(id.0.as_str()) {
            Some(usage) => Some(*usage),
            None => None,
        }
    }

    /// Forgets the usage on a message.
    pub fn remove(&mut self, id: &UserMessageId)
        ensures
            final(self)@ == old(self)@.remove(id.0@),
    {
        self.usage.remove(id.0.as_str());
    }
}

/// The ids of the messages of the user.
pub open spec fn user_ids(messages: Seq<Message>) -> Set<Seq<char>> {
    Set::new(
        |id: Seq<char>|
            exists|i: int|
                0 <= i < messages.len() && (#[trigger] messages[i] matches Message::User(message)
                    && message.id.0@ == id),
    )
}

/// What stands in front of a summary.
pub const SUMMARY_HEADING: &'static str = "[Earlier conversation summary]\n";

/// What the agent answers to a summary.
pub const SUMMARY_ACKNOWLEDGMENT: &'static str =
    "Understood. I'll keep this summary in mind for context in our continued conversation.";

/// Whether a message is the one of the user, under the given id, that holds a summary.
pub open spec fn holds_summary(message: Message, id: UserMessageId, summary: Seq<char>) -> bool {
    message matches Message::User(message) && {
        &&& message.id == id
        &&& message.content@.len() == 1
        &&& message.content@[0] matches UserMessageContent::Text(text) && text@ == SUMMARY_HEADING@
            + summary
    }
}

/// Whether a message is the one in which the agent acknowledges a summary.
pub open spec fn acknowledges_summary(message: Message) -> bool {
    message matches Message::Agent(message) && {
        &&& message.content@.len() == 1
        &&& message.content@[0] matches AgentMessageContent::Text(text) && text@
            == SUMMARY_ACKNOWLEDGMENT@
        &&& message.tool_results@.len() == 0
        &&& message.reasoning_details is None
    }
}

/// Replaces the messages before `boundary_index` with a summary user message, under the id
/// `summary_id`, and an agent acknowledgment, cleaning up per-request token usage entries for
/// removed user messages.
pub fn apply_message_compaction(
    messages: &mut Vec<Message>,
    request_token_usage: &mut RequestTokenUsage,
    boundary_index: usize,
    summary_text: String,
    summary_id: UserMessageId,
)
    requires
        boundary_index <= old(messages)@.len(),
    ensures
        final(messages)@.len() == old(messages)@.len() - boundary_index + 2,
        holds_summary(final(messages)@[0], summary_id, summary_text@),
        acknowledges_summary(final(messages)@[1]),
        final(messages)@.skip(2) == old(messages)@.skip(boundary_index as int),
        final(request_token_usage)@ == old(request_token_usage)@.remove_keys(
            user_ids(old(messages)@.take(boundary_index as int)),
        ),
{
    let ghost all = messages@;
    let ghost usage = request_token_usage@;
    let mut recent = messages.split_off(boundary_index);
    let ghost older = messages@;
    assert(older =~= all.take(boundary_index as int));
    let mut i: usize = 0;
    proof {
        assert(user_ids(older.take(0)) =~= Set::empty());
        assert(usage.remove_keys(user_ids(older.take(0))) =~= usage);
    }
    while i < messages.len()
        invariant
            i <= messages@.len(),
            messages@ == older,
            request_token_usage@ == usage.remove_keys(user_ids(older.take(i as int))),
        decreases messages.len() - i,
    {
        let ghost before = user_ids(older.take(i as int));
        let ghost after = user_ids(older.take(i + 1));
        proof {
            lemma_user_ids_step(older, i as int);
        }
        if let Message::User(message) = &messages[i] {
            request_token_usage.remove(&message.id);
        }
        proof {
            assert(request_token_usage@ =~= usage.remove_keys(after));
        }
        i = i + 1;
    }
    assert(older.take(i as int) =~= older);
    let mut text = SUMMARY_HEADING.to_owned();
    text.append(summary_text.as_str());
    let summary = Message::User(
        UserMessage { id: summary_id, content: vec![UserMessageContent::Text(text)] },
    );
    let acknowledgment = Message::Agent(
        AgentMessage {
            content: vec![AgentMessageContent::Text(SUMMARY_ACKNOWLEDGMENT.to_owned())],
            tool_results: Vec::new(),
            reasoning_details: None,
        },
    );
    let mut compacted: Vec<Message> = vec![summary, acknowledgment];
    compacted.append(&mut recent);
    *messages = compacted;
    assert(messages@.skip(2) =~= all.skip(boundary_index as int));
}

proof fn lemma_user_ids_step(messages: Seq<Message>, index: int)
    requires
        0 <= index < messages.len(),
    ensures
        user_ids(messages.take(index + 1)) == match messages[index] {
            Message::User(message) => user_ids(messages.take(index)).insert(message.id.0@),
            _ => user_ids(messages.take(index)),
        },
{
    let before = messages.take(index);
    let after = messages.take(index + 1);
    assert(after[index] == messages[index]);
    assert forall|id: Seq<char>| user_ids(before).contains(id) implies user_ids(after).contains(
        id,
    ) by {
        let i = choose|i: int|
            0 <= i < before.len() && (#[trigger] before[i] matches Message::User(message)
                && message.id.0@ == id);
        assert(after[i] == before[i]);
    }
    assert forall|id: Seq<char>| user_ids(after).contains(id) implies user_ids(before).contains(id)
        || (messages[index] matches Message::User(message) && message.id.0@ == id) by {
        let i = choose|i: int|
            0 <= i < after.len() && (#[trigger] after[i] matches Message::User(message)
                && message.id.0@ == id);
        if i < index {
            assert(before[i] == after[i]);
        }
    }
    assert(user_ids(after) =~= match messages[index] {
        Message::User(message) => user_ids(before).insert(message.id.0@),
        _ => user_ids(before),
    });
}

} // verus!
