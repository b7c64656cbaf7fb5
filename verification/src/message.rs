//! Messages in the form in which they are sent to a language model.

use crate::json::{Json, JsonView};
use crate::text;
use vstd::prelude::*;
use vstd::string::*;

verus! {

/// Who speaks in a message.
#[derive(Debug, Clone, Copy, PartialEq, Eq, Structural)]
pub enum Role {
    System,
    User,
    Assistant,
}

/// An image, as the encoded data that is sent along.
#[derive(Debug, PartialEq)]
pub struct LanguageModelImage {
    pub source: String,
}

/// A call of a tool that the model asks for.
#[derive(Debug, PartialEq)]
pub struct LanguageModelToolUse {
    pub id: String,
    pub name: String,
    pub input: Json,
}

/// What a [`LanguageModelToolUse`] stands for.
pub struct ToolUseView {
    pub id: Seq<char>,
    pub name: Seq<char>,
    pub input: JsonView,
}

impl View for LanguageModelToolUse {
    type V = ToolUseView;

    open spec fn view(&self) -> ToolUseView {
        ToolUseView { id: self.id@, name: self.name@, input: self.input@ }
    }
}

/// What a tool gave back.
#[derive(Debug, PartialEq)]
pub enum LanguageModelToolResultContent {
    Text(String),
    Image(LanguageModelImage),
}

/// What a [`LanguageModelToolResultContent`] stands for.
pub enum ToolResultContentView {
    Text(Seq<char>),
    Image(Seq<char>),
}

impl View for LanguageModelToolResultContent {
    type V = ToolResultContentView;

    open spec fn view(&self) -> ToolResultContentView {
        match self {
            LanguageModelToolResultContent::Text(text) => ToolResultContentView::Text(text@),
            LanguageModelToolResultContent::Image(image) => ToolResultContentView::Image(
                image.source@,
            ),
        }
    }
}

/// The text of a tool's result, where it has one.
pub open spec fn result_text(content: ToolResultContentView) -> Option<Seq<char>> {
    match content {
        ToolResultContentView::Text(text) => Some(text),
        ToolResultContentView::Image(_) => None,
    }
}

impl LanguageModelToolResultContent {
    /// The text of this result, where it has one.
    pub fn to_str(&self) -> (text: Option<&str>)
        ensures
            match text {
                Some(text) => result_text(self@) == Some(text@),
                None => result_text(self@) is None,
            },
    {
        match self {
            LanguageModelToolResultContent::Text(text) => Some(text.as_str()),
            LanguageModelToolResultContent::Image(_) => None,
        }
    }
}

/// The result of a tool call.
#[derive(Debug, PartialEq)]
pub struct LanguageModelToolResult {
    pub tool_use_id: String,
    pub tool_name: String,
    pub is_error: bool,
    pub content: LanguageModelToolResultContent,
}

/// What a [`LanguageModelToolResult`] stands for.
pub struct ToolResultView {
    pub tool_use_id: Seq<char>,
    pub tool_name: Seq<char>,
    pub is_error: bool,
    pub content: ToolResultContentView,
}

impl View for LanguageModelToolResult {
    type V = ToolResultView;

    open spec fn view(&self) -> ToolResultView {
        ToolResultView {
            tool_use_id: self.tool_use_id@,
            tool_name: self.tool_name@,
            is_error: self.is_error,
            content: self.content@,
        }
    }
}

/// One piece of a message.
#[derive(Debug, PartialEq)]
pub enum MessageContent {
    Text(String),
    Thinking { text: String, signature: Option<String> },
    RedactedThinking(String),
    Image(LanguageModelImage),
    ToolUse(LanguageModelToolUse),
    ToolResult(LanguageModelToolResult),
}

/// What a [`MessageContent`] stands for.
pub enum ContentView {
    Text(Seq<char>),
    Thinking { text: Seq<char>, signature: Option<Seq<char>> },
    RedactedThinking(Seq<char>),
    Image(Seq<char>),
    ToolUse(ToolUseView),
    ToolResult(ToolResultView),
}

impl View for MessageContent {
    type V = ContentView;

    open spec fn view(&self) -> ContentView {
        match self {
            MessageContent::Text(text) => ContentView::Text(text@),
            MessageContent::Thinking { text, signature } => ContentView::Thinking {
                text: text@,
                signature: match signature {
                    Some(signature) => Some(signature@),
                    None => None,
                },
            },
            MessageContent::RedactedThinking(data) => ContentView::RedactedThinking(data@),
            MessageContent::Image(image) => ContentView::Image(image.source@),
            MessageContent::ToolUse(tool_use) => ContentView::ToolUse(tool_use@),
            MessageContent::ToolResult(tool_result) => ContentView::ToolResult(tool_result@),
        }
    }
}

/// The pieces that a sequence of contents stands for.
pub open spec fn content_views(contents: Seq<MessageContent>) -> Seq<ContentView> {
    contents.map_values(|content: MessageContent| content@)
}

/// The text of a piece, where it has one.
pub open spec fn content_text(content: ContentView) -> Option<Seq<char>> {
    match content {
        ContentView::Text(text) => Some(text),
        ContentView::Thinking { text, .. } => Some(text),
        ContentView::ToolResult(tool_result) => result_text(tool_result.content),
        _ => None,
    }
}

/// Whether a piece has a text that is blank.
pub open spec fn content_empty(content: ContentView) -> bool {
    match content_text(content) {
        Some(text) => text::blank(text),
        None => false,
    }
}

impl MessageContent {
    /// The text of this piece, where it has one.
    pub fn to_str(&self) -> (text: Option<&str>)
        ensures
            match text {
                Some(text) => content_text(self@) == Some(text@),
                None => content_text(self@) is None,
            },
    {
        match self {
            MessageContent::Text(text) => Some(text.as_str()),
            MessageContent::Thinking { text, .. } => Some(text.as_str()),
            MessageContent::ToolResult(tool_result) => tool_result.content.to_str(),
            MessageContent::RedactedThinking(_) => None,
            MessageContent::ToolUse(_) => None,
            MessageContent::Image(_) => None,
        }
    }

    /// Whether this piece has a text that is blank.
    pub fn is_empty(&self) -> (empty: bool)
        ensures
            empty == content_empty(self@),
    {
        match self.to_str() {
            Some(text) => text::is_blank(text),
            None => false,
        }
    }
}

/// A message as it is sent to a language model.
#[derive(Debug, PartialEq)]
pub struct LanguageModelRequestMessage {
    pub role: Role,
    pub content: Vec<MessageContent>,
    pub cache: bool,
    pub reasoning_details: Option<Json>,
}

/// What a [`LanguageModelRequestMessage`] stands for.
pub struct MessageView {
    pub role: Role,
    pub content: Seq<ContentView>,
    pub cache: bool,
    pub reasoning_details: Option<JsonView>,
}

impl View for LanguageModelRequestMessage {
    type V = MessageView;

    open spec fn view(&self) -> MessageView {
        MessageView {
            role: self.role,
            content: content_views(self.content@),
            cache: self.cache,
            reasoning_details: match self.reasoning_details {
                Some(details) => Some(details@),
                None => None,
            },
        }
    }
}

/// The messages that a sequence of request messages stands for.
pub open spec fn message_views(messages: Seq<LanguageModelRequestMessage>) -> Seq<MessageView> {
    messages.map_values(|message: LanguageModelRequestMessage| message@)
}

/// The texts of all pieces, one after the other.
pub open spec fn joined_text(contents: Seq<ContentView>) -> Seq<char>
    decreases contents.len(),
{
    if contents.len() == 0 {
        Seq::empty()
    } else {
        joined_text(contents.drop_last()) + match content_text(contents.last()) {
            Some(text) => text,
            None => Seq::empty(),
        }
    }
}

/// Whether every piece has a text that is blank.
pub open spec fn all_empty(contents: Seq<ContentView>) -> bool {
    forall|i: int| 0 <= i < contents.len() ==> content_empty(#[trigger] contents[i])
}

/// The length in bytes of a message's texts.
pub open spec fn message_len(message: MessageView) -> nat {
    text::utf8_len(joined_text(message.content))
}

impl LanguageModelRequestMessage {
    /// The texts of this message, one after the other.
    pub fn string_contents(&self) -> (joined: String)
        ensures
            joined@ == joined_text(self@.content),
    {
        let mut joined = String::new();
        let ghost contents = self@.content;
        proof {
            assert(contents.take(0) =~= Seq::empty());
        }
        let mut i: usize = 0;
        while i < self.content.len()
            invariant
                i <= self.content@.len(),
                contents == content_views(self.content@),
                joined@ == joined_text(contents.take(i as int)),
            decreases self.content.len() - i,
        {
            proof {
                assert(contents.take(i + 1).drop_last() =~= contents.take(i as int));
                assert(contents.take(i + 1).last() == self.content@[i as int]@);
            }
            match self.content[i].to_str() {
                Some(text) => {
                    joined.append(text);
                },
                None => {
                    proof {
                        assert(joined@ + Seq::<char>::empty() =~= joined@);
                    }
                },
            }
            i = i + 1;
        }
        proof {
            assert(contents.take(i as int) =~= contents);
        }
        joined
    }

    /// Whether every piece of this message has a text that is blank.
    pub fn contents_empty(&self) -> (empty: bool)
        ensures
            empty == all_empty(self@.content),
    {
        let ghost contents = self@.content;
        let mut i: usize = 0;
        while i < self.content.len()
            invariant
                i <= self.content@.len(),
                contents == content_views(self.content@),
                forall|j: int| 0 <= j < i ==> content_empty(#[trigger] contents[j]),
                self@.content == contents,
            decreases self.content.len() - i,
        {
            assert(contents[i as int] == self.content@[i as int]@);
            if !self.content[i].is_empty() {
                return false;
            }
            i = i + 1;
        }
        true
    }
}

} // verus!
