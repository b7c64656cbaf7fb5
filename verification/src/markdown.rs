//! Request messages as Markdown.

use crate::json;
use crate::message;
use crate::message::{
    ContentView, LanguageModelRequestMessage, LanguageModelToolResultContent, MessageContent,
    MessageView, Role, ToolResultContentView,
};
use vstd::prelude::*;
use vstd::string::*;

verus! {

/// The heading for a role.
pub open spec fn role_heading(role: Role) -> Seq<char> {
    match role {
        Role::System => "## System"@,
        Role::User => "## User"@,
        Role::Assistant => "## Assistant"@,
    }
}

/// A piece as Markdown, where `code_block` is the fenced block with the input of a tool call.
pub open spec fn content_markdown(content: ContentView, code_block: Seq<char>) -> Seq<char> {
    match content {
        ContentView::Text(text) => text + "\n"@,
        ContentView::Thinking { text, .. } => "<thinking>\n"@ + text + "\n</thinking>\n"@,
        ContentView::RedactedThinking(_) => "<redacted_thinking />\n"@,
        ContentView::Image(_) => "<image />\n"@,
        ContentView::ToolUse(tool_use) => "**Tool Use**: "@ + tool_use.name + " (ID: "@
            + tool_use.id + ")\n"@ + code_block + "\n"@,
        ContentView::ToolResult(tool_result) => "**Tool Result**: "@ + tool_result.tool_name
            + " (ID: "@ + tool_result.tool_use_id + ")\n"@ + (if tool_result.is_error {
            "**ERROR:**\n"@
        } else {
            Seq::empty()
        }) + match tool_result.content {
            ToolResultContentView::Text(text) => text + "\n\n"@,
            ToolResultContentView::Image(_) => "<image />\n\n"@,
        },
    }
}

/// The number of tool calls among the pieces.
pub open spec fn tool_use_count(contents: Seq<ContentView>) -> nat
    decreases contents.len(),
{
    if contents.len() == 0 {
        0
    } else {
        let before = tool_use_count(contents.drop_last());
        if contents.last() is ToolUse {
            before + 1
        } else {
            before
        }
    }
}

/// The inputs of the tool calls among the pieces, pretty-printed.
pub open spec fn tool_inputs(contents: Seq<ContentView>) -> Seq<Seq<char>>
    decreases contents.len(),
{
    if contents.len() == 0 {
        Seq::empty()
    } else {
        let before = tool_inputs(contents.drop_last());
        match contents.last() {
            ContentView::ToolUse(tool_use) => before.push(json::json_pretty(tool_use.input)),
            _ => before,
        }
    }
}

/// The pieces as Markdown, where `code_blocks` holds one fenced block for each tool call.
pub open spec fn contents_markdown(
    contents: Seq<ContentView>,
    code_blocks: Seq<Seq<char>>,
) -> Seq<char>
    decreases contents.len(),
{
    if contents.len() == 0 {
        Seq::empty()
    } else {
        let before = contents.drop_last();
        contents_markdown(before, code_blocks) + content_markdown(
            contents.last(),
            code_blocks[tool_use_count(before) as int],
        )
    }
}

/// A message as Markdown, where `code_blocks` holds one fenced block for each tool call.
pub open spec fn message_markdown(message: MessageView, code_blocks: Seq<Seq<char>>) -> Seq<char> {
    role_heading(message.role) + (if message.cache {
        " [cached]"@
    } else {
        Seq::empty()
    }) + "\n\n"@ + contents_markdown(message.content, code_blocks) + "\n"@
}

/// The texts of owned strings.
pub open spec fn string_views(strings: Seq<String>) -> Seq<Seq<char>> {
    strings.map_values(|string: String| string@)
}

/// Whether the inputs of all tool calls have distinct keys.
pub open spec fn tool_inputs_well_formed(contents: Seq<ContentView>) -> bool {
    forall|i: int|
        0 <= i < contents.len() ==> (#[trigger] contents[i] matches ContentView::ToolUse(tool_use)
            ==> json::well_formed(tool_use.input))
}

/// The inputs of the tool calls in a message, pretty-printed: the texts of the code blocks that
/// [`format_request_message_as_markdown`] takes.
pub fn tool_input_texts(message: &LanguageModelRequestMessage) -> (texts: Vec<String>)
    requires
        tool_inputs_well_formed(message@.content),
    ensures
        string_views(texts@) == tool_inputs(message@.content),
        texts@.len() == tool_use_count(message@.content),
{
    let ghost contents = message@.content;
    let mut texts: Vec<String> = Vec::new();
    let mut i: usize = 0;
    proof {
        assert(contents.take(0) =~= Seq::empty());
        assert(string_views(texts@) =~= Seq::empty());
    }
    while i < message.content.len()
        invariant
            i <= message.content@.len(),
            contents == message::content_views(message.content@),
            tool_inputs_well_formed(contents),
            string_views(texts@) == tool_inputs(contents.take(i as int)),
            texts@.len() == tool_use_count(contents.take(i as int)),
        decreases message.content.len() - i,
    {
        proof {
            assert(contents[i as int] == message.content@[i as int]@);
            assert(contents.take(i + 1).drop_last() =~= contents.take(i as int));
            assert(contents.take(i + 1).last() == contents[i as int]);
        }
        if let MessageContent::ToolUse(tool_use) = &message.content[i] {
            let ghost before = texts@;
            texts.push(json::pretty_json(&tool_use.input));
            proof {
                assert(string_views(texts@) =~= string_views(before).push(texts@.last()@));
            }
        }
        i = i + 1;
    }
    assert(contents.take(i as int) =~= contents);
    texts
}

/// Appends a piece as Markdown.
fn push_content(markdown: &mut String, content: &MessageContent, code_block: &str)
    ensures
        final(markdown)@ == old(markdown)@ + content_markdown(content@, code_block@),
{
    let ghost before = markdown@;
    match content {
        MessageContent::Text(text) => {
            markdown.append(text.as_str());
            markdown.append("\n");
        },
        MessageContent::Thinking { text, .. } => {
            markdown.append("<thinking>\n");
            markdown.append(text.as_str());
            markdown.append("\n</thinking>\n");
        },
        MessageContent::RedactedThinking(_) => {
            markdown.append("<redacted_thinking />\n");
        },
        MessageContent::Image(_) => {
            markdown.append("<image />\n");
        },
        MessageContent::ToolUse(tool_use) => {
            markdown.append("**Tool Use**: ");
            markdown.append(tool_use.name.as_str());
            markdown.append(" (ID: ");
            markdown.append(tool_use.id.as_str());
            markdown.append(")\n");
            markdown.append(code_block);
            markdown.append("\n");
        },
        MessageContent::ToolResult(tool_result) => {
            markdown.append("**Tool Result**: ");
            markdown.append(tool_result.tool_name.as_str());
            markdown.append(" (ID: ");
            markdown.append(tool_result.tool_use_id.as_str());
            markdown.append(")\n");
            if tool_result.is_error {
                markdown.append("**ERROR:**\n");
            }
            match &tool_result.content {
                LanguageModelToolResultContent::Text(text) => {
                    markdown.append(text.as_str());
                    markdown.append("\n\n");
                },
                LanguageModelToolResultContent::Image(_) => {
                    markdown.append("<image />\n\n");
                },
            }
        },
    }
    assert(markdown@ =~= before + content_markdown(content@, code_block@));
}

/// A message as Markdown. `code_blocks` holds one fenced code block for each tool call, with the
/// text that [`tool_input_texts`] gives for it.
pub fn format_request_message_as_markdown(
    message: &LanguageModelRequestMessage,
    code_blocks: &Vec<String>,
) -> (markdown: String)
    requires
        code_blocks@.len() == tool_use_count(message@.content),
    ensures
        markdown@ == message_markdown(message@, string_views(code_blocks@)),
{
    let ghost contents = message@.content;
    let ghost blocks = string_views(code_blocks@);
    let mut markdown = match message.role {
        Role::System => "## System",
        Role::User => "## User",
        Role::Assistant => "## Assistant",
    }.to_owned();
    if message.cache {
        markdown.append(" [cached]");
    }
    markdown.append("\n\n");
    let ghost heading = markdown@;
    let block_count: usize = code_blocks.len();
    let mut used: usize = 0;
    let mut i: usize = 0;
    proof {
        assert(contents.take(0) =~= Seq::empty());
        assert(heading + contents_markdown(contents.take(0), blocks) =~= heading);
    }
    while i < message.content.len()
        invariant
            i <= message.content@.len(),
            contents == message::content_views(message.content@),
            blocks == string_views(code_blocks@),
            block_count == code_blocks@.len() == tool_use_count(contents),
            used == tool_use_count(contents.take(i as int)),
            markdown@ == heading + contents_markdown(contents.take(i as int), blocks),
        decreases message.content.len() - i,
    {
        let ghost before = contents_markdown(contents.take(i as int), blocks);
        proof {
            assert(contents[i as int] == message.content@[i as int]@);
            assert(contents.take(i + 1).drop_last() =~= contents.take(i as int));
            assert(contents.take(i + 1).last() == contents[i as int]);
            lemma_tool_use_count_take(contents, i + 1);
        }
        let is_tool_use: bool = matches!(&message.content[i], MessageContent::ToolUse(_));
        if is_tool_use {
            push_content(&mut markdown, &message.content[i], code_blocks[used].as_str());
            used = used + 1;
        } else {
            push_content(&mut markdown, &message.content[i], "");
        }
        proof {
            let position = tool_use_count(contents.take(i as int)) as int;
            let added = content_markdown(contents[i as int], blocks[position]);
            assert(markdown@ =~= heading + (before + added));
        }
        i = i + 1;
    }
    assert(contents.take(i as int) =~= contents);
    markdown.append("\n");
    markdown
}

proof fn lemma_tool_use_count_take(contents: Seq<ContentView>, count: int)
    requires
        0 <= count <= contents.len(),
    ensures
        tool_use_count(contents.take(count)) <= tool_use_count(contents),
    decreases contents.len() - count,
{
    if count == contents.len() {
        assert(contents.take(count) =~= contents);
    } else {
        assert(contents.take(count + 1).drop_last() =~= contents.take(count));
        lemma_tool_use_count_take(contents, count + 1);
    }
}

} // verus!
