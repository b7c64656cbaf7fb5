use agent::json::{parse_json, Json};
use agent::markdown::{format_request_message_as_markdown, tool_input_texts};
use agent::message::{
    LanguageModelImage, LanguageModelRequestMessage, LanguageModelToolResult,
    LanguageModelToolResultContent, LanguageModelToolUse, MessageContent, Role,
};

fn image() -> LanguageModelImage {
    LanguageModelImage { source: "AAAA".to_string() }
}

#[test]
fn every_kind_of_content_as_markdown() {
    let input = parse_json("{\"b\":[1,true],\"a\":null}").unwrap();
    let message = LanguageModelRequestMessage {
        role: Role::Assistant,
        content: vec![
            MessageContent::Text("hello".to_string()),
            MessageContent::Thinking { text: "hm".to_string(), signature: None },
            MessageContent::RedactedThinking("x".to_string()),
            MessageContent::Image(image()),
            MessageContent::ToolUse(LanguageModelToolUse {
                id: "id1".to_string(),
                name: "grep".to_string(),
                input,
            }),
            MessageContent::ToolResult(LanguageModelToolResult {
                tool_use_id: "id1".to_string(),
                tool_name: "grep".to_string(),
                is_error: true,
                content: LanguageModelToolResultContent::Text("no match".to_string()),
            }),
            MessageContent::ToolResult(LanguageModelToolResult {
                tool_use_id: "id2".to_string(),
                tool_name: "see".to_string(),
                is_error: false,
                content: LanguageModelToolResultContent::Image(image()),
            }),
        ],
        cache: true,
        reasoning_details: None,
    };
    let texts = tool_input_texts(&message);
    assert_eq!(texts, vec!["{\n  \"b\": [\n    1,\n    true\n  ],\n  \"a\": null\n}".to_string()]);
    let blocks: Vec<String> = texts.iter().map(|text| format!("```json\n{text}\n```")).collect();
    let expected = format!(
        "## Assistant [cached]\n\nhello\n<thinking>\nhm\n</thinking>\n<redacted_thinking />\n\
         <image />\n**Tool Use**: grep (ID: id1)\n{}\n**Tool Result**: grep (ID: id1)\n\
         **ERROR:**\nno match\n\n**Tool Result**: see (ID: id2)\n<image />\n\n\n",
        blocks[0]
    );
    assert_eq!(format_request_message_as_markdown(&message, &blocks), expected);
}

#[test]
fn each_tool_call_takes_its_own_block() {
    let tool_use = |id: &str| {
        MessageContent::ToolUse(LanguageModelToolUse {
            id: id.to_string(),
            name: "t".to_string(),
            input: Json::Null,
        })
    };
    let message = LanguageModelRequestMessage {
        role: Role::User,
        content: vec![tool_use("1"), MessageContent::Text("x".to_string()), tool_use("2")],
        cache: false,
        reasoning_details: None,
    };
    let blocks = vec!["first".to_string(), "second".to_string()];
    assert_eq!(
        format_request_message_as_markdown(&message, &blocks),
        "## User\n\n**Tool Use**: t (ID: 1)\nfirst\nx\n**Tool Use**: t (ID: 2)\nsecond\n\n"
    );
}

#[test]
fn an_empty_message_is_a_heading() {
    let message = LanguageModelRequestMessage {
        role: Role::System,
        content: vec![],
        cache: false,
        reasoning_details: None,
    };
    assert_eq!(format_request_message_as_markdown(&message, &vec![]), "## System\n\n\n");
}
