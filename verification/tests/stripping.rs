use agent::json::Json;
use agent::message::{
    LanguageModelImage, LanguageModelRequestMessage, LanguageModelToolResult,
    LanguageModelToolResultContent, LanguageModelToolUse, MessageContent, Role,
};
use agent::stripping::{
    compact_old_tool_results, compute_recent_start_index, stripped_content_len, strips_to_nothing,
};

fn message(role: Role, content: Vec<MessageContent>) -> LanguageModelRequestMessage {
    LanguageModelRequestMessage {
        role,
        content,
        cache: false,
        reasoning_details: None,
    }
}

fn text(value: &str) -> MessageContent {
    MessageContent::Text(value.to_string())
}

fn thinking(value: &str) -> MessageContent {
    MessageContent::Thinking {
        text: value.to_string(),
        signature: Some("signed".to_string()),
    }
}

fn tool_use(id: &str) -> MessageContent {
    MessageContent::ToolUse(LanguageModelToolUse {
        id: id.to_string(),
        name: "read_file".to_string(),
        input: Json::Object(vec![("path".to_string(), Json::Text("a.rs".to_string()))]),
    })
}

fn tool_result(id: &str, content: &str, is_error: bool) -> MessageContent {
    MessageContent::ToolResult(LanguageModelToolResult {
        tool_use_id: id.to_string(),
        tool_name: "read_file".to_string(),
        is_error,
        content: LanguageModelToolResultContent::Text(content.to_string()),
    })
}

/// A call in one message, its result in the next.
fn call(id: &str, result: &str) -> Vec<LanguageModelRequestMessage> {
    vec![
        message(Role::Assistant, vec![tool_use(id)]),
        message(Role::User, vec![tool_result(id, result, false)]),
    ]
}

#[test]
fn recent_start_is_the_count_for_a_threshold_of_zero() {
    let messages = vec![message(Role::User, vec![text("hello")])];
    assert_eq!(compute_recent_start_index(&messages, 0), 1);
    assert_eq!(compute_recent_start_index(&[], 0), 0);
}

#[test]
fn recent_start_is_zero_for_a_short_conversation() {
    let messages = vec![
        message(Role::User, vec![text("hello")]),
        message(Role::Assistant, vec![text("hi")]),
    ];
    assert_eq!(compute_recent_start_index(&messages, 8), 0);
    assert_eq!(compute_recent_start_index(&messages, 7), 0);
}

#[test]
fn recent_start_counts_bytes_from_the_end() {
    let messages = vec![
        message(Role::User, vec![text("aaaa")]),
        message(Role::Assistant, vec![text("é")]),
        message(Role::User, vec![text("b"), tool_use("1"), text("c")]),
    ];
    assert_eq!(compute_recent_start_index(&messages, 1), 2);
    assert_eq!(compute_recent_start_index(&messages, 2), 2);
    assert_eq!(compute_recent_start_index(&messages, 3), 1);
    assert_eq!(compute_recent_start_index(&messages, 4), 1);
    assert_eq!(compute_recent_start_index(&messages, 5), 0);
}

#[test]
fn conversations_without_tool_results_are_left_alone() {
    let mut messages = vec![
        message(Role::Assistant, vec![tool_use("1")]),
        message(Role::User, vec![text("  ")]),
        message(Role::User, vec![text("recent text")]),
    ];
    compact_old_tool_results(&mut messages, 5);
    assert_eq!(messages.len(), 3);
    assert_eq!(messages[0].content, vec![tool_use("1")]);
}

#[test]
fn a_threshold_of_zero_strips_nothing() {
    let mut messages = call("1", "result");
    messages.extend(call("2", "result"));
    messages.extend(call("3", "result"));
    messages.extend(call("4", "result"));
    compact_old_tool_results(&mut messages, 0);
    assert_eq!(messages.len(), 8);
}

#[test]
fn old_tool_calls_and_results_are_removed() {
    let mut messages = vec![message(Role::User, vec![text("do it")])];
    for id in ["1", "2", "3", "4"] {
        messages.extend(call(id, "some result"));
    }
    messages.push(message(Role::Assistant, vec![text("done, all of it")]));
    compact_old_tool_results(&mut messages, 10);
    // The first call and its result are gone, the calls of the others too; the results of the
    // last three are protected, and have been merged with one another.
    assert_eq!(messages.len(), 2);
    assert_eq!(messages[0].role, Role::User);
    assert_eq!(
        messages[0].content,
        vec![
            text("do it"),
            tool_result("2", "some result", false),
            tool_result("3", "some result", false),
            tool_result("4", "some result", false),
        ]
    );
    assert_eq!(messages[1].content, vec![text("done, all of it")]);
}

#[test]
fn error_results_are_kept() {
    let mut messages = vec![message(
        Role::User,
        vec![tool_result("0", "it failed", true), tool_result("9", "fine", false)],
    )];
    for id in ["1", "2", "3"] {
        messages.extend(call(id, "ok"));
    }
    messages.push(message(Role::Assistant, vec![text("a long enough end")]));
    compact_old_tool_results(&mut messages, 5);
    assert_eq!(messages[0].content[0], tool_result("0", "it failed", true));
    assert!(!messages[0].content.contains(&tool_result("9", "fine", false)));
}

#[test]
fn blank_error_results_are_kept() {
    let mut alone = vec![message(Role::User, vec![tool_result("0", " \n", true)])];
    let mut accompanied = vec![message(
        Role::User,
        vec![text("see"), tool_result("0", " \n", true)],
    )];
    for messages in [&mut alone, &mut accompanied] {
        for id in ["1", "2", "3"] {
            messages.extend(call(id, "ok"));
        }
        messages.push(message(Role::Assistant, vec![text("a long enough end")]));
        compact_old_tool_results(messages, 5);
    }
    assert!(alone[0].content.contains(&tool_result("0", " \n", true)));
    assert!(accompanied[0].content.contains(&tool_result("0", " \n", true)));
}

#[test]
fn recent_messages_are_unchanged() {
    let mut messages = vec![message(Role::Assistant, vec![text("old"), tool_use("0")])];
    for id in ["1", "2", "3", "4"] {
        messages.extend(call(id, "result"));
    }
    let recent_len = "result".len() * 2;
    let start = compute_recent_start_index(&messages, recent_len);
    assert_eq!(start, 6);
    compact_old_tool_results(&mut messages, recent_len);
    // The last three messages hold the threshold, and are as they were.
    assert_eq!(
        messages,
        vec![
            message(Role::Assistant, vec![text("old")]),
            message(Role::User, vec![tool_result("2", "result", false)]),
            message(Role::User, vec![tool_result("3", "result", false)]),
            message(Role::Assistant, vec![tool_use("4")]),
            message(Role::User, vec![tool_result("4", "result", false)]),
        ]
    );
}

#[test]
fn recent_messages_are_neither_dropped_nor_merged() {
    let recent = || {
        vec![
            message(Role::User, vec![text("long enough")]),
            message(Role::User, vec![text("  ")]),
            message(Role::User, vec![]),
            message(Role::User, vec![text("end")]),
        ]
    };
    let mut messages = vec![message(Role::User, vec![text("old")]), message(Role::User, vec![text(" ")])];
    messages.extend(call("1", "result"));
    messages.extend(recent());
    compact_old_tool_results(&mut messages, 16);
    let mut expected = vec![message(
        Role::User,
        vec![text("old"), tool_result("1", "result", false)],
    )];
    expected.extend(recent());
    assert_eq!(messages, expected);
}

#[test]
fn blank_protected_messages_are_kept() {
    let mut messages = call("1", " ");
    messages.push(message(Role::Assistant, vec![text("done")]));
    compact_old_tool_results(&mut messages, 4);
    assert_eq!(
        messages,
        vec![
            message(Role::User, vec![tool_result("1", " ", false)]),
            message(Role::Assistant, vec![text("done")]),
        ]
    );
}

#[test]
fn messages_that_strip_to_nothing() {
    assert!(strips_to_nothing(&message(Role::User, vec![])));
    assert!(strips_to_nothing(&message(
        Role::User,
        vec![tool_use("1"), tool_result("1", "gone", false), text(" "), thinking("\n")],
    )));
    assert!(!strips_to_nothing(&message(Role::User, vec![tool_result("1", "", true)])));
    assert!(!strips_to_nothing(&message(Role::User, vec![text("a")])));
    // What takes the place of long thinking is not blank, even where the thinking is.
    assert!(!strips_to_nothing(&message(Role::User, vec![thinking(&" ".repeat(100))])));
    assert!(!strips_to_nothing(&message(
        Role::User,
        vec![MessageContent::RedactedThinking(String::new())],
    )));
}

#[test]
fn long_thinking_is_replaced_by_a_note() {
    let long = "x".repeat(120);
    let mut messages = vec![message(
        Role::Assistant,
        vec![thinking(&long), thinking("short"), MessageContent::RedactedThinking("data".to_string())],
    )];
    for id in ["1", "2", "3", "4"] {
        messages.extend(call(id, "result"));
    }
    compact_old_tool_results(&mut messages, 6);
    assert_eq!(
        messages[0].content,
        vec![
            thinking("[thinking omitted - was 120 characters]\n"),
            thinking("short"),
            MessageContent::RedactedThinking("data".to_string()),
        ]
    );
}

#[test]
fn merging_keeps_cache_marks_and_the_first_details() {
    let mut first = message(Role::User, vec![text("a")]);
    first.reasoning_details = None;
    let mut second = message(Role::User, vec![text("b")]);
    second.cache = true;
    second.reasoning_details = Some(Json::Bool(true));
    let mut third = message(Role::User, vec![text("c")]);
    third.reasoning_details = Some(Json::Bool(false));
    let mut messages = vec![first, second, third];
    messages.extend(call("1", "result"));
    compact_old_tool_results(&mut messages, 1);
    assert_eq!(messages.len(), 2);
    assert!(messages[0].cache);
    assert_eq!(messages[0].reasoning_details, Some(Json::Bool(true)));
    assert_eq!(
        messages[0].content,
        vec![text("a"), text("b"), text("c")]
    );
    assert_eq!(messages[1].content, vec![tool_result("1", "result", false)]);
}

#[test]
fn stripped_length_counts_what_is_left() {
    let long = "é".repeat(60);
    let note = "[thinking omitted - was 60 characters]\n";
    let stripped = message(
        Role::Assistant,
        vec![
            text("héllo"),
            thinking(&long),
            thinking("ok"),
            tool_use("1"),
            tool_result("1", "gone", false),
            tool_result("2", "kept", true),
            MessageContent::Image(LanguageModelImage { source: "data".to_string() }),
            MessageContent::RedactedThinking("hidden".to_string()),
        ],
    );
    assert_eq!(stripped_content_len(&stripped), 6 + note.len() + 2 + 4);
    assert_eq!(stripped_content_len(&message(Role::User, vec![])), 0);
}

#[test]
fn compaction_never_lengthens_a_conversation() {
    let mut messages = vec![message(Role::Assistant, vec![thinking("abc"), tool_use("0")])];
    for id in ["1", "2", "3", "4", "5"] {
        messages.extend(call(id, "some result"));
    }
    let before: usize = messages.iter().map(|m| m.string_contents().len()).sum();
    compact_old_tool_results(&mut messages, 12);
    let after: usize = messages.iter().map(|m| m.string_contents().len()).sum();
    assert_eq!(before, 58);
    assert_eq!(after, 36);
    // Of the older messages two are left; the recent three follow.
    assert_eq!(messages.len(), 5);
    assert!(messages[0].role != messages[1].role);
    assert!(messages.iter().all(|m| !m.contents_empty()));
}

#[test]
fn texts_of_a_message_are_joined() {
    let joined = message(
        Role::User,
        vec![
            text("a"),
            thinking("b"),
            tool_use("1"),
            tool_result("1", "c", false),
            MessageContent::Image(LanguageModelImage { source: "image".to_string() }),
        ],
    );
    assert_eq!(joined.string_contents(), "abc");
    assert!(!joined.contents_empty());
    let blank = message(Role::User, vec![text(" \t\u{2003}"), thinking("\n")]);
    assert!(blank.contents_empty());
    assert!(message(Role::User, vec![]).contents_empty());
    let image = MessageContent::Image(LanguageModelImage { source: String::new() });
    assert!(!message(Role::User, vec![image]).contents_empty());
}
