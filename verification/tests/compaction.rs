use agent::compaction::{
    compute_compaction_debug_info, prepare_manual_compaction, prepare_message_compaction,
    CompactionDebugInfo, CompactionError, CompletionIntent, LanguageModel, COMPACT_PROMPT_PREFIX,
    COMPACT_PROMPT_SUFFIX,
};
use agent::message::{
    LanguageModelRequestMessage, LanguageModelToolResult, LanguageModelToolResultContent,
    MessageContent, Role,
};
use agent::stripping::compact_old_tool_results;
use agent::summary::{LanguageModelCompletionEvent, SummaryStep, SummaryStream};
use agent::thread::{
    apply_message_compaction, AgentMessage, AgentMessageContent, Message, RequestTokenUsage,
    TokenUsage, UserMessage, UserMessageContent, UserMessageId,
};
use agent::zones::{
    analyze_compaction_zones, CompactionConfig, CompactionSettingsContent, CompactionZones,
    RenderedMessage,
};

fn request(role: Role, text: &str) -> LanguageModelRequestMessage {
    LanguageModelRequestMessage {
        role,
        content: vec![MessageContent::Text(text.to_string())],
        cache: false,
        reasoning_details: None,
    }
}

fn rendered(texts: &[&str], markdown: &str) -> RenderedMessage {
    RenderedMessage {
        request: texts.iter().map(|text| request(Role::User, text)).collect(),
        markdown: markdown.to_string(),
    }
}

fn thinking_message(text: &str) -> RenderedMessage {
    RenderedMessage {
        request: vec![LanguageModelRequestMessage {
            role: Role::Assistant,
            content: vec![MessageContent::Thinking {
                text: text.to_string(),
                signature: None,
            }],
            cache: false,
            reasoning_details: None,
        }],
        markdown: "thought".to_string(),
    }
}

fn result_message(text: &str) -> RenderedMessage {
    RenderedMessage {
        request: vec![LanguageModelRequestMessage {
            role: Role::User,
            content: vec![MessageContent::ToolResult(LanguageModelToolResult {
                tool_use_id: "1".to_string(),
                tool_name: "read_file".to_string(),
                is_error: false,
                content: LanguageModelToolResultContent::Text(text.to_string()),
            })],
            cache: false,
            reasoning_details: None,
        }],
        markdown: "result\n".to_string(),
    }
}

fn config(deep_omit: u64, summary: u64, min: usize) -> CompactionConfig {
    CompactionConfig {
        deep_omit_threshold_tokens: deep_omit,
        summary_threshold_tokens: summary,
        min_content_chars: min,
    }
}

fn model(max_token_count: u64) -> LanguageModel {
    LanguageModel {
        id: "model".to_string(),
        max_token_count,
    }
}

/// Four stored messages that become five request messages of lengths 10, 2, 2, 4, 4.
fn conversation() -> Vec<RenderedMessage> {
    vec![
        rendered(&["0123456789"], "first\n"),
        rendered(&["aa", "bb"], "second\n"),
        rendered(&["cccc"], "third\n"),
        rendered(&["dddd"], "fourth\n"),
    ]
}

#[test]
fn default_thresholds() {
    assert_eq!(CompactionConfig::default(), config(80_000, 80_000, 60_000));
    assert_eq!(CompactionConfig::from_settings(None), CompactionConfig::default());
}

#[test]
fn settings_override_defaults_one_by_one() {
    let section = CompactionSettingsContent {
        enabled: Some(true),
        deep_omit_threshold_tokens: None,
        summary_threshold_tokens: Some(5),
        min_content_chars: None,
    };
    assert_eq!(
        CompactionConfig::from_settings(Some(&section)),
        config(80_000, 5, 60_000)
    );
}

#[test]
fn zones_of_a_conversation() {
    let zones = analyze_compaction_zones(&conversation(), &config(2, 2, 0), true);
    assert_eq!(
        zones,
        CompactionZones {
            request_message_count: 5,
            request_to_stored: vec![0, 1, 1, 2, 3],
            visible_lens: vec![10, 2, 2, 4, 4],
            boundary_req_idx: 3,
            total_original_chars: 22,
            total_visible_chars: 22,
        }
    );
    let without_mapping = analyze_compaction_zones(&conversation(), &config(2, 100, 0), false);
    assert_eq!(without_mapping.request_to_stored, Vec::<usize>::new());
    assert_eq!(without_mapping.boundary_req_idx, 5);
}

#[test]
fn zones_strip_what_lies_before_the_first_threshold() {
    let messages = vec![
        thinking_message(&"t".repeat(100)),
        result_message("abc"),
        rendered(&["recent text"], "recent\n"),
    ];
    let note = "[thinking omitted - was 100 characters]\n".len();
    let zones = analyze_compaction_zones(&messages, &config(2, 2, 0), true);
    assert_eq!(zones.visible_lens, vec![note, 3, 11]);
    assert_eq!(zones.total_original_chars, 114);
    assert_eq!(zones.total_visible_chars, note + 14);
    let unstripped = analyze_compaction_zones(&messages, &config(0, 2, 0), true);
    assert_eq!(unstripped.visible_lens, vec![100, 3, 11]);
}

#[test]
fn protected_results_are_visible() {
    let messages = vec![result_message("abc"), rendered(&["defg"], "text")];
    let zones = analyze_compaction_zones(&messages, &config(1, 1, 0), true);
    assert_eq!(zones.visible_lens, vec![3, 4]);
    assert_eq!(zones.total_visible_chars, 7);
}

#[test]
fn nothing_is_stripped_without_tool_results() {
    let messages = vec![
        thinking_message(&"t".repeat(100)),
        rendered(&["  "], "blank"),
        rendered(&["recent text"], "recent\n"),
    ];
    let zones = analyze_compaction_zones(&messages, &config(2, 2, 0), true);
    assert_eq!(zones.visible_lens, vec![100, 2, 11]);
    assert_eq!(zones.total_visible_chars, 113);
}

#[test]
fn the_visible_total_is_what_compaction_leaves() {
    let messages = || {
        vec![
            result_message("one"),
            rendered(&["  "], "blank"),
            thinking_message(&"t".repeat(100)),
            result_message("three"),
            result_message("four"),
            result_message("fifth"),
            rendered(&["   ", "recent text"], "recent\n"),
        ]
    };
    let zones = analyze_compaction_zones(&messages(), &config(2, 2, 0), true);
    let note = "[thinking omitted - was 100 characters]\n".len();
    assert_eq!(zones.visible_lens, vec![0, 0, note, 5, 4, 5, 0, 11]);
    let mut requests: Vec<LanguageModelRequestMessage> =
        messages().into_iter().flat_map(|message| message.request).collect();
    compact_old_tool_results(&mut requests, 8);
    let left: usize = requests.iter().map(|request| request.string_contents().len()).sum();
    assert_eq!(zones.total_visible_chars, left);
    assert_eq!(left, note + 25);
}

#[test]
fn automatic_compaction_makes_a_plan() {
    let plan = prepare_message_compaction(&conversation(), Some(model(10_000)), &config(0, 2, 13), None)
        .unwrap()
        .unwrap();
    assert_eq!(plan.boundary_index, 2);
    assert_eq!(plan.model, model(10_000));
    assert_eq!(
        plan.request.intent,
        Some(CompletionIntent::ThreadContextSummarization)
    );
    let expected = format!("{COMPACT_PROMPT_PREFIX}first\nsecond\n{COMPACT_PROMPT_SUFFIX}");
    assert_eq!(plan.request.messages, vec![request(Role::User, &expected)]);
}

#[test]
fn automatic_compaction_is_skipped() {
    let messages = conversation();
    let plan = |model, config, turn_start| {
        prepare_message_compaction(&messages, model, &config, turn_start).unwrap()
    };
    // No model.
    assert!(plan(None, config(0, 2, 0), None).is_none());
    // Everything is recent.
    assert!(plan(Some(model(10_000)), config(0, 6, 0), None).is_none());
    assert!(plan(Some(model(10_000)), config(0, 5, 0), None).is_none());
    // Too little to summarize: fourteen characters, and thirteen of Markdown.
    assert!(plan(Some(model(10_000)), config(0, 2, 15), None).is_none());
    assert!(plan(Some(model(10_000)), config(0, 2, 14), None).is_none());
    assert!(plan(Some(model(10_000)), config(0, 2, 13), None).is_some());
    let wordy = vec![rendered(&["aaaa"], "a lot of Markdown"), rendered(&["bbbb"], "b")];
    for (min, planned) in [(4, true), (5, false)] {
        let plan =
            prepare_message_compaction(&wordy, Some(model(10_000)), &config(0, 1, min), None);
        assert_eq!(plan.unwrap().is_some(), planned);
    }
    // The turn starts with the first message.
    assert!(plan(Some(model(10_000)), config(0, 2, 13), Some(0)).is_none());
    // The boundary lies in the first stored message.
    let one = vec![rendered(&["aaaa", "bbbb"], "markdown")];
    assert!(
        prepare_message_compaction(&one, Some(model(10_000)), &config(0, 1, 0), None)
            .unwrap()
            .is_none()
    );
    // Nothing to format.
    let blank = vec![rendered(&["aaaa"], ""), rendered(&["bbbb"], "b")];
    assert!(
        prepare_message_compaction(&blank, Some(model(10_000)), &config(0, 1, 0), None)
            .unwrap()
            .is_none()
    );
}

#[test]
fn a_summary_is_not_summarized_again() {
    let long = "s".repeat(50);
    let summary = || rendered(&[format!("[Earlier conversation summary]\n{long}").as_str()], "summary\n");
    let acknowledgment = || RenderedMessage {
        request: vec![request(
            Role::Assistant,
            "Understood. I'll keep this summary in mind for context in our continued conversation.",
        )],
        markdown: "understood\n".to_string(),
    };
    let boundary = |messages: &[RenderedMessage], turn_start| {
        prepare_message_compaction(messages, Some(model(10_000)), &config(0, 1, 8), turn_start)
            .unwrap()
            .map(|plan| plan.boundary_index)
    };
    let recent = || rendered(&["recent"], "recent\n");
    let messages = vec![summary(), acknowledgment(), recent()];
    assert_eq!(boundary(&messages, None), None);
    assert!(compute_compaction_debug_info(&messages, &config(0, 1, 8), true).would_compact);
    assert_eq!(boundary(&[summary(), recent()], None), None);
    let longer = vec![summary(), acknowledgment(), rendered(&["more"], "more\n"), recent()];
    assert_eq!(boundary(&longer, None), Some(3));
    assert_eq!(boundary(&longer, Some(2)), None);
    // The user's own words and another answer are no summary.
    let asked = vec![rendered(&["a question"], "question\n"), acknowledgment(), recent()];
    assert_eq!(boundary(&asked, None), Some(2));
    let answered = vec![summary(), rendered(&["Understood."], "understood\n"), recent()];
    assert_eq!(boundary(&answered, None), Some(2));
}

#[test]
fn the_start_of_the_turn_caps_the_boundary() {
    let plan = prepare_message_compaction(
        &conversation(),
        Some(model(10_000)),
        &config(0, 2, 13),
        Some(1),
    )
    .unwrap()
    .unwrap();
    assert_eq!(plan.boundary_index, 1);
}

#[test]
fn manual_compaction_takes_a_range() {
    let messages = conversation();
    let plan = prepare_manual_compaction(&messages, 1, 3, model(10_000)).unwrap();
    assert_eq!(plan.boundary_index, 3);
    let expected = format!("{COMPACT_PROMPT_PREFIX}second\nthird\n{COMPACT_PROMPT_SUFFIX}");
    assert_eq!(plan.request.messages, vec![request(Role::User, &expected)]);
}

#[test]
fn manual_compaction_refuses_bad_ranges() {
    let messages = conversation();
    for (start, end) in [(1, 1), (2, 1), (0, 5)] {
        let error = prepare_manual_compaction(&messages, start, end, model(10_000)).unwrap_err();
        assert_eq!(error, CompactionError::InvalidRange { start, end });
    }
    assert_eq!(
        CompactionError::InvalidRange { start: 2, end: 17 }.message(),
        "Invalid message range: 2..17"
    );
    let blank = vec![rendered(&["aaaa"], "")];
    let error = prepare_manual_compaction(&blank, 0, 1, model(10_000)).unwrap_err();
    assert_eq!(error, CompactionError::NoContent);
    assert_eq!(error.message(), "No content to compact");
}

#[test]
fn the_window_of_the_model_limits_the_conversation() {
    let window = COMPACT_PROMPT_PREFIX.len() + COMPACT_PROMPT_SUFFIX.len() + 12_000;
    // Room for a little more than the first two messages.
    let tokens = ((window + 14 + 3) / 4) as u64;
    let plan = prepare_manual_compaction(&conversation(), 0, 4, model(tokens)).unwrap();
    let expected = format!("{COMPACT_PROMPT_PREFIX}first\nsecond\n{COMPACT_PROMPT_SUFFIX}");
    assert_eq!(plan.request.messages, vec![request(Role::User, &expected)]);
    // Without room the first message is still taken.
    let plan = prepare_manual_compaction(&conversation(), 0, 4, model(1)).unwrap();
    let expected = format!("{COMPACT_PROMPT_PREFIX}first\n{COMPACT_PROMPT_SUFFIX}");
    assert_eq!(plan.request.messages, vec![request(Role::User, &expected)]);
}

#[test]
fn the_prompt_reads_as_written() {
    assert!(COMPACT_PROMPT_PREFIX.starts_with("## Conversation to summarize\n\nThe following"));
    assert!(COMPACT_PROMPT_PREFIX.ends_with("thinking has been removed.\n\n"));
    assert!(COMPACT_PROMPT_SUFFIX.starts_with("\n---\n\nINSTRUCTION: Summarize"));
    assert!(COMPACT_PROMPT_SUFFIX.contains("\n   constraints, and preferences expressed"));
    assert!(COMPACT_PROMPT_SUFFIX.ends_with("not just bullet lists.\n"));
}

#[test]
fn debug_info_of_a_conversation() {
    let info = compute_compaction_debug_info(&conversation(), &config(0, 2, 13), true);
    assert_eq!(
        info,
        CompactionDebugInfo {
            total_original_chars: 22,
            total_visible_chars: 22,
            stripped_chars: 0,
            compactable_chars: 14,
            recent_chars: 8,
            min_content_chars: 13,
            summary_threshold_chars: 8,
            auto_compact_enabled: true,
            message_count: 4,
            request_message_count: 5,
            would_compact: true,
        }
    );
    assert!(!compute_compaction_debug_info(&conversation(), &config(0, 2, 13), false).would_compact);
    assert!(!compute_compaction_debug_info(&conversation(), &config(0, 2, 14), true).would_compact);
    assert!(!compute_compaction_debug_info(&conversation(), &config(0, 2, 15), true).would_compact);
    let recent = compute_compaction_debug_info(&conversation(), &config(0, 100, 0), true);
    assert_eq!(recent.compactable_chars, 0);
    assert_eq!(recent.recent_chars, 22);
    assert!(!recent.would_compact);
}

#[test]
fn debug_info_counts_stripped_text() {
    let messages = vec![
        thinking_message(&"t".repeat(100)),
        result_message("abc"),
        rendered(&["recent text"], "recent\n"),
    ];
    let note = "[thinking omitted - was 100 characters]\n".len();
    let info = compute_compaction_debug_info(&messages, &config(2, 2, 0), true);
    assert_eq!(info.stripped_chars, 100 - note);
    assert_eq!(info.compactable_chars, note + 3);
    assert_eq!(info.recent_chars, 11);
    assert!(info.would_compact);
    let plan = prepare_message_compaction(&messages, Some(model(10_000)), &config(2, 2, 0), None);
    assert!(plan.unwrap().is_some());
}

fn user(id: &str, text: &str) -> Message {
    Message::User(UserMessage {
        id: UserMessageId(id.to_string()),
        content: vec![UserMessageContent::Text(text.to_string())],
    })
}

fn agent(text: &str) -> Message {
    Message::Agent(AgentMessage {
        content: vec![AgentMessageContent::Text(text.to_string())],
        tool_results: vec![],
        reasoning_details: None,
    })
}

#[test]
fn a_summary_takes_the_place_of_messages() {
    let mut messages = vec![
        user("1", "question"),
        agent("answer"),
        user("2", "more"),
        Message::Resume,
        agent("last"),
    ];
    let usage = TokenUsage { input_tokens: 3, output_tokens: 4 };
    let mut table = RequestTokenUsage::new();
    table.insert(UserMessageId("1".to_string()), usage);
    table.insert(UserMessageId("2".to_string()), usage);
    apply_message_compaction(
        &mut messages,
        &mut table,
        2,
        "it was about".to_string(),
        UserMessageId("new".to_string()),
    );
    assert_eq!(
        messages,
        vec![
            user("new", "[Earlier conversation summary]\nit was about"),
            agent("Understood. I'll keep this summary in mind for context in our continued conversation."),
            user("2", "more"),
            Message::Resume,
            agent("last"),
        ]
    );
    assert_eq!(table.get(&UserMessageId("1".to_string())), None);
    assert_eq!(table.get(&UserMessageId("2".to_string())), Some(usage));
}

#[test]
fn a_summary_of_everything_or_nothing() {
    let mut table = RequestTokenUsage::new();
    let mut messages = vec![user("1", "question")];
    let id = || UserMessageId("new".to_string());
    apply_message_compaction(&mut messages, &mut table, 1, "s".to_string(), id());
    assert_eq!(messages.len(), 2);
    apply_message_compaction(&mut messages, &mut table, 0, "t".to_string(), id());
    assert_eq!(messages.len(), 4);
    assert_eq!(messages[0], user("new", "[Earlier conversation summary]\nt"));
}

fn text_event(text: &str) -> Result<LanguageModelCompletionEvent, String> {
    Ok(LanguageModelCompletionEvent::Text(text.to_string()))
}

#[test]
fn a_summary_collects_texts_until_it_stops() {
    let mut stream = SummaryStream::new();
    assert_eq!(stream.on_event(false, text_event("one ")), SummaryStep::Continue);
    let usage = LanguageModelCompletionEvent::UsageUpdate { input_tokens: 1, output_tokens: 2 };
    assert_eq!(stream.on_event(false, Ok(usage)), SummaryStep::Continue);
    assert_eq!(
        stream.on_event(false, Ok(LanguageModelCompletionEvent::Other)),
        SummaryStep::Continue
    );
    assert_eq!(stream.on_event(false, text_event("two")), SummaryStep::Continue);
    assert_eq!(
        stream.on_event(false, Ok(LanguageModelCompletionEvent::Stop)),
        SummaryStep::Finished
    );
    assert_eq!(stream.text, "one two");
}

#[test]
fn a_cancelled_summary_keeps_what_came_before() {
    let mut stream = SummaryStream::new();
    stream.on_event(false, text_event("part"));
    assert_eq!(stream.on_event(true, text_event("lost")), SummaryStep::Finished);
    assert_eq!(stream.text, "part");
    assert_eq!(
        stream.on_event(true, Err("unseen".to_string())),
        SummaryStep::Finished
    );
}

#[test]
fn a_failed_summary_tells_why() {
    let mut stream = SummaryStream::new();
    assert_eq!(
        stream.on_event(false, Err("offline".to_string())),
        SummaryStep::Failed("offline".to_string())
    );
}
