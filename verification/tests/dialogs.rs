use agent::compact_modal::{
    CompactAction, CompactContent, CompactMessagesModal, CompactPhase, MessageSummary, ReviewBody,
};
use agent::compaction::{CompactionPlan, LanguageModel, LanguageModelRequest};
use agent::compaction_settings::{
    picked_model, resolve_configured_model, save_selection, selection_of, CompactionSettingsModal,
    ModelInfo, ModelPurpose, ProviderModels, SettingsAction,
};
use agent::form::{ButtonStyle, MenuAction, ToggleState};
use agent::json::{compact_json, parse_json};
use agent::rules::RulesDirectoryEntry;
use agent::rules_settings::{
    save_to_settings, save_to_settings_value, RulesAction, RulesContent,
    RulesDirectorySettingsModal, VisibleWorktree,
};
use agent::settings::{
    AgentModels, LanguageModelSelection, SettingsContent, SubagentModels,
};
use agent::zones::CompactionConfig;

fn summaries(count: usize) -> Vec<MessageSummary> {
    (0..count)
        .map(|index| MessageSummary {
            index,
            is_user: index % 2 == 0,
            preview: format!("message {index}"),
        })
        .collect()
}

fn plan() -> CompactionPlan {
    CompactionPlan {
        model: LanguageModel { id: "m".to_string(), max_token_count: 1 },
        request: LanguageModelRequest { intent: None, messages: vec![] },
        boundary_index: 1,
    }
}

#[test]
fn half_of_a_long_conversation_is_selected() {
    let expected = [0, 1, 2, 3, 4, 2, 3, 3, 4];
    for (count, boundary) in expected.iter().enumerate() {
        let modal = CompactMessagesModal::toggle(summaries(count));
        assert_eq!(modal.boundary, *boundary);
        assert_eq!(modal.max_boundary, count);
        assert_eq!(modal, CompactMessagesModal::new(summaries(count)));
    }
}

#[test]
fn the_selection_stays_within_the_messages() {
    let mut modal = CompactMessagesModal::new(summaries(6));
    assert!(!modal.set_boundary(3));
    assert!(modal.set_boundary(9));
    assert_eq!(modal.boundary, 6);
    assert!(modal.set_boundary(0));
    assert_eq!(modal.boundary, 0);
}

#[test]
fn nothing_selected_is_an_error() {
    let mut modal = CompactMessagesModal::new(summaries(0));
    assert_eq!(modal.generate_summary(), None);
    assert_eq!(modal.last_error, Some("No messages selected to compact".to_string()));
    assert!(modal.render().buttons[1].disabled);
}

#[test]
fn a_failed_preparation_is_an_error() {
    let mut modal = CompactMessagesModal::new(summaries(3));
    assert_eq!(modal.generate_summary(), Some(3));
    assert_eq!(modal.prepared(Ok(None)), None);
    assert_eq!(
        modal.last_error,
        Some("No summarization model configured. Please configure a model first.".to_string())
    );
    assert_eq!(modal.prepared(Err("bad range".to_string())), None);
    assert_eq!(
        modal.last_error,
        Some("Failed to prepare compaction: bad range".to_string())
    );
    assert_eq!(modal.phase, CompactPhase::Selecting);
    assert_eq!(modal.prepared(Ok(Some(plan()))), Some(plan()));
    assert_eq!(modal.phase, CompactPhase::Generating);
    assert_eq!(modal.last_error, None);
}

#[test]
fn a_failed_summary_goes_back_to_the_selection() {
    let mut modal = CompactMessagesModal::new(summaries(3));
    modal.prepared(Ok(Some(plan())));
    modal.finished(Ok(String::new()));
    assert_eq!(modal.phase, CompactPhase::Selecting);
    assert_eq!(modal.last_error, Some("LLM returned an empty summary".to_string()));
    modal.finished(Err("offline".to_string()));
    assert_eq!(modal.last_error, Some("Failed to generate summary: offline".to_string()));
    assert_eq!(modal.replace_messages(), None);
}

#[test]
fn a_summary_is_reviewed_and_replaces() {
    let mut modal = CompactMessagesModal::new(summaries(6));
    modal.finished(Ok("summary".to_string()));
    assert_eq!(modal.replace_messages(), Some((3, "summary".to_string())));
    let shown = modal.render();
    assert_eq!(shown.headline, "Review Summary");
    let labels: Vec<&str> = shown.buttons.iter().map(|button| button.label).collect();
    assert_eq!(labels, vec!["Edit", "Back", "Replace Messages"]);
    match shown.content {
        CompactContent::Reviewing(view) => {
            assert_eq!(
                view.description,
                "This will replace 3 messages with the summary below:"
            );
            assert_eq!(view.body, ReviewBody::Text("summary"));
        }
        _ => panic!("not reviewing"),
    }
    modal.back_to_selecting();
    assert_eq!(modal.replace_messages(), None);
    assert_eq!(modal.boundary, 3);
}

#[test]
fn a_summary_is_edited() {
    let mut modal = CompactMessagesModal::new(summaries(6));
    modal.toggle_edit();
    assert_eq!(modal.phase, CompactPhase::Selecting);
    modal.finished(Ok("summary".to_string()));
    modal.toggle_edit();
    assert_eq!(modal.replace_messages(), None);
    modal.ensure_input();
    assert_eq!(modal.replace_messages(), Some((3, "summary".to_string())));
    if let Some(input) = &mut modal.summary_input {
        assert_eq!(input.label, None);
        input.set_text("edited");
    }
    modal.ensure_input();
    assert_eq!(modal.replace_messages(), Some((3, "edited".to_string())));
    assert_eq!(modal.render().buttons[0].label, "Done Editing");
    match modal.render().content {
        CompactContent::Reviewing(view) => match view.body {
            ReviewBody::Editor(Some(input)) => assert_eq!(input.text, "edited"),
            _ => panic!("no editor"),
        },
        _ => panic!("not reviewing"),
    }
    modal.toggle_edit();
    assert_eq!(modal.summary_input, None);
    assert_eq!(modal.replace_messages(), Some((3, "edited".to_string())));
    modal.toggle_edit();
    modal.toggle_edit();
    assert_eq!(modal.replace_messages(), Some((3, "edited".to_string())));
}

#[test]
fn the_selection_lists_the_first_messages() {
    let mut modal = CompactMessagesModal::new(summaries(6));
    modal.set_boundary(2);
    let shown = modal.render();
    assert_eq!(shown.headline, "Compact Old Messages");
    assert_eq!(shown.buttons[0].key, Some(MenuAction::Cancel));
    assert_eq!(shown.buttons[1].action, CompactAction::GenerateSummary);
    assert!(!shown.buttons[1].disabled);
    match shown.content {
        CompactContent::Selecting(view) => {
            assert_eq!(
                view.description,
                "Compact the oldest 2 of 6 messages (4 will be kept)"
            );
            assert_eq!(view.selection, "Messages to compact: 2");
            assert_eq!(view.slider_start, "0");
            assert_eq!(view.slider_end, "6");
            let rows: Vec<(&str, &str)> =
                view.rows.iter().map(|row| (row.role_label, row.preview)).collect();
            assert_eq!(rows, vec![("User", "message 0"), ("Agent", "message 1")]);
        }
        _ => panic!("not selecting"),
    }
    modal.prepared(Ok(Some(plan())));
    let shown = modal.render();
    assert_eq!(shown.content, CompactContent::Generating("Generating summary..."));
    assert_eq!(shown.buttons.len(), 1);
    assert_eq!(shown.buttons[0].id, "cancel-generating");
}

fn selection(model: &str) -> LanguageModelSelection {
    LanguageModelSelection {
        provider: "p".to_string(),
        model: model.to_string(),
        enable_thinking: true,
        effort: Some("high".to_string()),
        speed: None,
    }
}

fn info(id: &str) -> ModelInfo {
    ModelInfo {
        provider_id: "p".to_string(),
        id: id.to_string(),
        supports_thinking: true,
        default_effort_level: Some("high".to_string()),
    }
}

fn registry() -> Vec<ProviderModels> {
    vec![
        ProviderModels { id: "other".to_string(), models: vec![info("a")] },
        ProviderModels { id: "p".to_string(), models: vec![info("a"), info("b")] },
    ]
}

#[test]
fn selections_resolve_to_models() {
    let registry = registry();
    let configured = resolve_configured_model(&selection("b"), &registry).unwrap();
    assert_eq!(configured.provider.id, "p");
    assert_eq!(configured.model.id, "b");
    assert!(resolve_configured_model(&selection("c"), &registry).is_none());
    let mut unknown = selection("a");
    unknown.provider = "gone".to_string();
    assert!(resolve_configured_model(&unknown, &registry).is_none());
    assert_eq!(selection_of(&info("b")), selection("b"));
}

#[test]
fn pickers_show_what_is_chosen() {
    let registry = registry();
    let models = AgentModels {
        thread_summary_model: Some(selection("a")),
        subagent_models: SubagentModels {
            fast: Some(selection("b")),
            standard: None,
            powerful: Some(selection("gone")),
        },
    };
    let shown = |purpose| picked_model(purpose, &models, &registry).map(|found| found.model.id.as_str());
    assert_eq!(shown(ModelPurpose::Summary), Some("a"));
    assert_eq!(shown(ModelPurpose::Fast), Some("b"));
    assert_eq!(shown(ModelPurpose::Standard), None);
    assert_eq!(shown(ModelPurpose::Powerful), None);
}

#[test]
fn choices_are_saved_by_purpose() {
    let mut settings = SettingsContent::new();
    save_selection(ModelPurpose::Fast, selection("f"), &mut settings);
    save_selection(ModelPurpose::Standard, selection("s"), &mut settings);
    save_selection(ModelPurpose::Powerful, selection("p"), &mut settings);
    save_selection(ModelPurpose::Summary, selection("t"), &mut settings);
    let agent = settings.agent.unwrap();
    assert_eq!(agent.thread_summary_model, Some(selection("t")));
    assert_eq!(
        agent.subagent_models,
        Some(SubagentModels {
            fast: Some(selection("f")),
            standard: Some(selection("s")),
            powerful: Some(selection("p")),
        })
    );
    assert_eq!(agent.compaction, None);
}

fn thresholds(deep_omit: u64, summary: u64, min: usize) -> CompactionConfig {
    CompactionConfig {
        deep_omit_threshold_tokens: deep_omit,
        summary_threshold_tokens: summary,
        min_content_chars: min,
    }
}

#[test]
fn an_unchanged_configuration_is_saved_as_it_was() {
    let config = thresholds(1, 2, 3);
    let modal = CompactionSettingsModal::toggle(&config, true);
    assert_eq!(modal.deep_omit_threshold_tokens.text, "1");
    assert_eq!(modal.deep_omit_threshold_tokens.placeholder, "80000");
    assert_eq!(
        modal.summary_threshold_tokens.label,
        Some("Auto compact boundary (tokens from end)".to_string())
    );
    let mut settings = SettingsContent::new();
    assert_eq!(modal.save_config(&mut settings), config);
    let section = settings.agent.unwrap().compaction.unwrap();
    assert_eq!(CompactionConfig::from_settings(Some(&section)), config);
    assert_eq!(section.enabled, None);
}

#[test]
fn what_is_no_number_takes_its_default() {
    let mut modal = CompactionSettingsModal::new(&thresholds(1, 2, 3), false);
    modal.deep_omit_threshold_tokens.set_text("many");
    modal.summary_threshold_tokens.set_text("-1");
    modal.min_content_chars.set_text("");
    let mut settings = SettingsContent::new();
    assert_eq!(modal.save_config(&mut settings), thresholds(80_000, 80_000, 60_000));
}

#[test]
fn defaults_come_back() {
    let mut modal = CompactionSettingsModal::new(&thresholds(1, 2, 3), true);
    let mut settings = SettingsContent::new();
    assert_eq!(modal.reset_defaults(&mut settings), CompactionConfig::default());
    assert!(settings.agent.is_none());
    assert_eq!(modal.min_content_chars.text, "60000");
    modal.save_config(&mut settings);
    save_selection(ModelPurpose::Summary, selection("t"), &mut settings);
    modal.reset_defaults(&mut settings);
    let agent = settings.agent.unwrap();
    assert_eq!(agent.compaction, None);
    assert_eq!(agent.thread_summary_model, Some(selection("t")));
}

#[test]
fn automatic_compaction_is_switched() {
    let mut modal = CompactionSettingsModal::new(&CompactionConfig::default(), false);
    let mut settings = SettingsContent::new();
    modal.save_config(&mut settings);
    assert!(modal.toggle_auto_compact(&mut settings));
    let section = settings.agent.as_ref().unwrap().compaction.unwrap();
    assert_eq!(section.enabled, Some(true));
    assert_eq!(section.min_content_chars, Some(60_000));
    assert_eq!(modal.render().auto_compact_button.label, "On");
    assert_eq!(modal.render().auto_compact_button.style, ButtonStyle::Filled);
    assert!(!modal.toggle_auto_compact(&mut settings));
    assert_eq!(modal.render().auto_compact_button.label, "Off");
    assert_eq!(modal.render().auto_compact_button.style, ButtonStyle::Outlined);
}

#[test]
fn what_the_settings_show() {
    let modal = CompactionSettingsModal::new(&CompactionConfig::default(), false);
    let shown = modal.render();
    assert_eq!(shown.headline, "Compaction Settings");
    assert_eq!(shown.summary_picker.purpose, ModelPurpose::Summary);
    assert_eq!(
        shown.subagent_pickers[2].label,
        "Powerful — refactoring, architecture, deep analysis"
    );
    let actions: Vec<SettingsAction> = shown.buttons.iter().map(|button| button.action).collect();
    assert_eq!(
        actions,
        vec![
            SettingsAction::ResetDefaults,
            SettingsAction::Cancel,
            SettingsAction::SaveAndClose,
        ]
    );
}

fn entry(path: &str, enabled: Option<bool>) -> RulesDirectoryEntry {
    RulesDirectoryEntry { path: path.to_string(), enabled }
}

fn rules_modal(entries: Vec<RulesDirectoryEntry>) -> RulesDirectorySettingsModal {
    RulesDirectorySettingsModal::new(VisibleWorktree {
        id: 7,
        abs_path: "/project".to_string(),
        rules_directories: entries,
    })
}

#[test]
fn rules_open_for_the_first_worktree() {
    assert!(RulesDirectorySettingsModal::toggle(None).is_none());
    let worktree = VisibleWorktree {
        id: 7,
        abs_path: "/project".to_string(),
        rules_directories: vec![entry("a", None)],
    };
    let modal = RulesDirectorySettingsModal::toggle(Some(worktree)).unwrap();
    assert_eq!(modal, rules_modal(vec![entry("a", None)]));
    assert_eq!(modal.worktree_id, 7);
    assert_eq!(modal.worktree_abs_path, "/project");
}

#[test]
fn entries_are_switched_and_removed() {
    let mut modal = rules_modal(vec![entry("a", None), entry("b", Some(false))]);
    assert!(modal.toggle_entry(0));
    assert!(modal.toggle_entry(1));
    assert_eq!(modal.entries, vec![entry("a", Some(false)), entry("b", Some(true))]);
    assert!(modal.toggle_entry(0));
    assert_eq!(modal.entries[0], entry("a", Some(true)));
    assert!(!modal.toggle_entry(2));
    assert!(!modal.remove_entry(2));
    assert!(modal.remove_entry(0));
    assert_eq!(modal.entries, vec![entry("b", Some(true))]);
}

#[test]
fn changed_settings_are_taken_over() {
    let mut modal = rules_modal(vec![entry("a", None)]);
    assert!(!modal.settings_changed(vec![entry("a", None)]));
    assert!(modal.settings_changed(vec![entry("a", Some(true))]));
    assert!(modal.settings_changed(vec![]));
    assert_eq!(modal.entries, vec![]);
    assert!(modal.settings_changed(vec![entry("b", None)]));
}

#[test]
fn entries_are_written_to_the_settings() {
    let document = "{\"rules_directories\":[],\"x\":1,\"y\":2}";
    let mut settings = parse_json(document).unwrap();
    let entries = vec![entry("a", None)];
    let entries_json = || parse_json("[{\"path\":\"a\"}]").unwrap();
    assert!(save_to_settings(&entries, entries_json(), &mut settings));
    assert_eq!(
        compact_json(&settings).unwrap(),
        "{\"rules_directories\":[{\"path\":\"a\"}],\"x\":1,\"y\":2}"
    );
    assert!(save_to_settings(&vec![], entries_json(), &mut settings));
    assert_eq!(compact_json(&settings).unwrap(), "{\"y\":2,\"x\":1}");
    assert!(save_to_settings(&entries, entries_json(), &mut settings));
    assert_eq!(
        compact_json(&settings).unwrap(),
        "{\"y\":2,\"x\":1,\"rules_directories\":[{\"path\":\"a\"}]}"
    );
    let mut settings = parse_json("[1]").unwrap();
    assert!(!save_to_settings(&entries, entries_json(), &mut settings));
    assert_eq!(compact_json(&settings).unwrap(), "[1]");
}

#[test]
fn settings_values_are_edited_alike() {
    let value: serde_json::Value = serde_json::from_str("{\"x\":1}").unwrap();
    let entries_json: serde_json::Value = serde_json::from_str("[\"a\"]").unwrap();
    let (saved, edited) = save_to_settings_value(&vec![entry("a", None)], entries_json, value);
    assert!(saved);
    assert_eq!(edited.to_string(), "{\"x\":1,\"rules_directories\":[\"a\"]}");
}

#[test]
fn what_the_rules_show() {
    let empty = rules_modal(vec![]);
    match empty.render().content {
        RulesContent::Empty { note, hint } => {
            assert_eq!(note, "No rule directories configured.");
            assert_eq!(hint, "Right-click a folder in the Project Panel to add.");
        }
        RulesContent::Entries(_) => panic!("no entries expected"),
    }
    let modal = rules_modal(vec![entry("a", None), entry("b", Some(false))]);
    let shown = modal.render();
    assert_eq!(shown.headline, "Rule Directories");
    assert_eq!(shown.close.label, "Close");
    match shown.content {
        RulesContent::Entries(rows) => {
            assert_eq!(rows.len(), 2);
            assert_eq!(rows[0].path, "a");
            assert!(!rows[0].muted);
            assert_eq!(rows[0].switch_state, ToggleState::Selected);
            assert_eq!(rows[1].switch_id, "toggle-1");
            assert_eq!(rows[1].remove_id, "remove-1");
            assert!(rows[1].muted);
            assert_eq!(rows[1].switch_state, ToggleState::Unselected);
            assert_eq!(rows[1].remove_action, RulesAction::RemoveEntry { index: 1 });
        }
        RulesContent::Empty { .. } => panic!("entries expected"),
    }
}
