use agent::form::{ButtonStyle, ToggleState};
use agent::provider::{
    save_provider_to_settings, AddLlmProviderInput, Credentials, LlmCompatibleProvider, Mode,
    ModelInput, ProviderError, RegisteredProvider, SavePlan,
};
use agent::provider_modal::{AddLlmProviderModal, Capability, ProviderAction};
use agent::settings::{
    AvailableModel, ModelCapabilities, OpenAiCompatibleSettingsContent, ProviderTable,
    SettingsContent,
};

fn save_provider(
    provider_name: &str,
    api_url: &str,
    api_key: &str,
    models: Vec<(&str, &str, &str, &str)>,
    registry: &[RegisteredProvider],
) -> Result<SavePlan, ProviderError> {
    let mut input = AddLlmProviderInput::new(LlmCompatibleProvider::OpenAi);
    input.provider_name.set_text(provider_name);
    input.api_url.set_text(api_url);
    input.api_key.set_text(api_key);
    for (i, (name, max_tokens, max_completion_tokens, max_output_tokens)) in
        models.iter().enumerate()
    {
        if i >= input.models.len() {
            input.models.push(ModelInput::new(i));
        }
        let model = &mut input.models[i];
        model.name.set_text(name);
        model.max_tokens.set_text(max_tokens);
        model.max_completion_tokens.set_text(max_completion_tokens);
        model.max_output_tokens.set_text(max_output_tokens);
    }
    save_provider_to_settings(&input, &Mode::Add, registry, &ProviderTable::new())
}

fn save_provider_validation_errors(
    provider_name: &str,
    api_url: &str,
    api_key: &str,
    models: Vec<(&str, &str, &str, &str)>,
    registry: &[RegisteredProvider],
) -> Option<&'static str> {
    save_provider(provider_name, api_url, api_key, models, registry)
        .err()
        .map(|error| error.message())
}

#[test]
fn test_save_provider_invalid_inputs() {
    assert_eq!(
        save_provider_validation_errors("", "someurl", "somekey", vec![], &[]),
        Some("Provider Name cannot be empty")
    );

    assert_eq!(
        save_provider_validation_errors("someprovider", "", "somekey", vec![], &[]),
        Some("API URL cannot be empty")
    );

    assert_eq!(
        save_provider_validation_errors("someprovider", "someurl", "", vec![], &[]),
        Some("API Key cannot be empty")
    );

    assert_eq!(
        save_provider_validation_errors(
            "someprovider",
            "someurl",
            "somekey",
            vec![("", "200000", "200000", "32000")],
            &[],
        ),
        Some("Model Name cannot be empty")
    );

    assert_eq!(
        save_provider_validation_errors(
            "someprovider",
            "someurl",
            "somekey",
            vec![("somemodel", "abc", "200000", "32000")],
            &[],
        ),
        Some("Max Tokens must be a number")
    );

    assert_eq!(
        save_provider_validation_errors(
            "someprovider",
            "someurl",
            "somekey",
            vec![("somemodel", "200000", "abc", "32000")],
            &[],
        ),
        Some("Max Completion Tokens must be a number")
    );

    assert_eq!(
        save_provider_validation_errors(
            "someprovider",
            "someurl",
            "somekey",
            vec![("somemodel", "200000", "200000", "abc")],
            &[],
        ),
        Some("Max Output Tokens must be a number")
    );

    assert_eq!(
        save_provider_validation_errors(
            "someprovider",
            "someurl",
            "somekey",
            vec![
                ("somemodel", "200000", "200000", "32000"),
                ("somemodel", "200000", "200000", "32000"),
            ],
            &[],
        ),
        Some("Model Names must be unique")
    );
}

#[test]
fn test_save_provider_name_conflict() {
    let registry = vec![RegisteredProvider {
        id: "someprovider".to_string(),
        name: "Some Provider".to_string(),
    }];

    assert_eq!(
        save_provider_validation_errors(
            "someprovider",
            "someurl",
            "someapikey",
            vec![("somemodel", "200000", "200000", "32000")],
            &registry,
        ),
        Some("Provider Name is already taken by another provider")
    );
}

#[test]
fn test_model_input_default_capabilities() {
    let mut model_input = ModelInput::new(0);
    model_input.name.set_text("somemodel");
    assert_eq!(model_input.capabilities.supports_tools, ToggleState::Selected);
    assert_eq!(model_input.capabilities.supports_images, ToggleState::Unselected);
    assert_eq!(
        model_input.capabilities.supports_parallel_tool_calls,
        ToggleState::Unselected
    );
    assert_eq!(
        model_input.capabilities.supports_prompt_cache_key,
        ToggleState::Unselected
    );
    assert_eq!(
        model_input.capabilities.supports_chat_completions,
        ToggleState::Selected
    );

    let parsed_model = model_input.parse().unwrap();
    assert!(parsed_model.capabilities.tools);
    assert!(!parsed_model.capabilities.images);
    assert!(!parsed_model.capabilities.parallel_tool_calls);
    assert!(!parsed_model.capabilities.prompt_cache_key);
    assert!(parsed_model.capabilities.chat_completions);
}

#[test]
fn test_model_input_deselected_capabilities() {
    let mut model_input = ModelInput::new(0);
    model_input.name.set_text("somemodel");

    model_input.capabilities.supports_tools = ToggleState::Unselected;
    model_input.capabilities.supports_images = ToggleState::Unselected;
    model_input.capabilities.supports_parallel_tool_calls = ToggleState::Unselected;
    model_input.capabilities.supports_prompt_cache_key = ToggleState::Unselected;
    model_input.capabilities.supports_chat_completions = ToggleState::Unselected;

    let parsed_model = model_input.parse().unwrap();
    assert!(!parsed_model.capabilities.tools);
    assert!(!parsed_model.capabilities.images);
    assert!(!parsed_model.capabilities.parallel_tool_calls);
    assert!(!parsed_model.capabilities.prompt_cache_key);
    assert!(!parsed_model.capabilities.chat_completions);
}

#[test]
fn test_model_input_with_name_and_capabilities() {
    let mut model_input = ModelInput::new(0);
    model_input.name.set_text("somemodel");

    model_input.capabilities.supports_tools = ToggleState::Selected;
    model_input.capabilities.supports_images = ToggleState::Unselected;
    model_input.capabilities.supports_parallel_tool_calls = ToggleState::Selected;
    model_input.capabilities.supports_prompt_cache_key = ToggleState::Unselected;
    model_input.capabilities.supports_chat_completions = ToggleState::Selected;

    let parsed_model = model_input.parse().unwrap();
    assert_eq!(parsed_model.name, "somemodel");
    assert!(parsed_model.capabilities.tools);
    assert!(!parsed_model.capabilities.images);
    assert!(parsed_model.capabilities.parallel_tool_calls);
    assert!(!parsed_model.capabilities.prompt_cache_key);
    assert!(parsed_model.capabilities.chat_completions);
}

fn model(name: &str) -> AvailableModel {
    AvailableModel {
        name: name.to_string(),
        display_name: None,
        max_completion_tokens: Some(200000),
        max_output_tokens: Some(32000),
        max_tokens: 200000,
        reasoning_effort: None,
        capabilities: ModelCapabilities::default(),
    }
}

fn content(api_url: &str, names: &[&str]) -> OpenAiCompatibleSettingsContent {
    OpenAiCompatibleSettingsContent {
        api_url: api_url.to_string(),
        available_models: names.iter().map(|name| model(name)).collect(),
    }
}

fn providers() -> ProviderTable {
    let mut table = ProviderTable::new();
    table.insert("mine".to_string(), content("https://old", &["a", "b"]));
    table
}

#[test]
fn labels_of_a_new_model() {
    let input = ModelInput::new(2);
    assert_eq!(input.name.tab_index, Some(12));
    assert_eq!(input.max_completion_tokens.tab_index, Some(13));
    assert_eq!(input.max_output_tokens.tab_index, Some(14));
    assert_eq!(input.max_tokens.tab_index, Some(15));
    assert_eq!(input.name.label, Some("Model Name".to_string()));
    assert_eq!(input.name.text, "");
    assert_eq!(input.max_completion_tokens.text, "200000");
    assert_eq!(input.max_output_tokens.text, "32000");
    assert_eq!(input.max_tokens.text, "200000");
    assert_eq!(input.parse(), Err(ProviderError::ModelNameEmpty));
}

#[test]
fn a_new_provider_has_one_model() {
    let mut input = AddLlmProviderInput::new(LlmCompatibleProvider::OpenAi);
    assert_eq!(input.provider_name.placeholder, "OpenAI");
    assert_eq!(input.api_url.placeholder, "https://api.openai.com/v1");
    assert!(input.api_key.masked);
    assert_eq!(input.api_key.tab_index, Some(3));
    assert_eq!(input.models.len(), 1);
    input.add_model();
    input.models[1].name.set_text("second");
    assert_eq!(input.models[1].name.tab_index, Some(8));
    input.remove_model(0);
    assert_eq!(input.models.len(), 1);
    assert_eq!(input.models[0].name.text, "second");
}

#[test]
fn adding_a_provider_writes_its_key_first() {
    let plan = save_provider(
        "someprovider",
        "someurl",
        "somekey",
        vec![("somemodel", "200000", "200000", "32000")],
        &[],
    )
    .unwrap();
    assert_eq!(plan.delete_credentials, None);
    assert_eq!(
        plan.write_credentials,
        Some(Credentials { url: "someurl".to_string(), password: "somekey".to_string() })
    );
    let mut settings = SettingsContent::new();
    let update = plan.after_credentials(true).unwrap();
    assert_eq!(update.apply(&mut settings), None);
    let table = settings.language_models.unwrap().openai_compatible.unwrap();
    assert_eq!(table.get("someprovider"), Some(&content("someurl", &["somemodel"])));
}

#[test]
fn a_key_that_cannot_be_written_changes_nothing() {
    let plan = save_provider("p", "u", "k", vec![("m", "1", "2", "3")], &[]).unwrap();
    let error = plan.after_credentials(false).unwrap_err();
    assert_eq!(error, ProviderError::ApiKeyNotWritten);
    assert_eq!(error.message(), "Failed to write API key to keychain");
}

#[test]
fn names_conflict_with_ids_and_names() {
    let registry = vec![RegisteredProvider { id: "id".to_string(), name: "Name".to_string() }];
    for name in ["id", "Name"] {
        assert_eq!(
            save_provider(name, "u", "k", vec![("m", "1", "2", "3")], &registry),
            Err(ProviderError::ProviderNameTaken)
        );
    }
    assert!(save_provider("name", "u", "k", vec![("m", "1", "2", "3")], &registry).is_ok());
}

#[test]
fn an_unchanged_provider_is_saved_as_it_was() {
    let table = providers();
    let registry = vec![RegisteredProvider { id: "mine".to_string(), name: "mine".to_string() }];
    let modal = AddLlmProviderModal::toggle_edit("mine".to_string(), &table);
    assert_eq!(modal.input.provider_name.text, "mine");
    assert_eq!(modal.input.models.len(), 2);
    let plan = modal.confirm(&registry, &table).unwrap();
    assert_eq!(plan.delete_credentials, None);
    assert_eq!(plan.write_credentials, None);
    let update = plan.after_credentials(false).unwrap();
    assert_eq!(update.renamed_from, None);
    assert_eq!(update.content, content("https://old", &["a", "b"]));
}

#[test]
fn a_renamed_provider_moves() {
    let table = providers();
    let mut modal = AddLlmProviderModal::toggle_edit("mine".to_string(), &table);
    modal.input.provider_name.set_text("ours");
    modal.input.api_url.set_text("https://new");
    modal.input.api_key.set_text("key");
    let plan = modal.confirm(&[], &table).unwrap();
    assert_eq!(plan.delete_credentials, Some("https://old".to_string()));
    assert_eq!(
        plan.write_credentials,
        Some(Credentials { url: "https://new".to_string(), password: "key".to_string() })
    );
    let mut settings = SettingsContent::new();
    plan.after_credentials(true).unwrap().apply(&mut settings);
    let mut old = SettingsContent::new();
    old.language_models = Some(agent::settings::LanguageModelsContent {
        openai_compatible: Some(providers()),
    });
    let plan = modal.confirm(&[], &table).unwrap();
    let unregistered = plan.after_credentials(true).unwrap().apply(&mut old);
    assert_eq!(unregistered, Some("mine".to_string()));
    let table = old.language_models.unwrap().openai_compatible.unwrap();
    assert_eq!(table.get("mine"), None);
    assert_eq!(table.get("ours"), Some(&content("https://new", &["a", "b"])));
}

#[test]
fn a_rename_to_a_taken_name_is_refused() {
    let table = providers();
    let registry = vec![RegisteredProvider { id: "other".to_string(), name: "Other".to_string() }];
    let mut modal = AddLlmProviderModal::toggle_edit("mine".to_string(), &table);
    modal.input.provider_name.set_text("Other");
    assert_eq!(modal.confirm(&registry, &table), Err(ProviderError::ProviderNameTaken));
}

#[test]
fn existing_models_are_read_back() {
    let capabilities = ModelCapabilities {
        tools: false,
        images: true,
        parallel_tool_calls: true,
        prompt_cache_key: true,
        chat_completions: false,
        interleaved_reasoning: true,
    };
    let mut existing = model("m");
    existing.capabilities = capabilities;
    existing.display_name = Some("Shown".to_string());
    let parsed = ModelInput::from_existing(1, &existing).parse().unwrap();
    existing.display_name = None;
    existing.capabilities.interleaved_reasoning = false;
    assert_eq!(parsed, existing);
    existing.max_output_tokens = None;
    assert_eq!(
        ModelInput::from_existing(1, &existing).parse(),
        Err(ProviderError::MaxOutputTokensNotANumber)
    );
}

#[test]
fn an_unknown_provider_is_added() {
    let modal = AddLlmProviderModal::toggle_edit("gone".to_string(), &providers());
    assert_eq!(modal, AddLlmProviderModal::toggle(LlmCompatibleProvider::OpenAi));
    let edit = Mode::Edit { provider_id: "mine".to_string() };
    let modal = AddLlmProviderModal::new(LlmCompatibleProvider::OpenAi, edit, &providers());
    assert_eq!(modal.mode, Mode::Edit { provider_id: "mine".to_string() });
}

#[test]
fn a_provider_without_models_opens_with_one() {
    let mut table = ProviderTable::new();
    table.insert("empty".to_string(), content("https://x", &[]));
    let modal = AddLlmProviderModal::toggle_edit("empty".to_string(), &table);
    assert_eq!(modal.input.models, vec![ModelInput::new(0)]);
    assert_eq!(modal.input.api_key.placeholder, "Leave blank to keep current key");
    table.remove("empty");
    assert_eq!(table.get("empty"), None);
}

#[test]
fn what_the_dialog_shows() {
    let mut modal = AddLlmProviderModal::toggle(LlmCompatibleProvider::OpenAi);
    let shown = modal.render();
    assert_eq!(shown.headline, "Add LLM Provider");
    assert_eq!(shown.description, "This provider will use an OpenAI compatible API.");
    assert_eq!(shown.error, None);
    assert_eq!(shown.section.models.len(), 1);
    assert!(shown.section.models[0].remove.is_none());
    assert_eq!(shown.buttons[1].label, "Save Provider");
    assert_eq!(shown.buttons[1].action, ProviderAction::Confirm);
    assert!(!modal.saved(Err(ProviderError::ApiUrlEmpty)));
    modal.input.add_model();
    let shown = modal.render();
    assert_eq!(shown.error, Some("API URL cannot be empty"));
    let remove = shown.section.models[1].remove.as_ref().unwrap();
    assert_eq!(remove.label, "Remove Model");
    assert_eq!(remove.style, ButtonStyle::Outlined);
    assert_eq!(remove.action, ProviderAction::RemoveModel { index: 1 });
    assert!(modal.saved(Ok(())));
    assert_eq!(modal.last_error, Some(ProviderError::ApiUrlEmpty));
    let modal = AddLlmProviderModal::toggle_edit("mine".to_string(), &providers());
    assert_eq!(modal.render().headline, "Edit LLM Provider");
}

#[test]
fn check_boxes_are_independent() {
    let mut modal = AddLlmProviderModal::toggle(LlmCompatibleProvider::OpenAi);
    modal.set_capability(0, Capability::Images, ToggleState::Selected);
    modal.set_capability(0, Capability::Tools, ToggleState::Indeterminate);
    modal.input.models[0].name.set_text("m");
    let parsed = modal.input.models[0].parse().unwrap();
    assert!(parsed.capabilities.images);
    assert!(!parsed.capabilities.tools);
    assert!(parsed.capabilities.chat_completions);
    let shown = modal.render_model(0);
    let labels: Vec<&str> = shown.checkboxes.iter().map(|checkbox| checkbox.label).collect();
    assert_eq!(
        labels,
        vec![
            "Supports tools",
            "Supports images",
            "Supports parallel_tool_calls",
            "Supports prompt_cache_key",
            "Supports /chat/completions",
        ]
    );
    assert_eq!(shown.checkboxes[1].state, ToggleState::Selected);
    for capability in [
        Capability::ParallelToolCalls,
        Capability::PromptCacheKey,
        Capability::ChatCompletions,
    ] {
        modal.set_capability(0, capability, ToggleState::Unselected);
    }
    assert!(!modal.input.models[0].parse().unwrap().capabilities.chat_completions);
}
