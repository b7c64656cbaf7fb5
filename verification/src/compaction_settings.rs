//! The dialog in which compaction, and the models of the agent, are configured.

use crate::form;
use crate::form::{Button, ButtonStyle, ButtonView, FieldView, InputField, MenuAction};
use crate::settings;
use crate::settings::{
    AgentModels, AgentSettingsContent, LanguageModelSelection, SettingsContent, SubagentModels,
};
use crate::text;
use crate::zones;
use crate::zones::{CompactionConfig, CompactionSettingsContent};
use vstd::prelude::*;

verus! {

/// A model that a provider offers to the running program.
#[derive(Debug, PartialEq)]
pub struct ModelInfo {
    pub provider_id: String,
    pub id: String,
    pub supports_thinking: bool,
    pub default_effort_level: Option<String>,
}

/// A provider that is known to the running program, with its models.
#[derive(Debug, PartialEq)]
pub struct ProviderModels {
    pub id: String,
    pub models: Vec<ModelInfo>,
}

/// A model together with its provider.
#[derive(Debug, PartialEq)]
pub struct ConfiguredModel<'a> {
    pub provider: &'a ProviderModels,
    pub model: &'a ModelInfo,
}

/// The first provider with an id.
pub open spec fn provider_with_id(registry: Seq<ProviderModels>, id: Seq<char>) -> Option<
    ProviderModels,
>
    decreases registry.len(),
{
    if registry.len() == 0 {
        None
    } else if registry[0].id@ == id {
        Some(registry[0])
    } else {
        provider_with_id(registry.drop_first(), id)
    }
}

/// The first model with an id.
pub open spec fn model_with_id(models: Seq<ModelInfo>, id: Seq<char>) -> Option<ModelInfo>
    decreases models.len(),
{
    if models.len() == 0 {
        None
    } else if models[0].id@ == id {
        Some(models[0])
    } else {
        model_with_id(models.drop_first(), id)
    }
}

/// The model that a selection names, with its provider, where there is one.
pub open spec fn resolved(
    selection: LanguageModelSelection,
    registry: Seq<ProviderModels>,
) -> Option<(ProviderModels, ModelInfo)> {
    match provider_with_id(registry, selection.provider@) {
        Some(provider) => match model_with_id(provider.models@, selection.model@) {
            Some(model) => Some((provider, model)),
            None => None,
        },
        None => None,
    }
}

fn find_model<'a>(models: &'a Vec<ModelInfo>, id: &str) -> (found: Option<&'a ModelInfo>)
    ensures
        match found {
            Some(model) => model_with_id(models@, id@) == Some(*model),
            None => model_with_id(models@, id@) is None,
        },
{
    let mut i: usize = 0;
    assert(models@.skip(0) =~= models@);
    while i < models.len()
        invariant
            i <= models@.len(),
            model_with_id(models@, id@) == model_with_id(models@.skip(i as int), id@),
        decreases models.len() - i,
    {
        proof {
            assert(models@.skip(i as int)[0] == models@[i as int]);
            assert(models@.skip(i as int).drop_first() =~= models@.skip(i + 1));
        }
        if text::same_text(models[i].id.as_str(), id) {
            return Some(&models[i]);
        }
        i = i + 1;
    }
    assert(models@.skip(i as int).len() == 0);
    None
}

fn find_provider<'a>(registry: &'a [ProviderModels], id: &str) -> (found: Option<
    &'a ProviderModels,
>)
    ensures
        match found {
            Some(provider) => provider_with_id(registry@, id@) == Some(*provider),
            None => provider_with_id(registry@, id@) is None,
        },
{
    let mut i: usize = 0;
    assert(registry@.skip(0) =~= registry@);
    while i < registry.len()
        invariant
            i <= registry@.len(),
            provider_with_id(registry@, id@) == provider_with_id(registry@.skip(i as int), id@),
        decreases registry.len() - i,
    {
        proof {
            assert(registry@.skip(i as int)[0] == registry@[i as int]);
            assert(registry@.skip(i as int).drop_first() =~= registry@.skip(i + 1));
        }
        if text::same_text(registry[i].id.as_str(), id) {
            return Some(&registry[i]);
        }
        i = i + 1;
    }
    assert(registry@.skip(i as int).len() == 0);
    None
}

/// The model that a selection names, with its provider, where there is one.
pub fn resolve_configured_model<'a>(
    selection: &LanguageModelSelection,
    registry: &'a [ProviderModels],
) -> (configured: Option<ConfiguredModel<'a>>)
    ensures
        match configured {
            Some(configured) => resolved(*selection, registry@) == Some(
                (*configured.provider, *configured.model),
            ),
            None => resolved(*selection, registry@) is None,
        },
{
    let provider = match find_provider(registry, selection.provider.as_str()) {
        Some(provider) => provider,
        None => return None,
    };
    match find_model(&provider.models, selection.model.as_str()) {
        Some(model) => Some(ConfiguredModel { provider, model }),
        None => None,
    }
}

/// What a model is chosen for.
#[derive(Debug, Clone, Copy, PartialEq, Eq, Structural)]
pub enum ModelPurpose {
    Summary,
    Fast,
    Standard,
    Powerful,
}

/// The model that is chosen for a purpose.
pub open spec fn chosen(purpose: ModelPurpose, models: AgentModels) -> Option<
    LanguageModelSelection,
> {
    match purpose {
        ModelPurpose::Summary => models.thread_summary_model,
        ModelPurpose::Fast => models.subagent_models.fast,
        ModelPurpose::Standard => models.subagent_models.standard,
        ModelPurpose::Powerful => models.subagent_models.powerful,
    }
}

/// The model that a picker shows: the one chosen for its purpose, where it exists.
pub fn picked_model<'a>(
    purpose: ModelPurpose,
    models: &AgentModels,
    registry: &'a [ProviderModels],
) -> (picked: Option<ConfiguredModel<'a>>)
    ensures
        ({
            let expected = match chosen(purpose, *models) {
                Some(selection) => resolved(selection, registry@),
                None => None,
            };
            match picked {
                Some(configured) => expected == Some((*configured.provider, *configured.model)),
                None => expected is None,
            }
        }),
{
    let selection = match purpose {
        ModelPurpose::Summary => &models.thread_summary_model,
        ModelPurpose::Fast => &models.subagent_models.fast,
        ModelPurpose::Standard => &models.subagent_models.standard,
        ModelPurpose::Powerful => &models.subagent_models.powerful,
    };
    match selection {
        Some(selection) => resolve_configured_model(selection, registry),
        None => None,
    }
}

/// Whether a selection names a model, with thinking where the model supports it and the effort
/// that the model has by default.
pub open spec fn selects(selection: LanguageModelSelection, model: ModelInfo) -> bool {
    &&& selection.provider@ == model.provider_id@
    &&& selection.model@ == model.id@
    &&& selection.enable_thinking == model.supports_thinking
    &&& text::optional_text(selection.effort) == text::optional_text(
        model.default_effort_level,
    )
    &&& selection.speed is None
}

/// The selection that picking a model makes.
pub fn selection_of(model: &ModelInfo) -> (selection: LanguageModelSelection)
    ensures
        selects(selection, *model),
{
    LanguageModelSelection {
        provider: model.provider_id.clone(),
        model: model.id.clone(),
        enable_thinking: model.supports_thinking,
        effort: match &model.default_effort_level {
            Some(effort) => Some(effort.clone()),
            None => None,
        },
        speed: None,
    }
}

/// The agent section after a model was chosen for a purpose.
pub open spec fn agent_with_model(
    agent: AgentSettingsContent,
    purpose: ModelPurpose,
    selection: LanguageModelSelection,
) -> AgentSettingsContent {
    let subagents = match agent.subagent_models {
        Some(models) => models,
        None => settings::empty_subagent_models(),
    };
    match purpose {
        ModelPurpose::Summary => AgentSettingsContent {
            thread_summary_model: Some(selection),
            ..agent
        },
        ModelPurpose::Fast => AgentSettingsContent {
            subagent_models: Some(SubagentModels { fast: Some(selection), ..subagents }),
            ..agent
        },
        ModelPurpose::Standard => AgentSettingsContent {
            subagent_models: Some(SubagentModels { standard: Some(selection), ..subagents }),
            ..agent
        },
        ModelPurpose::Powerful => AgentSettingsContent {
            subagent_models: Some(SubagentModels { powerful: Some(selection), ..subagents }),
            ..agent
        },
    }
}

/// Writes to the settings which model was chosen for a purpose.
pub fn save_selection(
    purpose: ModelPurpose,
    selection: LanguageModelSelection,
    settings: &mut SettingsContent,
)
    ensures
        final(settings).agent == Some(
            agent_with_model(settings::agent_of(*old(settings)), purpose, selection),
        ),
        final(settings).language_models == old(settings).language_models,
{
    let agent = settings.agent.get_or_insert(AgentSettingsContent::new());
    match purpose {
        ModelPurpose::Summary => {
            agent.thread_summary_model = Some(selection);
        },
        ModelPurpose::Fast => {
            let models = agent.subagent_models.get_or_insert(SubagentModels::new());
            models.fast = Some(selection);
        },
        ModelPurpose::Standard => {
            let models = agent.subagent_models.get_or_insert(SubagentModels::new());
            models.standard = Some(selection);
        },
        ModelPurpose::Powerful => {
            let models = agent.subagent_models.get_or_insert(SubagentModels::new());
            models.powerful = Some(selection);
        },
    }
}

/// The settings with another compaction section.
pub open spec fn with_compaction(
    before: SettingsContent,
    section: CompactionSettingsContent,
) -> SettingsContent {
    SettingsContent {
        agent: Some(
            AgentSettingsContent { compaction: Some(section), ..settings::agent_of(before) },
        ),
        ..before
    }
}

/// The dialog in which compaction is configured.
#[derive(Debug, PartialEq)]
pub struct CompactionSettingsModal {
    pub auto_compact_enabled: bool,
    pub deep_omit_threshold_tokens: InputField,
    pub summary_threshold_tokens: InputField,
    pub min_content_chars: InputField,
}

/// What a [`CompactionSettingsModal`] stands for.
pub struct SettingsModalView {
    pub auto_compact_enabled: bool,
    pub deep_omit_threshold_tokens: FieldView,
    pub summary_threshold_tokens: FieldView,
    pub min_content_chars: FieldView,
}

impl View for CompactionSettingsModal {
    type V = SettingsModalView;

    open spec fn view(&self) -> SettingsModalView {
        SettingsModalView {
            auto_compact_enabled: self.auto_compact_enabled,
            deep_omit_threshold_tokens: self.deep_omit_threshold_tokens@,
            summary_threshold_tokens: self.summary_threshold_tokens@,
            min_content_chars: self.min_content_chars@,
        }
    }
}

/// The dialog when it opens.
pub open spec fn opened(config: CompactionConfig, enabled: bool) -> SettingsModalView {
    SettingsModalView {
        auto_compact_enabled: enabled,
        deep_omit_threshold_tokens: form::plain_field(
            Some("Tool result strip boundary (tokens from end)"@),
            "80000"@,
            text::decimal(config.deep_omit_threshold_tokens as nat),
        ),
        summary_threshold_tokens: form::plain_field(
            Some("Auto compact boundary (tokens from end)"@),
            "80000"@,
            text::decimal(config.summary_threshold_tokens as nat),
        ),
        min_content_chars: form::plain_field(
            Some("Min content chars to summarize"@),
            "60000"@,
            text::decimal(config.min_content_chars as nat),
        ),
    }
}

/// The number that a text stands for, or another where it stands for none that fits.
pub open spec fn number_or(text: Seq<char>, max: nat, fallback: nat) -> nat {
    match text::natural_up_to(text, max) {
        Some(number) => number,
        None => fallback,
    }
}

/// The configuration that the fields describe. What is not a number takes its default.
pub open spec fn entered_config(modal: SettingsModalView) -> CompactionConfig {
    let fallback = zones::default_config();
    CompactionConfig {
        deep_omit_threshold_tokens: number_or(
            modal.deep_omit_threshold_tokens.text,
            u64::MAX as nat,
            fallback.deep_omit_threshold_tokens as nat,
        ) as u64,
        summary_threshold_tokens: number_or(
            modal.summary_threshold_tokens.text,
            u64::MAX as nat,
            fallback.summary_threshold_tokens as nat,
        ) as u64,
        min_content_chars: number_or(
            modal.min_content_chars.text,
            usize::MAX as nat,
            fallback.min_content_chars as nat,
        ) as usize,
    }
}

/// The compaction section with given thresholds.
pub open spec fn section_with(
    section: CompactionSettingsContent,
    config: CompactionConfig,
) -> CompactionSettingsContent {
    CompactionSettingsContent {
        deep_omit_threshold_tokens: Some(config.deep_omit_threshold_tokens),
        summary_threshold_tokens: Some(config.summary_threshold_tokens),
        min_content_chars: Some(config.min_content_chars),
        ..section
    }
}

/// The dialog with the thresholds of a configuration in its fields.
pub open spec fn with_config(
    modal: SettingsModalView,
    config: CompactionConfig,
) -> SettingsModalView {
    SettingsModalView {
        deep_omit_threshold_tokens: modal.deep_omit_threshold_tokens.with_text(
            text::decimal(config.deep_omit_threshold_tokens as nat),
        ),
        summary_threshold_tokens: modal.summary_threshold_tokens.with_text(
            text::decimal(config.summary_threshold_tokens as nat),
        ),
        min_content_chars: modal.min_content_chars.with_text(
            text::decimal(config.min_content_chars as nat),
        ),
        ..modal
    }
}

/// The settings without a compaction section.
pub open spec fn without_compaction(before: SettingsContent) -> SettingsContent {
    SettingsContent {
        agent: match before.agent {
            Some(agent) => Some(AgentSettingsContent { compaction: None, ..agent }),
            None => None,
        },
        ..before
    }
}

/// What the buttons of the dialog do.
#[derive(Debug, Clone, Copy, PartialEq, Eq, Structural)]
pub enum SettingsAction {
    ToggleAutoCompact,
    ResetDefaults,
    Cancel,
    SaveAndClose,
}

/// The label over a picker, with what the picker is for.
#[derive(Debug, Clone, Copy, PartialEq)]
pub struct PickerLabel {
    pub purpose: ModelPurpose,
    pub label: &'static str,
}

/// Whether a label is the given one for a purpose.
pub open spec fn labels(label: PickerLabel, purpose: ModelPurpose, text: Seq<char>) -> bool {
    label.purpose == purpose && label.label@ == text
}

/// What the dialog shows.
#[derive(Debug, PartialEq)]
pub struct SettingsForm<'a> {
    pub headline: &'static str,
    pub summary_picker: PickerLabel,
    pub subagents_heading: &'static str,
    pub subagent_pickers: Vec<PickerLabel>,
    pub auto_compact_label: &'static str,
    pub auto_compact_description: &'static str,
    pub auto_compact_button: Button<SettingsAction>,
    pub stripping_heading: &'static str,
    pub deep_omit_threshold_tokens: &'a InputField,
    pub summary_heading: &'static str,
    pub summary_threshold_tokens: &'a InputField,
    pub min_content_chars: &'a InputField,
    pub buttons: Vec<Button<SettingsAction>>,
}

/// The switch for automatic compaction.
pub open spec fn auto_compact_button(enabled: bool) -> ButtonView<SettingsAction> {
    form::simple_button(
        "auto-compact-toggle"@,
        if enabled {
            "On"@
        } else {
            "Off"@
        },
        if enabled {
            ButtonStyle::Filled
        } else {
            ButtonStyle::Outlined
        },
        SettingsAction::ToggleAutoCompact,
    )
}

/// Whether `shown` is what a dialog shows.
pub open spec fn shows_modal(shown: SettingsForm<'_>, modal: CompactionSettingsModal) -> bool {
    &&& shown.headline@ == "Compaction Settings"@
    &&& labels(shown.summary_picker, ModelPurpose::Summary, "Summary Model"@)
    &&& shown.subagents_heading@ == "Subagent Models"@
    &&& shown.subagent_pickers@.len() == 3
    &&& labels(
        shown.subagent_pickers@[0],
        ModelPurpose::Fast,
        "Fast — simple lookups, formatting, single edits"@,
    )
    &&& labels(
        shown.subagent_pickers@[1],
        ModelPurpose::Standard,
        "Standard — code changes, tool calls, file reads"@,
    )
    &&& labels(
        shown.subagent_pickers@[2],
        ModelPurpose::Powerful,
        "Powerful — refactoring, architecture, deep analysis"@,
    )
    &&& shown.auto_compact_label@ == "Auto Compact"@
    &&& shown.auto_compact_description@
        == "Automatically summarize old messages at the start of each turn"@
    &&& shown.auto_compact_button@ == auto_compact_button(modal.auto_compact_enabled)
    &&& shown.stripping_heading@ == "Tool Result Stripping (Tier 1)"@
    &&& *shown.deep_omit_threshold_tokens == modal.deep_omit_threshold_tokens
    &&& shown.summary_heading@ == "Message Summary (Tier 2)"@
    &&& *shown.summary_threshold_tokens == modal.summary_threshold_tokens
    &&& *shown.min_content_chars == modal.min_content_chars
    &&& form::button_views(shown.buttons@) == seq![
        form::simple_button(
            "reset"@,
            "Reset to Defaults"@,
            ButtonStyle::Outlined,
            SettingsAction::ResetDefaults,
        ),
        form::keyed_button("cancel-btn"@, "Cancel"@, MenuAction::Cancel, SettingsAction::Cancel),
        form::simple_button(
            "save"@,
            "Save"@,
            ButtonStyle::Filled,
            SettingsAction::SaveAndClose,
        ),
    ]
}

fn read_u64(field: &InputField, fallback: u64) -> (number: u64)
    ensures
        number == number_or(field@.text, u64::MAX as nat, fallback as nat),
{
    match text::parse_u64(field.text.as_str()) {
        Some(number) => number,
        None => fallback,
    }
}

fn read_usize(field: &InputField, fallback: usize) -> (number: usize)
    ensures
        number == number_or(field@.text, usize::MAX as nat, fallback as nat),
{
    match text::parse_usize(field.text.as_str()) {
        Some(number) => number,
        None => fallback,
    }
}

impl CompactionSettingsModal {
    /// The dialog that opens for a conversation, whose configuration this is.
    pub fn toggle(config: &CompactionConfig, enabled: bool) -> (modal: Self)
        ensures
            modal@ == opened(*config, enabled),
    {
        CompactionSettingsModal::new(config, enabled)
    }

    /// The dialog for a configuration.
    pub fn new(config: &CompactionConfig, enabled: bool) -> (modal: Self)
        ensures
            modal@ == opened(*config, enabled),
    {
        CompactionSettingsModal {
            auto_compact_enabled: enabled,
            deep_omit_threshold_tokens: form::plain_input(
                Some("Tool result strip boundary (tokens from end)"),
                "80000",
                text::u64_to_string(config.deep_omit_threshold_tokens).as_str(),
            ),
            summary_threshold_tokens: form::plain_input(
                Some("Auto compact boundary (tokens from end)"),
                "80000",
                text::u64_to_string(config.summary_threshold_tokens).as_str(),
            ),
            min_content_chars: form::plain_input(
                Some("Min content chars to summarize"),
                "60000",
                text::usize_to_string(config.min_content_chars).as_str(),
            ),
        }
    }

    /// Switches automatic compaction on or off, in the dialog and in the settings. Returns whether
    /// it is on from now on.
    pub fn toggle_auto_compact(&mut self, settings: &mut SettingsContent) -> (enabled: bool)
        ensures
            enabled == !old(self).auto_compact_enabled,
            final(self)@ == (SettingsModalView { auto_compact_enabled: enabled, ..old(self)@ }),
            *final(settings) == with_compaction(
                *old(settings),
                (CompactionSettingsContent {
                    enabled: Some(enabled),
                    ..settings::compaction_of(*old(settings))
                }),
            ),
    {
        self.auto_compact_enabled = !self.auto_compact_enabled;
        let enabled: bool = self.auto_compact_enabled;
        let agent = settings.agent.get_or_insert(AgentSettingsContent::new());
        let compaction = agent.compaction.get_or_insert(CompactionSettingsContent::new());
        compaction.enabled = Some(enabled);
        enabled
    }

    /// Writes the thresholds in the fields to the settings, and returns them as the configuration
    /// of the conversation.
    pub fn save_config(&self, settings: &mut SettingsContent) -> (config: CompactionConfig)
        ensures
            config == entered_config(self@),
            *final(settings) == with_compaction(
                *old(settings),
                section_with(settings::compaction_of(*old(settings)), entered_config(self@)),
            ),
    {
        let config = CompactionConfig {
            deep_omit_threshold_tokens: read_u64(&self.deep_omit_threshold_tokens, 80_000),
            summary_threshold_tokens: read_u64(&self.summary_threshold_tokens, 80_000),
            min_content_chars: read_usize(&self.min_content_chars, 60_000),
        };
        let agent = settings.agent.get_or_insert(AgentSettingsContent::new());
        let compaction = agent.compaction.get_or_insert(CompactionSettingsContent::new());
        compaction.deep_omit_threshold_tokens = Some(config.deep_omit_threshold_tokens);
        compaction.summary_threshold_tokens = Some(config.summary_threshold_tokens);
        compaction.min_content_chars = Some(config.min_content_chars);
        config
    }

    /// Puts the defaults into the fields, takes the compaction section out of the settings, and
    /// returns the defaults as the configuration of the conversation.
    pub fn reset_defaults(&mut self, settings: &mut SettingsContent) -> (config: CompactionConfig)
        ensures
            config == zones::default_config(),
            final(self)@ == with_config(old(self)@, zones::default_config()),
            *final(settings) == without_compaction(*old(settings)),
    {
        let config = CompactionConfig::default();
        self.deep_omit_threshold_tokens.set_text(
            text::u64_to_string(config.deep_omit_threshold_tokens).as_str(),
        );
        self.summary_threshold_tokens.set_text(
            text::u64_to_string(config.summary_threshold_tokens).as_str(),
        );
        self.min_content_chars.set_text(
            text::usize_to_string(config.min_content_chars).as_str(),
        );
        if let Some(agent) = &mut settings.agent {
            agent.compaction = None;
        }
        config
    }

    /// What the dialog shows.
    pub fn render(&self) -> (shown: SettingsForm<'_>)
        ensures
            shows_modal(shown, *self),
    {
        let subagent_pickers: Vec<PickerLabel> = vec![
            PickerLabel {
                purpose: ModelPurpose::Fast,
                label: "Fast — simple lookups, formatting, single edits",
            },
            PickerLabel {
                purpose: ModelPurpose::Standard,
                label: "Standard — code changes, tool calls, file reads",
            },
            PickerLabel {
                purpose: ModelPurpose::Powerful,
                label: "Powerful — refactoring, architecture, deep analysis",
            },
        ];
        let buttons: Vec<Button<SettingsAction>> = vec![
            form::make_button(
                "reset",
                "Reset to Defaults",
                ButtonStyle::Outlined,
                SettingsAction::ResetDefaults,
            ),
            form::make_keyed_button(
                "cancel-btn",
                "Cancel",
                MenuAction::Cancel,
                SettingsAction::Cancel,
            ),
            form::make_button("save", "Save", ButtonStyle::Filled, SettingsAction::SaveAndClose),
        ];
        assert(form::button_views(buttons@) =~= seq![
            buttons@[0]@,
            buttons@[1]@,
            buttons@[2]@,
        ]);
        SettingsForm {
            headline: "Compaction Settings",
            summary_picker: PickerLabel { purpose: ModelPurpose::Summary, label: "Summary Model" },
            subagents_heading: "Subagent Models",
            subagent_pickers,
            auto_compact_label: "Auto Compact",
            auto_compact_description:
                "Automatically summarize old messages at the start of each turn",
            auto_compact_button: form::make_button(
                "auto-compact-toggle",
                if self.auto_compact_enabled {
                    "On"
                } else {
                    "Off"
                },
                if self.auto_compact_enabled {
                    ButtonStyle::Filled
                } else {
                    ButtonStyle::Outlined
                },
                SettingsAction::ToggleAutoCompact,
            ),
            stripping_heading: "Tool Result Stripping (Tier 1)",
            deep_omit_threshold_tokens: &self.deep_omit_threshold_tokens,
            summary_heading: "Message Summary (Tier 2)",
            summary_threshold_tokens: &self.summary_threshold_tokens,
            min_content_chars: &self.min_content_chars,
            buttons,
        }
    }
}

/// Saving a dialog that was not changed saves the configuration that it was opened for.
pub proof fn law_unchanged_config_is_kept(config: CompactionConfig, enabled: bool)
    ensures
        entered_config(opened(config, enabled)) == config,
{
    text::law_natural_of_decimal(config.deep_omit_threshold_tokens as nat);
    text::law_natural_of_decimal(config.summary_threshold_tokens as nat);
    text::law_natural_of_decimal(config.min_content_chars as nat);
}

/// What is saved is what the settings give back.
pub proof fn law_saved_config_is_read_back(before: SettingsContent, config: CompactionConfig)
    ensures
        ({
            let after = with_compaction(
                before,
                section_with(settings::compaction_of(before), config),
            );
            &&& zones::configured(settings::agent_of(after).compaction) == config
            &&& settings::compaction_of(after).enabled == settings::compaction_of(before).enabled
        }),
{
}

/// After a reset the settings give the defaults, and so do the fields.
pub proof fn law_reset_gives_defaults(before: SettingsContent, modal: SettingsModalView)
    ensures
        zones::configured(settings::agent_of(without_compaction(before)).compaction)
            == zones::default_config(),
        entered_config(with_config(modal, zones::default_config())) == zones::default_config(),
{
    let fallback = zones::default_config();
    text::law_natural_of_decimal(fallback.deep_omit_threshold_tokens as nat);
    text::law_natural_of_decimal(fallback.summary_threshold_tokens as nat);
    text::law_natural_of_decimal(fallback.min_content_chars as nat);
}

/// The models that an agent section chooses.
pub open spec fn agent_models(agent: AgentSettingsContent) -> AgentModels {
    AgentModels {
        thread_summary_model: agent.thread_summary_model,
        subagent_models: match agent.subagent_models {
            Some(models) => models,
            None => settings::empty_subagent_models(),
        },
    }
}

/// Choosing a model for one purpose sets it for that purpose and leaves all others as they are,
/// and the compaction section as well.
pub proof fn law_purposes_are_independent(
    agent: AgentSettingsContent,
    purpose: ModelPurpose,
    selection: LanguageModelSelection,
    other: ModelPurpose,
)
    ensures
        chosen(other, agent_models(agent_with_model(agent, purpose, selection))) == if other
            == purpose {
            Some(selection)
        } else {
            chosen(other, agent_models(agent))
        },
        agent_with_model(agent, purpose, selection).compaction == agent.compaction,
{
}

/// A model that was picked is the one that its selection resolves to, where the registry has it
/// under its provider and no other model of the provider, nor another provider, shares its id.
pub proof fn law_picked_model_resolves(
    registry: Seq<ProviderModels>,
    provider: ProviderModels,
    model: ModelInfo,
    selection: LanguageModelSelection,
)
    requires
        selects(selection, model),
        model.provider_id@ == provider.id@,
        registry.contains(provider),
        provider.models@.contains(model),
        forall|i: int|
            0 <= i < registry.len() && (#[trigger] registry[i]).id@ == provider.id@ ==> registry[i]
                == provider,
        forall|i: int|
            0 <= i < provider.models@.len() && (#[trigger] provider.models@[i]).id@ == model.id@
                ==> provider.models@[i] == model,
    ensures
        resolved(selection, registry) == Some((provider, model)),
{
    lemma_provider_found(registry, provider);
    lemma_model_found(provider.models@, model);
}

proof fn lemma_provider_found(registry: Seq<ProviderModels>, provider: ProviderModels)
    requires
        registry.contains(provider),
        forall|i: int|
            0 <= i < registry.len() && (#[trigger] registry[i]).id@ == provider.id@ ==> registry[i]
                == provider,
    ensures
        provider_with_id(registry, provider.id@) == Some(provider),
    decreases registry.len(),
{
    let k = choose|k: int| 0 <= k < registry.len() && registry[k] == provider;
    if registry[0].id@ != provider.id@ {
        let rest = registry.drop_first();
        assert(rest[k - 1] == provider);
        assert forall|i: int|
            0 <= i < rest.len() && (#[trigger] rest[i]).id@ == provider.id@ implies rest[i]
            == provider by {
            assert(rest[i] == registry[i + 1]);
        }
        lemma_provider_found(rest, provider);
    }
}

proof fn lemma_model_found(models: Seq<ModelInfo>, model: ModelInfo)
    requires
        models.contains(model),
        forall|i: int|
            0 <= i < models.len() && (#[trigger] models[i]).id@ == model.id@ ==> models[i] == model,
    ensures
        model_with_id(models, model.id@) == Some(model),
    decreases models.len(),
{
    let k = choose|k: int| 0 <= k < models.len() && models[k] == model;
    if models[0].id@ != model.id@ {
        let rest = models.drop_first();
        assert(rest[k - 1] == model);
        assert forall|i: int|
            0 <= i < rest.len() && (#[trigger] rest[i]).id@ == model.id@ implies rest[i]
            == model by {
            assert(rest[i] == models[i + 1]);
        }
        lemma_model_found(rest, model);
    }
}

} // verus!
