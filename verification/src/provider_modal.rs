//! The dialog in which a provider is added or changed.

use crate::form;
use crate::form::{Button, ButtonStyle, ButtonView, InputField, MenuAction, ToggleState};
use crate::provider;
use crate::provider::{
    AddLlmProviderInput, LlmCompatibleProvider, Mode, ModelCapabilityToggles, ModelInput,
    ProviderError, ProviderInputView, RegisteredProvider, SavePlan,
};
use crate::settings;
use crate::settings::{OpenAiCompatibleSettingsContent, ProviderTable};
use vstd::prelude::*;

verus! {

/// The dialog in which a provider is added or changed.
#[derive(Debug, PartialEq)]
pub struct AddLlmProviderModal {
    pub mode: Mode,
    pub provider: LlmCompatibleProvider,
    pub input: AddLlmProviderInput,
    pub last_error: Option<ProviderError>,
}

/// What the buttons of the dialog do.
#[derive(Debug, Clone, Copy, PartialEq, Eq, Structural)]
pub enum ProviderAction {
    Cancel,
    Confirm,
    AddModel,
    RemoveModel { index: usize },
}

/// What a check box is about.
#[derive(Debug, Clone, Copy, PartialEq, Eq, Structural)]
pub enum Capability {
    Tools,
    Images,
    ParallelToolCalls,
    PromptCacheKey,
    ChatCompletions,
}

/// The check boxes after one of them has changed.
pub open spec fn with_capability(
    toggles: ModelCapabilityToggles,
    capability: Capability,
    state: ToggleState,
) -> ModelCapabilityToggles {
    match capability {
        Capability::Tools => ModelCapabilityToggles { supports_tools: state, ..toggles },
        Capability::Images => ModelCapabilityToggles { supports_images: state, ..toggles },
        Capability::ParallelToolCalls => ModelCapabilityToggles {
            supports_parallel_tool_calls: state,
            ..toggles
        },
        Capability::PromptCacheKey => ModelCapabilityToggles {
            supports_prompt_cache_key: state,
            ..toggles
        },
        Capability::ChatCompletions => ModelCapabilityToggles {
            supports_chat_completions: state,
            ..toggles
        },
    }
}

/// The state of one of the check boxes.
pub open spec fn capability_state(
    toggles: ModelCapabilityToggles,
    capability: Capability,
) -> ToggleState {
    match capability {
        Capability::Tools => toggles.supports_tools,
        Capability::Images => toggles.supports_images,
        Capability::ParallelToolCalls => toggles.supports_parallel_tool_calls,
        Capability::PromptCacheKey => toggles.supports_prompt_cache_key,
        Capability::ChatCompletions => toggles.supports_chat_completions,
    }
}

/// Whether the dialog opens to change an existing provider.
pub open spec fn opens_for_edit(
    mode: Mode,
    providers: Map<Seq<char>, OpenAiCompatibleSettingsContent>,
) -> bool {
    mode matches Mode::Edit { provider_id } && providers.contains_key(provider_id@)
}

/// The form that the dialog opens with. A provider that is not configured is added.
pub open spec fn opening_input(
    provider: LlmCompatibleProvider,
    mode: Mode,
    providers: Map<Seq<char>, OpenAiCompatibleSettingsContent>,
) -> ProviderInputView {
    match mode {
        Mode::Edit { provider_id } if providers.contains_key(provider_id@) => {
            let content = providers[provider_id@];
            provider::edit_input(
                provider_id@,
                content.api_url@,
                settings::model_views(content.available_models@),
            )
        },
        _ => provider::blank_input(provider),
    }
}

/// A check box.
#[derive(Debug, Clone, Copy, PartialEq)]
pub struct Checkbox {
    pub id: &'static str,
    /// Which of several check boxes with the same id this is.
    pub index: usize,
    pub label: &'static str,
    pub state: ToggleState,
    pub capability: Capability,
}

/// What a [`Checkbox`] stands for.
pub struct CheckboxView {
    pub id: Seq<char>,
    pub index: usize,
    pub label: Seq<char>,
    pub state: ToggleState,
    pub capability: Capability,
}

impl View for Checkbox {
    type V = CheckboxView;

    open spec fn view(&self) -> CheckboxView {
        CheckboxView {
            id: self.id@,
            index: self.index,
            label: self.label@,
            state: self.state,
            capability: self.capability,
        }
    }
}

/// The check boxes that a sequence stands for.
pub open spec fn checkbox_views(boxes: Seq<Checkbox>) -> Seq<CheckboxView> {
    boxes.map_values(|checkbox: Checkbox| checkbox@)
}

/// The check boxes for a model.
pub open spec fn capability_boxes(toggles: ModelCapabilityToggles, index: usize) -> Seq<
    CheckboxView,
> {
    seq![
        CheckboxView {
            id: "supports-tools"@,
            index,
            label: "Supports tools"@,
            state: toggles.supports_tools,
            capability: Capability::Tools,
        },
        CheckboxView {
            id: "supports-images"@,
            index,
            label: "Supports images"@,
            state: toggles.supports_images,
            capability: Capability::Images,
        },
        CheckboxView {
            id: "supports-parallel-tool-calls"@,
            index,
            label: "Supports parallel_tool_calls"@,
            state: toggles.supports_parallel_tool_calls,
            capability: Capability::ParallelToolCalls,
        },
        CheckboxView {
            id: "supports-prompt-cache-key"@,
            index,
            label: "Supports prompt_cache_key"@,
            state: toggles.supports_prompt_cache_key,
            capability: Capability::PromptCacheKey,
        },
        CheckboxView {
            id: "supports-chat-completions"@,
            index,
            label: "Supports /chat/completions"@,
            state: toggles.supports_chat_completions,
            capability: Capability::ChatCompletions,
        },
    ]
}

/// The button that removes a model.
pub open spec fn remove_button(index: usize) -> ButtonView<ProviderAction> {
    ButtonView {
        id: "remove-model"@,
        index: Some(index),
        label: "Remove Model"@,
        style: ButtonStyle::Outlined,
        disabled: false,
        key: None,
        action: ProviderAction::RemoveModel { index },
    }
}

/// What the dialog shows of a model.
#[derive(Debug, PartialEq)]
pub struct ModelForm<'a> {
    pub name: &'a InputField,
    pub max_completion_tokens: &'a InputField,
    pub max_output_tokens: &'a InputField,
    pub max_tokens: &'a InputField,
    pub checkboxes: Vec<Checkbox>,
    /// The button that removes the model, unless it is the only one.
    pub remove: Option<Button<ProviderAction>>,
}

/// Whether `shown` is what the dialog shows of a model at its index among so many.
pub open spec fn shows_model(
    shown: ModelForm<'_>,
    model: ModelInput,
    index: usize,
    count: nat,
) -> bool {
    &&& *shown.name == model.name
    &&& *shown.max_completion_tokens == model.max_completion_tokens
    &&& *shown.max_output_tokens == model.max_output_tokens
    &&& *shown.max_tokens == model.max_tokens
    &&& checkbox_views(shown.checkboxes@) == capability_boxes(model.capabilities, index)
    &&& match shown.remove {
        Some(button) => count > 1 && button@ == remove_button(index),
        None => count <= 1,
    }
}

/// What the dialog shows of the models.
#[derive(Debug, PartialEq)]
pub struct ModelSection<'a> {
    pub heading: &'static str,
    pub add: Button<ProviderAction>,
    pub models: Vec<ModelForm<'a>>,
}

/// Whether `shown` is what the dialog shows of the models.
pub open spec fn shows_models(shown: ModelSection<'_>, models: Seq<ModelInput>) -> bool {
    &&& shown.heading@ == "Models"@
    &&& shown.add@ == form::simple_button(
        "add-model"@,
        "Add Model"@,
        ButtonStyle::Subtle,
        ProviderAction::AddModel,
    )
    &&& shown.models@.len() == models.len()
    &&& forall|i: int|
        0 <= i < models.len() ==> shows_model(
            #[trigger] shown.models@[i],
            models[i],
            i as usize,
            models.len(),
        )
}

/// What the dialog shows.
#[derive(Debug, PartialEq)]
pub struct ProviderForm<'a> {
    pub headline: &'static str,
    pub description: &'static str,
    pub error: Option<&'static str>,
    pub provider_name: &'a InputField,
    pub api_url: &'a InputField,
    pub api_key: &'a InputField,
    pub section: ModelSection<'a>,
    pub buttons: Vec<Button<ProviderAction>>,
}

/// Whether `shown` is what a dialog shows.
pub open spec fn shows_modal(shown: ProviderForm<'_>, modal: AddLlmProviderModal) -> bool {
    &&& shown.headline@ == match modal.mode {
        Mode::Add => "Add LLM Provider"@,
        Mode::Edit { .. } => "Edit LLM Provider"@,
    }
    &&& shown.description@ == match modal.provider {
        LlmCompatibleProvider::OpenAi => "This provider will use an OpenAI compatible API."@,
    }
    &&& match shown.error {
        Some(error) => modal.last_error is Some && error@ == modal.last_error->0.text(),
        None => modal.last_error is None,
    }
    &&& *shown.provider_name == modal.input.provider_name
    &&& *shown.api_url == modal.input.api_url
    &&& *shown.api_key == modal.input.api_key
    &&& shows_models(shown.section, modal.input.models@)
    &&& form::button_views(shown.buttons@) == seq![
        form::keyed_button("cancel"@, "Cancel"@, MenuAction::Cancel, ProviderAction::Cancel),
        form::keyed_button(
            "save-server"@,
            "Save Provider"@,
            MenuAction::Confirm,
            ProviderAction::Confirm,
        ),
    ]
}

impl AddLlmProviderModal {
    /// The dialog that opens to add a provider.
    pub fn toggle(provider: LlmCompatibleProvider) -> (modal: Self)
        ensures
            modal.mode is Add,
            modal.provider == provider,
            modal.input@ == provider::blank_input(provider),
            modal.last_error is None,
    {
        AddLlmProviderModal {
            mode: Mode::Add,
            provider,
            input: AddLlmProviderInput::new(provider),
            last_error: None,
        }
    }

    /// The dialog that opens to change a provider.
    pub fn toggle_edit(provider_id: String, providers: &ProviderTable) -> (modal: Self)
        requires
            providers@.contains_key(provider_id@) ==> provider::tab_indices_fit(
                providers@[provider_id@].available_models@.len(),
            ),
        ensures
            modal.mode == if opens_for_edit(Mode::Edit { provider_id }, providers@) {
                Mode::Edit { provider_id }
            } else {
                Mode::Add
            },
            modal.provider == LlmCompatibleProvider::OpenAi,
            modal.input@ == opening_input(
                LlmCompatibleProvider::OpenAi,
                Mode::Edit { provider_id },
                providers@,
            ),
            modal.last_error is None,
    {
        AddLlmProviderModal::new(
            LlmCompatibleProvider::OpenAi,
            Mode::Edit { provider_id },
            providers,
        )
    }

    /// The dialog for a provider to be added, or for one of the configured providers.
    pub fn new(provider: LlmCompatibleProvider, mode: Mode, providers: &ProviderTable) -> (modal:
        Self)
        requires
            mode matches Mode::Edit { provider_id } ==> (providers@.contains_key(provider_id@)
                ==> provider::tab_indices_fit(
                providers@[provider_id@].available_models@.len(),
            )),
        ensures
            modal.mode == if opens_for_edit(mode, providers@) {
                mode
            } else {
                Mode::Add
            },
            modal.provider == provider,
            modal.input@ == opening_input(provider, mode, providers@),
            modal.last_error is None,
    {
        let (input, mode) = match mode {
            Mode::Add => (AddLlmProviderInput::new(provider), Mode::Add),
            Mode::Edit { provider_id } => match providers.get(provider_id.as_str()) {
                Some(content) => (
                    AddLlmProviderInput::new_for_edit(
                        provider_id.as_str(),
                        content.api_url.as_str(),
                        &content.available_models,
                    ),
                    Mode::Edit { provider_id },
                ),
                None => (AddLlmProviderInput::new(provider), Mode::Add),
            },
        };
        AddLlmProviderModal { mode, provider, input, last_error: None }
    }

    /// What saving the form takes, or the first thing that is wrong with it.
    pub fn confirm(&self, registry: &[RegisteredProvider], providers: &ProviderTable) -> (plan:
        Result<SavePlan, ProviderError>)
        ensures
            match plan {
                Ok(plan) => provider::save_plan(
                    self.input@,
                    self.mode.edited(),
                    registry@,
                    providers@,
                ) == Ok::<_, ProviderError>(plan@),
                Err(error) => provider::save_plan(
                    self.input@,
                    self.mode.edited(),
                    registry@,
                    providers@,
                ) == Err::<provider::PlanView, _>(error),
            },
    {
        provider::save_provider_to_settings(&self.input, &self.mode, registry, providers)
    }

    /// Takes the outcome of saving into account, and tells whether the dialog closes: it does
    /// where the provider was saved, and shows the error where it was not.
    pub fn saved(&mut self, outcome: Result<(), ProviderError>) -> (closes: bool)
        ensures
            closes == outcome is Ok,
            final(self).last_error == match outcome {
                Ok(_) => old(self).last_error,
                Err(error) => Some(error),
            },
            final(self).mode == old(self).mode,
            final(self).provider == old(self).provider,
            final(self).input == old(self).input,
    {
        match outcome {
            Ok(_) => true,
            Err(error) => {
                self.last_error = Some(error);
                false
            },
        }
    }

    /// Sets a check box of a model.
    pub fn set_capability(&mut self, index: usize, capability: Capability, state: ToggleState)
        requires
            index < old(self).input.models@.len(),
        ensures
            final(self).input@ == (ProviderInputView {
                models: old(self).input@.models.update(
                    index as int,
                    (provider::ModelInputView {
                        capabilities: with_capability(
                            old(self).input@.models[index as int].capabilities,
                            capability,
                            state,
                        ),
                        ..old(self).input@.models[index as int]
                    }),
                ),
                ..old(self).input@
            }),
            final(self).mode == old(self).mode,
            final(self).provider == old(self).provider,
            final(self).last_error == old(self).last_error,
    {
        let ghost before = self.input@;
        let model = &mut self.input.models[index];
        match capability {
            Capability::Tools => {
                model.capabilities.supports_tools = state;
            },
            Capability::Images => {
                model.capabilities.supports_images = state;
            },
            Capability::ParallelToolCalls => {
                model.capabilities.supports_parallel_tool_calls = state;
            },
            Capability::PromptCacheKey => {
                model.capabilities.supports_prompt_cache_key = state;
            },
            Capability::ChatCompletions => {
                model.capabilities.supports_chat_completions = state;
            },
        }
        proof {
            let changed = provider::ModelInputView {
                capabilities: with_capability(
                    before.models[index as int].capabilities,
                    capability,
                    state,
                ),
                ..before.models[index as int]
            };
            assert(self.input@.models =~= before.models.update(index as int, changed));
        }
    }

    /// What the dialog shows of a model.
    pub fn render_model(&self, index: usize) -> (shown: ModelForm<'_>)
        requires
            index < self.input.models@.len(),
        ensures
            shows_model(
                shown,
                self.input.models@[index as int],
                index,
                self.input.models@.len(),
            ),
    {
        let model = &self.input.models[index];
        let toggles = model.capabilities;
        let checkboxes: Vec<Checkbox> = vec![
            Checkbox {
                id: "supports-tools",
                index,
                label: "Supports tools",
                state: toggles.supports_tools,
                capability: Capability::Tools,
            },
            Checkbox {
                id: "supports-images",
                index,
                label: "Supports images",
                state: toggles.supports_images,
                capability: Capability::Images,
            },
            Checkbox {
                id: "supports-parallel-tool-calls",
                index,
                label: "Supports parallel_tool_calls",
                state: toggles.supports_parallel_tool_calls,
                capability: Capability::ParallelToolCalls,
            },
            Checkbox {
                id: "supports-prompt-cache-key",
                index,
                label: "Supports prompt_cache_key",
                state: toggles.supports_prompt_cache_key,
                capability: Capability::PromptCacheKey,
            },
            Checkbox {
                id: "supports-chat-completions",
                index,
                label: "Supports /chat/completions",
                state: toggles.supports_chat_completions,
                capability: Capability::ChatCompletions,
            },
        ];
        assert(checkbox_views(checkboxes@) =~= capability_boxes(toggles, index));
        let remove = if self.input.models.len() > 1 {
            Some(
                Button {
                    id: "remove-model",
                    index: Some(index),
                    label: "Remove Model",
                    style: ButtonStyle::Outlined,
                    disabled: false,
                    key: None,
                    action: ProviderAction::RemoveModel { index },
                },
            )
        } else {
            None
        };
        ModelForm {
            name: &model.name,
            max_completion_tokens: &model.max_completion_tokens,
            max_output_tokens: &model.max_output_tokens,
            max_tokens: &model.max_tokens,
            checkboxes,
            remove,
        }
    }

    /// What the dialog shows of the models.
    pub fn render_model_section(&self) -> (shown: ModelSection<'_>)
        ensures
            shows_models(shown, self.input.models@),
    {
        let mut models: Vec<ModelForm<'_>> = Vec::new();
        let mut i: usize = 0;
        while i < self.input.models.len()
            invariant
                i <= self.input.models@.len(),
                models@.len() == i,
                forall|j: int|
                    0 <= j < i ==> shows_model(
                        #[trigger] models@[j],
                        self.input.models@[j],
                        j as usize,
                        self.input.models@.len(),
                    ),
            decreases self.input.models.len() - i,
        {
            models.push(self.render_model(i));
            i = i + 1;
        }
        ModelSection {
            heading: "Models",
            add: form::make_button(
                "add-model",
                "Add Model",
                ButtonStyle::Subtle,
                ProviderAction::AddModel,
            ),
            models,
        }
    }

    /// What the dialog shows.
    pub fn render(&self) -> (shown: ProviderForm<'_>)
        ensures
            shows_modal(shown, *self),
    {
        let buttons: Vec<Button<ProviderAction>> = vec![
            form::make_keyed_button(
                "cancel",
                "Cancel",
                MenuAction::Cancel,
                ProviderAction::Cancel,
            ),
            form::make_keyed_button(
                "save-server",
                "Save Provider",
                MenuAction::Confirm,
                ProviderAction::Confirm,
            ),
        ];
        assert(form::button_views(buttons@) =~= seq![buttons@[0]@, buttons@[1]@]);
        ProviderForm {
            headline: match &self.mode {
                Mode::Add => "Add LLM Provider",
                Mode::Edit { .. } => "Edit LLM Provider",
            },
            description: match self.provider {
                LlmCompatibleProvider::OpenAi => "This provider will use an OpenAI compatible API.",
            },
            error: match &self.last_error {
                Some(error) => Some(error.message()),
                None => None,
            },
            provider_name: &self.input.provider_name,
            api_url: &self.input.api_url,
            api_key: &self.input.api_key,
            section: self.render_model_section(),
            buttons,
        }
    }
}

} // verus!
