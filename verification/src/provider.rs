//! Providers with an OpenAI-compatible API: the form in which one is entered, and what saving it
//! takes.

use crate::form;
use crate::form::{FieldView, InputField, ToggleState};
use crate::settings;
use crate::settings::{
    AvailableModel, LanguageModelsContent, ModelCapabilities, ModelView,
    OpenAiCompatibleSettingsContent, ProviderContentView, ProviderTable, SettingsContent,
};
use crate::text;
use vstd::prelude::*;

verus! {

/// The kinds of API that a provider can be compatible with.
#[derive(Debug, Clone, Copy, PartialEq, Eq, Structural)]
pub enum LlmCompatibleProvider {
    OpenAi,
}

impl LlmCompatibleProvider {
    /// The name of the API's own provider.
    pub open spec fn own_name(self) -> Seq<char> {
        match self {
            LlmCompatibleProvider::OpenAi => "OpenAI"@,
        }
    }

    /// The address of the API's own provider.
    pub open spec fn own_url(self) -> Seq<char> {
        match self {
            LlmCompatibleProvider::OpenAi => "https://api.openai.com/v1"@,
        }
    }

    /// The name of the API's own provider.
    pub fn name(&self) -> (name: &'static str)
        ensures
            name@ == self.own_name(),
    {
        match self {
            LlmCompatibleProvider::OpenAi => "OpenAI",
        }
    }

    /// The address of the API's own provider.
    pub fn api_url(&self) -> (url: &'static str)
        ensures
            url@ == self.own_url(),
    {
        match self {
            LlmCompatibleProvider::OpenAi => "https://api.openai.com/v1",
        }
    }
}

/// Whether a provider is added, or an existing one is changed.
#[derive(Debug, PartialEq)]
pub enum Mode {
    Add,
    Edit { provider_id: String },
}

/// The check boxes for what a model can do.
#[derive(Debug, Clone, Copy, PartialEq, Eq, Structural)]
pub struct ModelCapabilityToggles {
    pub supports_tools: ToggleState,
    pub supports_images: ToggleState,
    pub supports_parallel_tool_calls: ToggleState,
    pub supports_prompt_cache_key: ToggleState,
    pub supports_chat_completions: ToggleState,
}

/// The check boxes that show given capabilities.
pub open spec fn toggles_of(capabilities: ModelCapabilities) -> ModelCapabilityToggles {
    ModelCapabilityToggles {
        supports_tools: form::toggle_state(capabilities.tools),
        supports_images: form::toggle_state(capabilities.images),
        supports_parallel_tool_calls: form::toggle_state(capabilities.parallel_tool_calls),
        supports_prompt_cache_key: form::toggle_state(capabilities.prompt_cache_key),
        supports_chat_completions: form::toggle_state(capabilities.chat_completions),
    }
}

/// The capabilities that the check boxes show.
pub open spec fn capabilities_of(toggles: ModelCapabilityToggles) -> ModelCapabilities {
    ModelCapabilities {
        tools: toggles.supports_tools == ToggleState::Selected,
        images: toggles.supports_images == ToggleState::Selected,
        parallel_tool_calls: toggles.supports_parallel_tool_calls == ToggleState::Selected,
        prompt_cache_key: toggles.supports_prompt_cache_key == ToggleState::Selected,
        chat_completions: toggles.supports_chat_completions == ToggleState::Selected,
        interleaved_reasoning: false,
    }
}

/// The part of the form for one model.
#[derive(Debug, PartialEq)]
pub struct ModelInput {
    pub name: InputField,
    pub max_completion_tokens: InputField,
    pub max_output_tokens: InputField,
    pub max_tokens: InputField,
    pub capabilities: ModelCapabilityToggles,
}

/// What a [`ModelInput`] stands for.
pub struct ModelInputView {
    pub name: FieldView,
    pub max_completion_tokens: FieldView,
    pub max_output_tokens: FieldView,
    pub max_tokens: FieldView,
    pub capabilities: ModelCapabilityToggles,
}

impl View for ModelInput {
    type V = ModelInputView;

    open spec fn view(&self) -> ModelInputView {
        ModelInputView {
            name: self.name@,
            max_completion_tokens: self.max_completion_tokens@,
            max_output_tokens: self.max_output_tokens@,
            max_tokens: self.max_tokens@,
            capabilities: self.capabilities,
        }
    }
}

/// The parts that a sequence of model inputs stands for.
pub open spec fn input_views(inputs: Seq<ModelInput>) -> Seq<ModelInputView> {
    inputs.map_values(|input: ModelInput| input@)
}

/// The tab index that the fields of a model follow.
pub open spec fn base_tab_index(model_index: nat) -> int {
    3 + model_index as int * 4
}

/// Whether the tab indices of that many models fit.
pub open spec fn tab_indices_fit(model_count: nat) -> bool {
    base_tab_index(model_count) <= isize::MAX
}

/// The part of the form for a model of which these texts are known.
pub open spec fn model_input(
    model_index: nat,
    name: Option<Seq<char>>,
    max_completion_tokens: Option<Seq<char>>,
    max_output_tokens: Option<Seq<char>>,
    max_tokens: Option<Seq<char>>,
    capabilities: ModelCapabilities,
) -> ModelInputView {
    let base = base_tab_index(model_index);
    ModelInputView {
        name: form::single_line_field(
            "Model Name"@,
            "e.g. gpt-5, gemini-2.5-pro"@,
            name,
            base + 1,
        ),
        max_completion_tokens: form::single_line_field(
            "Max Completion Tokens"@,
            "200000"@,
            max_completion_tokens,
            base + 2,
        ),
        max_output_tokens: form::single_line_field(
            "Max Output Tokens"@,
            "Max Output Tokens"@,
            max_output_tokens,
            base + 3,
        ),
        max_tokens: form::single_line_field(
            "Max Tokens"@,
            "Max Tokens"@,
            max_tokens,
            base + 4,
        ),
        capabilities: toggles_of(capabilities),
    }
}

/// The part of the form for a model of which nothing is known.
pub open spec fn blank_model_input(model_index: nat) -> ModelInputView {
    model_input(
        model_index,
        None,
        Some("200000"@),
        Some("32000"@),
        Some("200000"@),
        settings::default_capabilities(),
    )
}

/// A number in decimal notation, where there is one.
pub open spec fn optional_decimal(number: Option<u64>) -> Option<Seq<char>> {
    match number {
        Some(number) => Some(text::decimal(number as nat)),
        None => None,
    }
}

/// The part of the form for an existing model.
pub open spec fn existing_model_input(model_index: nat, model: ModelView) -> ModelInputView {
    model_input(
        model_index,
        Some(model.name),
        optional_decimal(model.max_completion_tokens),
        optional_decimal(model.max_output_tokens),
        Some(text::decimal(model.max_tokens as nat)),
        model.capabilities,
    )
}

/// Why a provider cannot be saved.
#[derive(Debug, Clone, Copy, PartialEq, Eq, Structural)]
pub enum ProviderError {
    ProviderNameEmpty,
    ApiUrlEmpty,
    ApiKeyEmpty,
    ModelNameEmpty,
    MaxCompletionTokensNotANumber,
    MaxOutputTokensNotANumber,
    MaxTokensNotANumber,
    ModelNamesNotUnique,
    ProviderNameTaken,
    ApiKeyNotWritten,
}

impl ProviderError {
    /// The text that tells a user about this error.
    pub open spec fn text(self) -> Seq<char> {
        match self {
            ProviderError::ProviderNameEmpty => "Provider Name cannot be empty"@,
            ProviderError::ApiUrlEmpty => "API URL cannot be empty"@,
            ProviderError::ApiKeyEmpty => "API Key cannot be empty"@,
            ProviderError::ModelNameEmpty => "Model Name cannot be empty"@,
            ProviderError::MaxCompletionTokensNotANumber =>
                "Max Completion Tokens must be a number"@,
            ProviderError::MaxOutputTokensNotANumber => "Max Output Tokens must be a number"@,
            ProviderError::MaxTokensNotANumber => "Max Tokens must be a number"@,
            ProviderError::ModelNamesNotUnique => "Model Names must be unique"@,
            ProviderError::ProviderNameTaken =>
                "Provider Name is already taken by another provider"@,
            ProviderError::ApiKeyNotWritten => "Failed to write API key to keychain"@,
        }
    }

    /// The text that tells a user about this error.
    pub fn message(&self) -> (message: &'static str)
        ensures
            message@ == self.text(),
    {
        match self {
            ProviderError::ProviderNameEmpty => "Provider Name cannot be empty",
            ProviderError::ApiUrlEmpty => "API URL cannot be empty",
            ProviderError::ApiKeyEmpty => "API Key cannot be empty",
            ProviderError::ModelNameEmpty => "Model Name cannot be empty",
            ProviderError::MaxCompletionTokensNotANumber => "Max Completion Tokens must be a number",
            ProviderError::MaxOutputTokensNotANumber => "Max Output Tokens must be a number",
            ProviderError::MaxTokensNotANumber => "Max Tokens must be a number",
            ProviderError::ModelNamesNotUnique => "Model Names must be unique",
            ProviderError::ProviderNameTaken =>
                "Provider Name is already taken by another provider",
            ProviderError::ApiKeyNotWritten => "Failed to write API key to keychain",
        }
    }
}

/// The number that a text stands for.
pub open spec fn token_count(text: Seq<char>) -> Option<u64> {
    match text::natural_up_to(text, u64::MAX as nat) {
        Some(count) => Some(count as u64),
        None => None,
    }
}

/// The model that the form describes, or the first thing that is wrong with it.
pub open spec fn parsed_model(input: ModelInputView) -> Result<ModelView, ProviderError> {
    if input.name.text.len() == 0 {
        Err(ProviderError::ModelNameEmpty)
    } else {
        match (
            token_count(input.max_completion_tokens.text),
            token_count(input.max_output_tokens.text),
            token_count(input.max_tokens.text),
        ) {
            (None, _, _) => Err(ProviderError::MaxCompletionTokensNotANumber),
            (Some(_), None, _) => Err(ProviderError::MaxOutputTokensNotANumber),
            (Some(_), Some(_), None) => Err(ProviderError::MaxTokensNotANumber),
            (Some(completion), Some(output), Some(tokens)) => Ok(
                ModelView {
                    name: input.name.text,
                    display_name: None,
                    max_completion_tokens: Some(completion),
                    max_output_tokens: Some(output),
                    max_tokens: tokens,
                    reasoning_effort: None,
                    capabilities: capabilities_of(input.capabilities),
                },
            ),
        }
    }
}

/// Builds the check boxes that show given capabilities.
fn make_toggles(capabilities: &ModelCapabilities) -> (toggles: ModelCapabilityToggles)
    ensures
        toggles == toggles_of(*capabilities),
{
    ModelCapabilityToggles {
        supports_tools: ToggleState::from(capabilities.tools),
        supports_images: ToggleState::from(capabilities.images),
        supports_parallel_tool_calls: ToggleState::from(capabilities.parallel_tool_calls),
        supports_prompt_cache_key: ToggleState::from(capabilities.prompt_cache_key),
        supports_chat_completions: ToggleState::from(capabilities.chat_completions),
    }
}

fn make_model_input(
    model_index: usize,
    name: Option<&str>,
    max_completion_tokens: Option<&str>,
    max_output_tokens: Option<&str>,
    max_tokens: Option<&str>,
    capabilities: &ModelCapabilities,
) -> (input: ModelInput)
    requires
        tab_indices_fit(model_index as nat + 1),
    ensures
        input@ == model_input(
            model_index as nat,
            text::optional_view(name),
            text::optional_view(max_completion_tokens),
            text::optional_view(max_output_tokens),
            text::optional_view(max_tokens),
            *capabilities,
        ),
{
    let base: isize = (3 + model_index * 4) as isize;
    ModelInput {
        name: form::single_line_input(
            "Model Name",
            "e.g. gpt-5, gemini-2.5-pro",
            name,
            base + 1,
        ),
        max_completion_tokens: form::single_line_input(
            "Max Completion Tokens",
            "200000",
            max_completion_tokens,
            base + 2,
        ),
        max_output_tokens: form::single_line_input(
            "Max Output Tokens",
            "Max Output Tokens",
            max_output_tokens,
            base + 3,
        ),
        max_tokens: form::single_line_input("Max Tokens", "Max Tokens", max_tokens, base + 4),
        capabilities: make_toggles(capabilities),
    }
}

/// A number in decimal notation, where there is one.
fn to_decimal(number: Option<u64>) -> (text: Option<String>)
    ensures
        text::optional_text(text) == optional_decimal(number),
{
    match number {
        Some(number) => Some(text::u64_to_string(number)),
        None => None,
    }
}

/// An optional text by reference.
fn as_text(text: &Option<String>) -> (borrowed: Option<&str>)
    ensures
        text::optional_view(borrowed) == text::optional_text(*text),
{
    match text {
        Some(text) => Some(text.as_str()),
        None => None,
    }
}

impl ModelInput {
    /// The part of the form for a model of which nothing is known.
    pub fn new(model_index: usize) -> (input: Self)
        requires
            tab_indices_fit(model_index as nat + 1),
        ensures
            input@ == blank_model_input(model_index as nat),
    {
        make_model_input(
            model_index,
            None,
            Some("200000"),
            Some("32000"),
            Some("200000"),
            &ModelCapabilities::default(),
        )
    }

    /// The part of the form for an existing model.
    pub fn from_existing(model_index: usize, model: &AvailableModel) -> (input: Self)
        requires
            tab_indices_fit(model_index as nat + 1),
        ensures
            input@ == existing_model_input(model_index as nat, model@),
    {
        let max_completion_tokens = to_decimal(model.max_completion_tokens);
        let max_output_tokens = to_decimal(model.max_output_tokens);
        let max_tokens = text::u64_to_string(model.max_tokens);
        make_model_input(
            model_index,
            Some(model.name.as_str()),
            as_text(&max_completion_tokens),
            as_text(&max_output_tokens),
            Some(max_tokens.as_str()),
            &model.capabilities,
        )
    }

    /// The model that this part of the form describes, or the first thing that is wrong with it.
    pub fn parse(&self) -> (model: Result<AvailableModel, ProviderError>)
        ensures
            match model {
                Ok(model) => parsed_model(self@) == Ok::<_, ProviderError>(model@),
                Err(error) => parsed_model(self@) == Err::<ModelView, _>(error),
            },
    {
        if self.name.text.as_str().is_empty() {
            return Err(ProviderError::ModelNameEmpty);
        }
        let max_completion_tokens: u64 = match text::parse_u64(
            self.max_completion_tokens.text.as_str(),
        ) {
            Some(count) => count,
            None => return Err(ProviderError::MaxCompletionTokensNotANumber),
        };
        let max_output_tokens: u64 = match text::parse_u64(self.max_output_tokens.text.as_str()) {
            Some(count) => count,
            None => return Err(ProviderError::MaxOutputTokensNotANumber),
        };
        let max_tokens: u64 = match text::parse_u64(self.max_tokens.text.as_str()) {
            Some(count) => count,
            None => return Err(ProviderError::MaxTokensNotANumber),
        };
        Ok(
            AvailableModel {
                name: self.name.text.clone(),
                display_name: None,
                max_completion_tokens: Some(max_completion_tokens),
                max_output_tokens: Some(max_output_tokens),
                max_tokens,
                reasoning_effort: None,
                capabilities: ModelCapabilities {
                    tools: self.capabilities.supports_tools.selected(),
                    images: self.capabilities.supports_images.selected(),
                    parallel_tool_calls: self.capabilities.supports_parallel_tool_calls.selected(),
                    prompt_cache_key: self.capabilities.supports_prompt_cache_key.selected(),
                    chat_completions: self.capabilities.supports_chat_completions.selected(),
                    interleaved_reasoning: false,
                },
            },
        )
    }
}

/// The form for a provider.
#[derive(Debug, PartialEq)]
pub struct AddLlmProviderInput {
    pub provider_name: InputField,
    pub api_url: InputField,
    pub api_key: InputField,
    pub models: Vec<ModelInput>,
}

/// What an [`AddLlmProviderInput`] stands for.
pub struct ProviderInputView {
    pub provider_name: FieldView,
    pub api_url: FieldView,
    pub api_key: FieldView,
    pub models: Seq<ModelInputView>,
}

impl View for AddLlmProviderInput {
    type V = ProviderInputView;

    open spec fn view(&self) -> ProviderInputView {
        ProviderInputView {
            provider_name: self.provider_name@,
            api_url: self.api_url@,
            api_key: self.api_key@,
            models: input_views(self.models@),
        }
    }
}

/// The form for a provider to be added: with one model.
pub open spec fn blank_input(provider: LlmCompatibleProvider) -> ProviderInputView {
    ProviderInputView {
        provider_name: form::single_line_field("Provider Name"@, provider.own_name(), None, 1),
        api_url: form::single_line_field("API URL"@, provider.own_url(), None, 2),
        api_key: form::secret_field(
            "API Key"@,
            "000000000000000000000000000000000000000000000000"@,
            3,
        ),
        models: seq![blank_model_input(0)],
    }
}

/// The models of a form for existing ones, in their order; one without content where there are
/// none.
pub open spec fn edited_models(models: Seq<ModelView>) -> Seq<ModelInputView> {
    if models.len() == 0 {
        seq![blank_model_input(0)]
    } else {
        Seq::new(models.len(), |i: int| existing_model_input(i as nat, models[i]))
    }
}

/// The form for an existing provider.
pub open spec fn edit_input(
    provider_id: Seq<char>,
    api_url: Seq<char>,
    models: Seq<ModelView>,
) -> ProviderInputView {
    ProviderInputView {
        provider_name: form::single_line_field(
            "Provider Name"@,
            "e.g. my-openai-provider"@,
            Some(provider_id),
            1,
        ),
        api_url: form::single_line_field(
            "API URL"@,
            "https://api.example.com/v1"@,
            Some(api_url),
            2,
        ),
        api_key: form::secret_field(
            "API Key (optional)"@,
            "Leave blank to keep current key"@,
            3,
        ),
        models: edited_models(models),
    }
}

impl AddLlmProviderInput {
    /// The form for a provider to be added.
    pub fn new(provider: LlmCompatibleProvider) -> (input: Self)
        ensures
            input@ == blank_input(provider),
    {
        let models: Vec<ModelInput> = vec![ModelInput::new(0)];
        assert(input_views(models@) =~= seq![models@[0]@]);
        AddLlmProviderInput {
            provider_name: form::single_line_input("Provider Name", provider.name(), None, 1),
            api_url: form::single_line_input("API URL", provider.api_url(), None, 2),
            api_key: form::secret_input(
                "API Key",
                "000000000000000000000000000000000000000000000000",
                3,
            ),
            models,
        }
    }

    /// Adds a model without content.
    pub fn add_model(&mut self)
        requires
            tab_indices_fit(old(self)@.models.len() + 1),
        ensures
            final(self)@ == (ProviderInputView {
                models: old(self)@.models.push(blank_model_input(old(self)@.models.len())),
                ..old(self)@
            }),
    {
        let ghost before = self@;
        let model_index: usize = self.models.len();
        self.models.push(ModelInput::new(model_index));
        assert(self@.models =~= before.models.push(blank_model_input(before.models.len())));
    }

    /// Removes a model.
    pub fn remove_model(&mut self, index: usize)
        requires
            index < old(self)@.models.len(),
        ensures
            final(self)@ == (ProviderInputView {
                models: old(self)@.models.remove(index as int),
                ..old(self)@
            }),
    {
        let ghost before = self@;
        self.models.remove(index);
        assert(self@.models =~= before.models.remove(index as int));
    }

    /// The form for an existing provider.
    pub fn new_for_edit(provider_id: &str, api_url: &str, models: &Vec<AvailableModel>) -> (input:
        Self)
        requires
            tab_indices_fit(models@.len()),
        ensures
            input@ == edit_input(provider_id@, api_url@, settings::model_views(models@)),
    {
        let ghost views = settings::model_views(models@);
        let mut inputs: Vec<ModelInput> = Vec::new();
        if models.len() == 0 {
            inputs.push(ModelInput::new(0));
        }
        let mut i: usize = 0;
        while i < models.len()
            invariant
                i <= models@.len(),
                views == settings::model_views(models@),
                tab_indices_fit(models@.len()),
                models@.len() > 0 ==> inputs@.len() == i,
                models@.len() == 0 ==> inputs@.len() == 1 && inputs@[0]@ == blank_model_input(0),
                forall|j: int|
                    0 <= j < i ==> (#[trigger] inputs@[j])@ == existing_model_input(
                        j as nat,
                        views[j],
                    ),
            decreases models.len() - i,
        {
            inputs.push(ModelInput::from_existing(i, &models[i]));
            i = i + 1;
        }
        assert(input_views(inputs@) =~= edited_models(views));
        AddLlmProviderInput {
            provider_name: form::single_line_input(
                "Provider Name",
                "e.g. my-openai-provider",
                Some(provider_id),
                1,
            ),
            api_url: form::single_line_input(
                "API URL",
                "https://api.example.com/v1",
                Some(api_url),
                2,
            ),
            api_key: form::secret_input(
                "API Key (optional)",
                "Leave blank to keep current key",
                3,
            ),
            models: inputs,
        }
    }
}

/// Whether some model has a name.
pub open spec fn has_model_named(models: Seq<ModelView>, name: Seq<char>) -> bool {
    exists|i: int| 0 <= i < models.len() && (#[trigger] models[i]).name == name
}

/// The models that a form describes, or the first thing that is wrong with them: each is looked
/// at after those before it, first by itself, then for its name.
pub open spec fn parsed_models(inputs: Seq<ModelInputView>) -> Result<Seq<ModelView>, ProviderError>
    decreases inputs.len(),
{
    if inputs.len() == 0 {
        Ok(Seq::empty())
    } else {
        match parsed_models(inputs.drop_last()) {
            Err(error) => Err(error),
            Ok(before) => match parsed_model(inputs.last()) {
                Err(error) => Err(error),
                Ok(model) => if has_model_named(before, model.name) {
                    Err(ProviderError::ModelNamesNotUnique)
                } else {
                    Ok(before.push(model))
                },
            },
        }
    }
}

fn is_model_named(models: &Vec<AvailableModel>, name: &str) -> (found: bool)
    ensures
        found == has_model_named(settings::model_views(models@), name@),
{
    let ghost views = settings::model_views(models@);
    let mut i: usize = 0;
    while i < models.len()
        invariant
            i <= models@.len(),
            views == settings::model_views(models@),
            forall|j: int| 0 <= j < i ==> (#[trigger] views[j]).name != name@,
        decreases models.len() - i,
    {
        assert(views[i as int] == models@[i as int]@);
        if text::same_text(models[i].name.as_str(), name) {
            return true;
        }
        i = i + 1;
    }
    false
}

/// The models that a form describes.
fn parse_models(inputs: &Vec<ModelInput>) -> (models: Result<Vec<AvailableModel>, ProviderError>)
    ensures
        match models {
            Ok(models) => parsed_models(input_views(inputs@)) == Ok::<_, ProviderError>(
                settings::model_views(models@),
            ),
            Err(error) => parsed_models(input_views(inputs@)) == Err::<Seq<ModelView>, _>(error),
        },
{
    let ghost views = input_views(inputs@);
    let mut models: Vec<AvailableModel> = Vec::new();
    let mut i: usize = 0;
    proof {
        assert(views.take(0) =~= Seq::empty());
        assert(settings::model_views(models@) =~= Seq::empty());
    }
    while i < inputs.len()
        invariant
            i <= inputs@.len(),
            views == input_views(inputs@),
            parsed_models(views.take(i as int)) == Ok::<_, ProviderError>(
                settings::model_views(models@),
            ),
        decreases inputs.len() - i,
    {
        proof {
            assert(views.take(i + 1).drop_last() =~= views.take(i as int));
            assert(views.take(i + 1).last() == inputs@[i as int]@);
        }
        match inputs[i].parse() {
            Ok(model) => {
                if is_model_named(&models, model.name.as_str()) {
                    proof {
                        lemma_parse_error_stays(views, i + 1);
                    }
                    return Err(ProviderError::ModelNamesNotUnique);
                }
                let ghost before = models@;
                models.push(model);
                assert(settings::model_views(models@) =~= settings::model_views(before).push(
                    model@,
                ));
            },
            Err(error) => {
                proof {
                    lemma_parse_error_stays(views, i + 1);
                }
                return Err(error);
            },
        }
        i = i + 1;
    }
    assert(views.take(i as int) =~= views);
    Ok(models)
}

/// What is wrong with the first models is wrong with all of them.
proof fn lemma_parse_error_stays(inputs: Seq<ModelInputView>, count: int)
    requires
        0 <= count <= inputs.len(),
        parsed_models(inputs.take(count)) is Err,
    ensures
        parsed_models(inputs) == parsed_models(inputs.take(count)),
    decreases inputs.len() - count,
{
    if count == inputs.len() {
        assert(inputs.take(count) =~= inputs);
    } else {
        assert(inputs.take(count + 1).drop_last() =~= inputs.take(count));
        lemma_parse_error_stays(inputs, count + 1);
    }
}

/// A provider that is known to the running program.
#[derive(Debug, PartialEq)]
pub struct RegisteredProvider {
    pub id: String,
    pub name: String,
}

/// Whether some registered provider has a name, as its id or as its name.
pub open spec fn name_taken(registry: Seq<RegisteredProvider>, name: Seq<char>) -> bool {
    exists|i: int|
        0 <= i < registry.len() && ((#[trigger] registry[i]).id@ == name || registry[i].name@
            == name)
}

fn is_name_taken(registry: &[RegisteredProvider], name: &str) -> (taken: bool)
    ensures
        taken == name_taken(registry@, name@),
{
    let mut i: usize = 0;
    while i < registry.len()
        invariant
            i <= registry@.len(),
            forall|j: int|
                0 <= j < i ==> (#[trigger] registry@[j]).id@ != name@ && registry@[j].name@
                    != name@,
        decreases registry.len() - i,
    {
        if text::same_text(registry[i].id.as_str(), name) || text::same_text(
            registry[i].name.as_str(),
            name,
        ) {
            return true;
        }
        i = i + 1;
    }
    false
}

/// The user name under which the keys of providers are kept.
pub const CREDENTIALS_USERNAME: &'static str = "Bearer";

/// A key to be written to the keychain, under the address of its provider.
#[derive(Debug, PartialEq)]
pub struct Credentials {
    pub url: String,
    pub password: String,
}

/// What saving a provider takes. First the credentials of the old address are deleted, which may
/// fail without harm, and the key is written; then the settings are changed.
#[derive(Debug, PartialEq)]
pub struct SavePlan {
    pub delete_credentials: Option<String>,
    pub write_credentials: Option<Credentials>,
    pub update: ProviderUpdate,
}

/// How the settings change: a provider is taken out where it is renamed, and one is put in. A
/// renamed provider is also unregistered under its old id.
#[derive(Debug, PartialEq)]
pub struct ProviderUpdate {
    pub renamed_from: Option<String>,
    pub provider_name: String,
    pub content: OpenAiCompatibleSettingsContent,
}

/// What a [`ProviderUpdate`] stands for.
pub struct UpdateView {
    pub renamed_from: Option<Seq<char>>,
    pub provider_name: Seq<char>,
    pub content: ProviderContentView,
}

/// What a [`SavePlan`] stands for: the keys with the addresses that they are kept under.
pub struct PlanView {
    pub delete_credentials: Option<Seq<char>>,
    pub write_credentials: Option<(Seq<char>, Seq<char>)>,
    pub update: UpdateView,
}

impl View for ProviderUpdate {
    type V = UpdateView;

    open spec fn view(&self) -> UpdateView {
        UpdateView {
            renamed_from: text::optional_text(self.renamed_from),
            provider_name: self.provider_name@,
            content: self.content@,
        }
    }
}

impl View for SavePlan {
    type V = PlanView;

    open spec fn view(&self) -> PlanView {
        PlanView {
            delete_credentials: text::optional_text(self.delete_credentials),
            write_credentials: match self.write_credentials {
                Some(credentials) => Some((credentials.url@, credentials.password@)),
                None => None,
            },
            update: self.update@,
        }
    }
}

/// What adding a provider takes.
pub open spec fn new_provider_plan(
    provider_name: Seq<char>,
    api_url: Seq<char>,
    api_key: Seq<char>,
    models: Seq<ModelView>,
) -> PlanView {
    PlanView {
        delete_credentials: None,
        write_credentials: Some((api_url, api_key)),
        update: UpdateView {
            renamed_from: None,
            provider_name,
            content: ProviderContentView { api_url, available_models: models },
        },
    }
}

/// What changing a provider takes, where `old_api_url` is the address that is configured for it.
pub open spec fn update_plan(
    provider_id: Seq<char>,
    provider_name: Seq<char>,
    api_url: Seq<char>,
    api_key: Seq<char>,
    models: Seq<ModelView>,
    old_api_url: Option<Seq<char>>,
) -> PlanView {
    PlanView {
        delete_credentials: match old_api_url {
            Some(old_url) => if old_url != api_url {
                Some(old_url)
            } else {
                None
            },
            None => None,
        },
        write_credentials: if api_key.len() == 0 {
            None
        } else {
            Some((api_url, api_key))
        },
        update: UpdateView {
            renamed_from: if provider_name != provider_id {
                Some(provider_id)
            } else {
                None
            },
            provider_name,
            content: ProviderContentView { api_url, available_models: models },
        },
    }
}

/// What adding a provider takes. Its name may not be taken.
pub fn save_new_provider(
    provider_name: String,
    api_url: String,
    api_key: String,
    models: Vec<AvailableModel>,
    registry: &[RegisteredProvider],
) -> (plan: Result<SavePlan, ProviderError>)
    ensures
        match plan {
            Ok(plan) => {
                &&& !name_taken(registry@, provider_name@)
                &&& plan@ == new_provider_plan(
                    provider_name@,
                    api_url@,
                    api_key@,
                    settings::model_views(models@),
                )
            },
            Err(error) => {
                &&& error == ProviderError::ProviderNameTaken
                &&& name_taken(registry@, provider_name@)
            },
        },
{
    if is_name_taken(registry, provider_name.as_str()) {
        return Err(ProviderError::ProviderNameTaken);
    }
    Ok(
        SavePlan {
            delete_credentials: None,
            write_credentials: Some(Credentials { url: api_url.clone(), password: api_key }),
            update: ProviderUpdate {
                renamed_from: None,
                provider_name,
                content: OpenAiCompatibleSettingsContent { api_url, available_models: models },
            },
        },
    )
}

/// The address that is configured for a provider.
pub open spec fn configured_url(
    providers: Map<Seq<char>, OpenAiCompatibleSettingsContent>,
    provider_id: Seq<char>,
) -> Option<Seq<char>> {
    if providers.contains_key(provider_id) {
        Some(providers[provider_id].api_url@)
    } else {
        None
    }
}

/// What changing a provider takes. A new name may not be taken; without a key, the old one stays.
pub fn update_existing_provider(
    provider_id: &str,
    provider_name: String,
    api_url: String,
    api_key: String,
    models: Vec<AvailableModel>,
    registry: &[RegisteredProvider],
    providers: &ProviderTable,
) -> (plan: Result<SavePlan, ProviderError>)
    ensures
        match plan {
            Ok(plan) => {
                &&& !name_taken(registry@, provider_name@) || provider_name@ == provider_id@
                &&& plan@ == update_plan(
                    provider_id@,
                    provider_name@,
                    api_url@,
                    api_key@,
                    settings::model_views(models@),
                    configured_url(providers@, provider_id@),
                )
            },
            Err(error) => {
                &&& error == ProviderError::ProviderNameTaken
                &&& name_taken(registry@, provider_name@)
                &&& provider_name@ != provider_id@
            },
        },
{
    let same_name: bool = text::same_text(provider_name.as_str(), provider_id);
    if is_name_taken(registry, provider_name.as_str()) && !same_name {
        return Err(ProviderError::ProviderNameTaken);
    }
    let delete_credentials = match providers.get(provider_id) {
        Some(content) => if text::same_text(content.api_url.as_str(), api_url.as_str()) {
            None
        } else {
            Some(content.api_url.clone())
        },
        None => None,
    };
    let write_credentials = if api_key.as_str().is_empty() {
        None
    } else {
        Some(Credentials { url: api_url.clone(), password: api_key })
    };
    let renamed_from = if same_name {
        None
    } else {
        Some(provider_id.to_owned())
    };
    Ok(
        SavePlan {
            delete_credentials,
            write_credentials,
            update: ProviderUpdate {
                renamed_from,
                provider_name,
                content: OpenAiCompatibleSettingsContent { api_url, available_models: models },
            },
        },
    )
}

/// What saving a form takes, or the first thing that is wrong with it.
pub open spec fn save_plan(
    input: ProviderInputView,
    edited: Option<Seq<char>>,
    registry: Seq<RegisteredProvider>,
    providers: Map<Seq<char>, OpenAiCompatibleSettingsContent>,
) -> Result<PlanView, ProviderError> {
    let name = input.provider_name.text;
    let api_url = input.api_url.text;
    let api_key = input.api_key.text;
    if name.len() == 0 {
        Err(ProviderError::ProviderNameEmpty)
    } else if api_url.len() == 0 {
        Err(ProviderError::ApiUrlEmpty)
    } else if edited is None && api_key.len() == 0 {
        Err(ProviderError::ApiKeyEmpty)
    } else {
        match parsed_models(input.models) {
            Err(error) => Err(error),
            Ok(models) => match edited {
                None => if name_taken(registry, name) {
                    Err(ProviderError::ProviderNameTaken)
                } else {
                    Ok(new_provider_plan(name, api_url, api_key, models))
                },
                Some(provider_id) => if name_taken(registry, name) && name != provider_id {
                    Err(ProviderError::ProviderNameTaken)
                } else {
                    Ok(
                        update_plan(
                            provider_id,
                            name,
                            api_url,
                            api_key,
                            models,
                            configured_url(providers, provider_id),
                        ),
                    )
                },
            },
        }
    }
}

impl Mode {
    /// The provider that is changed, where one is.
    pub open spec fn edited(self) -> Option<Seq<char>> {
        match self {
            Mode::Add => None,
            Mode::Edit { provider_id } => Some(provider_id@),
        }
    }
}

/// What saving a form takes, or the first thing that is wrong with it. `registry` holds the
/// providers known to the running program, `providers` those in the settings.
pub fn save_provider_to_settings(
    input: &AddLlmProviderInput,
    mode: &Mode,
    registry: &[RegisteredProvider],
    providers: &ProviderTable,
) -> (plan: Result<SavePlan, ProviderError>)
    ensures
        match plan {
            Ok(plan) => save_plan(input@, mode.edited(), registry@, providers@) == Ok::<
                _,
                ProviderError,
            >(plan@),
            Err(error) => save_plan(input@, mode.edited(), registry@, providers@) == Err::<
                PlanView,
                _,
            >(error),
        },
{
    if input.provider_name.text.as_str().is_empty() {
        return Err(ProviderError::ProviderNameEmpty);
    }
    if input.api_url.text.as_str().is_empty() {
        return Err(ProviderError::ApiUrlEmpty);
    }
    let adding: bool = matches!(mode, Mode::Add);
    if adding && input.api_key.text.as_str().is_empty() {
        return Err(ProviderError::ApiKeyEmpty);
    }
    let models = match parse_models(&input.models) {
        Ok(models) => models,
        Err(error) => return Err(error),
    };
    let provider_name = input.provider_name.text.clone();
    let api_url = input.api_url.text.clone();
    let api_key = input.api_key.text.clone();
    match mode {
        Mode::Add => save_new_provider(provider_name, api_url, api_key, models, registry),
        Mode::Edit { provider_id } => update_existing_provider(
            provider_id.as_str(),
            provider_name,
            api_url,
            api_key,
            models,
            registry,
            providers,
        ),
    }
}

/// The configured providers after an update.
pub open spec fn updated_providers(
    providers: Map<Seq<char>, OpenAiCompatibleSettingsContent>,
    update: ProviderUpdate,
) -> Map<Seq<char>, OpenAiCompatibleSettingsContent> {
    (match update.renamed_from {
        Some(old_name) => providers.remove(old_name@),
        None => providers,
    }).insert(update.provider_name@, update.content)
}

impl SavePlan {
    /// How the settings change once the credentials were dealt with, where `written` tells
    /// whether the key could be written. They do not change where a key was to be written and
    /// could not be.
    pub fn after_credentials(self, written: bool) -> (update: Result<ProviderUpdate, ProviderError>)
        ensures
            match update {
                Ok(update) => {
                    &&& self.write_credentials is Some ==> written
                    &&& update == self.update
                },
                Err(error) => {
                    &&& error == ProviderError::ApiKeyNotWritten
                    &&& self.write_credentials is Some && !written
                },
            },
    {
        if self.write_credentials.is_some() && !written {
            Err(ProviderError::ApiKeyNotWritten)
        } else {
            Ok(self.update)
        }
    }
}

impl ProviderUpdate {
    /// Changes the settings, and tells which provider is to be unregistered.
    pub fn apply(self, settings: &mut SettingsContent) -> (unregistered: Option<String>)
        ensures
            settings::providers_of(*final(settings)) == updated_providers(
                settings::providers_of(*old(settings)),
                self,
            ),
            final(settings).agent == old(settings).agent,
            unregistered == self.renamed_from,
    {
        let models = settings.language_models.get_or_insert(
            LanguageModelsContent { openai_compatible: None },
        );
        let table = models.openai_compatible.get_or_insert(ProviderTable::new());
        if let Some(old_name) = &self.renamed_from {
            table.remove(old_name.as_str());
        }
        table.insert(self.provider_name, self.content);
        self.renamed_from
    }
}

} // verus!
