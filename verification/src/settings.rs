//! The parts of the settings that this crate reads and changes.

use crate::text;
use crate::zones::CompactionSettingsContent;
use vstd::hash_map::*;
use vstd::prelude::*;

verus! {

/// What a model can do.
#[derive(Debug, Clone, Copy, PartialEq, Eq, Structural)]
pub struct ModelCapabilities {
    pub tools: bool,
    pub images: bool,
    pub parallel_tool_calls: bool,
    pub prompt_cache_key: bool,
    pub chat_completions: bool,
    pub interleaved_reasoning: bool,
}

/// What a model is taken to be able to do unless it is said otherwise.
pub open spec fn default_capabilities() -> ModelCapabilities {
    ModelCapabilities {
        tools: true,
        images: false,
        parallel_tool_calls: false,
        prompt_cache_key: false,
        chat_completions: true,
        interleaved_reasoning: false,
    }
}

impl Default for ModelCapabilities {
    fn default() -> (capabilities: Self)
        ensures
            capabilities == default_capabilities(),
    {
        ModelCapabilities {
            tools: true,
            images: false,
            parallel_tool_calls: false,
            prompt_cache_key: false,
            chat_completions: true,
            interleaved_reasoning: false,
        }
    }
}

/// A model that a provider offers.
#[derive(Debug, PartialEq)]
pub struct AvailableModel {
    pub name: String,
    pub display_name: Option<String>,
    pub max_completion_tokens: Option<u64>,
    pub max_output_tokens: Option<u64>,
    pub max_tokens: u64,
    pub reasoning_effort: Option<String>,
    pub capabilities: ModelCapabilities,
}

/// What an [`AvailableModel`] stands for.
pub struct ModelView {
    pub name: Seq<char>,
    pub display_name: Option<Seq<char>>,
    pub max_completion_tokens: Option<u64>,
    pub max_output_tokens: Option<u64>,
    pub max_tokens: u64,
    pub reasoning_effort: Option<Seq<char>>,
    pub capabilities: ModelCapabilities,
}

impl View for AvailableModel {
    type V = ModelView;

    open spec fn view(&self) -> ModelView {
        ModelView {
            name: self.name@,
            display_name: text::optional_text(self.display_name),
            max_completion_tokens: self.max_completion_tokens,
            max_output_tokens: self.max_output_tokens,
            max_tokens: self.max_tokens,
            reasoning_effort: text::optional_text(self.reasoning_effort),
            capabilities: self.capabilities,
        }
    }
}

/// The models that a sequence stands for.
pub open spec fn model_views(models: Seq<AvailableModel>) -> Seq<ModelView> {
    models.map_values(|model: AvailableModel| model@)
}

/// A configured provider with an OpenAI-compatible API.
#[derive(Debug, PartialEq)]
pub struct OpenAiCompatibleSettingsContent {
    pub api_url: String,
    pub available_models: Vec<AvailableModel>,
}

/// What an [`OpenAiCompatibleSettingsContent`] stands for.
pub struct ProviderContentView {
    pub api_url: Seq<char>,
    pub available_models: Seq<ModelView>,
}

impl View for OpenAiCompatibleSettingsContent {
    type V = ProviderContentView;

    open spec fn view(&self) -> ProviderContentView {
        ProviderContentView {
            api_url: self.api_url@,
            available_models: model_views(self.available_models@),
        }
    }
}

/// The configured providers with an OpenAI-compatible API, by name.
pub struct ProviderTable {
    providers: StringHashMap<OpenAiCompatibleSettingsContent>,
}

impl View for ProviderTable {
    type V = Map<Seq<char>, OpenAiCompatibleSettingsContent>;

    closed spec fn view(&self) -> Map<Seq<char>, OpenAiCompatibleSettingsContent> {
        self.providers@
    }
}

impl ProviderTable {
    /// A table without providers.
    pub fn new() -> (table: Self)
        ensures
            table@ == Map::<Seq<char>, OpenAiCompatibleSettingsContent>::empty(),
    {
        ProviderTable { providers: StringHashMap::new() }
    }

    /// The provider with the given name, where there is one.
    pub fn get(&self, name: &str) -> (content: Option<&OpenAiCompatibleSettingsContent>)
        ensures
            match content {
                Some(content) => self@.contains_key(name@) && self@[name@] == *content,
                None => !self@.contains_key(name@),
            },
    {
        self.providers.get(name)
    }

    /// Puts a provider into the table, in place of the one with its name where there is one.
    pub fn insert(&mut self, name: String, content: OpenAiCompatibleSettingsContent)
        ensures
            final(self)@ == old(self)@.insert(name@, content),
    {
        self.providers.insert(name, content);
    }

    /// Takes a provider out of the table.
    pub fn remove(&mut self, name: &str)
        ensures
            final(self)@ == old(self)@.remove(name@),
    {
        self.providers.remove(name);
    }
}

/// The section of the settings on language models.
pub struct LanguageModelsContent {
    pub openai_compatible: Option<ProviderTable>,
}

/// A model that was chosen for some purpose.
#[derive(Debug, PartialEq)]
pub struct LanguageModelSelection {
    pub provider: String,
    pub model: String,
    pub enable_thinking: bool,
    pub effort: Option<String>,
    pub speed: Option<String>,
}

/// The models that subagents use, by how hard their task is.
#[derive(Debug, PartialEq)]
pub struct SubagentModels {
    pub fast: Option<LanguageModelSelection>,
    pub standard: Option<LanguageModelSelection>,
    pub powerful: Option<LanguageModelSelection>,
}

/// The models that the agent uses, as the settings in effect give them.
#[derive(Debug, PartialEq)]
pub struct AgentModels {
    pub thread_summary_model: Option<LanguageModelSelection>,
    pub subagent_models: SubagentModels,
}

/// The section of the settings on the agent.
#[derive(Debug, PartialEq)]
pub struct AgentSettingsContent {
    pub compaction: Option<CompactionSettingsContent>,
    pub thread_summary_model: Option<LanguageModelSelection>,
    pub subagent_models: Option<SubagentModels>,
}

/// The settings as they stand in the settings file. What is absent takes its default.
pub struct SettingsContent {
    pub agent: Option<AgentSettingsContent>,
    pub language_models: Option<LanguageModelsContent>,
}

/// The compaction section where nothing is set.
pub open spec fn empty_compaction() -> CompactionSettingsContent {
    CompactionSettingsContent {
        enabled: None,
        deep_omit_threshold_tokens: None,
        summary_threshold_tokens: None,
        min_content_chars: None,
    }
}

/// The subagent models where none is chosen.
pub open spec fn empty_subagent_models() -> SubagentModels {
    SubagentModels { fast: None, standard: None, powerful: None }
}

/// The agent section where nothing is set.
pub open spec fn empty_agent() -> AgentSettingsContent {
    AgentSettingsContent { compaction: None, thread_summary_model: None, subagent_models: None }
}

impl SubagentModels {
    /// Subagent models of which none is chosen.
    pub fn new() -> (models: Self)
        ensures
            models == empty_subagent_models(),
    {
        SubagentModels { fast: None, standard: None, powerful: None }
    }
}

impl AgentSettingsContent {
    /// An agent section in which nothing is set.
    pub fn new() -> (agent: Self)
        ensures
            agent == empty_agent(),
    {
        AgentSettingsContent {
            compaction: None,
            thread_summary_model: None,
            subagent_models: None,
        }
    }
}

/// The agent section of settings, without content where there is none.
pub open spec fn agent_of(settings: SettingsContent) -> AgentSettingsContent {
    match settings.agent {
        Some(agent) => agent,
        None => empty_agent(),
    }
}

/// The compaction section of settings, without content where there is none.
pub open spec fn compaction_of(settings: SettingsContent) -> CompactionSettingsContent {
    match agent_of(settings).compaction {
        Some(compaction) => compaction,
        None => empty_compaction(),
    }
}

/// The providers of settings, none where there is no such section.
pub open spec fn providers_of(settings: SettingsContent) -> Map<
    Seq<char>,
    OpenAiCompatibleSettingsContent,
> {
    match settings.language_models {
        Some(LanguageModelsContent { openai_compatible: Some(table) }) => table@,
        _ => Map::empty(),
    }
}

impl SettingsContent {
    /// Settings in which nothing is set.
    pub fn new() -> (settings: Self)
        ensures
            settings.agent is None,
            settings.language_models is None,
    {
        SettingsContent { agent: None, language_models: None }
    }
}

} // verus!
