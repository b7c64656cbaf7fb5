//! What holds of every form for a provider, and of every provider that is saved.

use crate::form::ToggleState;
use crate::provider;
use crate::provider::{
    LlmCompatibleProvider, Mode, ModelCapabilityToggles, ModelInputView, ProviderError,
    ProviderInputView, ProviderUpdate, RegisteredProvider,
};
use crate::provider_modal;
use crate::provider_modal::Capability;
use crate::settings;
use crate::settings::{ModelCapabilities, ModelView, OpenAiCompatibleSettingsContent};
use crate::text;
use vstd::prelude::*;

verus! {

/// Check boxes show exactly the capabilities they were made for, but for interleaved reasoning,
/// which has no check box.
pub proof fn law_toggles_show_capabilities(capabilities: ModelCapabilities)
    ensures
        provider::capabilities_of(provider::toggles_of(capabilities)) == (ModelCapabilities {
            interleaved_reasoning: false,
            ..capabilities
        }),
{
}

/// What the form keeps of a model: all but its display name, its reasoning effort and its
/// interleaved reasoning, which have no fields.
pub open spec fn form_keeps(model: ModelView) -> ModelView {
    ModelView {
        display_name: None,
        reasoning_effort: None,
        capabilities: ModelCapabilities { interleaved_reasoning: false, ..model.capabilities },
        ..model
    }
}

/// A model that is opened in the form and read back unchanged comes back as it was, as far as the
/// form has fields for it.
pub proof fn law_existing_model_reads_back(model_index: nat, model: ModelView)
    requires
        model.name.len() > 0,
        model.max_completion_tokens is Some,
        model.max_output_tokens is Some,
    ensures
        provider::parsed_model(provider::existing_model_input(model_index, model)) == Ok::<
            _,
            ProviderError,
        >(form_keeps(model)),
{
    let completion = model.max_completion_tokens->0;
    let output = model.max_output_tokens->0;
    text::law_natural_of_decimal(completion as nat);
    text::law_natural_of_decimal(output as nat);
    text::law_natural_of_decimal(model.max_tokens as nat);
    law_toggles_show_capabilities(model.capabilities);
}

/// A model without one of the optional limits opens with an empty field, which has to be filled
/// before the form is accepted.
pub proof fn law_missing_limit_is_refused(model_index: nat, model: ModelView)
    requires
        model.name.len() > 0,
    ensures
        model.max_completion_tokens is None ==> provider::parsed_model(
            provider::existing_model_input(model_index, model),
        ) == Err::<ModelView, _>(ProviderError::MaxCompletionTokensNotANumber),
        model.max_completion_tokens is Some && model.max_output_tokens is None
            ==> provider::parsed_model(provider::existing_model_input(model_index, model)) == Err::<
            ModelView,
            _,
        >(ProviderError::MaxOutputTokensNotANumber),
{
    if let Some(completion) = model.max_completion_tokens {
        text::law_natural_of_decimal(completion as nat);
    }
    assert(text::natural(Seq::empty()) is None);
}

/// Whether no two models share a name.
pub open spec fn names_distinct(models: Seq<ModelView>) -> bool {
    forall|i: int, j: int|
        0 <= i < j < models.len() ==> (#[trigger] models[i]).name != (#[trigger] models[j]).name
}

/// A form yields models only where each of them is right, and none shares its name with another;
/// then it yields them all, in order.
pub proof fn law_parsed_models(inputs: Seq<ModelInputView>)
    ensures
        provider::parsed_models(inputs) matches Ok(models) ==> {
            &&& models.len() == inputs.len()
            &&& names_distinct(models)
            &&& forall|i: int|
                0 <= i < inputs.len() ==> provider::parsed_model(inputs[i]) == Ok::<
                    _,
                    ProviderError,
                >(#[trigger] models[i])
        },
    decreases inputs.len(),
{
    if inputs.len() > 0 {
        law_parsed_models(inputs.drop_last());
        if let Ok(models) = provider::parsed_models(inputs) {
            let before = provider::parsed_models(inputs.drop_last())->Ok_0;
            assert forall|i: int| 0 <= i < inputs.len() implies provider::parsed_model(inputs[i])
                == Ok::<_, ProviderError>(#[trigger] models[i]) by {
                if i < before.len() {
                    assert(models[i] == before[i]);
                    assert(inputs.drop_last()[i] == inputs[i]);
                }
            }
            assert forall|i: int, j: int| 0 <= i < j < models.len() implies (
            #[trigger] models[i]).name != (#[trigger] models[j]).name by {
                assert(models[i] == before[i]);
                if j < before.len() {
                    assert(models[j] == before[j]);
                } else {
                    assert(!provider::has_model_named(before, models[j].name));
                }
            }
        }
    }
}

/// Conversely, where each model is right and none shares its name with another, a form yields
/// them.
pub proof fn law_right_models_are_parsed(inputs: Seq<ModelInputView>, models: Seq<ModelView>)
    requires
        models.len() == inputs.len(),
        names_distinct(models),
        forall|i: int|
            0 <= i < inputs.len() ==> provider::parsed_model(inputs[i]) == Ok::<_, ProviderError>(
                #[trigger] models[i],
            ),
    ensures
        provider::parsed_models(inputs) == Ok::<_, ProviderError>(models),
    decreases inputs.len(),
{
    if inputs.len() == 0 {
        assert(models =~= Seq::empty());
    } else {
        let before = models.drop_last();
        assert forall|i: int| 0 <= i < before.len() implies provider::parsed_model(
            inputs.drop_last()[i],
        ) == Ok::<_, ProviderError>(#[trigger] before[i]) by {
            assert(before[i] == models[i]);
        }
        assert forall|i: int, j: int| 0 <= i < j < before.len() implies (
        #[trigger] before[i]).name != (#[trigger] before[j]).name by {
            assert(before[i] == models[i]);
            assert(before[j] == models[j]);
        }
        law_right_models_are_parsed(inputs.drop_last(), before);
        let last = models.len() - 1;
        assert(models[last] == models.last());
        assert(!provider::has_model_named(before, models.last().name)) by {
            if provider::has_model_named(before, models.last().name) {
                let i = choose|i: int|
                    0 <= i < before.len() && (#[trigger] before[i]).name == models.last().name;
                assert(models[i].name != models[last].name);
            }
        }
        assert(before.push(models.last()) =~= models);
    }
}

/// Opening a provider and saving it unchanged keeps its models, as far as the form has fields for
/// them.
pub proof fn law_unchanged_models_are_kept(models: Seq<ModelView>)
    requires
        models.len() > 0,
        names_distinct(models),
        forall|i: int|
            0 <= i < models.len() ==> (#[trigger] models[i]).name.len() > 0
                && models[i].max_completion_tokens is Some && models[i].max_output_tokens is Some,
    ensures
        provider::parsed_models(provider::edited_models(models)) == Ok::<_, ProviderError>(
            models.map_values(|model: ModelView| form_keeps(model)),
        ),
{
    let inputs = provider::edited_models(models);
    let kept = models.map_values(|model: ModelView| form_keeps(model));
    assert forall|i: int| 0 <= i < inputs.len() implies provider::parsed_model(inputs[i]) == Ok::<
        _,
        ProviderError,
    >(#[trigger] kept[i]) by {
        law_existing_model_reads_back(i as nat, models[i]);
    }
    assert forall|i: int, j: int| 0 <= i < j < kept.len() implies (#[trigger] kept[i]).name != (
    #[trigger] kept[j]).name by {
        assert(models[i].name != models[j].name);
    }
    law_right_models_are_parsed(inputs, kept);
}

/// What a provider is saved under: a name that is not empty and, unless it is the provider's own,
/// not taken; an address that is not empty. A key is written under exactly that address, and the
/// credentials that are deleted are those of another one.
pub proof fn law_save_plan(
    input: ProviderInputView,
    edited: Option<Seq<char>>,
    registry: Seq<RegisteredProvider>,
    providers: Map<Seq<char>, OpenAiCompatibleSettingsContent>,
)
    ensures
        provider::save_plan(input, edited, registry, providers) matches Ok(plan) ==> {
            let name = plan.update.provider_name;
            let url = plan.update.content.api_url;
            &&& name.len() > 0
            &&& url.len() > 0
            &&& provider::name_taken(registry, name) ==> edited == Some(name)
            &&& names_distinct(plan.update.content.available_models)
            &&& plan.write_credentials matches Some((address, key)) ==> address == url && key.len()
                > 0
            &&& plan.write_credentials is None ==> edited is Some
            &&& plan.delete_credentials matches Some(address) ==> address != url
            &&& plan.update.renamed_from matches Some(old_name) ==> edited == Some(old_name)
                && old_name != name
        },
{
    law_parsed_models(input.models);
}

/// After an update the provider is configured under its name with its new content; under the name
/// that it was renamed from none is; all other providers are as before.
pub proof fn law_update_touches_one_provider(
    providers: Map<Seq<char>, OpenAiCompatibleSettingsContent>,
    update: ProviderUpdate,
    other: Seq<char>,
)
    ensures
        ({
            let after = provider::updated_providers(providers, update);
            let name = update.provider_name@;
            &&& after.contains_key(name) && after[name] == update.content
            &&& (update.renamed_from matches Some(old_name) && old_name@ != name)
                ==> !after.contains_key(update.renamed_from->0@)
            &&& (other != name && (update.renamed_from matches Some(old_name) ==> old_name@
                != other)) ==> {
                &&& after.contains_key(other) == providers.contains_key(other)
                &&& providers.contains_key(other) ==> after[other] == providers[other]
            }
        }),
{
}

/// Setting a check box changes that one and no other.
pub proof fn law_capabilities_are_independent(
    toggles: ModelCapabilityToggles,
    capability: Capability,
    state: ToggleState,
    other: Capability,
)
    ensures
        provider_modal::capability_state(
            provider_modal::with_capability(toggles, capability, state),
            other,
        ) == if other == capability {
            state
        } else {
            provider_modal::capability_state(toggles, other)
        },
{
}

/// Whether a text is a number of tokens: digits only, with an optional plus sign in front, that
/// stand for a number of 64 bits.
pub open spec fn is_count(text: Seq<char>, count: u64) -> bool {
    text::natural(text) == Some(count as nat)
}

/// Whether a model is what a part of the form says: the name as it is typed, each of the limits
/// from its own field, and each capability from its own check box.
pub open spec fn as_entered(model: ModelView, input: ModelInputView) -> bool {
    &&& model.name == input.name.text && model.name.len() > 0
    &&& model.display_name is None
    &&& model.max_completion_tokens matches Some(count) && is_count(
        input.max_completion_tokens.text,
        count,
    )
    &&& model.max_output_tokens matches Some(count) && is_count(
        input.max_output_tokens.text,
        count,
    )
    &&& is_count(input.max_tokens.text, model.max_tokens)
    &&& model.reasoning_effort is None
    &&& model.capabilities.tools <==> input.capabilities.supports_tools is Selected
    &&& model.capabilities.images <==> input.capabilities.supports_images is Selected
    &&& model.capabilities.parallel_tool_calls
        <==> input.capabilities.supports_parallel_tool_calls is Selected
    &&& model.capabilities.prompt_cache_key
        <==> input.capabilities.supports_prompt_cache_key is Selected
    &&& model.capabilities.chat_completions
        <==> input.capabilities.supports_chat_completions is Selected
    &&& !model.capabilities.interleaved_reasoning
}

/// What a part of the form says of a model is what is read from it.
pub proof fn law_model_is_read_field_by_field(input: ModelInputView)
    ensures
        provider::parsed_model(input) matches Ok(model) ==> as_entered(model, input),
{
}

/// A model is refused for the first of its fields that is wrong, and for no other reason: an empty
/// name, then the limits that are no number of tokens, in the order of the form.
pub proof fn law_model_is_refused_for_its_first_fault(input: ModelInputView)
    ensures
        ({
            let named = input.name.text.len() > 0;
            let completion = exists|count: u64| is_count(input.max_completion_tokens.text, count);
            let output = exists|count: u64| is_count(input.max_output_tokens.text, count);
            let tokens = exists|count: u64| is_count(input.max_tokens.text, count);
            match provider::parsed_model(input) {
                Ok(_) => named && completion && output && tokens,
                Err(ProviderError::ModelNameEmpty) => !named,
                Err(ProviderError::MaxCompletionTokensNotANumber) => named && !completion,
                Err(ProviderError::MaxOutputTokensNotANumber) => named && completion && !output,
                Err(ProviderError::MaxTokensNotANumber) => named && completion && output
                    && !tokens,
                Err(_) => false,
            }
        }),
{
    lemma_count(input.max_completion_tokens.text);
    lemma_count(input.max_output_tokens.text);
    lemma_count(input.max_tokens.text);
}

proof fn lemma_count(text: Seq<char>)
    ensures
        provider::token_count(text) is Some <==> exists|count: u64| is_count(text, count),
{
    if let Some(count) = provider::token_count(text) {
        assert(is_count(text, count));
    }
}

/// A save plan writes credentials exactly where the key in the form is not empty, and what it
/// writes is that key under the address in the form, whether the provider is added or changed and
/// whether or not its address changes. What it puts in the settings is the address and the models
/// in the form, under the name in the form.
pub proof fn law_plan_saves_the_form(
    input: ProviderInputView,
    edited: Option<Seq<char>>,
    registry: Seq<RegisteredProvider>,
    providers: Map<Seq<char>, OpenAiCompatibleSettingsContent>,
)
    ensures
        provider::save_plan(input, edited, registry, providers) matches Ok(plan) ==> {
            &&& plan.write_credentials is Some <==> input.api_key.text.len() > 0
            &&& plan.write_credentials matches Some((address, key)) ==> address
                == input.api_url.text && key == input.api_key.text
            &&& plan.update.provider_name == input.provider_name.text
            &&& plan.update.content.api_url == input.api_url.text
            &&& plan.update.content.available_models.len() == input.models.len()
            &&& forall|i: int|
                0 <= i < input.models.len() ==> as_entered(
                    #[trigger] plan.update.content.available_models[i],
                    input.models[i],
                )
        },
{
    law_parsed_models(input.models);
    if let Ok(plan) = provider::save_plan(input, edited, registry, providers) {
        assert forall|i: int| 0 <= i < input.models.len() implies as_entered(
            #[trigger] plan.update.content.available_models[i],
            input.models[i],
        ) by {
            law_model_is_read_field_by_field(input.models[i]);
        }
    }
}

/// The credentials that a save plan deletes are those of the address that is configured for the
/// provider, exactly where that is another than the one in the form. A provider is taken out
/// under its old name exactly where it has another name in the form. A provider that is added
/// touches neither.
pub proof fn law_plan_moves_the_provider(
    input: ProviderInputView,
    edited: Option<Seq<char>>,
    registry: Seq<RegisteredProvider>,
    providers: Map<Seq<char>, OpenAiCompatibleSettingsContent>,
)
    ensures
        provider::save_plan(input, edited, registry, providers) matches Ok(plan) ==> match edited {
            None => plan.delete_credentials is None && plan.update.renamed_from is None,
            Some(id) => {
                &&& plan.delete_credentials is Some <==> providers.contains_key(id)
                    && providers[id].api_url@ != input.api_url.text
                &&& plan.delete_credentials matches Some(address) ==> address
                    == providers[id].api_url@
                &&& plan.update.renamed_from is Some <==> id != input.provider_name.text
                &&& plan.update.renamed_from matches Some(old_name) ==> old_name == id
            },
        },
{
}

/// Adding and changing a provider put the same in the settings. Either writes the key under the
/// address, and changing leaves it out only where there is no key.
pub proof fn law_update_writes_every_key(
    provider_id: Seq<char>,
    provider_name: Seq<char>,
    api_url: Seq<char>,
    api_key: Seq<char>,
    models: Seq<ModelView>,
    old_api_url: Option<Seq<char>>,
)
    ensures
        ({
            let plan = provider::update_plan(
                provider_id,
                provider_name,
                api_url,
                api_key,
                models,
                old_api_url,
            );
            let added = provider::new_provider_plan(provider_name, api_url, api_key, models);
            &&& api_key.len() > 0 ==> plan.write_credentials == Some((api_url, api_key))
            &&& api_key.len() == 0 ==> plan.write_credentials is None
            &&& plan.delete_credentials matches Some(address) ==> old_api_url == Some(address)
            &&& plan.update.content == added.update.content
            &&& plan.update.provider_name == added.update.provider_name
            &&& added.write_credentials == Some((api_url, api_key))
            &&& added.delete_credentials is None
            &&& added.update.renamed_from is None
            &&& added.update.content.api_url == api_url
            &&& added.update.content.available_models == models
        }),
{
}

/// Whether a registered provider goes by a name, as its id or as its name.
pub open spec fn goes_by(provider: RegisteredProvider, name: Seq<char>) -> bool {
    provider.id@ == name || provider.name@ == name
}

/// A form is refused for the first thing that is wrong with it, and for no other reason: an empty
/// name, an empty address, an empty key where a provider is added, a model that is wrong or has
/// the name of another, and a name that another provider goes by.
pub proof fn law_form_is_refused_for_its_first_fault(
    input: ProviderInputView,
    edited: Option<Seq<char>>,
    registry: Seq<RegisteredProvider>,
    providers: Map<Seq<char>, OpenAiCompatibleSettingsContent>,
)
    ensures
        ({
            let name = input.provider_name.text;
            let taken = exists|i: int|
                0 <= i < registry.len() && goes_by(#[trigger] registry[i], name);
            let named = name.len() > 0;
            let addressed = input.api_url.text.len() > 0;
            let keyed = input.api_key.text.len() > 0 || edited is Some;
            let models = provider::parsed_models(input.models);
            match provider::save_plan(input, edited, registry, providers) {
                Ok(_) => named && addressed && keyed && models is Ok && (taken ==> edited == Some(
                    name,
                )),
                Err(ProviderError::ProviderNameEmpty) => !named,
                Err(ProviderError::ApiUrlEmpty) => named && !addressed,
                Err(ProviderError::ApiKeyEmpty) => named && addressed && !keyed,
                Err(ProviderError::ProviderNameTaken) => named && addressed && keyed && models is Ok
                    && taken && edited != Some(name),
                Err(error) => named && addressed && keyed && models == Err::<Seq<ModelView>, _>(
                    error,
                ),
            }
        }),
{
    let name = input.provider_name.text;
    law_model_faults(input.models);
    if provider::name_taken(registry, name) {
        let i = choose|i: int|
            0 <= i < registry.len() && ((#[trigger] registry[i]).id@ == name || registry[i].name@
                == name);
        assert(goes_by(registry[i], name));
    }
    if exists|i: int| 0 <= i < registry.len() && goes_by(#[trigger] registry[i], name) {
        let i = choose|i: int| 0 <= i < registry.len() && goes_by(#[trigger] registry[i], name);
        assert(registry[i].id@ == name || registry[i].name@ == name);
        assert(provider::name_taken(registry, name));
    }
}

/// The models of a form are refused for the first of them that is wrong: by itself, or because it
/// has the name of one before it. Those before it are right.
pub proof fn law_model_faults(inputs: Seq<ModelInputView>)
    ensures
        provider::parsed_models(inputs) matches Err(error) ==> exists|i: int|
            {
                &&& 0 <= i < inputs.len()
                &&& provider::parsed_models(#[trigger] inputs.take(i)) is Ok
                &&& match provider::parsed_model(inputs[i]) {
                    Err(fault) => error == fault,
                    Ok(model) => error == ProviderError::ModelNamesNotUnique && exists|j: int|
                        0 <= j < i && (#[trigger] inputs[j]).name.text == model.name,
                }
            },
        provider::parsed_models(inputs) matches Err(error) ==> {
            &&& error != ProviderError::ProviderNameEmpty
            &&& error != ProviderError::ApiUrlEmpty
            &&& error != ProviderError::ApiKeyEmpty
            &&& error != ProviderError::ProviderNameTaken
        },
    decreases inputs.len(),
{
    if inputs.len() > 0 {
        let before = inputs.drop_last();
        let last = inputs.len() - 1;
        law_model_faults(before);
        assert(inputs.take(last) =~= before);
        if provider::parsed_models(inputs) is Err {
            if let Ok(models) = provider::parsed_models(before) {
                law_parsed_models(before);
                if let Ok(model) = provider::parsed_model(inputs[last]) {
                    let j = choose|j: int|
                        0 <= j < models.len() && (#[trigger] models[j]).name == model.name;
                    assert(provider::parsed_model(before[j]) == Ok::<_, ProviderError>(models[j]));
                    assert(inputs[j] == before[j]);
                    assert(inputs[j].name.text == model.name);
                }
                assert(provider::parsed_models(inputs.take(last)) is Ok);
            } else {
                let error = provider::parsed_models(before)->Err_0;
                let i = choose|i: int|
                    {
                        &&& 0 <= i < before.len()
                        &&& provider::parsed_models(#[trigger] before.take(i)) is Ok
                        &&& match provider::parsed_model(before[i]) {
                            Err(fault) => error == fault,
                            Ok(model) => error == ProviderError::ModelNamesNotUnique && exists|
                                j: int,
                            |
                                0 <= j < i && (#[trigger] before[j]).name.text == model.name,
                        }
                    };
                assert(inputs.take(i) =~= before.take(i));
                assert(inputs[i] == before[i]);
                if let Ok(model) = provider::parsed_model(before[i]) {
                    let j = choose|j: int|
                        0 <= j < i && (#[trigger] before[j]).name.text == model.name;
                    assert(inputs[j] == before[j]);
                }
            }
        }
    }
}

/// A dialog that opens for a configured provider shows its name, its address and its models, and
/// an empty key; one that opens to add a provider is empty but for the limits of one model.
pub proof fn law_dialog_opens_with_the_provider(
    kind: LlmCompatibleProvider,
    mode: Mode,
    providers: Map<Seq<char>, OpenAiCompatibleSettingsContent>,
)
    ensures
        ({
            let input = provider_modal::opening_input(kind, mode, providers);
            &&& input.api_key.text.len() == 0
            &&& input.api_key.masked && !input.api_url.masked && !input.provider_name.masked
            &&& match mode {
                Mode::Edit { provider_id } if providers.contains_key(provider_id@) => {
                    let content = providers[provider_id@];
                    let models = content.available_models@;
                    &&& input.provider_name.text == provider_id@
                    &&& input.api_url.text == content.api_url@
                    &&& models.len() > 0 ==> input.models.len() == models.len()
                    &&& forall|i: int|
                        0 <= i < models.len() ==> (#[trigger] input.models[i]).name.text
                            == models[i].name@
                },
                _ => {
                    &&& input.provider_name.text.len() == 0
                    &&& input.api_url.text.len() == 0
                    &&& input.models.len() == 1
                    &&& input.models[0].name.text.len() == 0
                },
            }
        }),
{
    if let Mode::Edit { provider_id } = mode {
        if providers.contains_key(provider_id@) {
            let models = providers[provider_id@].available_models@;
            let input = provider_modal::opening_input(kind, mode, providers);
            let views = settings::model_views(models);
            assert forall|i: int| 0 <= i < models.len() implies (
            #[trigger] input.models[i]).name.text == models[i].name@ by {
                assert(views[i] == models[i]@);
            }
        }
    }
}

/// Opening a configured provider and saving it unchanged leaves it as it is: the same name and
/// address, no credentials written or deleted, and the same models, as far as the form has fields
/// for them.
pub proof fn law_saving_unchanged_provider(
    provider_id: Seq<char>,
    registry: Seq<RegisteredProvider>,
    providers: Map<Seq<char>, OpenAiCompatibleSettingsContent>,
)
    requires
        provider_id.len() > 0,
        providers.contains_key(provider_id),
        providers[provider_id].api_url@.len() > 0,
        ({
            let models = settings::model_views(providers[provider_id].available_models@);
            &&& models.len() > 0
            &&& names_distinct(models)
            &&& forall|i: int|
                0 <= i < models.len() ==> (#[trigger] models[i]).name.len() > 0
                    && models[i].max_completion_tokens is Some
                    && models[i].max_output_tokens is Some
        }),
    ensures
        ({
            let content = providers[provider_id];
            let models = settings::model_views(content.available_models@);
            let input = provider::edit_input(provider_id, content.api_url@, models);
            let plan = provider::save_plan(input, Some(provider_id), registry, providers);
            &&& plan is Ok
            &&& plan->Ok_0.write_credentials is None
            &&& plan->Ok_0.delete_credentials is None
            &&& plan->Ok_0.update.renamed_from is None
            &&& plan->Ok_0.update.provider_name == provider_id
            &&& plan->Ok_0.update.content.api_url == content.api_url@
            &&& plan->Ok_0.update.content.available_models == models.map_values(
                |model: ModelView| form_keeps(model),
            )
        }),
{
    law_unchanged_models_are_kept(
        settings::model_views(providers[provider_id].available_models@),
    );
}

/// Every capability has one check box, which shows the state of that capability.
pub proof fn law_boxes_show_capabilities(
    toggles: ModelCapabilityToggles,
    index: usize,
    capability: Capability,
)
    ensures
        ({
            let boxes = provider_modal::capability_boxes(toggles, index);
            &&& boxes.len() == 5
            &&& exists|i: int| 0 <= i < boxes.len() && (#[trigger] boxes[i]).capability == capability
            &&& forall|i: int|
                0 <= i < boxes.len() && (#[trigger] boxes[i]).capability == capability ==> {
                    &&& boxes[i].state == provider_modal::capability_state(toggles, capability)
                    &&& boxes[i].index == index
                }
        }),
{
    let boxes = provider_modal::capability_boxes(toggles, index);
    assert(boxes[0].capability == Capability::Tools);
    assert(boxes[1].capability == Capability::Images);
    assert(boxes[2].capability == Capability::ParallelToolCalls);
    assert(boxes[3].capability == Capability::PromptCacheKey);
    assert(boxes[4].capability == Capability::ChatCompletions);
}

/// A model supports what its check box says, and setting the box changes that alone.
pub proof fn law_box_decides_capability(toggles: ModelCapabilityToggles)
    ensures
        ({
            let capabilities = provider::capabilities_of(toggles);
            &&& capabilities.tools <==> provider_modal::capability_state(
                toggles,
                Capability::Tools,
            ) is Selected
            &&& capabilities.images <==> provider_modal::capability_state(
                toggles,
                Capability::Images,
            ) is Selected
            &&& capabilities.parallel_tool_calls <==> provider_modal::capability_state(
                toggles,
                Capability::ParallelToolCalls,
            ) is Selected
            &&& capabilities.prompt_cache_key <==> provider_modal::capability_state(
                toggles,
                Capability::PromptCacheKey,
            ) is Selected
            &&& capabilities.chat_completions <==> provider_modal::capability_state(
                toggles,
                Capability::ChatCompletions,
            ) is Selected
        }),
{
}

/// A model that is added supports tools and chat completions, and nothing else; its limits are
/// filled in, and a name is all that is missing.
pub proof fn law_new_model_needs_a_name(model_index: nat, name: Seq<char>)
    requires
        name.len() > 0,
    ensures
        ({
            let blank = provider::blank_model_input(model_index);
            let named = ModelInputView { name: blank.name.with_text(name), ..blank };
            &&& provider::parsed_model(blank) == Err::<ModelView, _>(ProviderError::ModelNameEmpty)
            &&& provider::parsed_model(named) == Ok::<_, ProviderError>(
                ModelView {
                    name,
                    display_name: None,
                    max_completion_tokens: Some(200_000),
                    max_output_tokens: Some(32_000),
                    max_tokens: 200_000,
                    reasoning_effort: None,
                    capabilities: ModelCapabilities {
                        tools: true,
                        images: false,
                        parallel_tool_calls: false,
                        prompt_cache_key: false,
                        chat_completions: true,
                        interleaved_reasoning: false,
                    },
                },
            )
        }),
{
    reveal_strlit("200000");
    assert("200000"@ =~= seq!['2', '0', '0', '0', '0', '0']);
    reveal_strlit("32000");
    assert("32000"@ =~= seq!['3', '2', '0', '0', '0']);
    reveal_with_fuel(text::digits_value, 7);
    assert("32000"@.drop_last() =~= seq!['3', '2', '0', '0']);
    assert("32000"@.drop_last().drop_last() =~= seq!['3', '2', '0']);
    assert("32000"@.drop_last().drop_last().drop_last() =~= seq!['3', '2']);
    assert("32000"@.drop_last().drop_last().drop_last().drop_last() =~= seq!['3']);
    assert("200000"@.drop_last() =~= seq!['2', '0', '0', '0', '0']);
    assert("200000"@.drop_last().drop_last() =~= seq!['2', '0', '0', '0']);
    assert("200000"@.drop_last().drop_last().drop_last() =~= seq!['2', '0', '0']);
    assert("200000"@.drop_last().drop_last().drop_last().drop_last() =~= seq!['2', '0']);
    assert(text::digits_value(seq!['3', '2', '0', '0', '0']) == 32_000);
    assert(text::digits_value(seq!['2', '0', '0', '0', '0', '0']) == 200_000);
}

} // verus!
