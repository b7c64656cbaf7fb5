//! What holds of every call on the dialogs, on their fields and buttons, and on what they show.

use crate::compact_modal;
use crate::compact_modal::{
    CompactAction, CompactContent, CompactForm, CompactMessagesModal, CompactPhase,
    MessageSummary, ReviewingView, SelectingView,
};
use crate::compaction::CompactionError;
use crate::compaction_settings;
use crate::compaction_settings::{
    CompactionSettingsModal, ConfiguredModel, ModelInfo, ProviderModels, SettingsAction,
    SettingsForm,
};
use crate::dialog_laws;
use crate::form;
use crate::form::{Button, ButtonStyle, InputField, MenuAction, ToggleState};
use crate::json;
use crate::json::Json;
use crate::message::LanguageModelToolResultContent;
use crate::provider;
use crate::provider::{
    AddLlmProviderInput, LlmCompatibleProvider, Mode, ModelInput, ProviderError,
    RegisteredProvider, SavePlan,
};
use crate::provider_laws;
use crate::provider_modal;
use crate::provider_modal::{
    AddLlmProviderModal, Capability, ModelForm, ModelSection, ProviderAction, ProviderForm,
};
use crate::rules::RulesDirectoryEntry;
use crate::rules_settings;
use crate::rules_settings::{
    RulesAction, RulesContent, RulesDirectorySettingsModal, RulesForm, VisibleWorktree,
};
use crate::settings;
use crate::settings::{
    AgentSettingsContent, AvailableModel, LanguageModelSelection, ModelCapabilities,
    OpenAiCompatibleSettingsContent, ProviderTable, SettingsContent, SubagentModels,
};
use crate::summary::SummaryStream;
use crate::text;
use crate::thread::{RequestTokenUsage, TokenUsage, UserMessageId};
use crate::vision;
use crate::vision::{VisionReply, VisionTool, VisionToolInput};
use crate::zones::{CompactionConfig, CompactionSettingsContent};
use vstd::prelude::*;
use vstd::utf8::*;

verus! {

/// A field shows its label and its placeholder and holds its text; only the text of a secret is
/// hidden, and it is empty at first.
pub proof fn law_fields(
    label: &str,
    placeholder: &str,
    given: Option<&str>,
    tab_index: isize,
    single: InputField,
    secret: InputField,
    plain_label: Option<&str>,
    plain_text: &str,
    plain: InputField,
)
    requires
        call_ensures(form::single_line_input, (label, placeholder, given, tab_index), single),
        call_ensures(form::secret_input, (label, placeholder, tab_index), secret),
        call_ensures(form::plain_input, (plain_label, placeholder, plain_text), plain),
    ensures
        single.label is Some && single.label->0@ == label@,
        secret.label is Some && secret.label->0@ == label@,
        plain.label is Some <==> plain_label is Some,
        plain.label matches Some(shown) ==> shown@ == plain_label->0@,
        single.placeholder@ == placeholder@,
        secret.placeholder@ == placeholder@,
        plain.placeholder@ == placeholder@,
        given matches Some(given) ==> single.text@ == given@,
        given is None ==> single.text@.len() == 0,
        secret.text@.len() == 0,
        plain.text@ == plain_text@,
        secret.masked && !single.masked && !plain.masked,
        single.tab_index == Some(tab_index),
        secret.tab_index == Some(tab_index),
        plain.tab_index is None,
        single.tab_stop && secret.tab_stop && plain.tab_stop,
{
    assert(single@.text == single.text@ && secret@.text == secret.text@);
    assert(single@.label is Some && secret@.label is Some);
    assert(single@.tab_index == Some(tab_index as int));
    assert(secret@.tab_index == Some(tab_index as int));
    assert(plain@.label is Some <==> plain.label is Some);
    assert(plain@.tab_index is None);
    assert(single@.placeholder == placeholder@ && secret@.placeholder == placeholder@);
    assert(single@.masked == single.masked && secret@.masked == secret.masked);
    assert(single@.tab_stop == single.tab_stop && secret@.tab_stop == secret.tab_stop);
}

/// Putting a text into a field changes the text and nothing else.
pub proof fn law_set_text(field: &mut InputField, text: &str)
    requires
        call_ensures(InputField::set_text, (field, text), ()),
    ensures
        final(field).text@ == text@,
        final(field).masked == old(field).masked,
        final(field).tab_stop == old(field).tab_stop,
        final(field).tab_index == old(field).tab_index,
        final(field).placeholder@ == old(field).placeholder@,
        final(field)@.label == old(field)@.label,
{
    assert(final(field)@.text == final(field).text@);
    assert(final(field)@.masked == final(field).masked);
    assert(final(field)@.tab_stop == final(field).tab_stop);
    assert(final(field)@.tab_index == old(field)@.tab_index);
    assert(final(field)@.placeholder == final(field).placeholder@);
}

/// A button does what it is made for, and can be clicked; a key is shown on it where it has one.
pub proof fn law_buttons<Action>(
    id: &'static str,
    label: &'static str,
    style: ButtonStyle,
    key: MenuAction,
    action: Action,
    button: Button<Action>,
    keyed: Button<Action>,
)
    requires
        call_ensures(form::make_button, (id, label, style, action), button),
        call_ensures(form::make_keyed_button, (id, label, key, action), keyed),
    ensures
        button.action == action && keyed.action == action,
        button.label@ == label@ && keyed.label@ == label@,
        button.id@ == id@ && keyed.id@ == id@,
        button.style == style && keyed.style == ButtonStyle::Subtle,
        !button.disabled && !keyed.disabled,
        button.key is None && keyed.key == Some(key),
{
    assert(button@.action == button.action && keyed@.action == keyed.action);
}

/// A check box that shows a truth value is selected where that is true.
pub proof fn law_toggle_state(on: bool, state: ToggleState, selected: bool)
    requires
        call_ensures(<ToggleState as From<bool>>::from, (on,), state),
        call_ensures(ToggleState::selected, (&state,), selected),
    ensures
        selected == on,
        state == ToggleState::Selected || state == ToggleState::Unselected,
{
}

/// The dialog for compaction opens with the older half of a longer conversation selected, and with
/// all of a short one, and with nothing done yet.
pub proof fn law_compact_dialog(
    summaries: Vec<MessageSummary>,
    made: CompactMessagesModal,
    opened: CompactMessagesModal,
)
    requires
        call_ensures(CompactMessagesModal::new, (summaries,), made),
        call_ensures(CompactMessagesModal::toggle, (summaries,), opened),
    ensures
        ({
            let count = summaries@.len();
            &&& made.summaries == summaries && opened.summaries == summaries
            &&& made.max_boundary == count
            &&& count <= 4 ==> made.boundary == count
            &&& count > 4 ==> 2 * made.boundary <= count < 2 * made.boundary + 2
            &&& made.phase is Selecting && opened.phase is Selecting
            &&& made.last_error is None && opened.last_error is None
            &&& made.summary_input is None && opened.summary_input is None
            &&& opened.boundary == made.boundary
        }),
{
    let view = made@;
    let other = opened@;
    dialog_laws::law_compact_dialog_opens(summaries@.len());
    assert(view.boundary == made.boundary && other.boundary == opened.boundary);
    assert(view.phase == made.phase@ && other.phase == opened.phase@);
    assert(view.last_error is None && other.last_error is None);
    assert(view.summary_input is None && other.summary_input is None);
}

/// A summary that comes back is reviewed as it is; one that is empty, or does not come, leads back
/// to the selection, with an error that says so. The selection stays.
pub proof fn law_summary_came_back(
    modal: &mut CompactMessagesModal,
    summary: Result<String, String>,
)
    requires
        call_ensures(CompactMessagesModal::finished, (modal, summary), ()),
    ensures
        final(modal).boundary == old(modal).boundary,
        final(modal).summaries == old(modal).summaries,
        match summary {
            Ok(summary) => if summary@.len() > 0 {
                &&& final(modal).phase matches CompactPhase::Reviewing {
                    summary_text,
                    is_editing,
                } && summary_text@ == summary@ && !is_editing
                &&& final(modal).summary_input is None
                &&& final(modal)@.last_error == old(modal)@.last_error
            } else {
                &&& final(modal).phase is Selecting
                &&& final(modal).last_error is Some
                &&& final(modal).last_error->0@ == "LLM returned an empty summary"@
                &&& final(modal)@.summary_input == old(modal)@.summary_input
            },
            Err(error) => {
                &&& final(modal).phase is Selecting
                &&& final(modal).last_error is Some
                &&& final(modal).last_error->0@ == "Failed to generate summary: "@ + error@
                &&& final(modal)@.summary_input == old(modal)@.summary_input
            },
        },
{
    let before = old(modal)@;
    let after = final(modal)@;
    match summary {
        Ok(summary) => dialog_laws::law_generated(before, summary@, summary@),
        Err(error) => dialog_laws::law_generated(before, error@, error@),
    }
    assert(after.boundary == final(modal).boundary && before.boundary == old(modal).boundary);
    assert(after.phase == final(modal).phase@);
    assert(after.last_error is Some <==> final(modal).last_error is Some);
    assert(after.summary_input is Some <==> final(modal).summary_input is Some);
}

/// Editing begins with the summary as it is and ends with what the field holds, where there is
/// one; outside the review nothing changes. The selection and an error stay.
pub proof fn law_edit_is_toggled(modal: &mut CompactMessagesModal)
    requires
        call_ensures(CompactMessagesModal::toggle_edit, (modal,), ()),
    ensures
        final(modal).boundary == old(modal).boundary,
        final(modal).summaries == old(modal).summaries,
        final(modal)@.last_error == old(modal)@.last_error,
        !(old(modal).phase is Reviewing) ==> final(modal)@ == old(modal)@,
        old(modal).phase matches CompactPhase::Reviewing { summary_text, is_editing } ==> {
            &&& final(modal).summary_input is None
            &&& final(modal).phase matches CompactPhase::Reviewing {
                summary_text: text,
                is_editing: editing,
            } && editing == !is_editing && text@ == if is_editing && old(
                modal,
            ).summary_input is Some {
                old(modal).summary_input->0.text@
            } else {
                summary_text@
            }
        },
{
    let before = old(modal)@;
    let after = final(modal)@;
    assert(after.boundary == final(modal).boundary && before.boundary == old(modal).boundary);
    assert(after.phase == final(modal).phase@ && before.phase == old(modal).phase@);
    assert(after.summary_input is Some <==> final(modal).summary_input is Some);
    if let Some(input) = old(modal).summary_input {
        assert(before.summary_input == Some(input@));
        assert(input@.text == input.text@);
    }
}

/// The field in which a summary is edited is made with the summary in it, where it is needed and
/// not there; nothing else changes.
pub proof fn law_input_is_made(modal: &mut CompactMessagesModal)
    requires
        call_ensures(CompactMessagesModal::ensure_input, (modal,), ()),
    ensures
        final(modal).boundary == old(modal).boundary,
        final(modal).summaries == old(modal).summaries,
        final(modal)@.last_error == old(modal)@.last_error,
        final(modal)@.phase == old(modal)@.phase,
        old(modal).summary_input is Some ==> final(modal)@ == old(modal)@,
        old(modal).summary_input is None ==> {
            let editing = old(modal).phase matches CompactPhase::Reviewing { is_editing: true, .. };
            &&& final(modal).summary_input is Some <==> editing
            &&& editing ==> final(modal).summary_input->0.text@ == old(modal).phase->summary_text@
        },
{
    let before = old(modal)@;
    let after = final(modal)@;
    assert(after.boundary == final(modal).boundary && before.boundary == old(modal).boundary);
    assert(after.phase == final(modal).phase@ && before.phase == old(modal).phase@);
    assert(before.summary_input is Some <==> old(modal).summary_input is Some);
    assert(after.summary_input is Some <==> final(modal).summary_input is Some);
    if let Some(input) = final(modal).summary_input {
        assert(after.summary_input == Some(input@));
        assert(input@.text == input.text@);
    }
}

/// Going back leads to the selection, as it was, without an error.
pub proof fn law_back_to_selection(modal: &mut CompactMessagesModal)
    requires
        call_ensures(CompactMessagesModal::back_to_selecting, (modal,), ()),
    ensures
        final(modal).boundary == old(modal).boundary,
        final(modal).summaries == old(modal).summaries,
        final(modal).phase is Selecting,
        final(modal).last_error is None,
        final(modal).summary_input is None,
{
    let before = old(modal)@;
    let after = final(modal)@;
    assert(after.boundary == final(modal).boundary && before.boundary == old(modal).boundary);
    assert(after.phase == final(modal).phase@);
    assert(after.last_error is Some <==> final(modal).last_error is Some);
    assert(after.summary_input is Some <==> final(modal).summary_input is Some);
}

/// The dialog for compaction shows what goes with its phase: what is selected, that a summary is
/// written, or the summary; with the buttons for that, and an error exactly where there is one.
pub proof fn law_compact_dialog_is_shown<'a>(
    modal: &'a CompactMessagesModal,
    shown: CompactForm<'a>,
    selecting: SelectingView<'a>,
    reviewing: ReviewingView<'a>,
)
    requires
        modal.well_formed(),
        call_ensures(CompactMessagesModal::render, (modal,), shown),
        call_ensures(CompactMessagesModal::render_selecting_phase, (modal,), selecting),
        call_ensures(CompactMessagesModal::render_reviewing_phase, (modal,), reviewing),
    ensures
        shown.error is Some <==> modal.last_error is Some,
        shown.error matches Some(error) ==> error@ == modal.last_error->0@,
        shown.headline@ == if modal.phase is Reviewing {
            "Review Summary"@
        } else {
            "Compact Old Messages"@
        },
        modal.phase is Selecting ==> {
            &&& shown.content matches CompactContent::Selecting(view)
                && compact_modal::row_views(view.rows@) == dialog_laws::lines_before(
                modal.summaries@,
                modal.boundary as nat,
            )
            &&& shown.buttons@.len() == 2
            &&& shown.buttons@[0].action == CompactAction::Cancel
            &&& shown.buttons@[0].label@ == "Cancel"@
            &&& shown.buttons@[1].action == CompactAction::GenerateSummary
            &&& shown.buttons@[1].label@ == "Generate Summary"@
            &&& shown.buttons@[1].disabled <==> modal.boundary == 0
        },
        modal.phase is Generating ==> {
            &&& shown.content is Generating
            &&& shown.buttons@.len() == 1
            &&& shown.buttons@[0].action == CompactAction::Cancel
        },
        modal.phase is Reviewing ==> {
            &&& shown.content is Reviewing
            &&& shown.buttons@.len() == 3
            &&& shown.buttons@[0].action == CompactAction::ToggleEdit
            &&& shown.buttons@[1].action == CompactAction::Back
            &&& shown.buttons@[1].label@ == "Back"@
            &&& shown.buttons@[2].action == CompactAction::ReplaceMessages
            &&& shown.buttons@[2].label@ == "Replace Messages"@
        },
        compact_modal::row_views(selecting.rows@) == dialog_laws::lines_before(
            modal.summaries@,
            modal.boundary as nat,
        ),
        reviewing.description@ == "This will replace "@ + text::decimal(modal.boundary as nat)
            + " messages with the summary below:"@,
{
    let views = form::button_views(shown.buttons@);
    dialog_laws::law_error_is_shown(shown, *modal);
    dialog_laws::law_lines_before(modal.summaries@, modal.boundary as nat);
    if modal.phase is Selecting {
        dialog_laws::law_selection_is_shown(shown, *modal);
        assert(views[0] == shown.buttons@[0]@);
        assert(views[1] == shown.buttons@[1]@);
    }
    if modal.phase is Reviewing {
        dialog_laws::law_review_is_shown(shown, *modal);
        assert(views[1] == shown.buttons@[1]@);
        assert(views[2] == shown.buttons@[2]@);
    }
}

/// The dialog for the settings opens with the thresholds of the configuration in their fields.
pub proof fn law_settings_dialog(
    config: &CompactionConfig,
    enabled: bool,
    made: CompactionSettingsModal,
    opened: CompactionSettingsModal,
)
    requires
        call_ensures(CompactionSettingsModal::new, (config, enabled), made),
        call_ensures(CompactionSettingsModal::toggle, (config, enabled), opened),
    ensures
        made.auto_compact_enabled == enabled,
        text::natural(made.deep_omit_threshold_tokens.text@) == Some(
            config.deep_omit_threshold_tokens as nat,
        ),
        text::natural(made.summary_threshold_tokens.text@) == Some(
            config.summary_threshold_tokens as nat,
        ),
        text::natural(made.min_content_chars.text@) == Some(config.min_content_chars as nat),
        opened@ == made@,
{
    dialog_laws::law_settings_dialog_opens(*config, enabled);
    let view = made@;
    assert(view.auto_compact_enabled == made.auto_compact_enabled);
    assert(view.deep_omit_threshold_tokens.text == made.deep_omit_threshold_tokens.text@);
    assert(view.summary_threshold_tokens.text == made.summary_threshold_tokens.text@);
    assert(view.min_content_chars.text == made.min_content_chars.text@);
}

/// The dialog for the settings shows each threshold in its own place, the switch as it is, and
/// the buttons to reset, to cancel and to save.
pub proof fn law_settings_dialog_is_shown<'a>(
    modal: &'a CompactionSettingsModal,
    shown: SettingsForm<'a>,
)
    requires
        call_ensures(CompactionSettingsModal::render, (modal,), shown),
    ensures
        *shown.deep_omit_threshold_tokens == modal.deep_omit_threshold_tokens,
        *shown.summary_threshold_tokens == modal.summary_threshold_tokens,
        *shown.min_content_chars == modal.min_content_chars,
        shown.auto_compact_button.label@ == if modal.auto_compact_enabled {
            "On"@
        } else {
            "Off"@
        },
        shown.buttons@.len() == 3,
        shown.buttons@[0].action == SettingsAction::ResetDefaults,
        shown.buttons@[1].action == SettingsAction::Cancel,
        shown.buttons@[2].action == SettingsAction::SaveAndClose,
        shown.buttons@[0].label@ == "Reset to Defaults"@,
        shown.buttons@[1].label@ == "Cancel"@,
        shown.buttons@[2].label@ == "Save"@,
        shown.headline@ == "Compaction Settings"@,
        shown.summary_picker.label@ == "Summary Model"@,
        shown.subagents_heading@ == "Subagent Models"@,
        shown.auto_compact_label@ == "Auto Compact"@,
        shown.stripping_heading@ == "Tool Result Stripping (Tier 1)"@,
        shown.summary_heading@ == "Message Summary (Tier 2)"@,
{
    let views = form::button_views(shown.buttons@);
    dialog_laws::law_settings_are_shown(shown, *modal);
    assert(views[0] == shown.buttons@[0]@);
    assert(views[1] == shown.buttons@[1]@);
    assert(views[2] == shown.buttons@[2]@);
}

/// A selection is resolved to the first provider with its id, and there to the first model with
/// its id; where either is missing, it is not resolved.
pub proof fn law_resolved_selection<'a>(
    selection: &LanguageModelSelection,
    registry: &'a [ProviderModels],
    configured: Option<ConfiguredModel<'a>>,
    provider: int,
    model: int,
)
    requires
        call_ensures(
            compaction_settings::resolve_configured_model,
            (selection, registry),
            configured,
        ),
        0 <= provider < registry@.len(),
        registry@[provider].id@ == selection.provider@,
        forall|i: int| 0 <= i < provider ==> (#[trigger] registry@[i]).id@ != selection.provider@,
    ensures
        configured matches Some(configured) ==> *configured.provider == registry@[provider],
        0 <= model < registry@[provider].models@.len() && registry@[provider].models@[model].id@
            == selection.model@ && (forall|i: int|
            0 <= i < model ==> (#[trigger] registry@[provider].models@[i]).id@ != selection.model@)
            ==> configured is Some && *configured->0.model == registry@[provider].models@[model],
        (forall|i: int|
            0 <= i < registry@[provider].models@.len() ==> (
            #[trigger] registry@[provider].models@[i]).id@ != selection.model@)
            ==> configured is None,
{
    lemma_first_provider(registry@, selection.provider@, provider);
    let models = registry@[provider].models@;
    if 0 <= model < models.len() && models[model].id@ == selection.model@ && (forall|i: int|
        0 <= i < model ==> (#[trigger] models[i]).id@ != selection.model@) {
        lemma_first_model(models, selection.model@, model);
    }
    if forall|i: int| 0 <= i < models.len() ==> (#[trigger] models[i]).id@ != selection.model@ {
        lemma_no_model(models, selection.model@);
    }
}

/// A selection of a provider that is not there is not resolved.
pub proof fn law_unknown_provider<'a>(
    selection: &LanguageModelSelection,
    registry: &'a [ProviderModels],
    configured: Option<ConfiguredModel<'a>>,
)
    requires
        call_ensures(
            compaction_settings::resolve_configured_model,
            (selection, registry),
            configured,
        ),
        forall|i: int|
            0 <= i < registry@.len() ==> (#[trigger] registry@[i]).id@ != selection.provider@,
    ensures
        configured is None,
{
    lemma_no_provider(registry@, selection.provider@);
}

proof fn lemma_first_provider(registry: Seq<ProviderModels>, id: Seq<char>, index: int)
    requires
        0 <= index < registry.len(),
        registry[index].id@ == id,
        forall|i: int| 0 <= i < index ==> (#[trigger] registry[i]).id@ != id,
    ensures
        compaction_settings::provider_with_id(registry, id) == Some(registry[index]),
    decreases registry.len(),
{
    if index > 0 {
        let rest = registry.drop_first();
        assert(registry[0].id@ != id);
        assert forall|i: int| 0 <= i < index - 1 implies (#[trigger] rest[i]).id@ != id by {
            assert(rest[i] == registry[i + 1]);
        }
        lemma_first_provider(rest, id, index - 1);
    }
}

proof fn lemma_no_provider(registry: Seq<ProviderModels>, id: Seq<char>)
    requires
        forall|i: int| 0 <= i < registry.len() ==> (#[trigger] registry[i]).id@ != id,
    ensures
        compaction_settings::provider_with_id(registry, id) is None,
    decreases registry.len(),
{
    if registry.len() > 0 {
        let rest = registry.drop_first();
        assert(registry[0].id@ != id);
        assert forall|i: int| 0 <= i < rest.len() implies (#[trigger] rest[i]).id@ != id by {
            assert(rest[i] == registry[i + 1]);
        }
        lemma_no_provider(rest, id);
    }
}

proof fn lemma_first_model(models: Seq<ModelInfo>, id: Seq<char>, index: int)
    requires
        0 <= index < models.len(),
        models[index].id@ == id,
        forall|i: int| 0 <= i < index ==> (#[trigger] models[i]).id@ != id,
    ensures
        compaction_settings::model_with_id(models, id) == Some(models[index]),
    decreases models.len(),
{
    if index > 0 {
        let rest = models.drop_first();
        assert(models[0].id@ != id);
        assert forall|i: int| 0 <= i < index - 1 implies (#[trigger] rest[i]).id@ != id by {
            assert(rest[i] == models[i + 1]);
        }
        lemma_first_model(rest, id, index - 1);
    }
}

proof fn lemma_no_model(models: Seq<ModelInfo>, id: Seq<char>)
    requires
        forall|i: int| 0 <= i < models.len() ==> (#[trigger] models[i]).id@ != id,
    ensures
        compaction_settings::model_with_id(models, id) is None,
    decreases models.len(),
{
    if models.len() > 0 {
        let rest = models.drop_first();
        assert(models[0].id@ != id);
        assert forall|i: int| 0 <= i < rest.len() implies (#[trigger] rest[i]).id@ != id by {
            assert(rest[i] == models[i + 1]);
        }
        lemma_no_model(rest, id);
    }
}

/// Picking a model selects it under its own names, with thinking where it supports that and with
/// its default effort.
pub proof fn law_picked_selection(model: &ModelInfo, selection: LanguageModelSelection)
    requires
        call_ensures(compaction_settings::selection_of, (model,), selection),
    ensures
        selection.provider@ == model.provider_id@,
        selection.model@ == model.id@,
        selection.enable_thinking == model.supports_thinking,
        selection.effort is Some <==> model.default_effort_level is Some,
        selection.effort matches Some(effort) ==> effort@ == model.default_effort_level->0@,
        selection.speed is None,
{
    dialog_laws::law_selection_names_the_model(selection, *model);
}

/// The kinds of API, and the errors, under the words in which a user reads them.
pub proof fn law_words(
    provider: &LlmCompatibleProvider,
    name: &'static str,
    url: &'static str,
    error: &ProviderError,
    message: &'static str,
    compaction: &CompactionError,
    told: String,
)
    requires
        call_ensures(LlmCompatibleProvider::name, (provider,), name),
        call_ensures(LlmCompatibleProvider::api_url, (provider,), url),
        call_ensures(ProviderError::message, (error,), message),
        call_ensures(CompactionError::message, (compaction,), told),
    ensures
        name@ == "OpenAI"@,
        url@ == "https://api.openai.com/v1"@,
        error is ProviderNameEmpty ==> message@ == "Provider Name cannot be empty"@,
        error is ApiUrlEmpty ==> message@ == "API URL cannot be empty"@,
        error is ApiKeyEmpty ==> message@ == "API Key cannot be empty"@,
        error is ModelNameEmpty ==> message@ == "Model Name cannot be empty"@,
        error is MaxCompletionTokensNotANumber ==> message@
            == "Max Completion Tokens must be a number"@,
        error is MaxOutputTokensNotANumber ==> message@ == "Max Output Tokens must be a number"@,
        error is MaxTokensNotANumber ==> message@ == "Max Tokens must be a number"@,
        error is ModelNamesNotUnique ==> message@ == "Model Names must be unique"@,
        error is ProviderNameTaken ==> message@
            == "Provider Name is already taken by another provider"@,
        error is ApiKeyNotWritten ==> message@ == "Failed to write API key to keychain"@,
        compaction is NoContent ==> told@ == "No content to compact"@,
        compaction matches CompactionError::InvalidRange { start, end } ==> told@
            == "Invalid message range: "@ + text::decimal(*start as nat) + ".."@ + text::decimal(
            *end as nat,
        ),
{
}

/// The words by which the tool and the keys of providers are known, and the titles of a tool call
/// while it runs and once it has run.
pub proof fn law_names()
    ensures
        vision::NAME@ == "vision"@,
        vision::ANALYZING_TITLE@ == "Analyzing image..."@,
        vision::ANALYZED_TITLE@ == "Image analyzed"@,
        provider::CREDENTIALS_USERNAME@ == "Bearer"@,
{
}

/// The part of the form for a model is read field by field, and refused for the first field that
/// is wrong.
pub proof fn law_parsed_input(input: &ModelInput, parsed: Result<AvailableModel, ProviderError>)
    requires
        call_ensures(ModelInput::parse, (input,), parsed),
    ensures
        ({
            let completion = exists|count: u64|
                provider_laws::is_count(input.max_completion_tokens.text@, count);
            let output = exists|count: u64|
                provider_laws::is_count(input.max_output_tokens.text@, count);
            let tokens = exists|count: u64|
                provider_laws::is_count(input.max_tokens.text@, count);
            match parsed {
                Ok(model) => {
                    &&& model.name@ == input.name.text@ && model.name@.len() > 0
                    &&& model.display_name is None
                    &&& model.max_completion_tokens matches Some(count) && provider_laws::is_count(
                        input.max_completion_tokens.text@,
                        count,
                    )
                    &&& model.max_output_tokens matches Some(count) && provider_laws::is_count(
                        input.max_output_tokens.text@,
                        count,
                    )
                    &&& provider_laws::is_count(input.max_tokens.text@, model.max_tokens)
                    &&& model.capabilities.tools
                        <==> input.capabilities.supports_tools is Selected
                    &&& model.capabilities.images
                        <==> input.capabilities.supports_images is Selected
                    &&& model.capabilities.parallel_tool_calls
                        <==> input.capabilities.supports_parallel_tool_calls is Selected
                    &&& model.capabilities.prompt_cache_key
                        <==> input.capabilities.supports_prompt_cache_key is Selected
                    &&& model.capabilities.chat_completions
                        <==> input.capabilities.supports_chat_completions is Selected
                    &&& !model.capabilities.interleaved_reasoning
                },
                Err(ProviderError::ModelNameEmpty) => input.name.text@.len() == 0,
                Err(ProviderError::MaxCompletionTokensNotANumber) => input.name.text@.len() > 0
                    && !completion,
                Err(ProviderError::MaxOutputTokensNotANumber) => input.name.text@.len() > 0
                    && completion && !output,
                Err(ProviderError::MaxTokensNotANumber) => input.name.text@.len() > 0 && completion
                    && output && !tokens,
                Err(_) => false,
            }
        }),
{
    let view = input@;
    provider_laws::law_model_is_read_field_by_field(view);
    provider_laws::law_model_is_refused_for_its_first_fault(view);
    assert(view.name.text == input.name.text@);
    assert(view.max_completion_tokens.text == input.max_completion_tokens.text@);
    assert(view.max_output_tokens.text == input.max_output_tokens.text@);
    assert(view.max_tokens.text == input.max_tokens.text@);
    if let Ok(model) = parsed {
        assert(model@.name == model.name@);
        assert(model@.display_name is None);
        assert(model@.capabilities == model.capabilities);
    }
}

/// The fields of a model follow each other in the tab order, behind those of the models before it.
pub proof fn law_tab_order(model_index: usize, input: ModelInput, next: ModelInput)
    requires
        call_ensures(ModelInput::new, (model_index,), input),
        model_index < usize::MAX,
        call_ensures(ModelInput::new, ((model_index + 1) as usize,), next),
    ensures
        input.name.tab_index is Some && input.max_completion_tokens.tab_index is Some
            && input.max_output_tokens.tab_index is Some && input.max_tokens.tab_index is Some
            && next.name.tab_index is Some,
        model_index == 0 ==> input.name.tab_index->0 == 4,
        input.max_completion_tokens.tab_index->0 == input.name.tab_index->0 + 1,
        input.max_output_tokens.tab_index->0 == input.max_completion_tokens.tab_index->0 + 1,
        input.max_tokens.tab_index->0 == input.max_output_tokens.tab_index->0 + 1,
        next.name.tab_index->0 == input.max_tokens.tab_index->0 + 1,
{
    let view = input@;
    assert(view.name.tab_index is Some && view.max_completion_tokens.tab_index is Some);
    assert(view.max_output_tokens.tab_index is Some && view.max_tokens.tab_index is Some);
    assert(next@.name.tab_index is Some);
}

/// The part of the form for an existing model shows what is known of it: its name, its limits and
/// its capabilities.
pub proof fn law_existing_model_is_shown(
    model_index: usize,
    model: &AvailableModel,
    input: ModelInput,
)
    requires
        call_ensures(ModelInput::from_existing, (model_index, model), input),
    ensures
        input.name.text@ == model.name@,
        model.max_completion_tokens matches Some(count) ==> provider_laws::is_count(
            input.max_completion_tokens.text@,
            count,
        ),
        model.max_completion_tokens is None ==> input.max_completion_tokens.text@.len() == 0,
        model.max_output_tokens matches Some(count) ==> provider_laws::is_count(
            input.max_output_tokens.text@,
            count,
        ),
        model.max_output_tokens is None ==> input.max_output_tokens.text@.len() == 0,
        provider_laws::is_count(input.max_tokens.text@, model.max_tokens),
        input.capabilities.supports_tools is Selected <==> model.capabilities.tools,
        input.capabilities.supports_images is Selected <==> model.capabilities.images,
        input.capabilities.supports_parallel_tool_calls is Selected
            <==> model.capabilities.parallel_tool_calls,
        input.capabilities.supports_prompt_cache_key is Selected
            <==> model.capabilities.prompt_cache_key,
        input.capabilities.supports_chat_completions is Selected
            <==> model.capabilities.chat_completions,
{
    let view = input@;
    assert(view.name.text == input.name.text@);
    assert(view.max_completion_tokens.text == input.max_completion_tokens.text@);
    assert(view.max_output_tokens.text == input.max_output_tokens.text@);
    assert(view.max_tokens.text == input.max_tokens.text@);
    if let Some(count) = model.max_completion_tokens {
        text::law_natural_of_decimal(count as nat);
    }
    if let Some(count) = model.max_output_tokens {
        text::law_natural_of_decimal(count as nat);
    }
    text::law_natural_of_decimal(model.max_tokens as nat);
}

/// Adding a model puts one behind the others, and removing one takes out that one; the rest of the
/// form stays.
pub proof fn law_models_of_the_form(
    input: &mut AddLlmProviderInput,
    other: &mut AddLlmProviderInput,
    index: usize,
)
    requires
        call_ensures(AddLlmProviderInput::add_model, (input,), ()),
        call_ensures(AddLlmProviderInput::remove_model, (other, index), ()),
        index < old(other).models@.len(),
    ensures
        final(input)@.models.len() == old(input)@.models.len() + 1,
        final(input)@.models.drop_last() == old(input)@.models,
        final(input)@.models.last().name.text.len() == 0,
        final(input)@.provider_name == old(input)@.provider_name,
        final(input)@.api_url == old(input)@.api_url,
        final(input)@.api_key == old(input)@.api_key,
        final(other)@.models == old(other)@.models.take(index as int) + old(other)@.models.skip(
            index + 1,
        ),
        final(other)@.provider_name == old(other)@.provider_name,
        final(other)@.api_url == old(other)@.api_url,
        final(other)@.api_key == old(other)@.api_key,
{
    assert(final(input)@.models.drop_last() =~= old(input)@.models);
    let before = old(other)@.models;
    assert(before.len() == old(other).models@.len());
    assert(final(other)@.models =~= before.take(index as int) + before.skip(index + 1));
}

/// A dialog for a configured provider opens to change it, with its name, its address and its
/// models in the form; any other opens to add one, with an empty form.
pub proof fn law_provider_dialog(
    kind: LlmCompatibleProvider,
    provider_id: String,
    providers: &ProviderTable,
    added: AddLlmProviderModal,
    edited: AddLlmProviderModal,
    made: AddLlmProviderModal,
    made_to_add: AddLlmProviderModal,
)
    requires
        call_ensures(AddLlmProviderModal::toggle, (kind,), added),
        call_ensures(AddLlmProviderModal::toggle_edit, (provider_id, providers), edited),
        call_ensures(
            AddLlmProviderModal::new,
            (kind, Mode::Edit { provider_id }, providers),
            made,
        ),
        call_ensures(AddLlmProviderModal::new, (kind, Mode::Add, providers), made_to_add),
    ensures
        added.mode is Add && made_to_add.mode is Add,
        added.provider == kind && made.provider == kind && made_to_add.provider == kind,
        made_to_add.input@ == added.input@ && made_to_add.last_error is None,
        added.last_error is None && edited.last_error is None && made.last_error is None,
        added.input@.provider_name.text.len() == 0,
        added.input@.api_url.text.len() == 0,
        added.input@.api_key.text.len() == 0 && added.input@.api_key.masked,
        added.input@.models.len() == 1,
        edited.input@.api_key.text.len() == 0 && edited.input@.api_key.masked,
        providers@.contains_key(provider_id@) ==> {
            let content = providers@[provider_id@];
            &&& edited.mode == (Mode::Edit { provider_id }) && made.mode == edited.mode
            &&& edited.input@.provider_name.text == provider_id@
            &&& made.input@.provider_name.text == provider_id@
            &&& edited.input@.api_url.text == content.api_url@
            &&& made.input@.api_url.text == content.api_url@
            &&& content.available_models@.len() > 0 ==> edited.input@.models.len()
                == content.available_models@.len()
        },
        !providers@.contains_key(provider_id@) ==> {
            &&& edited.mode is Add && made.mode is Add
            &&& edited.input@.provider_name.text.len() == 0
            &&& edited.input@.api_url.text.len() == 0
        },
{
    let mode = Mode::Edit { provider_id };
    provider_laws::law_dialog_opens_with_the_provider(kind, Mode::Add, providers@);
    provider_laws::law_dialog_opens_with_the_provider(kind, mode, providers@);
    provider_laws::law_dialog_opens_with_the_provider(
        LlmCompatibleProvider::OpenAi,
        mode,
        providers@,
    );
}

/// The forms of a provider, as they are made, hold what they are made from.
pub proof fn law_provider_forms(
    kind: LlmCompatibleProvider,
    blank: AddLlmProviderInput,
    provider_id: &str,
    api_url: &str,
    models: &Vec<AvailableModel>,
    input: AddLlmProviderInput,
    index: int,
)
    requires
        call_ensures(AddLlmProviderInput::new, (kind,), blank),
        call_ensures(AddLlmProviderInput::new_for_edit, (provider_id, api_url, models), input),
    ensures
        blank.provider_name.text@.len() == 0,
        blank.api_url.text@.len() == 0,
        blank.api_key.text@.len() == 0,
        blank.models@.len() == 1,
        input.provider_name.text@ == provider_id@,
        input.api_url.text@ == api_url@,
        input.api_key.text@.len() == 0,
        models@.len() == 0 ==> input.models@.len() == 1 && input.models@[0].name.text@.len() == 0,
        models@.len() > 0 ==> input.models@.len() == models@.len(),
        0 <= index < models@.len() ==> input.models@[index].name.text@ == models@[index].name@
            && provider_laws::is_count(
            input.models@[index].max_tokens.text@,
            models@[index].max_tokens,
        ),
{
    let views = settings::model_views(models@);
    assert(blank@.provider_name.text == blank.provider_name.text@);
    assert(blank@.api_url.text == blank.api_url.text@);
    assert(blank@.api_key.text == blank.api_key.text@);
    assert(blank@.models.len() == blank.models@.len());
    assert(input@.provider_name.text == input.provider_name.text@);
    assert(input@.api_url.text == input.api_url.text@);
    assert(input@.api_key.text == input.api_key.text@);
    assert(input@.models.len() == input.models@.len());
    if models@.len() == 0 {
        assert(input@.models[0] == input.models@[0]@);
    }
    if 0 <= index < models@.len() {
        text::law_natural_of_decimal(models@[index].max_tokens as nat);
        assert(views[index] == models@[index]@);
        assert(input@.models[index] == input.models@[index]@);
    }
}

/// What a dialog plans on confirmation is what saving its form in its mode takes.
pub proof fn law_confirmed(
    modal: &AddLlmProviderModal,
    registry: &[RegisteredProvider],
    providers: &ProviderTable,
    plan: Result<SavePlan, ProviderError>,
    saved: Result<SavePlan, ProviderError>,
)
    requires
        call_ensures(AddLlmProviderModal::confirm, (modal, registry, providers), plan),
        call_ensures(
            provider::save_provider_to_settings,
            (&modal.input, &modal.mode, registry, providers),
            saved,
        ),
    ensures
        plan is Ok <==> saved is Ok,
        plan is Err ==> plan->Err_0 == saved->Err_0,
        plan is Ok ==> plan->Ok_0@ == saved->Ok_0@,
        plan matches Ok(plan) ==> {
            let input = modal.input;
            &&& plan.write_credentials is Some <==> input.api_key.text@.len() > 0
            &&& plan.write_credentials matches Some(credentials) ==> credentials.url@
                == input.api_url.text@ && credentials.password@ == input.api_key.text@
            &&& plan.update.provider_name@ == input.provider_name.text@
            &&& plan.update.content.api_url@ == input.api_url.text@
            &&& modal.mode is Add ==> plan.update.renamed_from is None
                && plan.delete_credentials is None
            &&& modal.mode matches Mode::Edit { provider_id } ==> {
                &&& plan.update.renamed_from is Some <==> provider_id@
                    != input.provider_name.text@
                &&& plan.delete_credentials is Some <==> providers@.contains_key(provider_id@)
                    && providers@[provider_id@].api_url@ != input.api_url.text@
            }
        },
        plan matches Err(error) ==> error != ProviderError::ApiKeyNotWritten,
{
    let edited = modal.mode.edited();
    provider_laws::law_form_is_refused_for_its_first_fault(
        modal.input@,
        edited,
        registry@,
        providers@,
    );
    provider_laws::law_model_faults(modal.input@.models);
    if let Ok(plan) = plan {
        provider_laws::law_plan_saves_the_form(modal.input@, edited, registry@, providers@);
        provider_laws::law_plan_moves_the_provider(modal.input@, edited, registry@, providers@);
        assert(plan@.update.content == plan.update.content@);
    }
}

/// The dialog for a provider shows every field, and every model in order, with a check box for
/// each capability and a button to remove it unless it is the only one.
pub proof fn law_provider_dialog_is_shown<'a>(
    modal: &'a AddLlmProviderModal,
    shown: ProviderForm<'a>,
    section: ModelSection<'a>,
    index: usize,
    part: ModelForm<'a>,
    capability: Capability,
)
    requires
        call_ensures(AddLlmProviderModal::render, (modal,), shown),
        call_ensures(AddLlmProviderModal::render_model_section, (modal,), section),
        call_ensures(AddLlmProviderModal::render_model, (modal, index), part),
        modal.input.models@.len() <= usize::MAX,
    ensures
        *shown.provider_name == modal.input.provider_name,
        *shown.api_url == modal.input.api_url,
        *shown.api_key == modal.input.api_key,
        shown.error is Some <==> modal.last_error is Some,
        shown.error matches Some(error) ==> error@ == modal.last_error->0.text(),
        shown.section.models@.len() == modal.input.models@.len(),
        section.models@.len() == modal.input.models@.len(),
        shown.buttons@.len() == 2,
        shown.buttons@[0].action == ProviderAction::Cancel,
        shown.buttons@[1].action == ProviderAction::Confirm,
        shown.buttons@[0].label@ == "Cancel"@,
        shown.buttons@[1].label@ == "Save Provider"@,
        shown.headline@ == if modal.mode is Add {
            "Add LLM Provider"@
        } else {
            "Edit LLM Provider"@
        },
        shown.description@ == "This provider will use an OpenAI compatible API."@,
        section.heading@ == "Models"@,
        section.add.action == ProviderAction::AddModel,
        section.add.label@ == "Add Model"@,
        index < modal.input.models@.len() ==> {
            let model = modal.input.models@[index as int];
            &&& *part.name == model.name
            &&& *part.max_completion_tokens == model.max_completion_tokens
            &&& *part.max_output_tokens == model.max_output_tokens
            &&& *part.max_tokens == model.max_tokens
            &&& part.remove is Some <==> modal.input.models@.len() > 1
            &&& part.remove matches Some(button) ==> button.action == (
            ProviderAction::RemoveModel { index })
            &&& part.checkboxes@.len() == 5
            &&& forall|i: int|
                0 <= i < part.checkboxes@.len() && (#[trigger] part.checkboxes@[i]).capability
                    == capability ==> part.checkboxes@[i].state
                    == provider_modal::capability_state(model.capabilities, capability)
        },
{
    let model = modal.input.models@[index as int];
    let boxes = provider_modal::checkbox_views(part.checkboxes@);
    let views = form::button_views(shown.buttons@);
    dialog_laws::law_provider_is_shown(shown, *modal);
    assert(views[0] == shown.buttons@[0]@);
    assert(views[1] == shown.buttons@[1]@);
    assert(section.add@.action == section.add.action);
    provider_laws::law_boxes_show_capabilities(model.capabilities, index, capability);
    assert(boxes.len() == part.checkboxes@.len());
    if let Some(button) = part.remove {
        assert(button@.action == button.action);
    }
    assert forall|i: int|
        0 <= i < part.checkboxes@.len() && (#[trigger] part.checkboxes@[i]).capability
            == capability implies part.checkboxes@[i].state == provider_modal::capability_state(
        model.capabilities,
        capability,
    ) by {
        assert(boxes[i] == part.checkboxes@[i]@);
    }
}

/// The dialog for rules opens for a worktree, with its entries; without a worktree it does not
/// open.
pub proof fn law_rules_dialog(
    first: Option<VisibleWorktree>,
    opened: Option<RulesDirectorySettingsModal>,
    worktree: VisibleWorktree,
    made: RulesDirectorySettingsModal,
)
    requires
        call_ensures(RulesDirectorySettingsModal::toggle, (first,), opened),
        call_ensures(RulesDirectorySettingsModal::new, (worktree,), made),
    ensures
        opened is Some <==> first is Some,
        opened matches Some(opened) ==> opened.entries == first->0.rules_directories
            && opened.worktree_abs_path == first->0.abs_path && opened.worktree_id == first->0.id,
        made.entries == worktree.rules_directories,
        made.worktree_abs_path == worktree.abs_path,
        made.worktree_id == worktree.id,
{
}

/// Changed settings bring their entries into the dialog, which says whether that made a
/// difference.
pub proof fn law_changed_settings(
    modal: &mut RulesDirectorySettingsModal,
    new_entries: Vec<RulesDirectoryEntry>,
    changed: bool,
    index: int,
)
    requires
        call_ensures(RulesDirectorySettingsModal::settings_changed, (modal, new_entries), changed),
    ensures
        final(modal).entries@.len() == new_entries@.len(),
        old(modal).entries@.len() != new_entries@.len() ==> changed,
        0 <= index < new_entries@.len() ==> {
            &&& final(modal).entries@[index].path@ == new_entries@[index].path@
            &&& final(modal).entries@[index].enabled == new_entries@[index].enabled
            &&& old(modal).entries@.len() == new_entries@.len() && (old(
                modal,
            ).entries@[index].path@ != new_entries@[index].path@ || old(
                modal,
            ).entries@[index].enabled != new_entries@[index].enabled) ==> changed
        },
        old(modal).entries == new_entries ==> !changed,
        final(modal).worktree_abs_path == old(modal).worktree_abs_path,
        final(modal).worktree_id == old(modal).worktree_id,
{
    let before = rules_settings::entry_views(old(modal).entries@);
    let given = rules_settings::entry_views(new_entries@);
    let after = rules_settings::entry_views(final(modal).entries@);
    assert(before.len() == old(modal).entries@.len());
    assert(given.len() == new_entries@.len());
    assert(after.len() == final(modal).entries@.len());
    if 0 <= index < given.len() {
        assert(given[index] == new_entries@[index]@);
        assert(after[index] == final(modal).entries@[index]@);
        if index < before.len() {
            assert(before[index] == old(modal).entries@[index]@);
        }
    }
}

/// The dialog for rules has one line for every entry, which shows its path, whether it is on, and
/// how to switch and to remove it; without entries it says so.
pub proof fn law_rules_dialog_is_shown<'a>(
    modal: &'a RulesDirectorySettingsModal,
    shown: RulesForm<'a>,
    index: usize,
)
    requires
        call_ensures(RulesDirectorySettingsModal::render, (modal,), shown),
    ensures
        modal.entries@.len() == 0 ==> (shown.content matches RulesContent::Empty { note, hint }
            && note@ == "No rule directories configured."@ && hint@
            == "Right-click a folder in the Project Panel to add."@),
        modal.entries@.len() > 0 ==> (shown.content matches RulesContent::Entries(rows)
            && rows@.len() == modal.entries@.len()),
        index < modal.entries@.len() ==> {
            let off = modal.entries@[index as int].enabled == Some(false);
            let row = shown.content->Entries_0@[index as int];
            &&& row.path@ == modal.entries@[index as int].path@
            &&& row.muted == off
            &&& row.switch_state is Selected <==> !off
            &&& row.switch_id@ == "toggle-"@ + text::decimal(index as nat)
            &&& row.remove_id@ == "remove-"@ + text::decimal(index as nat)
            &&& row.switch_action == (RulesAction::ToggleEntry { index })
            &&& row.remove_action == (RulesAction::RemoveEntry { index })
        },
        shown.close.action == RulesAction::Cancel,
        shown.close.label@ == "Close"@,
        shown.headline@ == "Rule Directories"@,
{
    dialog_laws::law_rules_dialog_shows_entries(shown, *modal);
    assert(shown.close@.label == shown.close.label@);
    if let RulesContent::Entries(rows) = shown.content {
        if index < modal.entries@.len() {
            assert(rules_settings::shows_entry(
                rows@[index as int],
                modal.entries@[index as int],
                index,
            ));
        }
    }
}

/// Entries are saved in settings that are an object: under their key, or by taking it out where
/// there are none; what is under other keys stays.
pub proof fn law_entries_are_saved(
    entries: &Vec<RulesDirectoryEntry>,
    entries_json: Json,
    settings: &mut Json,
    saved: bool,
    key: Seq<char>,
)
    requires
        call_ensures(rules_settings::save_to_settings, (entries, entries_json, settings), saved),
        json::well_formed(old(settings)@),
    ensures
        saved <==> old(settings)@ is Object,
        !saved ==> final(settings)@ == old(settings)@,
        saved && entries@.len() == 0 ==> json::member(
            final(settings)@,
            "rules_directories"@,
        ) is None,
        saved && entries@.len() > 0 ==> json::member(final(settings)@, "rules_directories"@)
            == Some(entries_json@),
        key != "rules_directories"@ ==> json::member(final(settings)@, key) == json::member(
            old(settings)@,
            key,
        ),
{
    if old(settings)@ is Object {
        rules_settings::law_saved_entries_are_read_back(
            old(settings)@,
            entries@.len() == 0,
            entries_json@,
            key,
        );
    }
}

/// The title of a tool call shows the source of the image, cut behind its first 57 bytes where it
/// takes more than 60.
pub proof fn law_title(input: Option<&VisionToolInput>, title: String)
    requires
        call_ensures(vision::initial_title, (input,), title),
    ensures
        input is None ==> title@ == "Analyze image"@,
        input matches Some(input) ==> {
            let source = input.image_source@;
            &&& text::utf8_len(source) <= 60 ==> title@ == "Analyze image: "@ + source
            &&& text::utf8_len(source) > 60 && is_char_boundary(encode_utf8(source), 57)
                ==> exists|short: Seq<char>|
                title@ == "Analyze image: "@ + (short + "..."@) && #[trigger] encode_utf8(short)
                    == encode_utf8(source).take(57)
        },
{
    if let Some(input) = input {
        let source = input.image_source@;
        if text::utf8_len(source) > 60 && is_char_boundary(encode_utf8(source), 57) {
            let short = text::prefix_within(source, 57);
            text::lemma_prefix_at_boundary(source, 57);
            assert(title@ == "Analyze image: "@ + (short + "..."@));
        }
    }
}

/// A tool hands its answer, or its error, to the model as a text.
pub proof fn law_tool_output(
    output: vision::VisionToolOutput,
    content: LanguageModelToolResultContent,
)
    requires
        call_ensures(
            <LanguageModelToolResultContent as From<vision::VisionToolOutput>>::from,
            (output,),
            content,
        ),
    ensures
        content matches LanguageModelToolResultContent::Text(text) && match output {
            vision::VisionToolOutput::Success { description } => text == description,
            vision::VisionToolOutput::Error { error } => text == error,
        },
{
}

/// What is made empty is empty, and a tool keeps the client it is made with.
pub proof fn law_made_empty(
    stream: SummaryStream,
    reply: VisionReply,
    table: ProviderTable,
    usage: RequestTokenUsage,
    agent: AgentSettingsContent,
    models: SubagentModels,
    settings: SettingsContent,
    section: CompactionSettingsContent,
    client: u64,
    tool: VisionTool<u64>,
)
    requires
        call_ensures(SummaryStream::new, (), stream),
        call_ensures(VisionReply::new, (), reply),
        call_ensures(ProviderTable::new, (), table),
        call_ensures(RequestTokenUsage::new, (), usage),
        call_ensures(AgentSettingsContent::new, (), agent),
        call_ensures(SubagentModels::new, (), models),
        call_ensures(SettingsContent::new, (), settings),
        call_ensures(CompactionSettingsContent::new, (), section),
        call_ensures(VisionTool::new, (client,), tool),
    ensures
        stream.text@.len() == 0,
        reply@.content.len() == 0 && reply@.thinking.len() == 0,
        table@.dom().is_empty(),
        usage@.dom().is_empty(),
        agent.compaction is None && agent.thread_summary_model is None
            && agent.subagent_models is None,
        models.fast is None && models.standard is None && models.powerful is None,
        settings.agent is None && settings.language_models is None,
        section.enabled is None && section.deep_omit_threshold_tokens is None
            && section.summary_threshold_tokens is None && section.min_content_chars is None,
        tool.http_client == client,
{
    assert(table@.dom() =~= Set::empty());
    assert(usage@.dom() =~= Set::empty());
}

/// The defaults: a model that can use tools and chat completions, and the thresholds.
pub proof fn law_defaults(capabilities: ModelCapabilities, config: CompactionConfig)
    requires
        call_ensures(<ModelCapabilities as Default>::default, (), capabilities),
        call_ensures(<CompactionConfig as Default>::default, (), config),
    ensures
        capabilities.tools && capabilities.chat_completions,
        !capabilities.images && !capabilities.parallel_tool_calls
            && !capabilities.prompt_cache_key && !capabilities.interleaved_reasoning,
        config.deep_omit_threshold_tokens == 80_000,
        config.summary_threshold_tokens == 80_000,
        config.min_content_chars == 60_000,
{
}

/// What is put into a table under a name is found under it, and no longer once it was taken out;
/// what is under other names stays.
pub proof fn law_table_of_providers(
    filled: &mut ProviderTable,
    name: String,
    content: OpenAiCompatibleSettingsContent,
    emptied: &mut ProviderTable,
    removed: &str,
    table: &ProviderTable,
    looked_up: &str,
    found: Option<&OpenAiCompatibleSettingsContent>,
)
    requires
        call_ensures(ProviderTable::insert, (filled, name, content), ()),
        call_ensures(ProviderTable::remove, (emptied, removed), ()),
        call_ensures(ProviderTable::get, (table, looked_up), found),
    ensures
        *table == *final(filled) && looked_up@ == name@ ==> found is Some && *found->0 == content,
        *table == *final(filled) && looked_up@ != name@ ==> (found is Some <==> old(
            filled,
        )@.contains_key(looked_up@)),
        *table == *final(emptied) && looked_up@ == removed@ ==> found is None,
        *table == *final(emptied) && looked_up@ != removed@ ==> (found is Some <==> old(
            emptied,
        )@.contains_key(looked_up@)),
        found matches Some(found) ==> *found == table@[looked_up@],
{
}

/// What is put into a table of usage under an id is found under it, and no longer once it was
/// taken out; what is under other ids stays.
pub proof fn law_table_of_usage(
    filled: &mut RequestTokenUsage,
    id: UserMessageId,
    usage: TokenUsage,
    emptied: &mut RequestTokenUsage,
    removed: &UserMessageId,
    table: &RequestTokenUsage,
    looked_up: &UserMessageId,
    found: Option<TokenUsage>,
)
    requires
        call_ensures(RequestTokenUsage::insert, (filled, id, usage), ()),
        call_ensures(RequestTokenUsage::remove, (emptied, removed), ()),
        call_ensures(RequestTokenUsage::get, (table, looked_up), found),
    ensures
        *table == *final(filled) && looked_up.0@ == id.0@ ==> found == Some(usage),
        *table == *final(filled) && looked_up.0@ != id.0@ ==> (found is Some <==> old(
            filled,
        )@.contains_key(looked_up.0@)),
        *table == *final(emptied) && looked_up.0@ == removed.0@ ==> found is None,
        *table == *final(emptied) && looked_up.0@ != removed.0@ ==> (found is Some <==> old(
            emptied,
        )@.contains_key(looked_up.0@)),
        found matches Some(found) ==> found == table@[looked_up.0@],
{
}

} // verus!
