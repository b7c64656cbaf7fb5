//! What holds of every dialog: what it shows of its state, and what becomes of what is entered.

use crate::compact_modal;
use crate::compact_modal::{
    CompactAction, CompactContent, CompactForm, CompactMessagesModal, CompactView,
    MessageSummary, PhaseView, ReviewBody, RowView,
};
use crate::compaction_settings;
use crate::compaction_settings::{
    CompactionSettingsModal, ModelInfo, ModelPurpose, SettingsAction, SettingsForm,
    SettingsModalView,
};
use crate::form::{ButtonStyle, FieldView, MenuAction, ToggleState};
use crate::provider::{Mode, ProviderError};
use crate::provider_modal;
use crate::provider_modal::{AddLlmProviderModal, ProviderAction, ProviderForm};
use crate::rules_settings;
use crate::rules_settings::{
    EntryView, RulesAction, RulesContent, RulesDirectorySettingsModal, RulesForm,
};
use crate::settings;
use crate::settings::{
    AgentSettingsContent, LanguageModelSelection, SettingsContent,
};
use crate::text;
use crate::zones;
use crate::zones::{CompactionConfig, CompactionSettingsContent};
use vstd::prelude::*;

verus! {

/// The dialog for rules has one line for every entry, in order, and says that there are none where
/// there are none. A line shows the path of its entry; the path is muted and its switch is off
/// exactly where the entry is switched off; its buttons switch and remove that very entry.
pub proof fn law_rules_dialog_shows_entries(
    shown: RulesForm<'_>,
    modal: RulesDirectorySettingsModal,
)
    requires
        rules_settings::shows_modal(shown, modal),
    ensures
        match shown.content {
            RulesContent::Empty { .. } => modal.entries@.len() == 0,
            RulesContent::Entries(rows) => rows@.len() == modal.entries@.len() && forall|i: int|
                0 <= i < rows@.len() ==> {
                    let off = modal.entries@[i].enabled == Some(false);
                    &&& (#[trigger] rows@[i]).path@ == modal.entries@[i].path@
                    &&& rows@[i].muted == off
                    &&& rows@[i].switch_state == if off {
                        ToggleState::Unselected
                    } else {
                        ToggleState::Selected
                    }
                    &&& rows@[i].switch_action == RulesAction::ToggleEntry { index: i as usize }
                    &&& rows@[i].remove_action == RulesAction::RemoveEntry { index: i as usize }
                },
        },
        shown.close.action == RulesAction::Cancel,
        shown.close.key == Some(MenuAction::Cancel),
        !shown.close.disabled,
{
    assert(shown.close@.action == shown.close.action);
    if let RulesContent::Entries(rows) = shown.content {
        assert forall|i: int| 0 <= i < rows@.len() implies {
            let off = modal.entries@[i].enabled == Some(false);
            &&& (#[trigger] rows@[i]).path@ == modal.entries@[i].path@
            &&& rows@[i].muted == off
            &&& rows@[i].switch_state == if off {
                ToggleState::Unselected
            } else {
                ToggleState::Selected
            }
            &&& rows@[i].switch_action == RulesAction::ToggleEntry { index: i as usize }
            &&& rows@[i].remove_action == RulesAction::RemoveEntry { index: i as usize }
        } by {
            assert(rules_settings::shows_entry(rows@[i], modal.entries@[i], i as usize));
        }
    }
}

/// Switching an entry turns it off where it is on, which it is unless it says otherwise, and on
/// where it is off. An index without an entry changes nothing.
pub proof fn law_switched_entry(entries: Seq<EntryView>, index: int)
    ensures
        ({
            let after = rules_settings::switched_at(entries, index);
            &&& after.len() == entries.len()
            &&& forall|i: int|
                0 <= i < entries.len() ==> (#[trigger] after[i]).path == entries[i].path
            &&& forall|i: int|
                0 <= i < entries.len() && i != index ==> #[trigger] after[i] == entries[i]
            &&& 0 <= index < entries.len() ==> after[index].enabled == match entries[index].enabled {
                Some(false) => Some(true),
                _ => Some(false),
            }
        }),
        !(0 <= index < entries.len()) ==> rules_settings::removed_at(entries, index) == entries,
{
}

/// The lines of the messages that are selected: of those before the boundary, in order.
pub open spec fn lines_before(summaries: Seq<MessageSummary>, boundary: nat) -> Seq<RowView>
    decreases summaries.len(),
{
    if summaries.len() == 0 {
        seq![]
    } else {
        let rest = lines_before(summaries.drop_first(), boundary);
        if summaries[0].index < boundary {
            seq![
                RowView {
                    role_label: if summaries[0].is_user {
                        "User"@
                    } else {
                        "Agent"@
                    },
                    is_user: summaries[0].is_user,
                    preview: summaries[0].preview@,
                },
            ] + rest
        } else {
            rest
        }
    }
}

proof fn lemma_lines_push(summaries: Seq<MessageSummary>, summary: MessageSummary, boundary: nat)
    ensures
        lines_before(summaries.push(summary), boundary) == if summary.index < boundary {
            lines_before(summaries, boundary).push(compact_modal::summary_row(summary))
        } else {
            lines_before(summaries, boundary)
        },
    decreases summaries.len(),
{
    let all = summaries.push(summary);
    if summaries.len() == 0 {
        assert(all.drop_first() =~= summaries);
        assert(lines_before(all.drop_first(), boundary) =~= Seq::empty());
        assert(lines_before(all, boundary) =~= if summary.index < boundary {
            lines_before(summaries, boundary).push(compact_modal::summary_row(summary))
        } else {
            lines_before(summaries, boundary)
        });
    } else {
        assert(all.drop_first() =~= summaries.drop_first().push(summary));
        lemma_lines_push(summaries.drop_first(), summary, boundary);
        assert(lines_before(all, boundary) =~= if summary.index < boundary {
            lines_before(summaries, boundary).push(compact_modal::summary_row(summary))
        } else {
            lines_before(summaries, boundary)
        });
    }
}

/// The lines that are shown are those of the messages before the boundary, in order.
pub proof fn law_lines_before(summaries: Seq<MessageSummary>, boundary: nat)
    ensures
        compact_modal::selected_rows(summaries, boundary) == lines_before(summaries, boundary),
    decreases summaries.len(),
{
    if summaries.len() > 0 {
        law_lines_before(summaries.drop_last(), boundary);
        lemma_lines_push(summaries.drop_last(), summaries.last(), boundary);
        assert(summaries.drop_last().push(summaries.last()) =~= summaries);
    }
}

/// While messages are selected, the dialog says how many of all of them are replaced and how many
/// are kept, lists those that are replaced, and offers to write the summary unless none are.
pub proof fn law_selection_is_shown(shown: CompactForm<'_>, modal: CompactMessagesModal)
    requires
        compact_modal::shows_modal(shown, modal),
        modal.well_formed(),
        modal.phase is Selecting,
    ensures
        ({
            let replaced = modal.boundary as nat;
            let count = modal.summaries@.len();
            &&& shown.content matches CompactContent::Selecting(view) && {
                &&& view.description@ == "Compact the oldest "@ + text::decimal(replaced)
                    + " of "@ + text::decimal(count) + " messages ("@ + text::decimal(
                    (count - replaced) as nat,
                ) + " will be kept)"@
                &&& view.selection@ == "Messages to compact: "@ + text::decimal(replaced)
                &&& view.slider_end@ == text::decimal(count)
                &&& compact_modal::row_views(view.rows@) == lines_before(
                    modal.summaries@,
                    replaced,
                )
            }
            &&& shown.buttons@.len() == 2
            &&& shown.buttons@[0].action == CompactAction::Cancel
            &&& shown.buttons@[1].action == CompactAction::GenerateSummary
            &&& shown.buttons@[1].disabled <==> modal.boundary == 0
            &&& !shown.buttons@[0].disabled
        }),
{
    law_lines_before(modal.summaries@, modal.boundary as nat);
    let views = crate::form::button_views(shown.buttons@);
    assert(views.len() == 2);
    assert(views[0] == shown.buttons@[0]@);
    assert(views[1] == shown.buttons@[1]@);
}

/// While the summary is reviewed, the dialog shows it, or the field in which it is edited, says
/// how many messages it replaces, and offers to edit it, to go back, and to replace the messages.
pub proof fn law_review_is_shown(shown: CompactForm<'_>, modal: CompactMessagesModal)
    requires
        compact_modal::shows_modal(shown, modal),
        modal.phase is Reviewing,
    ensures
        ({
            let editing = modal.phase->is_editing;
            &&& shown.content matches CompactContent::Reviewing(view) && {
                &&& view.description@ == "This will replace "@ + text::decimal(
                    modal.boundary as nat,
                ) + " messages with the summary below:"@
                &&& !editing ==> (view.body matches ReviewBody::Text(text) && text@
                    == modal.phase->summary_text@)
                &&& editing ==> (view.body matches ReviewBody::Editor(input) && match input {
                    Some(input) => modal.summary_input == Some(*input),
                    None => modal.summary_input is None,
                })
            }
            &&& shown.buttons@.len() == 3
            &&& shown.buttons@[0].action == CompactAction::ToggleEdit
            &&& shown.buttons@[0].label@ == if editing {
                "Done Editing"@
            } else {
                "Edit"@
            }
            &&& shown.buttons@[1].action == CompactAction::Back
            &&& shown.buttons@[2].action == CompactAction::ReplaceMessages
            &&& forall|i: int| 0 <= i < 3 ==> !(#[trigger] shown.buttons@[i]).disabled
        }),
{
    let views = crate::form::button_views(shown.buttons@);
    assert(views.len() == 3);
    assert(views[0] == shown.buttons@[0]@);
    assert(views[1] == shown.buttons@[1]@);
    assert(views[2] == shown.buttons@[2]@);
}

/// An error is shown exactly where there is one, and while the summary is written only the
/// cancellation is offered.
pub proof fn law_error_is_shown(shown: CompactForm<'_>, modal: CompactMessagesModal)
    requires
        compact_modal::shows_modal(shown, modal),
    ensures
        shown.error is Some <==> modal.last_error is Some,
        shown.error matches Some(error) ==> error@ == modal.last_error->0@,
        modal.phase is Generating ==> shown.content is Generating && shown.buttons@.len() == 1
            && shown.buttons@[0].action == CompactAction::Cancel,
{
    let views = crate::form::button_views(shown.buttons@);
    assert(views.len() == shown.buttons@.len());
    if modal.phase is Generating {
        assert(views[0] == shown.buttons@[0]@);
    }
}

/// A summary that comes back is reviewed as it is, and not yet edited; one that is empty or does
/// not come leads back to the selection with an error that tells so. The selection stays in any
/// case, and so does an error that was shown before a summary came back.
pub proof fn law_generated(modal: CompactView, summary: Seq<char>, error: Seq<char>)
    ensures
        ({
            let came = compact_modal::generated(modal, Ok(summary));
            let failed = compact_modal::generated(modal, Err(error));
            &&& came.boundary == modal.boundary
            &&& failed.boundary == modal.boundary
            &&& summary.len() > 0 ==> {
                &&& came.phase == PhaseView::Reviewing { summary_text: summary, is_editing: false }
                &&& came.summary_input is None
                &&& came.last_error == modal.last_error
            }
            &&& summary.len() == 0 ==> {
                &&& came.phase is Selecting
                &&& came.last_error == Some("LLM returned an empty summary"@)
            }
            &&& failed.phase is Selecting
            &&& failed.last_error == Some("Failed to generate summary: "@ + error)
        }),
{
}

/// What editing does: it begins with the summary in the field, and ends with what the field holds
/// as the summary. The selection and an error stay. Going back clears the error, and an error is
/// shown without changing anything else.
pub proof fn law_editing(modal: CompactView, text: Seq<char>, input: FieldView, error: Seq<char>)
    ensures
        ({
            let reading = CompactView {
                phase: PhaseView::Reviewing { summary_text: text, is_editing: false },
                ..modal
            };
            let editing = CompactView {
                phase: PhaseView::Reviewing { summary_text: text, is_editing: true },
                summary_input: Some(input),
                ..modal
            };
            let begun = compact_modal::with_input(compact_modal::edit_toggled(reading));
            let ended = compact_modal::edit_toggled(editing);
            &&& begun.phase == PhaseView::Reviewing { summary_text: text, is_editing: true }
            &&& begun.summary_input matches Some(field) && field.text == text && !field.masked
            &&& begun.boundary == modal.boundary && begun.last_error == modal.last_error
            &&& ended.phase == PhaseView::Reviewing { summary_text: input.text, is_editing: false }
            &&& ended.summary_input is None
            &&& ended.boundary == modal.boundary && ended.last_error == modal.last_error
            &&& compact_modal::with_input(editing) == editing
            &&& compact_modal::replacement(editing) == if input.text.len() > 0 {
                Some(input.text)
            } else {
                None
            }
            &&& compact_modal::replacement(reading) == if text.len() > 0 {
                Some(text)
            } else {
                None
            }
            &&& compact_modal::back(editing).phase is Selecting
            &&& compact_modal::back(editing).last_error is None
            &&& compact_modal::back(editing).summary_input is None
            &&& compact_modal::with_error(modal, error).last_error == Some(error)
            &&& compact_modal::with_error(modal, error).phase == modal.phase
            &&& compact_modal::with_error(modal, error).boundary == modal.boundary
        }),
{
}

/// The dialog opens with the older half of a longer conversation selected, and with all of a
/// short one, and nothing else done.
pub proof fn law_compact_dialog_opens(count: nat)
    ensures
        ({
            let modal = compact_modal::opened(count);
            &&& count <= 4 ==> modal.boundary == count
            &&& count > 4 ==> 2 * modal.boundary <= count < 2 * modal.boundary + 2
            &&& modal.phase is Selecting
            &&& modal.last_error is None
            &&& modal.summary_input is None
        }),
{
}

/// What a threshold is after it was entered: the number in its field, or the default where the
/// field holds no number that fits.
pub open spec fn entered(text: Seq<char>, max: nat, default: nat, number: nat) -> bool {
    if text::natural(text) is Some && text::natural(text)->0 <= max {
        number == text::natural(text)->0
    } else {
        number == default
    }
}

/// Each threshold is read from its own field, and takes its own default where that holds no
/// number: 80000 tokens, 80000 tokens, and 60000 characters.
pub proof fn law_thresholds_are_read_field_by_field(modal: SettingsModalView)
    ensures
        ({
            let config = compaction_settings::entered_config(modal);
            &&& entered(
                modal.deep_omit_threshold_tokens.text,
                u64::MAX as nat,
                80_000,
                config.deep_omit_threshold_tokens as nat,
            )
            &&& entered(
                modal.summary_threshold_tokens.text,
                u64::MAX as nat,
                80_000,
                config.summary_threshold_tokens as nat,
            )
            &&& entered(
                modal.min_content_chars.text,
                usize::MAX as nat,
                60_000,
                config.min_content_chars as nat,
            )
        }),
{
}

/// The dialog opens with each threshold of the configuration in its own field, and the switch as
/// it is.
pub proof fn law_settings_dialog_opens(config: CompactionConfig, enabled: bool)
    ensures
        ({
            let modal = compaction_settings::opened(config, enabled);
            &&& modal.auto_compact_enabled == enabled
            &&& text::natural(modal.deep_omit_threshold_tokens.text) == Some(
                config.deep_omit_threshold_tokens as nat,
            )
            &&& text::natural(modal.summary_threshold_tokens.text) == Some(
                config.summary_threshold_tokens as nat,
            )
            &&& text::natural(modal.min_content_chars.text) == Some(
                config.min_content_chars as nat,
            )
            &&& modal.deep_omit_threshold_tokens.label == Some(
                "Tool result strip boundary (tokens from end)"@,
            )
            &&& modal.summary_threshold_tokens.label == Some(
                "Auto compact boundary (tokens from end)"@,
            )
            &&& modal.min_content_chars.label == Some("Min content chars to summarize"@)
        }),
{
    text::law_natural_of_decimal(config.deep_omit_threshold_tokens as nat);
    text::law_natural_of_decimal(config.summary_threshold_tokens as nat);
    text::law_natural_of_decimal(config.min_content_chars as nat);
}

/// The thresholds that hold are those of the settings, each by itself, and its default where the
/// settings leave it out.
pub proof fn law_configured_thresholds(section: Option<CompactionSettingsContent>)
    ensures
        ({
            let config = zones::configured(section);
            &&& config.deep_omit_threshold_tokens == if section is Some
                && section->0.deep_omit_threshold_tokens is Some {
                section->0.deep_omit_threshold_tokens->0
            } else {
                80_000
            }
            &&& config.summary_threshold_tokens == if section is Some
                && section->0.summary_threshold_tokens is Some {
                section->0.summary_threshold_tokens->0
            } else {
                80_000
            }
            &&& config.min_content_chars == if section is Some
                && section->0.min_content_chars is Some {
                section->0.min_content_chars->0
            } else {
                60_000
            }
        }),
{
}

/// Saving thresholds changes them in the settings, and nothing else there; a reset takes them and
/// the switch out, and nothing else.
pub proof fn law_saving_thresholds_changes_them_alone(
    before: SettingsContent,
    config: CompactionConfig,
)
    ensures
        ({
            let saved = compaction_settings::with_compaction(
                before,
                compaction_settings::section_with(settings::compaction_of(before), config),
            );
            let reset = compaction_settings::without_compaction(before);
            &&& saved.agent matches Some(agent) && {
                &&& agent.compaction matches Some(section) && {
                    &&& section.deep_omit_threshold_tokens == Some(
                        config.deep_omit_threshold_tokens,
                    )
                    &&& section.summary_threshold_tokens == Some(config.summary_threshold_tokens)
                    &&& section.min_content_chars == Some(config.min_content_chars)
                    &&& section.enabled == if before.agent is Some
                        && before.agent->0.compaction is Some {
                        before.agent->0.compaction->0.enabled
                    } else {
                        None
                    }
                }
                &&& before.agent matches Some(old) ==> agent.thread_summary_model
                    == old.thread_summary_model && agent.subagent_models == old.subagent_models
                &&& before.agent is None ==> agent.thread_summary_model is None
                    && agent.subagent_models is None
            }
            &&& saved.language_models == before.language_models
            &&& reset.language_models == before.language_models
            &&& reset.agent is Some <==> before.agent is Some
            &&& reset.agent matches Some(agent) ==> {
                &&& agent.compaction is None
                &&& agent.thread_summary_model == before.agent->0.thread_summary_model
                &&& agent.subagent_models == before.agent->0.subagent_models
            }
        }),
{
}

/// Choosing a model sets it where it belongs: the model for summaries in its own place, and the
/// three for subagents each in its own.
pub proof fn law_chosen_model_is_saved_in_its_place(
    agent: AgentSettingsContent,
    selection: LanguageModelSelection,
)
    ensures
        compaction_settings::agent_with_model(
            agent,
            ModelPurpose::Summary,
            selection,
        ).thread_summary_model == Some(selection),
        compaction_settings::agent_with_model(
            agent,
            ModelPurpose::Summary,
            selection,
        ).subagent_models == agent.subagent_models,
        compaction_settings::agent_with_model(
            agent,
            ModelPurpose::Fast,
            selection,
        ).subagent_models matches Some(models) && models.fast == Some(selection),
        compaction_settings::agent_with_model(
            agent,
            ModelPurpose::Standard,
            selection,
        ).subagent_models matches Some(models) && models.standard == Some(selection),
        compaction_settings::agent_with_model(
            agent,
            ModelPurpose::Powerful,
            selection,
        ).subagent_models matches Some(models) && models.powerful == Some(selection),
        forall|purpose: ModelPurpose|
            purpose != ModelPurpose::Summary ==> (#[trigger] compaction_settings::agent_with_model(
                agent,
                purpose,
                selection,
            )).thread_summary_model == agent.thread_summary_model,
{
}

/// A selection names the model that was picked, with thinking where the model supports it and
/// with its default effort.
pub proof fn law_selection_names_the_model(selection: LanguageModelSelection, model: ModelInfo)
    requires
        compaction_settings::selects(selection, model),
    ensures
        selection.provider@ == model.provider_id@,
        selection.model@ == model.id@,
        selection.enable_thinking == model.supports_thinking,
        selection.effort is Some <==> model.default_effort_level is Some,
        selection.effort matches Some(effort) ==> effort@ == model.default_effort_level->0@,
        selection.speed is None,
{
}

/// The dialog for the compaction settings shows each threshold in its own place, the four pickers
/// each for its own purpose, and the switch as it is.
pub proof fn law_settings_are_shown(shown: SettingsForm<'_>, modal: CompactionSettingsModal)
    requires
        compaction_settings::shows_modal(shown, modal),
    ensures
        *shown.deep_omit_threshold_tokens == modal.deep_omit_threshold_tokens,
        *shown.summary_threshold_tokens == modal.summary_threshold_tokens,
        *shown.min_content_chars == modal.min_content_chars,
        shown.summary_picker.purpose == ModelPurpose::Summary,
        shown.subagent_pickers@.len() == 3,
        shown.subagent_pickers@[0].purpose == ModelPurpose::Fast,
        shown.subagent_pickers@[1].purpose == ModelPurpose::Standard,
        shown.subagent_pickers@[2].purpose == ModelPurpose::Powerful,
        shown.auto_compact_button.action == SettingsAction::ToggleAutoCompact,
        shown.auto_compact_button.label@ == if modal.auto_compact_enabled {
            "On"@
        } else {
            "Off"@
        },
        shown.auto_compact_button.style == if modal.auto_compact_enabled {
            ButtonStyle::Filled
        } else {
            ButtonStyle::Outlined
        },
        shown.buttons@.len() == 3,
        shown.buttons@[0].action == SettingsAction::ResetDefaults,
        shown.buttons@[1].action == SettingsAction::Cancel,
        shown.buttons@[2].action == SettingsAction::SaveAndClose,
{
    let views = crate::form::button_views(shown.buttons@);
    assert(shown.auto_compact_button@.action == shown.auto_compact_button.action);
    assert(views.len() == 3);
    assert(views[0] == shown.buttons@[0]@);
    assert(views[1] == shown.buttons@[1]@);
    assert(views[2] == shown.buttons@[2]@);
}

/// The dialog for a provider shows every field in its own place and every model in order, with a
/// button to remove it unless it is the only one, and an error exactly where there is one.
pub proof fn law_provider_is_shown(shown: ProviderForm<'_>, modal: AddLlmProviderModal)
    requires
        provider_modal::shows_modal(shown, modal),
        modal.input.models@.len() <= usize::MAX,
    ensures
        *shown.provider_name == modal.input.provider_name,
        *shown.api_url == modal.input.api_url,
        *shown.api_key == modal.input.api_key,
        shown.error is Some <==> modal.last_error is Some,
        shown.headline@ == match modal.mode {
            Mode::Add => "Add LLM Provider"@,
            Mode::Edit { .. } => "Edit LLM Provider"@,
        },
        shown.section.models@.len() == modal.input.models@.len(),
        forall|i: int|
            0 <= i < shown.section.models@.len() ==> {
                let model = modal.input.models@[i];
                let part = #[trigger] shown.section.models@[i];
                &&& *part.name == model.name
                &&& *part.max_completion_tokens == model.max_completion_tokens
                &&& *part.max_output_tokens == model.max_output_tokens
                &&& *part.max_tokens == model.max_tokens
                &&& part.remove is Some <==> modal.input.models@.len() > 1
                &&& part.remove matches Some(button) ==> button.action
                    == ProviderAction::RemoveModel { index: i as usize }
            },
        shown.section.add.action == ProviderAction::AddModel,
        shown.buttons@.len() == 2,
        shown.buttons@[0].action == ProviderAction::Cancel,
        shown.buttons@[1].action == ProviderAction::Confirm,
{
    let views = crate::form::button_views(shown.buttons@);
    assert(shown.section.add@.action == shown.section.add.action);
    assert(views.len() == 2);
    assert(views[0] == shown.buttons@[0]@);
    assert(views[1] == shown.buttons@[1]@);
    assert forall|i: int| 0 <= i < shown.section.models@.len() implies {
        let model = modal.input.models@[i];
        let part = #[trigger] shown.section.models@[i];
        &&& *part.name == model.name
        &&& *part.max_completion_tokens == model.max_completion_tokens
        &&& *part.max_output_tokens == model.max_output_tokens
        &&& *part.max_tokens == model.max_tokens
        &&& part.remove is Some <==> modal.input.models@.len() > 1
        &&& part.remove matches Some(button) ==> button.action == ProviderAction::RemoveModel {
            index: i as usize,
        }
    } by {
        let part = shown.section.models@[i];
        assert(provider_modal::shows_model(
            part,
            modal.input.models@[i],
            i as usize,
            modal.input.models@.len(),
        ));
        if let Some(button) = part.remove {
            assert(button@.action == button.action);
        }
    }
}

/// No two errors are told in the same words, so that a user can tell them apart.
pub proof fn law_errors_are_told_apart(left: ProviderError, right: ProviderError)
    requires
        left.text() == right.text(),
    ensures
        left == right,
{
    reveal_strlit("Provider Name cannot be empty");
    reveal_strlit("API URL cannot be empty");
    reveal_strlit("API Key cannot be empty");
    reveal_strlit("Model Name cannot be empty");
    reveal_strlit("Max Completion Tokens must be a number");
    reveal_strlit("Max Output Tokens must be a number");
    reveal_strlit("Max Tokens must be a number");
    reveal_strlit("Model Names must be unique");
    reveal_strlit("Provider Name is already taken by another provider");
    reveal_strlit("Failed to write API key to keychain");
    assert("Provider Name cannot be empty"@.len() == 29);
    assert("API URL cannot be empty"@.len() == 23 && "API URL cannot be empty"@[4] == 'U');
    assert("API Key cannot be empty"@.len() == 23 && "API Key cannot be empty"@[4] == 'K');
    assert("Model Name cannot be empty"@.len() == 26 && "Model Name cannot be empty"@[10] == ' ');
    assert("Max Completion Tokens must be a number"@.len() == 38);
    assert("Max Output Tokens must be a number"@.len() == 34);
    assert("Max Tokens must be a number"@.len() == 27);
    assert("Model Names must be unique"@.len() == 26 && "Model Names must be unique"@[10] == 's');
    assert("Provider Name is already taken by another provider"@.len() == 50);
    assert("Failed to write API key to keychain"@.len() == 35);
    assert(left.text().len() == right.text().len());
    assert(left.text()[4] == right.text()[4] && left.text()[10] == right.text()[10]);
}

} // verus!
