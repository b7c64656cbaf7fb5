//! The dialog in which old messages are replaced by a summary.

use crate::compaction::CompactionPlan;
use crate::form;
use crate::form::{Button, ButtonStyle, ButtonView, FieldView, InputField, MenuAction};
use crate::text;
use vstd::prelude::*;
use vstd::string::*;

verus! {

/// A message as the dialog lists it.
#[derive(Debug, PartialEq)]
pub struct MessageSummary {
    pub index: usize,
    pub is_user: bool,
    pub preview: String,
}

/// How far the user has come.
#[derive(Debug, PartialEq)]
pub enum CompactPhase {
    /// The user selects how many messages to replace.
    Selecting,
    /// The summary is being written.
    Generating,
    /// The user looks at the summary, and may edit it.
    Reviewing { summary_text: String, is_editing: bool },
}

/// What a [`CompactPhase`] stands for.
pub enum PhaseView {
    Selecting,
    Generating,
    Reviewing { summary_text: Seq<char>, is_editing: bool },
}

impl View for CompactPhase {
    type V = PhaseView;

    open spec fn view(&self) -> PhaseView {
        match self {
            CompactPhase::Selecting => PhaseView::Selecting,
            CompactPhase::Generating => PhaseView::Generating,
            CompactPhase::Reviewing { summary_text, is_editing } => PhaseView::Reviewing {
                summary_text: summary_text@,
                is_editing: *is_editing,
            },
        }
    }
}

/// The dialog in which old messages are replaced by a summary.
#[derive(Debug, PartialEq)]
pub struct CompactMessagesModal {
    /// The number of messages to replace, from the oldest on.
    pub boundary: usize,
    pub max_boundary: usize,
    pub summaries: Vec<MessageSummary>,
    pub phase: CompactPhase,
    pub last_error: Option<String>,
    /// The field in which the summary is edited, once it is shown.
    pub summary_input: Option<InputField>,
}

/// What changes in a [`CompactMessagesModal`].
pub struct CompactView {
    pub boundary: nat,
    pub phase: PhaseView,
    pub last_error: Option<Seq<char>>,
    pub summary_input: Option<FieldView>,
}

impl View for CompactMessagesModal {
    type V = CompactView;

    open spec fn view(&self) -> CompactView {
        CompactView {
            boundary: self.boundary as nat,
            phase: self.phase@,
            last_error: text::optional_text(self.last_error),
            summary_input: match self.summary_input {
                Some(input) => Some(input@),
                None => None,
            },
        }
    }
}

/// The number of messages that are selected at first: the older half of a longer conversation,
/// all of a short one.
pub open spec fn initial_boundary(count: nat) -> nat {
    if count > 4 {
        count / 2
    } else {
        count
    }
}

/// The dialog when it opens.
pub open spec fn opened(count: nat) -> CompactView {
    CompactView {
        boundary: initial_boundary(count),
        phase: PhaseView::Selecting,
        last_error: None,
        summary_input: None,
    }
}

/// The dialog with an error in it.
pub open spec fn with_error(modal: CompactView, error: Seq<char>) -> CompactView {
    CompactView { last_error: Some(error), ..modal }
}

/// The dialog once a summary came back, or failed to.
pub open spec fn generated(
    modal: CompactView,
    summary: Result<Seq<char>, Seq<char>>,
) -> CompactView {
    match summary {
        Ok(summary_text) => if summary_text.len() > 0 {
            CompactView {
                phase: PhaseView::Reviewing { summary_text, is_editing: false },
                summary_input: None,
                ..modal
            }
        } else {
            CompactView {
                phase: PhaseView::Selecting,
                last_error: Some("LLM returned an empty summary"@),
                ..modal
            }
        },
        Err(error) => CompactView {
            phase: PhaseView::Selecting,
            last_error: Some("Failed to generate summary: "@ + error),
            ..modal
        },
    }
}

/// The dialog after the user began or ended editing. What was edited becomes the summary.
pub open spec fn edit_toggled(modal: CompactView) -> CompactView {
    match modal.phase {
        PhaseView::Reviewing { summary_text, is_editing } => CompactView {
            phase: PhaseView::Reviewing {
                summary_text: match modal.summary_input {
                    Some(input) => if is_editing {
                        input.text
                    } else {
                        summary_text
                    },
                    None => summary_text,
                },
                is_editing: !is_editing,
            },
            summary_input: None,
            ..modal
        },
        _ => modal,
    }
}

/// The dialog when it is shown: a summary that is being edited has its field.
pub open spec fn with_input(modal: CompactView) -> CompactView {
    match (modal.phase, modal.summary_input) {
        (PhaseView::Reviewing { summary_text, is_editing: true }, None) => CompactView {
            summary_input: Some(form::plain_field(None, ""@, summary_text)),
            ..modal
        },
        _ => modal,
    }
}

/// The summary that the messages would be replaced with: the edited text while it is edited.
/// Nothing replaces them outside the review, or where the summary is empty.
pub open spec fn replacement(modal: CompactView) -> Option<Seq<char>> {
    match modal.phase {
        PhaseView::Reviewing { summary_text, is_editing } => {
            let text = if is_editing {
                match modal.summary_input {
                    Some(input) => input.text,
                    None => Seq::empty(),
                }
            } else {
                summary_text
            };
            if text.len() > 0 {
                Some(text)
            } else {
                None
            }
        },
        _ => None,
    }
}

/// The dialog after the user went back to the selection.
pub open spec fn back(modal: CompactView) -> CompactView {
    CompactView {
        phase: PhaseView::Selecting,
        last_error: None,
        summary_input: None,
        ..modal
    }
}

/// What the buttons of the dialog do.
#[derive(Debug, Clone, Copy, PartialEq, Eq, Structural)]
pub enum CompactAction {
    Cancel,
    GenerateSummary,
    ToggleEdit,
    Back,
    ReplaceMessages,
}

/// A line of the list of selected messages.
#[derive(Debug, PartialEq)]
pub struct SummaryRow<'a> {
    pub role_label: &'static str,
    pub is_user: bool,
    pub preview: &'a str,
}

/// What a [`SummaryRow`] stands for.
pub struct RowView {
    pub role_label: Seq<char>,
    pub is_user: bool,
    pub preview: Seq<char>,
}

impl<'a> View for SummaryRow<'a> {
    type V = RowView;

    open spec fn view(&self) -> RowView {
        RowView { role_label: self.role_label@, is_user: self.is_user, preview: self.preview@ }
    }
}

/// The rows that a sequence stands for.
pub open spec fn row_views(rows: Seq<SummaryRow<'_>>) -> Seq<RowView> {
    rows.map_values(|row: SummaryRow<'_>| row@)
}

/// The line for a message.
pub open spec fn summary_row(summary: MessageSummary) -> RowView {
    RowView {
        role_label: if summary.is_user {
            "User"@
        } else {
            "Agent"@
        },
        is_user: summary.is_user,
        preview: summary.preview@,
    }
}

/// The lines for the messages before the boundary.
pub open spec fn selected_rows(summaries: Seq<MessageSummary>, boundary: nat) -> Seq<RowView>
    decreases summaries.len(),
{
    if summaries.len() == 0 {
        Seq::empty()
    } else {
        let before = selected_rows(summaries.drop_last(), boundary);
        if summaries.last().index < boundary {
            before.push(summary_row(summaries.last()))
        } else {
            before
        }
    }
}

/// What the dialog shows while messages are selected.
#[derive(Debug, PartialEq)]
pub struct SelectingView<'a> {
    pub description: String,
    pub selection: String,
    /// The ends of the slider.
    pub slider_start: &'static str,
    pub slider_end: String,
    pub rows: Vec<SummaryRow<'a>>,
}

/// What is said of so many selected messages out of all.
pub open spec fn selection_description(compacted: nat, count: nat) -> Seq<char> {
    "Compact the oldest "@ + text::decimal(compacted) + " of "@ + text::decimal(count)
        + " messages ("@ + text::decimal((count - compacted) as nat) + " will be kept)"@
}

/// Whether `shown` is what a dialog shows while messages are selected.
pub open spec fn shows_selecting(shown: SelectingView<'_>, modal: CompactMessagesModal) -> bool {
    &&& shown.description@ == selection_description(
        modal.boundary as nat,
        modal.summaries@.len(),
    )
    &&& shown.selection@ == "Messages to compact: "@ + text::decimal(modal.boundary as nat)
    &&& shown.slider_start@ == "0"@
    &&& shown.slider_end@ == text::decimal(modal.max_boundary as nat)
    &&& row_views(shown.rows@) == selected_rows(modal.summaries@, modal.boundary as nat)
}

/// The summary as it is shown in the review.
#[derive(Debug, PartialEq)]
pub enum ReviewBody<'a> {
    Editor(Option<&'a InputField>),
    Text(&'a str),
}

/// What the dialog shows while the summary is reviewed.
#[derive(Debug, PartialEq)]
pub struct ReviewingView<'a> {
    pub description: String,
    pub body: ReviewBody<'a>,
}

/// Whether `shown` is what a dialog shows while the summary is reviewed.
pub open spec fn shows_reviewing(shown: ReviewingView<'_>, modal: CompactMessagesModal) -> bool {
    &&& shown.description@ == "This will replace "@ + text::decimal(modal.boundary as nat)
        + " messages with the summary below:"@
    &&& match modal.phase {
        CompactPhase::Reviewing { summary_text, is_editing } => if is_editing {
            shown.body matches ReviewBody::Editor(input) && match input {
                Some(input) => modal.summary_input == Some(*input),
                None => modal.summary_input is None,
            }
        } else {
            shown.body matches ReviewBody::Text(text) && text@ == summary_text@
        },
        _ => shown.body matches ReviewBody::Text(text) && text@ == Seq::<char>::empty(),
    }
}

/// The middle part of the dialog.
#[derive(Debug, PartialEq)]
pub enum CompactContent<'a> {
    Selecting(SelectingView<'a>),
    Generating(&'static str),
    Reviewing(ReviewingView<'a>),
}

/// What the dialog shows.
#[derive(Debug, PartialEq)]
pub struct CompactForm<'a> {
    pub headline: &'static str,
    pub error: Option<&'a str>,
    pub content: CompactContent<'a>,
    pub buttons: Vec<Button<CompactAction>>,
}

/// The buttons below the dialog.
pub open spec fn footer(modal: CompactMessagesModal) -> Seq<ButtonView<CompactAction>> {
    match modal.phase {
        CompactPhase::Selecting => seq![
            form::keyed_button("cancel"@, "Cancel"@, MenuAction::Cancel, CompactAction::Cancel),
            ButtonView {
                disabled: modal.boundary == 0 || modal.max_boundary == 0,
                ..form::simple_button(
                    "generate"@,
                    "Generate Summary"@,
                    ButtonStyle::Filled,
                    CompactAction::GenerateSummary,
                )
            },
        ],
        CompactPhase::Generating => seq![
            form::simple_button(
                "cancel-generating"@,
                "Cancel"@,
                ButtonStyle::Subtle,
                CompactAction::Cancel,
            ),
        ],
        CompactPhase::Reviewing { is_editing, .. } => seq![
            form::simple_button(
                "edit-toggle"@,
                if is_editing {
                    "Done Editing"@
                } else {
                    "Edit"@
                },
                ButtonStyle::Subtle,
                CompactAction::ToggleEdit,
            ),
            form::simple_button("back"@, "Back"@, ButtonStyle::Subtle, CompactAction::Back),
            form::simple_button(
                "replace"@,
                "Replace Messages"@,
                ButtonStyle::Filled,
                CompactAction::ReplaceMessages,
            ),
        ],
    }
}

/// Whether `shown` is what a dialog shows.
pub open spec fn shows_modal(shown: CompactForm<'_>, modal: CompactMessagesModal) -> bool {
    &&& shown.headline@ == match modal.phase {
        CompactPhase::Reviewing { .. } => "Review Summary"@,
        _ => "Compact Old Messages"@,
    }
    &&& match shown.error {
        Some(error) => modal@.last_error == Some(error@),
        None => modal@.last_error is None,
    }
    &&& match modal.phase {
        CompactPhase::Selecting => shown.content matches CompactContent::Selecting(view)
            && shows_selecting(view, modal),
        CompactPhase::Generating => shown.content matches CompactContent::Generating(text) && text@
            == "Generating summary..."@,
        CompactPhase::Reviewing { .. } => shown.content matches CompactContent::Reviewing(view)
            && shows_reviewing(view, modal),
    }
    &&& form::button_views(shown.buttons@) == footer(modal)
}

impl CompactMessagesModal {
    /// Whether no more messages are selected than there are.
    pub open spec fn well_formed(self) -> bool {
        self.boundary <= self.max_boundary && self.max_boundary == self.summaries@.len()
    }

    /// Whether only what [`CompactView`] shows differs from another dialog.
    pub open spec fn same_messages(self, other: Self) -> bool {
        self.max_boundary == other.max_boundary && self.summaries == other.summaries
    }

    /// The dialog that opens for the messages of a conversation.
    pub fn toggle(summaries: Vec<MessageSummary>) -> (modal: Self)
        ensures
            modal.well_formed(),
            modal.summaries == summaries,
            modal@ == opened(summaries@.len()),
    {
        CompactMessagesModal::new(summaries)
    }

    /// The dialog for the messages of a conversation.
    pub fn new(summaries: Vec<MessageSummary>) -> (modal: Self)
        ensures
            modal.well_formed(),
            modal.summaries == summaries,
            modal@ == opened(summaries@.len()),
    {
        let max_boundary: usize = summaries.len();
        let boundary: usize = if max_boundary > 4 {
            let half: usize = max_boundary / 2;
            if half > 2 {
                half
            } else {
                2
            }
        } else {
            max_boundary
        };
        CompactMessagesModal {
            boundary,
            max_boundary,
            summaries,
            phase: CompactPhase::Selecting,
            last_error: None,
            summary_input: None,
        }
    }

    /// Selects that many messages, or all where there are fewer, and tells whether that changes
    /// anything.
    pub fn set_boundary(&mut self, position: usize) -> (changed: bool)
        requires
            old(self).well_formed(),
        ensures
            final(self).well_formed(),
            final(self).same_messages(*old(self)),
            final(self)@ == (CompactView {
                boundary: if position <= old(self).max_boundary {
                    position as nat
                } else {
                    old(self).max_boundary as nat
                },
                ..old(self)@
            }),
            changed == (final(self).boundary != old(self).boundary),
    {
        let boundary: usize = if position <= self.max_boundary {
            position
        } else {
            self.max_boundary
        };
        if boundary != self.boundary {
            self.boundary = boundary;
            true
        } else {
            false
        }
    }

    /// The number of messages to prepare a summary for, or `None`, with an error, where none are
    /// selected.
    pub fn generate_summary(&mut self) -> (boundary: Option<usize>)
        ensures
            final(self).same_messages(*old(self)),
            match boundary {
                Some(boundary) => {
                    &&& boundary == old(self).boundary
                    &&& boundary > 0
                    &&& *final(self) == *old(self)
                },
                None => {
                    &&& old(self).boundary == 0
                    &&& final(self)@ == with_error(
                        old(self)@,
                        "No messages selected to compact"@,
                    )
                },
            },
    {
        if self.boundary == 0 {
            self.last_error = Some("No messages selected to compact".to_owned());
            return None;
        }
        Some(self.boundary)
    }

    /// Takes the preparation into account: with a plan the summary is generated; without a model,
    /// or where the preparation failed for the given reason, an error is shown.
    pub fn prepared(&mut self, preparation: Result<Option<CompactionPlan>, String>) -> (plan:
        Option<CompactionPlan>)
        ensures
            final(self).same_messages(*old(self)),
            plan == match preparation {
                Ok(plan) => plan,
                Err(_) => None,
            },
            final(self)@ == match preparation {
                Ok(Some(_)) => CompactView {
                    phase: PhaseView::Generating,
                    last_error: None,
                    ..old(self)@
                },
                Ok(None) => with_error(
                    old(self)@,
                    "No summarization model configured. Please configure a model first."@,
                ),
                Err(error) => with_error(
                    old(self)@,
                    "Failed to prepare compaction: "@ + error@,
                ),
            },
    {
        match preparation {
            Ok(Some(plan)) => {
                self.phase = CompactPhase::Generating;
                self.last_error = None;
                Some(plan)
            },
            Ok(None) => {
                self.last_error = Some(
                    "No summarization model configured. Please configure a model first.".to_owned(),
                );
                None
            },
            Err(reason) => {
                let mut error = "Failed to prepare compaction: ".to_owned();
                error.append(reason.as_str());
                self.last_error = Some(error);
                None
            },
        }
    }

    /// Takes the summary into account, or why there is none.
    pub fn finished(&mut self, summary: Result<String, String>)
        ensures
            final(self).same_messages(*old(self)),
            final(self)@ == generated(
                old(self)@,
                match summary {
                    Ok(summary) => Ok(summary@),
                    Err(error) => Err(error@),
                },
            ),
    {
        match summary {
            Ok(summary_text) => {
                if !summary_text.as_str().is_empty() {
                    self.summary_input = None;
                    self.phase = CompactPhase::Reviewing { summary_text, is_editing: false };
                } else {
                    self.phase = CompactPhase::Selecting;
                    self.last_error = Some("LLM returned an empty summary".to_owned());
                }
            },
            Err(reason) => {
                self.phase = CompactPhase::Selecting;
                let mut error = "Failed to generate summary: ".to_owned();
                error.append(reason.as_str());
                self.last_error = Some(error);
            },
        }
    }

    /// Begins or ends editing the summary.
    pub fn toggle_edit(&mut self)
        ensures
            final(self).same_messages(*old(self)),
            final(self)@ == edit_toggled(old(self)@),
    {
        let editing: bool = matches!(&self.phase, CompactPhase::Reviewing { is_editing: true, .. });
        let edited: Option<String> = match &self.summary_input {
            Some(input) => if editing {
                Some(input.text.clone())
            } else {
                None
            },
            None => None,
        };
        if let CompactPhase::Reviewing { summary_text, is_editing } = &mut self.phase {
            if let Some(edited) = edited {
                *summary_text = edited;
            }
            *is_editing = !*is_editing;
            self.summary_input = None;
        }
    }

    /// Makes the field in which the summary is edited, where it is needed and not there.
    pub fn ensure_input(&mut self)
        ensures
            final(self).same_messages(*old(self)),
            final(self)@ == with_input(old(self)@),
    {
        if self.summary_input.is_none() {
            if let CompactPhase::Reviewing { summary_text, is_editing } = &self.phase {
                if *is_editing {
                    self.summary_input = Some(
                        form::plain_input(None, "", summary_text.as_str()),
                    );
                }
            }
        }
    }

    /// The number of messages to replace and the summary to replace them with, where they are to
    /// be replaced; the dialog closes then.
    pub fn replace_messages(&self) -> (replaced: Option<(usize, String)>)
        ensures
            match replaced {
                Some((boundary, summary)) => {
                    &&& boundary == self.boundary
                    &&& replacement(self@) == Some(summary@)
                },
                None => replacement(self@) is None,
            },
    {
        let summary = match &self.phase {
            CompactPhase::Reviewing { summary_text, is_editing } => if *is_editing {
                match &self.summary_input {
                    Some(input) => input.text.clone(),
                    None => return None,
                }
            } else {
                summary_text.clone()
            },
            CompactPhase::Selecting => return None,
            CompactPhase::Generating => return None,
        };
        if summary.as_str().is_empty() {
            return None;
        }
        Some((self.boundary, summary))
    }

    /// Goes back to the selection.
    pub fn back_to_selecting(&mut self)
        ensures
            final(self).same_messages(*old(self)),
            final(self)@ == back(old(self)@),
    {
        self.phase = CompactPhase::Selecting;
        self.last_error = None;
        self.summary_input = None;
    }

    /// What the dialog shows while messages are selected.
    pub fn render_selecting_phase(&self) -> (shown: SelectingView<'_>)
        requires
            self.well_formed(),
        ensures
            shows_selecting(shown, *self),
    {
        let message_count: usize = self.summaries.len();
        let keep_count: usize = message_count - self.boundary;
        let mut description = "Compact the oldest ".to_owned();
        description.append(text::usize_to_string(self.boundary).as_str());
        description.append(" of ");
        description.append(text::usize_to_string(message_count).as_str());
        description.append(" messages (");
        description.append(text::usize_to_string(keep_count).as_str());
        description.append(" will be kept)");
        let mut selection = "Messages to compact: ".to_owned();
        selection.append(text::usize_to_string(self.boundary).as_str());
        let mut rows: Vec<SummaryRow<'_>> = Vec::new();
        let mut i: usize = 0;
        proof {
            assert(self.summaries@.take(0) =~= Seq::empty());
            assert(row_views(rows@) =~= Seq::empty());
        }
        while i < self.summaries.len()
            invariant
                i <= self.summaries@.len(),
                row_views(rows@) == selected_rows(
                    self.summaries@.take(i as int),
                    self.boundary as nat,
                ),
            decreases self.summaries.len() - i,
        {
            let summary = &self.summaries[i];
            proof {
                assert(self.summaries@.take(i + 1).drop_last() =~= self.summaries@.take(i as int));
                assert(self.summaries@.take(i + 1).last() == summary);
            }
            if summary.index < self.boundary {
                let ghost before = rows@;
                rows.push(
                    SummaryRow {
                        role_label: if summary.is_user {
                            "User"
                        } else {
                            "Agent"
                        },
                        is_user: summary.is_user,
                        preview: summary.preview.as_str(),
                    },
                );
                assert(row_views(rows@) =~= row_views(before).push(summary_row(*summary)));
            }
            i = i + 1;
        }
        assert(self.summaries@.take(i as int) =~= self.summaries@);
        SelectingView {
            description,
            selection,
            slider_start: "0",
            slider_end: text::usize_to_string(self.max_boundary),
            rows,
        }
    }

    /// What the dialog shows while the summary is reviewed.
    pub fn render_reviewing_phase(&self) -> (shown: ReviewingView<'_>)
        ensures
            shows_reviewing(shown, *self),
    {
        let mut description = "This will replace ".to_owned();
        description.append(text::usize_to_string(self.boundary).as_str());
        description.append(" messages with the summary below:");
        let body = match &self.phase {
            CompactPhase::Reviewing { summary_text, is_editing } => if *is_editing {
                ReviewBody::Editor(
                    match &self.summary_input {
                        Some(input) => Some(input),
                        None => None,
                    },
                )
            } else {
                ReviewBody::Text(summary_text.as_str())
            },
            _ => {
                proof {
                    reveal_strlit("");
                    assert(""@ =~= Seq::<char>::empty());
                }
                ReviewBody::Text("")
            },
        };
        ReviewingView { description, body }
    }

    /// What the dialog shows.
    pub fn render(&self) -> (shown: CompactForm<'_>)
        requires
            self.well_formed(),
        ensures
            shows_modal(shown, *self),
    {
        let mut buttons: Vec<Button<CompactAction>> = Vec::new();
        match &self.phase {
            CompactPhase::Selecting => {
                buttons.push(
                    form::make_keyed_button(
                        "cancel",
                        "Cancel",
                        MenuAction::Cancel,
                        CompactAction::Cancel,
                    ),
                );
                let mut generate = form::make_button(
                    "generate",
                    "Generate Summary",
                    ButtonStyle::Filled,
                    CompactAction::GenerateSummary,
                );
                generate.disabled = self.boundary == 0 || self.max_boundary == 0;
                buttons.push(generate);
            },
            CompactPhase::Generating => {
                buttons.push(
                    form::make_button(
                        "cancel-generating",
                        "Cancel",
                        ButtonStyle::Subtle,
                        CompactAction::Cancel,
                    ),
                );
            },
            CompactPhase::Reviewing { is_editing, .. } => {
                buttons.push(
                    form::make_button(
                        "edit-toggle",
                        if *is_editing {
                            "Done Editing"
                        } else {
                            "Edit"
                        },
                        ButtonStyle::Subtle,
                        CompactAction::ToggleEdit,
                    ),
                );
                buttons.push(
                    form::make_button("back", "Back", ButtonStyle::Subtle, CompactAction::Back),
                );
                buttons.push(
                    form::make_button(
                        "replace",
                        "Replace Messages",
                        ButtonStyle::Filled,
                        CompactAction::ReplaceMessages,
                    ),
                );
            },
        }
        assert(form::button_views(buttons@) =~= footer(*self));
        CompactForm {
            headline: match &self.phase {
                CompactPhase::Reviewing { .. } => "Review Summary",
                _ => "Compact Old Messages",
            },
            error: match &self.last_error {
                Some(error) => Some(error.as_str()),
                None => None,
            },
            content: match &self.phase {
                CompactPhase::Selecting => CompactContent::Selecting(self.render_selecting_phase()),
                CompactPhase::Generating => CompactContent::Generating("Generating summary..."),
                CompactPhase::Reviewing { .. } => CompactContent::Reviewing(
                    self.render_reviewing_phase(),
                ),
            },
            buttons,
        }
    }
}

/// What a model wrote is what the messages are replaced with, if the user does not edit it.
pub proof fn law_generated_summary_replaces(modal: CompactView, summary: Seq<char>)
    requires
        summary.len() > 0,
    ensures
        replacement(generated(modal, Ok(summary))) == Some(summary),
        generated(modal, Ok(summary)).boundary == modal.boundary,
{
}

/// What the user types while editing is what the messages are replaced with, before and after
/// editing ends.
pub proof fn law_edited_summary_replaces(modal: CompactView, input: FieldView, typed: Seq<char>)
    requires
        modal.phase matches PhaseView::Reviewing { is_editing, .. } && is_editing,
        modal.summary_input == Some(input),
        typed.len() > 0,
    ensures
        ({
            let edited = CompactView { summary_input: Some(input.with_text(typed)), ..modal };
            &&& replacement(edited) == Some(typed)
            &&& replacement(edit_toggled(edited)) == Some(typed)
        }),
{
}

/// Beginning to edit and ending without typing leaves the dialog as it was.
pub proof fn law_editing_without_typing(modal: CompactView)
    requires
        modal.phase matches PhaseView::Reviewing { is_editing, .. } && !is_editing,
        modal.summary_input is None,
    ensures
        edit_toggled(with_input(edit_toggled(modal))) == modal,
{
}

/// Outside the review nothing is replaced, and nothing can be edited.
pub proof fn law_only_review_replaces(modal: CompactView)
    requires
        !(modal.phase is Reviewing),
    ensures
        replacement(modal) is None,
        edit_toggled(modal) == modal,
        with_input(modal) == modal,
{
}

/// Going back keeps the selection and drops the summary.
pub proof fn law_back_keeps_selection(modal: CompactView)
    ensures
        back(modal).boundary == modal.boundary,
        replacement(back(modal)) is None,
        back(back(modal)) == back(modal),
{
}

/// Where the messages are listed in order, the lines are those of the first messages, as many as
/// are selected.
pub proof fn law_rows_are_first_messages(summaries: Seq<MessageSummary>, boundary: nat)
    requires
        forall|i: int| 0 <= i < summaries.len() ==> (#[trigger] summaries[i]).index == i,
        boundary <= summaries.len(),
    ensures
        selected_rows(summaries, boundary) == Seq::new(
            boundary,
            |i: int| summary_row(summaries[i]),
        ),
{
    lemma_rows(summaries, boundary);
    assert(selected_rows(summaries, boundary) =~= Seq::new(
        boundary,
        |i: int| summary_row(summaries[i]),
    ));
}

proof fn lemma_rows(summaries: Seq<MessageSummary>, boundary: nat)
    requires
        forall|i: int| 0 <= i < summaries.len() ==> (#[trigger] summaries[i]).index == i,
    ensures
        ({
            let count = if boundary <= summaries.len() {
                boundary
            } else {
                summaries.len()
            };
            selected_rows(summaries, boundary) == Seq::new(
                count,
                |i: int| summary_row(summaries[i]),
            )
        }),
    decreases summaries.len(),
{
    if summaries.len() > 0 {
        let before = summaries.drop_last();
        let last = summaries.len() - 1;
        assert forall|i: int| 0 <= i < before.len() implies (#[trigger] before[i]).index == i by {
            assert(before[i] == summaries[i]);
        }
        lemma_rows(before, boundary);
        assert(summaries.last() == summaries[last]);
        let count = if boundary <= summaries.len() {
            boundary
        } else {
            summaries.len()
        };
        assert(selected_rows(summaries, boundary) =~= Seq::new(
            count,
            |i: int| summary_row(summaries[i]),
        ));
    } else {
        assert(selected_rows(summaries, boundary) =~= Seq::new(
            0,
            |i: int| summary_row(summaries[i]),
        ));
    }
}

/// A conversation with any messages opens with some of them selected, and one with more than four
/// with no more than half.
pub proof fn law_initial_selection(count: nat)
    ensures
        initial_boundary(count) <= count,
        count > 0 ==> initial_boundary(count) > 0,
        count > 4 ==> 2 <= initial_boundary(count) && 2 * initial_boundary(count) <= count,
{
}

} // verus!
