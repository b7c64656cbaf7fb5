//! The parts that forms are made of: text fields, check boxes and buttons.

use vstd::prelude::*;
use vstd::string::*;

verus! {

/// The state of a check box or a switch.
#[derive(Debug, Clone, Copy, PartialEq, Eq, Structural)]
pub enum ToggleState {
    Unselected,
    Indeterminate,
    Selected,
}

/// The state that shows a truth value.
pub open spec fn toggle_state(on: bool) -> ToggleState {
    if on {
        ToggleState::Selected
    } else {
        ToggleState::Unselected
    }
}

impl vstd::std_specs::convert::FromSpecImpl<bool> for ToggleState {
    open spec fn obeys_from_spec() -> bool {
        true
    }

    open spec fn from_spec(on: bool) -> Self {
        toggle_state(on)
    }
}

impl From<bool> for ToggleState {
    fn from(on: bool) -> (state: Self) {
        if on {
            ToggleState::Selected
        } else {
            ToggleState::Unselected
        }
    }
}

impl ToggleState {
    /// Whether this state is [`ToggleState::Selected`].
    pub fn selected(&self) -> (result: bool)
        ensures
            result == (*self == ToggleState::Selected),
    {
        match self {
            ToggleState::Selected => true,
            ToggleState::Unselected => false,
            ToggleState::Indeterminate => false,
        }
    }
}

/// A field for one line of text.
#[derive(Debug, PartialEq)]
pub struct InputField {
    /// What the field shows while it is empty.
    pub placeholder: String,
    pub label: Option<String>,
    /// The position in the order in which the tab key goes through a form.
    pub tab_index: Option<isize>,
    pub tab_stop: bool,
    /// Whether the text is hidden from view.
    pub masked: bool,
    pub text: String,
}

/// What an [`InputField`] stands for.
pub struct FieldView {
    pub placeholder: Seq<char>,
    pub label: Option<Seq<char>>,
    pub tab_index: Option<int>,
    pub tab_stop: bool,
    pub masked: bool,
    pub text: Seq<char>,
}

impl View for InputField {
    type V = FieldView;

    open spec fn view(&self) -> FieldView {
        FieldView {
            placeholder: self.placeholder@,
            label: match self.label {
                Some(label) => Some(label@),
                None => None,
            },
            tab_index: match self.tab_index {
                Some(index) => Some(index as int),
                None => None,
            },
            tab_stop: self.tab_stop,
            masked: self.masked,
            text: self.text@,
        }
    }
}

impl FieldView {
    /// This field with another text in it.
    pub open spec fn with_text(self, text: Seq<char>) -> FieldView {
        FieldView { text, ..self }
    }
}

impl InputField {
    /// Puts a text into the field.
    pub fn set_text(&mut self, text: &str)
        ensures
            final(self)@ == old(self)@.with_text(text@),
    {
        self.text = text.to_owned();
    }
}

/// A labelled field at a position in the tab order, with a text where there is one.
pub open spec fn single_line_field(
    label: Seq<char>,
    placeholder: Seq<char>,
    text: Option<Seq<char>>,
    tab_index: int,
) -> FieldView {
    FieldView {
        placeholder,
        label: Some(label),
        tab_index: Some(tab_index),
        tab_stop: true,
        masked: false,
        text: match text {
            Some(text) => text,
            None => Seq::empty(),
        },
    }
}

/// A labelled field at a position in the tab order, with a text where there is one.
pub fn single_line_input(
    label: &str,
    placeholder: &str,
    text: Option<&str>,
    tab_index: isize,
) -> (field: InputField)
    ensures
        field@ == single_line_field(
            label@,
            placeholder@,
            match text {
                Some(text) => Some(text@),
                None => None,
            },
            tab_index as int,
        ),
{
    let field = InputField {
        placeholder: placeholder.to_owned(),
        label: Some(label.to_owned()),
        tab_index: Some(tab_index),
        tab_stop: true,
        masked: false,
        text: match text {
            Some(text) => text.to_owned(),
            None => String::new(),
        },
    };
    assert(text is None ==> field@.text =~= Seq::empty());
    field
}

/// A labelled field for a secret.
pub open spec fn secret_field(
    label: Seq<char>,
    placeholder: Seq<char>,
    tab_index: int,
) -> FieldView {
    FieldView { masked: true, ..single_line_field(label, placeholder, None, tab_index) }
}

/// A labelled field for a secret.
pub fn secret_input(label: &str, placeholder: &str, tab_index: isize) -> (field: InputField)
    ensures
        field@ == secret_field(label@, placeholder@, tab_index as int),
{
    let mut field = single_line_input(label, placeholder, None, tab_index);
    field.masked = true;
    field
}

/// A labelled field that the tab key reaches in the order of the form.
pub open spec fn plain_field(
    label: Option<Seq<char>>,
    placeholder: Seq<char>,
    text: Seq<char>,
) -> FieldView {
    FieldView { placeholder, label, tab_index: None, tab_stop: true, masked: false, text }
}

/// A field that the tab key reaches in the order of the form.
pub fn plain_input(label: Option<&str>, placeholder: &str, text: &str) -> (field: InputField)
    ensures
        field@ == plain_field(
            match label {
                Some(label) => Some(label@),
                None => None,
            },
            placeholder@,
            text@,
        ),
{
    InputField {
        placeholder: placeholder.to_owned(),
        label: match label {
            Some(label) => Some(label.to_owned()),
            None => None,
        },
        tab_index: None,
        tab_stop: true,
        masked: false,
        text: text.to_owned(),
    }
}

/// How a button looks.
#[derive(Debug, Clone, Copy, PartialEq, Eq, Structural)]
pub enum ButtonStyle {
    Subtle,
    Filled,
    Outlined,
}

/// The actions of a menu that keys are bound to.
#[derive(Debug, Clone, Copy, PartialEq, Eq, Structural)]
pub enum MenuAction {
    Cancel,
    Confirm,
}

/// A button, with what a click on it does.
#[derive(Debug, PartialEq)]
pub struct Button<Action> {
    pub id: &'static str,
    /// Which of several buttons with the same id this is.
    pub index: Option<usize>,
    pub label: &'static str,
    pub style: ButtonStyle,
    pub disabled: bool,
    /// The menu action whose key is shown on the button.
    pub key: Option<MenuAction>,
    pub action: Action,
}

/// What a [`Button`] stands for.
pub struct ButtonView<Action> {
    pub id: Seq<char>,
    pub index: Option<usize>,
    pub label: Seq<char>,
    pub style: ButtonStyle,
    pub disabled: bool,
    pub key: Option<MenuAction>,
    pub action: Action,
}

impl<Action> View for Button<Action> {
    type V = ButtonView<Action>;

    open spec fn view(&self) -> ButtonView<Action> {
        ButtonView {
            id: self.id@,
            index: self.index,
            label: self.label@,
            style: self.style,
            disabled: self.disabled,
            key: self.key,
            action: self.action,
        }
    }
}

/// The buttons that a sequence stands for.
pub open spec fn button_views<Action>(buttons: Seq<Button<Action>>) -> Seq<ButtonView<Action>> {
    buttons.map_values(|button: Button<Action>| button@)
}

/// A button that is enabled and has no key.
pub open spec fn simple_button<Action>(
    id: Seq<char>,
    label: Seq<char>,
    style: ButtonStyle,
    action: Action,
) -> ButtonView<Action> {
    ButtonView { id, index: None, label, style, disabled: false, key: None, action }
}

/// A button that is enabled and has no key.
pub fn make_button<Action>(
    id: &'static str,
    label: &'static str,
    style: ButtonStyle,
    action: Action,
) -> (button: Button<Action>)
    ensures
        button@ == simple_button(id@, label@, style, action),
{
    Button { id, index: None, label, style, disabled: false, key: None, action }
}

/// A button that shows the key of a menu action.
pub open spec fn keyed_button<Action>(
    id: Seq<char>,
    label: Seq<char>,
    key: MenuAction,
    action: Action,
) -> ButtonView<Action> {
    ButtonView { key: Some(key), ..simple_button(id, label, ButtonStyle::Subtle, action) }
}

/// A button that shows the key of a menu action.
pub fn make_keyed_button<Action>(
    id: &'static str,
    label: &'static str,
    key: MenuAction,
    action: Action,
) -> (button: Button<Action>)
    ensures
        button@ == keyed_button(id@, label@, key, action),
{
    Button {
        id,
        index: None,
        label,
        style: ButtonStyle::Subtle,
        disabled: false,
        key: Some(key),
        action,
    }
}

} // verus!
