//! The dialog in which the paths with rules are switched on and off, or removed.

use crate::form;
use crate::form::{Button, MenuAction, ToggleState};
use crate::json;
use crate::json::{Json, JsonView};
use crate::rules;
use crate::rules::RulesDirectoryEntry;
use crate::text;
use vstd::prelude::*;
use vstd::string::*;

verus! {

/// The key of the paths with rules in the settings of a project.
pub const RULES_KEY: &'static str = "rules_directories";

/// What a [`RulesDirectoryEntry`] stands for.
pub struct EntryView {
    pub path: Seq<char>,
    pub enabled: Option<bool>,
}

impl View for RulesDirectoryEntry {
    type V = EntryView;

    open spec fn view(&self) -> EntryView {
        EntryView { path: self.path@, enabled: self.enabled }
    }
}

/// The entries that a sequence stands for.
pub open spec fn entry_views(entries: Seq<RulesDirectoryEntry>) -> Seq<EntryView> {
    entries.map_values(|entry: RulesDirectoryEntry| entry@)
}

/// A visible worktree, with the entries that are configured for it.
#[derive(Debug, PartialEq)]
pub struct VisibleWorktree {
    pub id: u64,
    pub abs_path: String,
    pub rules_directories: Vec<RulesDirectoryEntry>,
}

/// The dialog in which the paths with rules are switched on and off, or removed.
#[derive(Debug, PartialEq)]
pub struct RulesDirectorySettingsModal {
    pub entries: Vec<RulesDirectoryEntry>,
    pub worktree_abs_path: String,
    pub worktree_id: u64,
}

/// What the buttons of the dialog do.
#[derive(Debug, Clone, Copy, PartialEq, Eq, Structural)]
pub enum RulesAction {
    Cancel,
    ToggleEntry { index: usize },
    RemoveEntry { index: usize },
}

/// An entry after it was switched.
pub open spec fn switched(entry: EntryView) -> EntryView {
    EntryView { enabled: Some(!rules::entry_enabled(entry.enabled)), ..entry }
}

/// The entries after the one at `index`, where there is one, was switched.
pub open spec fn switched_at(entries: Seq<EntryView>, index: int) -> Seq<EntryView> {
    if 0 <= index < entries.len() {
        entries.update(index, switched(entries[index]))
    } else {
        entries
    }
}

/// The entries after the one at `index`, where there is one, was removed.
pub open spec fn removed_at(entries: Seq<EntryView>, index: int) -> Seq<EntryView> {
    if 0 <= index < entries.len() {
        entries.remove(index)
    } else {
        entries
    }
}

/// The settings of a project with the given entries, which `entries_json` is the form of. Only an
/// object can hold them; where there are none, their key is taken out.
pub open spec fn edited_settings(
    settings: JsonView,
    no_entries: bool,
    entries_json: JsonView,
) -> JsonView {
    match settings {
        JsonView::Object(members) => JsonView::Object(
            if no_entries {
                json::without_member(members, RULES_KEY@)
            } else {
                json::with_member(members, RULES_KEY@, entries_json)
            },
        ),
        _ => settings,
    }
}

/// Writes entries to the settings of a project, in the form `entries_json`, and tells whether the
/// settings could take them.
pub fn save_to_settings(
    entries: &Vec<RulesDirectoryEntry>,
    entries_json: Json,
    settings: &mut Json,
) -> (saved: bool)
    ensures
        saved == (old(settings)@ is Object),
        final(settings)@ == edited_settings(
            old(settings)@,
            entries@.len() == 0,
            entries_json@,
        ),
{
    match settings {
        Json::Object(members) => {
            proof {
                json::lemma_object_view(*members);
            }
            if entries.len() == 0 {
                json::remove_member(members, RULES_KEY);
            } else {
                json::insert_member(members, RULES_KEY.to_owned(), entries_json);
            }
            proof {
                json::lemma_object_view(*members);
            }
            true
        },
        _ => false,
    }
}

/// Writes entries to the settings of a project, read and written through `serde_json`.
pub fn save_to_settings_value(
    entries: &Vec<RulesDirectoryEntry>,
    entries_json: serde_json::Value,
    settings: serde_json::Value,
) -> (edited: (bool, serde_json::Value))
    ensures
        edited.0 == (json::json_value(settings) is Object),
        json::json_value(edited.1) == edited_settings(
            json::json_value(settings),
            entries@.len() == 0,
            json::json_value(entries_json),
        ),
{
    let mut document = json::from_value(settings);
    let ghost before = document@;
    let entries_json = json::from_value(entries_json);
    proof {
        law_edited_settings(before, entries@.len() == 0, entries_json@);
    }
    let saved: bool = save_to_settings(entries, entries_json, &mut document);
    (saved, json::to_value(&document))
}

/// A line of the list of entries.
#[derive(Debug, PartialEq)]
pub struct RuleRow<'a> {
    pub path: &'a str,
    /// Whether the path is shown as being of no effect.
    pub muted: bool,
    pub switch_id: String,
    pub switch_state: ToggleState,
    pub switch_action: RulesAction,
    pub remove_id: String,
    pub remove_action: RulesAction,
}

/// Whether a line is the one for an entry at its index.
pub open spec fn shows_entry(row: RuleRow<'_>, entry: RulesDirectoryEntry, index: usize) -> bool {
    let enabled = rules::entry_enabled(entry.enabled);
    &&& row.path@ == entry.path@
    &&& row.muted == !enabled
    &&& row.switch_id@ == "toggle-"@ + text::decimal(index as nat)
    &&& row.switch_state == form::toggle_state(enabled)
    &&& row.switch_action == RulesAction::ToggleEntry { index }
    &&& row.remove_id@ == "remove-"@ + text::decimal(index as nat)
    &&& row.remove_action == RulesAction::RemoveEntry { index }
}

/// The middle part of the dialog.
#[derive(Debug, PartialEq)]
pub enum RulesContent<'a> {
    Empty { note: &'static str, hint: &'static str },
    Entries(Vec<RuleRow<'a>>),
}

/// What the dialog shows.
#[derive(Debug, PartialEq)]
pub struct RulesForm<'a> {
    pub headline: &'static str,
    pub description: &'static str,
    pub content: RulesContent<'a>,
    pub close: Button<RulesAction>,
}

/// Whether `shown` is what a dialog shows.
pub open spec fn shows_modal(shown: RulesForm<'_>, modal: RulesDirectorySettingsModal) -> bool {
    &&& shown.headline@ == "Rule Directories"@
    &&& shown.description@
        == "Directories scanned for rule files (.md, .txt, .mdc) included in agent context. Right-click in the Project Panel to add more."@
    &&& match shown.content {
        RulesContent::Empty { note, hint } => {
            &&& modal.entries@.len() == 0
            &&& note@ == "No rule directories configured."@
            &&& hint@ == "Right-click a folder in the Project Panel to add."@
        },
        RulesContent::Entries(rows) => {
            &&& modal.entries@.len() > 0
            &&& rows@.len() == modal.entries@.len()
            &&& forall|i: int|
                0 <= i < rows@.len() ==> shows_entry(
                    #[trigger] rows@[i],
                    modal.entries@[i],
                    i as usize,
                )
        },
    }
    &&& shown.close@ == form::keyed_button(
        "close-btn"@,
        "Close"@,
        MenuAction::Cancel,
        RulesAction::Cancel,
    )
}

fn same_entries(left: &Vec<RulesDirectoryEntry>, right: &Vec<RulesDirectoryEntry>) -> (same: bool)
    ensures
        same == (entry_views(left@) == entry_views(right@)),
{
    let ghost left_views = entry_views(left@);
    let ghost right_views = entry_views(right@);
    if left.len() != right.len() {
        assert(left_views.len() != right_views.len());
        return false;
    }
    let mut i: usize = 0;
    while i < left.len()
        invariant
            i <= left@.len() == right@.len(),
            left_views == entry_views(left@),
            right_views == entry_views(right@),
            forall|j: int| 0 <= j < i ==> #[trigger] left_views[j] == right_views[j],
        decreases left.len() - i,
    {
        assert(left_views[i as int] == left@[i as int]@);
        assert(right_views[i as int] == right@[i as int]@);
        let same_path: bool = text::same_text(left[i].path.as_str(), right[i].path.as_str());
        if !same_path || left[i].enabled != right[i].enabled {
            return false;
        }
        i = i + 1;
    }
    assert(left_views =~= right_views);
    true
}

impl RulesDirectorySettingsModal {
    /// Whether this is the dialog for a worktree.
    pub open spec fn is_for(self, worktree: VisibleWorktree) -> bool {
        &&& self.entries == worktree.rules_directories
        &&& self.worktree_abs_path == worktree.abs_path
        &&& self.worktree_id == worktree.id
    }

    /// The dialog that opens for the first of the visible worktrees, where there is any.
    pub fn toggle(first_worktree: Option<VisibleWorktree>) -> (modal: Option<Self>)
        ensures
            match first_worktree {
                Some(worktree) => modal is Some && modal->0.is_for(worktree),
                None => modal is None,
            },
    {
        match first_worktree {
            Some(worktree) => Some(RulesDirectorySettingsModal::new(worktree)),
            None => None,
        }
    }

    /// The dialog for a worktree.
    pub fn new(worktree: VisibleWorktree) -> (modal: Self)
        ensures
            modal.is_for(worktree),
    {
        RulesDirectorySettingsModal {
            entries: worktree.rules_directories,
            worktree_abs_path: worktree.abs_path,
            worktree_id: worktree.id,
        }
    }

    /// Takes over the entries from changed settings, and tells whether they differ from those
    /// shown.
    pub fn settings_changed(&mut self, new_entries: Vec<RulesDirectoryEntry>) -> (changed: bool)
        ensures
            changed == (entry_views(old(self).entries@) != entry_views(new_entries@)),
            entry_views(final(self).entries@) == entry_views(new_entries@),
            final(self).worktree_abs_path == old(self).worktree_abs_path,
            final(self).worktree_id == old(self).worktree_id,
    {
        if same_entries(&self.entries, &new_entries) {
            false
        } else {
            self.entries = new_entries;
            true
        }
    }

    /// Switches an entry, and tells whether the entries have to be saved: they do where there is
    /// such an entry.
    pub fn toggle_entry(&mut self, index: usize) -> (saves: bool)
        ensures
            saves == (index < old(self).entries@.len()),
            entry_views(final(self).entries@) == switched_at(
                entry_views(old(self).entries@),
                index as int,
            ),
            final(self).worktree_abs_path == old(self).worktree_abs_path,
            final(self).worktree_id == old(self).worktree_id,
    {
        let ghost before = entry_views(self.entries@);
        if index < self.entries.len() {
            let entry = &mut self.entries[index];
            let current: bool = entry.enabled.unwrap_or(true);
            entry.enabled = Some(!current);
            assert(entry_views(self.entries@) =~= switched_at(before, index as int));
            true
        } else {
            false
        }
    }

    /// Removes an entry, and tells whether the entries have to be saved: they do where there was
    /// such an entry.
    pub fn remove_entry(&mut self, index: usize) -> (saves: bool)
        ensures
            saves == (index < old(self).entries@.len()),
            entry_views(final(self).entries@) == removed_at(
                entry_views(old(self).entries@),
                index as int,
            ),
            final(self).worktree_abs_path == old(self).worktree_abs_path,
            final(self).worktree_id == old(self).worktree_id,
    {
        let ghost before = entry_views(self.entries@);
        if index < self.entries.len() {
            self.entries.remove(index);
            assert(entry_views(self.entries@) =~= removed_at(before, index as int));
            true
        } else {
            false
        }
    }

    /// What the dialog shows.
    pub fn render(&self) -> (shown: RulesForm<'_>)
        ensures
            shows_modal(shown, *self),
    {
        let content = if self.entries.len() == 0 {
            RulesContent::Empty {
                note: "No rule directories configured.",
                hint: "Right-click a folder in the Project Panel to add.",
            }
        } else {
            let mut rows: Vec<RuleRow<'_>> = Vec::new();
            let mut i: usize = 0;
            while i < self.entries.len()
                invariant
                    i <= self.entries@.len(),
                    rows@.len() == i,
                    forall|j: int|
                        0 <= j < i ==> shows_entry(
                            #[trigger] rows@[j],
                            self.entries@[j],
                            j as usize,
                        ),
                decreases self.entries.len() - i,
            {
                let entry = &self.entries[i];
                let enabled: bool = entry.enabled.unwrap_or(true);
                let mut switch_id = "toggle-".to_owned();
                switch_id.append(text::usize_to_string(i).as_str());
                let mut remove_id = "remove-".to_owned();
                remove_id.append(text::usize_to_string(i).as_str());
                rows.push(
                    RuleRow {
                        path: entry.path.as_str(),
                        muted: !enabled,
                        switch_id,
                        switch_state: ToggleState::from(enabled),
                        switch_action: RulesAction::ToggleEntry { index: i },
                        remove_id,
                        remove_action: RulesAction::RemoveEntry { index: i },
                    },
                );
                i = i + 1;
            }
            RulesContent::Entries(rows)
        };
        RulesForm {
            headline: "Rule Directories",
            description:
                "Directories scanned for rule files (.md, .txt, .mdc) included in agent context. Right-click in the Project Panel to add more.",
            content,
            close: form::make_keyed_button(
                "close-btn",
                "Close",
                MenuAction::Cancel,
                RulesAction::Cancel,
            ),
        }
    }
}

/// Switching an entry changes whether it is on; switching it twice leaves it as it was in effect.
/// Its path and all other entries stay.
pub proof fn law_switching(entries: Seq<EntryView>, index: int, other: int)
    requires
        0 <= index < entries.len(),
        0 <= other < entries.len(),
    ensures
        ({
            let once = switched_at(entries, index);
            let twice = switched_at(once, index);
            &&& once.len() == entries.len()
            &&& rules::entry_enabled(once[index].enabled) == !rules::entry_enabled(
                entries[index].enabled,
            )
            &&& rules::entry_enabled(twice[index].enabled) == rules::entry_enabled(
                entries[index].enabled,
            )
            &&& once[index].path == entries[index].path
            &&& other != index ==> once[other] == entries[other]
        }),
{
}

/// Removing an entry removes it alone; the others keep their order.
pub proof fn law_removing(entries: Seq<EntryView>, index: int)
    requires
        0 <= index < entries.len(),
    ensures
        removed_at(entries, index) == entries.take(index) + entries.skip(index + 1),
{
    assert(removed_at(entries, index) =~= entries.take(index) + entries.skip(index + 1));
}

/// The index of a key that is there is the index of the member with it.
proof fn lemma_key_index(members: Seq<(Seq<char>, JsonView)>, key: Seq<char>)
    ensures
        ({
            let index = json::key_index(members, key) as int;
            &&& index <= members.len()
            &&& index < members.len() ==> members[index].0 == key
            &&& forall|i: int| 0 <= i < index ==> (#[trigger] members[i]).0 != key
            &&& index < members.len() ==> json::find_member(members, key) == Some(
                members[index].1,
            )
            &&& index == members.len() ==> json::find_member(members, key) is None
        }),
    decreases members.len(),
{
    if members.len() > 0 && members[0].0 != key {
        let rest = members.drop_first();
        lemma_key_index(rest, key);
        let index = json::key_index(members, key) as int;
        assert forall|i: int| 0 <= i < index implies (#[trigger] members[i]).0 != key by {
            if i > 0 {
                assert(rest[i - 1] == members[i]);
            }
        }
    }
}

/// With distinct keys, the member with a key is the one that is found.
proof fn lemma_member_found(members: Seq<(Seq<char>, JsonView)>, index: int)
    requires
        json::distinct_keys(members),
        0 <= index < members.len(),
    ensures
        json::find_member(members, members[index].0) == Some(members[index].1),
{
    let key = members[index].0;
    lemma_key_index(members, key);
    let first = json::key_index(members, key) as int;
    if first < index {
        assert(members[first].0 != members[index].0);
    }
    if first > index {
        assert(members[index].0 != key);
    }
}

/// Editing keeps settings well formed.
pub proof fn law_edited_settings(settings: JsonView, no_entries: bool, entries_json: JsonView)
    requires
        json::well_formed(settings),
        json::well_formed(entries_json),
    ensures
        json::well_formed(edited_settings(settings, no_entries, entries_json)),
{
    if let JsonView::Object(members) = settings {
        let key = RULES_KEY@;
        lemma_key_index(members, key);
        let index = json::key_index(members, key) as int;
        let edited = edited_settings(settings, no_entries, entries_json)->Object_0;
        assert(json::distinct_keys(edited)) by {
            assert forall|i: int, j: int| 0 <= i < j < edited.len() implies (
            #[trigger] edited[i]).0 != (#[trigger] edited[j]).0 by {
                let last = members.len() - 1;
                if no_entries && index < members.len() {
                    let left = if i == index {
                        last
                    } else {
                        i
                    };
                    let right = if j == index {
                        last
                    } else {
                        j
                    };
                    assert(edited[i] == members[left]);
                    assert(edited[j] == members[right]);
                    if left < right {
                        assert(members[left].0 != members[right].0);
                    } else {
                        assert(members[right].0 != members[left].0);
                    }
                } else if i < members.len() && j < members.len() {
                    assert(members[i].0 != members[j].0);
                }
            }
        }
        assert forall|i: int| 0 <= i < edited.len() implies json::well_formed(
            (#[trigger] edited[i]).1,
        ) by {
            if i < members.len() {
                assert(json::well_formed(members[i].1));
            }
            if members.len() > 0 {
                assert(json::well_formed(members[members.len() - 1].1));
            }
        }
    }
}

/// What was saved is what the settings hold: the entries under their key, or nothing there where
/// there are none. What is under any other key stays.
pub proof fn law_saved_entries_are_read_back(
    settings: JsonView,
    no_entries: bool,
    entries_json: JsonView,
    other: Seq<char>,
)
    requires
        json::well_formed(settings),
        settings is Object,
    ensures
        ({
            let edited = edited_settings(settings, no_entries, entries_json);
            &&& json::member(edited, RULES_KEY@) == if no_entries {
                None
            } else {
                Some(entries_json)
            }
            &&& other != RULES_KEY@ ==> json::member(edited, other) == json::member(
                settings,
                other,
            )
        }),
{
    let members = settings->Object_0;
    let key = RULES_KEY@;
    let edited = edited_settings(settings, no_entries, entries_json)->Object_0;
    let index = json::key_index(members, key) as int;
    let last = members.len() - 1;
    lemma_key_index(members, key);
    lemma_key_index(members, other);
    lemma_key_index(edited, key);
    lemma_key_index(edited, other);
    let found = json::key_index(edited, key) as int;
    let before = json::key_index(members, other) as int;
    let after = json::key_index(edited, other) as int;
    if no_entries {
        if found < edited.len() && index < members.len() {
            let origin = if found == index {
                last
            } else {
                found
            };
            assert(edited[found] == members[origin]);
            if origin < index {
                assert(members[origin].0 != members[index].0);
            } else {
                assert(members[index].0 != members[origin].0);
            }
        }
    } else {
        if index < members.len() {
            assert(edited[index] == (key, entries_json));
        } else {
            assert(edited[members.len() as int] == (key, entries_json));
        }
        if found < index {
            assert(edited[found] == members[found]);
        }
    }
    if other != key {
        // The member under the other key, as it is found after and before.
        if after < edited.len() {
            let origin = if no_entries && index < members.len() && after == index {
                last
            } else {
                after
            };
            assert(edited[after] == members[origin]);
            lemma_member_found(members, origin);
        } else if before < members.len() {
            let position = if no_entries && index < members.len() && before == last {
                index
            } else {
                before
            };
            assert(edited[position] == members[before]);
            assert(edited[position].0 != other);
        }
    }
}

} // verus!
