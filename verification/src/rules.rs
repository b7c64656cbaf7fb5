//! Rule files: which files under the configured paths accompany a conversation, and how their
//! texts are gathered.
//!
//! A scan decides which file to read next and what becomes of its text; reading is the caller's.

use crate::text;
use vstd::prelude::*;
use vstd::string::*;

verus! {

/// The most bytes of rule texts that are gathered.
pub const MAX_TOTAL_CHARS: usize = 200_000;

/// A configured path with rules, enabled unless it says otherwise.
#[derive(Debug, PartialEq)]
pub struct RulesDirectoryEntry {
    pub path: String,
    pub enabled: Option<bool>,
}

/// A file of a worktree.
#[derive(Debug, PartialEq)]
pub struct WorktreeFile {
    pub path: String,
    pub extension: Option<String>,
}

/// An entry right below a directory of a worktree.
#[derive(Debug, PartialEq)]
pub struct ChildEntry {
    pub is_file: bool,
    pub file: WorktreeFile,
}

/// What a worktree holds at a path.
#[derive(Debug, PartialEq)]
pub enum WorktreeEntry {
    File(WorktreeFile),
    Directory(Vec<ChildEntry>),
    Other,
}

/// A configured path together with what lies there. Nothing lies at a path that is not a valid
/// relative path.
#[derive(Debug, PartialEq)]
pub struct ConfiguredPath {
    pub entry: RulesDirectoryEntry,
    pub target: Option<WorktreeEntry>,
}

/// A visible worktree with the paths that are configured for it.
#[derive(Debug, PartialEq)]
pub struct RulesWorktree {
    pub id: u64,
    pub root_name: String,
    pub paths: Vec<ConfiguredPath>,
}

/// A rule file to read.
#[derive(Debug, PartialEq)]
pub struct RuleFile {
    pub worktree_id: u64,
    pub path: String,
    pub directory_path: String,
    pub worktree_root_name: String,
}

/// What a [`RuleFile`] stands for.
pub struct RuleFileView {
    pub worktree_id: u64,
    pub path: Seq<char>,
    pub directory_path: Seq<char>,
    pub worktree_root_name: Seq<char>,
}

impl View for RuleFile {
    type V = RuleFileView;

    open spec fn view(&self) -> RuleFileView {
        RuleFileView {
            worktree_id: self.worktree_id,
            path: self.path@,
            directory_path: self.directory_path@,
            worktree_root_name: self.worktree_root_name@,
        }
    }
}

/// The files that a sequence of rule files stands for.
pub open spec fn file_views(files: Seq<RuleFile>) -> Seq<RuleFileView> {
    files.map_values(|file: RuleFile| file@)
}

/// Whether an entry is switched on: it is, unless it says otherwise.
pub open spec fn entry_enabled(enabled: Option<bool>) -> bool {
    match enabled {
        Some(enabled) => enabled,
        None => true,
    }
}

/// Whether files with this extension are rule files.
pub open spec fn rule_extension(extension: Option<String>) -> bool {
    extension matches Some(extension) && {
        ||| extension@ == "md"@
        ||| extension@ == "txt"@
        ||| extension@ == "mdc"@
    }
}

/// The rule file that a file under a configured path is.
pub open spec fn rule_file(
    worktree: RulesWorktree,
    entry: RulesDirectoryEntry,
    file: WorktreeFile,
) -> RuleFileView {
    RuleFileView {
        worktree_id: worktree.id,
        path: file.path@,
        directory_path: entry.path@,
        worktree_root_name: worktree.root_name@,
    }
}

/// The rule files among the entries of a directory, in their order.
pub open spec fn child_files(
    worktree: RulesWorktree,
    entry: RulesDirectoryEntry,
    children: Seq<ChildEntry>,
) -> Seq<RuleFileView>
    decreases children.len(),
{
    if children.len() == 0 {
        Seq::empty()
    } else {
        let before = child_files(worktree, entry, children.drop_last());
        let child = children.last();
        if child.is_file && rule_extension(child.file.extension) {
            before.push(rule_file(worktree, entry, child.file))
        } else {
            before
        }
    }
}

/// The rule files at a configured path.
pub open spec fn path_files(worktree: RulesWorktree, path: ConfiguredPath) -> Seq<RuleFileView> {
    if !entry_enabled(path.entry.enabled) {
        Seq::empty()
    } else {
        match path.target {
            Some(WorktreeEntry::File(file)) => if rule_extension(file.extension) {
                seq![rule_file(worktree, path.entry, file)]
            } else {
                Seq::empty()
            },
            Some(WorktreeEntry::Directory(children)) => child_files(
                worktree,
                path.entry,
                children@,
            ),
            Some(WorktreeEntry::Other) => Seq::empty(),
            None => Seq::empty(),
        }
    }
}

/// The rule files at the configured paths of a worktree, one path after the other.
pub open spec fn worktree_files(worktree: RulesWorktree, paths: Seq<ConfiguredPath>) -> Seq<
    RuleFileView,
>
    decreases paths.len(),
{
    if paths.len() == 0 {
        Seq::empty()
    } else {
        worktree_files(worktree, paths.drop_last()) + path_files(worktree, paths.last())
    }
}

/// The rule files of all worktrees, one worktree after the other.
pub open spec fn candidate_files(worktrees: Seq<RulesWorktree>) -> Seq<RuleFileView>
    decreases worktrees.len(),
{
    if worktrees.len() == 0 {
        Seq::empty()
    } else {
        let worktree = worktrees.last();
        candidate_files(worktrees.drop_last()) + worktree_files(worktree, worktree.paths@)
    }
}

/// Whether two rule files are the same file of the same worktree.
pub open spec fn same_file(left: RuleFileView, right: RuleFileView) -> bool {
    left.worktree_id == right.worktree_id && left.path == right.path
}

/// Whether `file` is among `files`.
pub open spec fn has_file(files: Seq<RuleFileView>, file: RuleFileView) -> bool {
    exists|i: int| 0 <= i < files.len() && same_file(#[trigger] files[i], file)
}

/// `files` without those that occurred before.
pub open spec fn first_occurrences(files: Seq<RuleFileView>) -> Seq<RuleFileView>
    decreases files.len(),
{
    if files.len() == 0 {
        Seq::empty()
    } else {
        let before = first_occurrences(files.drop_last());
        if has_file(before, files.last()) {
            before
        } else {
            before.push(files.last())
        }
    }
}

/// Whether files with this extension are rule files.
fn is_rule_extension(extension: &Option<String>) -> (result: bool)
    ensures
        result == rule_extension(*extension),
{
    match extension {
        Some(extension) => {
            let extension = extension.as_str();
            text::same_text(extension, "md") || text::same_text(extension, "txt")
                || text::same_text(extension, "mdc")
        },
        None => false,
    }
}

fn make_rule_file(
    worktree: &RulesWorktree,
    entry: &RulesDirectoryEntry,
    file: &WorktreeFile,
) -> (rule: RuleFile)
    ensures
        rule@ == rule_file(*worktree, *entry, *file),
{
    RuleFile {
        worktree_id: worktree.id,
        path: file.path.clone(),
        directory_path: entry.path.clone(),
        worktree_root_name: worktree.root_name.clone(),
    }
}

/// Appends the rule files at a configured path.
fn push_path_files(files: &mut Vec<RuleFile>, worktree: &RulesWorktree, path: &ConfiguredPath)
    ensures
        file_views(final(files)@) == file_views(old(files)@) + path_files(*worktree, *path),
{
    let ghost before = file_views(files@);
    if !path.entry.enabled.unwrap_or(true) {
        assert(before + Seq::<RuleFileView>::empty() =~= before);
        return;
    }
    match &path.target {
        Some(WorktreeEntry::File(file)) => {
            if is_rule_extension(&file.extension) {
                files.push(make_rule_file(worktree, &path.entry, file));
            }
        },
        Some(WorktreeEntry::Directory(children)) => {
            let mut i: usize = 0;
            proof {
                assert(children@.take(0) =~= Seq::empty());
                assert(before + child_files(*worktree, path.entry, children@.take(0)) =~= before);
            }
            while i < children.len()
                invariant
                    i <= children@.len(),
                    file_views(files@) == before + child_files(
                        *worktree,
                        path.entry,
                        children@.take(i as int),
                    ),
                decreases children.len() - i,
            {
                let child = &children[i];
                proof {
                    assert(children@.take(i + 1).drop_last() =~= children@.take(i as int));
                    assert(children@.take(i + 1).last() == child);
                }
                if child.is_file && is_rule_extension(&child.file.extension) {
                    let ghost earlier = files@;
                    files.push(make_rule_file(worktree, &path.entry, &child.file));
                    proof {
                        assert(file_views(files@) =~= file_views(earlier).push(files@.last()@));
                        assert(file_views(files@) =~= before + child_files(
                            *worktree,
                            path.entry,
                            children@.take(i + 1),
                        ));
                    }
                }
                i = i + 1;
            }
            assert(children@.take(i as int) =~= children@);
        },
        Some(WorktreeEntry::Other) => {},
        None => {},
    }
    assert(file_views(files@) =~= before + path_files(*worktree, *path));
}

/// The rule files of all worktrees.
fn all_candidates(worktrees: &[RulesWorktree]) -> (files: Vec<RuleFile>)
    ensures
        file_views(files@) == candidate_files(worktrees@),
{
    let mut files: Vec<RuleFile> = Vec::new();
    let mut i: usize = 0;
    proof {
        assert(worktrees@.take(0) =~= Seq::empty());
        assert(file_views(files@) =~= Seq::empty());
    }
    while i < worktrees.len()
        invariant
            i <= worktrees@.len(),
            file_views(files@) == candidate_files(worktrees@.take(i as int)),
        decreases worktrees.len() - i,
    {
        let worktree = &worktrees[i];
        let ghost before = file_views(files@);
        let mut j: usize = 0;
        proof {
            assert(worktree.paths@.take(0) =~= Seq::empty());
            assert(before + worktree_files(*worktree, worktree.paths@.take(0)) =~= before);
        }
        while j < worktree.paths.len()
            invariant
                j <= worktree.paths@.len(),
                file_views(files@) == before + worktree_files(
                    *worktree,
                    worktree.paths@.take(j as int),
                ),
            decreases worktree.paths.len() - j,
        {
            proof {
                assert(worktree.paths@.take(j + 1).drop_last() =~= worktree.paths@.take(j as int));
                assert(worktree.paths@.take(j + 1).last() == worktree.paths@[j as int]);
            }
            let ghost earlier = worktree_files(*worktree, worktree.paths@.take(j as int));
            push_path_files(&mut files, worktree, &worktree.paths[j]);
            proof {
                let added = path_files(*worktree, worktree.paths@[j as int]);
                assert(before + earlier + added =~= before + (earlier + added));
            }
            j = j + 1;
        }
        proof {
            assert(worktree.paths@.take(j as int) =~= worktree.paths@);
            assert(worktrees@.take(i + 1).drop_last() =~= worktrees@.take(i as int));
            assert(worktrees@.take(i + 1).last() == worktree);
        }
        i = i + 1;
    }
    assert(worktrees@.take(i as int) =~= worktrees@);
    files
}

fn contains_file(files: &Vec<RuleFile>, file: &RuleFile) -> (found: bool)
    ensures
        found == has_file(file_views(files@), file@),
{
    let ghost views = file_views(files@);
    let mut i: usize = 0;
    while i < files.len()
        invariant
            i <= files@.len(),
            views == file_views(files@),
            forall|j: int| 0 <= j < i ==> !same_file(#[trigger] views[j], file@),
        decreases files.len() - i,
    {
        assert(views[i as int] == files@[i as int]@);
        if files[i].worktree_id == file.worktree_id && text::same_text(
            files[i].path.as_str(),
            file.path.as_str(),
        ) {
            return true;
        }
        i = i + 1;
    }
    false
}

/// A rule file with its text, as it was gathered.
pub struct GatheredView {
    pub file: RuleFileView,
    pub text: Seq<char>,
}

/// The length in bytes of all gathered texts.
pub open spec fn gathered_len(gathered: Seq<GatheredView>) -> nat
    decreases gathered.len(),
{
    if gathered.len() == 0 {
        0
    } else {
        gathered_len(gathered.drop_last()) + text::utf8_len(gathered.last().text)
    }
}

/// Where a scan stands: the files that are still to be read, and what has been gathered.
pub struct ScanView {
    pub pending: Seq<RuleFileView>,
    pub gathered: Seq<GatheredView>,
}

/// A scan after the first pending file was read, or could not be. Blank texts are left out, and
/// the first text that would exceed the limit ends the scan.
pub open spec fn scan_step(scan: ScanView, contents: Option<Seq<char>>) -> ScanView {
    let rest = scan.pending.drop_first();
    match contents {
        None => ScanView { pending: rest, gathered: scan.gathered },
        Some(contents) => {
            let trimmed = text::trimmed(contents);
            if trimmed.len() == 0 {
                ScanView { pending: rest, gathered: scan.gathered }
            } else if gathered_len(scan.gathered) + text::utf8_len(trimmed) > MAX_TOTAL_CHARS {
                ScanView { pending: Seq::empty(), gathered: scan.gathered }
            } else {
                ScanView {
                    pending: rest,
                    gathered: scan.gathered.push(
                        GatheredView { file: scan.pending[0], text: trimmed },
                    ),
                }
            }
        },
    }
}

/// A rule file as it is handed to the model.
#[derive(Debug, PartialEq)]
pub struct RulesDirFileContext {
    pub path_in_worktree: String,
    pub text: String,
}

/// The rule files under one configured path.
#[derive(Debug, PartialEq)]
pub struct RulesDirContext {
    pub worktree_root_name: String,
    pub directory_path: String,
    pub files: Vec<RulesDirFileContext>,
}

/// What a [`RulesDirContext`] stands for: each file with its path and its text.
pub struct GroupView {
    pub worktree_root_name: Seq<char>,
    pub directory_path: Seq<char>,
    pub files: Seq<(Seq<char>, Seq<char>)>,
}

impl View for RulesDirContext {
    type V = GroupView;

    open spec fn view(&self) -> GroupView {
        GroupView {
            worktree_root_name: self.worktree_root_name@,
            directory_path: self.directory_path@,
            files: self.files@.map_values(
                |file: RulesDirFileContext| (file.path_in_worktree@, file.text@),
            ),
        }
    }
}

/// The groups that a sequence of contexts stands for.
pub open spec fn group_views(groups: Seq<RulesDirContext>) -> Seq<GroupView> {
    groups.map_values(|group: RulesDirContext| group@)
}

/// Whether a file belongs to the group of a directory in a worktree.
pub open spec fn belongs(file: RuleFileView, directory: Seq<char>, root: Seq<char>) -> bool {
    file.directory_path == directory && file.worktree_root_name == root
}

/// The gathered files of one group, in the order in which they were gathered.
pub open spec fn files_under(
    gathered: Seq<GatheredView>,
    directory: Seq<char>,
    root: Seq<char>,
) -> Seq<(Seq<char>, Seq<char>)>
    decreases gathered.len(),
{
    if gathered.len() == 0 {
        Seq::empty()
    } else {
        let before = files_under(gathered.drop_last(), directory, root);
        let last = gathered.last();
        if belongs(last.file, directory, root) {
            before.push((last.file.path, last.text))
        } else {
            before
        }
    }
}

/// The order of groups: by directory, then by the name of the worktree's root.
pub open spec fn key_less(
    directory: Seq<char>,
    root: Seq<char>,
    other_directory: Seq<char>,
    other_root: Seq<char>,
) -> bool {
    ||| text::text_less(directory, other_directory)
    ||| directory == other_directory && text::text_less(root, other_root)
}

/// Whether one group comes before another.
pub open spec fn group_less(left: GroupView, right: GroupView) -> bool {
    key_less(
        left.directory_path,
        left.worktree_root_name,
        right.directory_path,
        right.worktree_root_name,
    )
}

/// Whether some group is the one of a directory in a worktree.
pub open spec fn has_group(groups: Seq<GroupView>, directory: Seq<char>, root: Seq<char>) -> bool {
    exists|i: int|
        0 <= i < groups.len() && (#[trigger] groups[i]).directory_path == directory
            && groups[i].worktree_root_name == root
}

/// Whether the groups come in their order, each once.
pub open spec fn groups_sorted(groups: Seq<GroupView>) -> bool {
    forall|i: int, j: int|
        0 <= i < j < groups.len() ==> group_less(#[trigger] groups[i], #[trigger] groups[j])
}

/// Whether `groups` holds the gathered files by directory and worktree: every file in its group,
/// no group without files, the groups in order.
pub open spec fn is_grouping(groups: Seq<GroupView>, gathered: Seq<GatheredView>) -> bool {
    &&& groups_sorted(groups)
    &&& forall|i: int|
        0 <= i < groups.len() ==> (#[trigger] groups[i]).files == files_under(
            gathered,
            groups[i].directory_path,
            groups[i].worktree_root_name,
        ) && groups[i].files.len() > 0
    &&& forall|i: int|
        0 <= i < gathered.len() ==> has_group(
            groups,
            (#[trigger] gathered[i]).file.directory_path,
            gathered[i].file.worktree_root_name,
        )
}

/// A scan for rule files.
pub struct RulesScan {
    files: Vec<RuleFile>,
    next: usize,
    total_chars: usize,
    groups: Vec<RulesDirContext>,
    gathered: Ghost<Seq<GatheredView>>,
}

impl View for RulesScan {
    type V = ScanView;

    closed spec fn view(&self) -> ScanView {
        ScanView {
            pending: file_views(self.files@).skip(self.next as int),
            gathered: self.gathered@,
        }
    }
}

/// Finds the rule files of the visible worktrees, each file once, and starts a scan of them.
pub fn scan_rules_directories(worktrees: &[RulesWorktree]) -> (scan: RulesScan)
    ensures
        scan.well_formed(),
        scan@.pending == first_occurrences(candidate_files(worktrees@)),
        scan@.gathered == Seq::<GatheredView>::empty(),
{
    let candidates = all_candidates(worktrees);
    let ghost views = candidate_files(worktrees@);
    let mut files: Vec<RuleFile> = Vec::new();
    proof {
        assert(views.take(0) =~= Seq::empty());
        assert(file_views(files@) =~= Seq::empty());
    }
    for file in iter: candidates
        invariant
            iter.seq() == candidates@,
            views == file_views(candidates@),
            file_views(files@) == first_occurrences(views.take(iter.index() as int)),
    {
        proof {
            let index = iter.index() as int;
            assert(views.take(index + 1).drop_last() =~= views.take(index));
            assert(views.take(index + 1).last() == file@);
        }
        if !contains_file(&files, &file) {
            let ghost before = files@;
            files.push(file);
            assert(file_views(files@) =~= file_views(before).push(file@));
        }
    }
    assert(views.take(candidates@.len() as int) =~= views);
    let scan = RulesScan {
        files,
        next: 0,
        total_chars: 0,
        groups: Vec::new(),
        gathered: Ghost(Seq::empty()),
    };
    assert(scan@.pending =~= file_views(files@));
    scan
}

impl RulesScan {
    /// Whether the parts of this scan agree with one another, and the limit is kept.
    pub closed spec fn well_formed(&self) -> bool {
        &&& self.next <= self.files@.len()
        &&& self.total_chars == gathered_len(self.gathered@)
        &&& self.total_chars <= MAX_TOTAL_CHARS
        &&& is_grouping(group_views(self.groups@), self.gathered@)
    }

    /// The file to read next, or `None` where the scan is over.
    pub fn next_file(&self) -> (file: Option<&RuleFile>)
        requires
            self.well_formed(),
        ensures
            match file {
                Some(file) => self@.pending.len() > 0 && file@ == self@.pending[0],
                None => self@.pending.len() == 0,
            },
    {
        if self.next < self.files.len() {
            Some(&self.files[self.next])
        } else {
            None
        }
    }

    /// Takes the contents of the next file into account, or that it could not be read.
    pub fn on_file(&mut self, contents: Option<&str>)
        requires
            old(self).well_formed(),
            old(self)@.pending.len() > 0,
        ensures
            final(self).well_formed(),
            final(self)@ == scan_step(
                old(self)@,
                match contents {
                    Some(contents) => Some(contents@),
                    None => None,
                },
            ),
    {
        let ghost before = self@;
        let current: usize = self.next;
        let count: usize = self.files.len();
        assert(before.pending.drop_first() =~= file_views(self.files@).skip(current + 1));
        assert(before.pending[0] == self.files@[current as int]@);
        self.next = current + 1;
        let contents = match contents {
            Some(contents) => contents,
            None => return,
        };
        let rest = contents.trim();
        if rest.is_empty() {
            return;
        }
        let len: usize = text::byte_len(rest);
        if len > MAX_TOTAL_CHARS || self.total_chars > MAX_TOTAL_CHARS - len {
            self.next = count;
            assert(self@.pending =~= Seq::empty());
            return;
        }
        self.total_chars = self.total_chars + len;
        let file = &self.files[current];
        let ghost added = GatheredView { file: file@, text: rest@ };
        let ghost gathered = self.gathered@;
        let context = RulesDirFileContext {
            path_in_worktree: file.path.clone(),
            text: rest.to_owned(),
        };
        add_to_groups(
            &mut self.groups,
            file.directory_path.as_str(),
            file.worktree_root_name.as_str(),
            context,
            Ghost(gathered),
            Ghost(added),
        );
        proof {
            assert(gathered.push(added).drop_last() =~= gathered);
        }
        self.gathered = Ghost(gathered.push(added));
    }

    /// What was gathered, by directory and worktree.
    pub fn finish(self) -> (groups: Vec<RulesDirContext>)
        requires
            self.well_formed(),
        ensures
            is_grouping(group_views(groups@), self@.gathered),
            gathered_len(self@.gathered) <= MAX_TOTAL_CHARS,
    {
        self.groups
    }
}

/// Whether a group comes before the one of a directory in a worktree.
fn comes_before(group: &RulesDirContext, directory: &str, root: &str) -> (result: bool)
    ensures
        result == key_less(
            group.directory_path@,
            group.worktree_root_name@,
            directory@,
            root@,
        ),
{
    text::text_before(group.directory_path.as_str(), directory) || text::same_text(
        group.directory_path.as_str(),
        directory,
    ) && text::text_before(group.worktree_root_name.as_str(), root)
}

/// Puts a file in its group, which is made where there is none.
fn add_to_groups(
    groups: &mut Vec<RulesDirContext>,
    directory: &str,
    root: &str,
    file: RulesDirFileContext,
    Ghost(gathered): Ghost<Seq<GatheredView>>,
    Ghost(added): Ghost<GatheredView>,
)
    requires
        is_grouping(group_views(old(groups)@), gathered),
        belongs(added.file, directory@, root@),
        added.file.path == file.path_in_worktree@,
        added.text == file.text@,
    ensures
        is_grouping(group_views(final(groups)@), gathered.push(added)),
{
    let ghost views = group_views(groups@);
    let mut position: usize = 0;
    while position < groups.len() && comes_before(&groups[position], directory, root)
        invariant
            position <= groups@.len(),
            views == group_views(groups@),
            forall|i: int|
                0 <= i < position ==> key_less(
                    (#[trigger] views[i]).directory_path,
                    views[i].worktree_root_name,
                    directory@,
                    root@,
                ),
        decreases groups.len() - position,
    {
        position = position + 1;
    }
    if position < groups.len() && text::same_text(
        groups[position].directory_path.as_str(),
        directory,
    ) && text::same_text(groups[position].worktree_root_name.as_str(), root) {
        let ghost group = groups@[position as int];
        let target = &mut groups[position];
        target.files.push(file);
        proof {
            let new_views = group_views(groups@);
            let new_group = new_views[position as int];
            assert(new_group.files =~= views[position as int].files.push((
                added.file.path,
                added.text,
            )));
            assert(new_views =~= views.update(position as int, new_group));
            lemma_extend_group(views, gathered, added, position as int, new_group);
        }
    } else {
        let group = RulesDirContext {
            worktree_root_name: root.to_owned(),
            directory_path: directory.to_owned(),
            files: vec![file],
        };
        let ghost new_group = group@;
        groups.insert(position, group);
        proof {
            assert(new_group.files =~= seq![(added.file.path, added.text)]);
            assert(group_views(groups@) =~= views.insert(position as int, new_group));
            lemma_insert_group(views, gathered, added, position as int, new_group);
        }
    }
}

/// Of two groups with different keys exactly one comes before the other.
pub proof fn lemma_key_total(
    directory: Seq<char>,
    root: Seq<char>,
    other_directory: Seq<char>,
    other_root: Seq<char>,
)
    ensures
        (directory == other_directory && root == other_root) ==> !key_less(
            directory,
            root,
            other_directory,
            other_root,
        ),
        !(directory == other_directory && root == other_root) ==> key_less(
            directory,
            root,
            other_directory,
            other_root,
        ) != key_less(other_directory, other_root, directory, root),
{
    text::lemma_text_less_total(directory, other_directory);
    text::lemma_text_less_total(root, other_root);
}

/// The order of groups is transitive.
proof fn lemma_group_less_transitive(first: GroupView, second: GroupView, third: GroupView)
    requires
        group_less(first, second),
        group_less(second, third),
    ensures
        group_less(first, third),
{
    if text::text_less(first.directory_path, second.directory_path) {
        if text::text_less(second.directory_path, third.directory_path) {
            text::lemma_text_less_transitive(
                first.directory_path,
                second.directory_path,
                third.directory_path,
            );
        }
    } else if second.directory_path == third.directory_path {
        text::lemma_text_less_transitive(
            first.worktree_root_name,
            second.worktree_root_name,
            third.worktree_root_name,
        );
    }
}

/// A file adds to the files of its own group only.
proof fn lemma_files_under_push(
    gathered: Seq<GatheredView>,
    added: GatheredView,
    directory: Seq<char>,
    root: Seq<char>,
)
    ensures
        files_under(gathered.push(added), directory, root) == if belongs(
            added.file,
            directory,
            root,
        ) {
            files_under(gathered, directory, root).push((added.file.path, added.text))
        } else {
            files_under(gathered, directory, root)
        },
{
    assert(gathered.push(added).drop_last() =~= gathered);
}

/// Where no gathered file belongs to a group, the group has no files.
proof fn lemma_files_under_none(
    gathered: Seq<GatheredView>,
    directory: Seq<char>,
    root: Seq<char>,
)
    requires
        forall|i: int|
            0 <= i < gathered.len() ==> !belongs((#[trigger] gathered[i]).file, directory, root),
    ensures
        files_under(gathered, directory, root).len() == 0,
    decreases gathered.len(),
{
    if gathered.len() > 0 {
        let before = gathered.drop_last();
        assert forall|i: int| 0 <= i < before.len() implies !belongs(
            (#[trigger] before[i]).file,
            directory,
            root,
        ) by {
            assert(before[i] == gathered[i]);
        }
        lemma_files_under_none(before, directory, root);
        assert(!belongs(gathered[gathered.len() - 1].file, directory, root));
    }
}

proof fn lemma_extend_group(
    views: Seq<GroupView>,
    gathered: Seq<GatheredView>,
    added: GatheredView,
    position: int,
    new_group: GroupView,
)
    requires
        is_grouping(views, gathered),
        0 <= position < views.len(),
        belongs(
            added.file,
            views[position].directory_path,
            views[position].worktree_root_name,
        ),
        new_group.directory_path == views[position].directory_path,
        new_group.worktree_root_name == views[position].worktree_root_name,
        new_group.files == views[position].files.push((added.file.path, added.text)),
    ensures
        is_grouping(views.update(position, new_group), gathered.push(added)),
{
    let groups = views.update(position, new_group);
    let more = gathered.push(added);
    assert forall|i: int, j: int| 0 <= i < j < groups.len() implies group_less(
        #[trigger] groups[i],
        #[trigger] groups[j],
    ) by {
        assert(group_less(views[i], views[j]));
    }
    assert forall|i: int| 0 <= i < groups.len() implies (#[trigger] groups[i]).files
        == files_under(more, groups[i].directory_path, groups[i].worktree_root_name)
        && groups[i].files.len() > 0 by {
        let group = views[i];
        lemma_files_under_push(gathered, added, group.directory_path, group.worktree_root_name);
        if i != position {
            lemma_key_total(
                group.directory_path,
                group.worktree_root_name,
                views[position].directory_path,
                views[position].worktree_root_name,
            );
            if i < position {
                assert(group_less(views[i], views[position]));
            } else {
                assert(group_less(views[position], views[i]));
            }
        }
    }
    assert forall|i: int| 0 <= i < more.len() implies has_group(
        groups,
        (#[trigger] more[i]).file.directory_path,
        more[i].file.worktree_root_name,
    ) by {
        if i < gathered.len() {
            let file = gathered[i].file;
            assert(has_group(views, file.directory_path, file.worktree_root_name));
            let k = choose|k: int|
                0 <= k < views.len() && (#[trigger] views[k]).directory_path == file.directory_path
                    && views[k].worktree_root_name == file.worktree_root_name;
            assert(groups[k].directory_path == file.directory_path);
        } else {
            assert(groups[position] == new_group);
        }
    }
}

proof fn lemma_insert_group(
    views: Seq<GroupView>,
    gathered: Seq<GatheredView>,
    added: GatheredView,
    position: int,
    new_group: GroupView,
)
    requires
        is_grouping(views, gathered),
        0 <= position <= views.len(),
        belongs(added.file, new_group.directory_path, new_group.worktree_root_name),
        new_group.files == seq![(added.file.path, added.text)],
        forall|i: int| 0 <= i < position ==> group_less(#[trigger] views[i], new_group),
        position < views.len() ==> !group_less(views[position], new_group) && !(
        views[position].directory_path == new_group.directory_path
            && views[position].worktree_root_name == new_group.worktree_root_name),
    ensures
        is_grouping(views.insert(position, new_group), gathered.push(added)),
{
    let groups = views.insert(position, new_group);
    let more = gathered.push(added);
    assert forall|i: int| position <= i < views.len() implies group_less(
        new_group,
        #[trigger] views[i],
    ) by {
        lemma_key_total(
            new_group.directory_path,
            new_group.worktree_root_name,
            views[position].directory_path,
            views[position].worktree_root_name,
        );
        if i > position {
            assert(group_less(views[position], views[i]));
            lemma_group_less_transitive(new_group, views[position], views[i]);
        }
    }
    assert forall|i: int, j: int| 0 <= i < j < groups.len() implies group_less(
        #[trigger] groups[i],
        #[trigger] groups[j],
    ) by {
        let left = if i < position {
            i
        } else {
            i - 1
        };
        let right = if j < position {
            j
        } else {
            j - 1
        };
        if i != position && j != position {
            assert(groups[i] == views[left]);
            assert(groups[j] == views[right]);
        } else if i == position {
            assert(groups[j] == views[right]);
        } else {
            assert(groups[i] == views[left]);
        }
    }
    assert forall|i: int| 0 <= i < gathered.len() implies !belongs(
        (#[trigger] gathered[i]).file,
        new_group.directory_path,
        new_group.worktree_root_name,
    ) by {
        let file = gathered[i].file;
        assert(has_group(views, file.directory_path, file.worktree_root_name));
        let k = choose|k: int|
            0 <= k < views.len() && (#[trigger] views[k]).directory_path == file.directory_path
                && views[k].worktree_root_name == file.worktree_root_name;
        lemma_key_total(
            views[k].directory_path,
            views[k].worktree_root_name,
            new_group.directory_path,
            new_group.worktree_root_name,
        );
        if k < position {
            assert(group_less(views[k], new_group));
        } else {
            assert(group_less(new_group, views[k]));
        }
        lemma_key_total(
            new_group.directory_path,
            new_group.worktree_root_name,
            views[k].directory_path,
            views[k].worktree_root_name,
        );
    }
    lemma_files_under_none(gathered, new_group.directory_path, new_group.worktree_root_name);
    assert forall|i: int| 0 <= i < groups.len() implies (#[trigger] groups[i]).files
        == files_under(more, groups[i].directory_path, groups[i].worktree_root_name)
        && groups[i].files.len() > 0 by {
        let group = groups[i];
        lemma_files_under_push(gathered, added, group.directory_path, group.worktree_root_name);
        if i == position {
            assert(files_under(
                gathered,
                new_group.directory_path,
                new_group.worktree_root_name,
            ) =~= Seq::empty());
            assert(new_group.files =~= files_under(
                more,
                new_group.directory_path,
                new_group.worktree_root_name,
            ));
        } else {
            let k = if i < position {
                i
            } else {
                i - 1
            };
            assert(group == views[k]);
            lemma_key_total(
                group.directory_path,
                group.worktree_root_name,
                new_group.directory_path,
                new_group.worktree_root_name,
            );
            lemma_key_total(
                new_group.directory_path,
                new_group.worktree_root_name,
                group.directory_path,
                group.worktree_root_name,
            );
        }
    }
    assert forall|i: int| 0 <= i < more.len() implies has_group(
        groups,
        (#[trigger] more[i]).file.directory_path,
        more[i].file.worktree_root_name,
    ) by {
        if i < gathered.len() {
            let file = gathered[i].file;
            assert(has_group(views, file.directory_path, file.worktree_root_name));
            let k = choose|k: int|
                0 <= k < views.len() && (#[trigger] views[k]).directory_path == file.directory_path
                    && views[k].worktree_root_name == file.worktree_root_name;
            if k < position {
                assert(groups[k] == views[k]);
            } else {
                assert(groups[k + 1] == views[k]);
            }
        } else {
            assert(groups[position] == new_group);
        }
    }
}

} // verus!
