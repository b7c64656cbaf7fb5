//! What holds of every scan for rule files.

use crate::rules;
use crate::rules::{
    ChildEntry, ConfiguredPath, GatheredView, GroupView, RuleFileView, RulesDirectoryEntry,
    RulesWorktree, ScanView, WorktreeEntry, WorktreeFile,
};
use crate::text;
use vstd::prelude::*;

verus! {

/// The paths that are switched on.
pub open spec fn enabled_paths(paths: Seq<ConfiguredPath>) -> Seq<ConfiguredPath>
    decreases paths.len(),
{
    if paths.len() == 0 {
        Seq::empty()
    } else {
        let before = enabled_paths(paths.drop_last());
        if rules::entry_enabled(paths.last().entry.enabled) {
            before.push(paths.last())
        } else {
            before
        }
    }
}

/// Paths that are switched off contribute no files.
pub proof fn law_disabled_paths_are_ignored(worktree: RulesWorktree, paths: Seq<ConfiguredPath>)
    ensures
        rules::worktree_files(worktree, paths) == rules::worktree_files(
            worktree,
            enabled_paths(paths),
        ),
    decreases paths.len(),
{
    if paths.len() > 0 {
        let before = paths.drop_last();
        law_disabled_paths_are_ignored(worktree, before);
        if rules::entry_enabled(paths.last().entry.enabled) {
            assert(enabled_paths(before).push(paths.last()).drop_last() =~= enabled_paths(before));
        } else {
            assert(rules::worktree_files(worktree, before) + rules::path_files(
                worktree,
                paths.last(),
            ) =~= rules::worktree_files(worktree, before));
        }
    }
}

/// Whether no file occurs twice.
pub open spec fn files_distinct(files: Seq<RuleFileView>) -> bool {
    forall|i: int, j: int|
        0 <= i < j < files.len() ==> !rules::same_file(#[trigger] files[i], #[trigger] files[j])
}

/// A scan reads every file once: of the files found at the configured paths each is read, none
/// twice, and no others are.
pub proof fn law_each_file_read_once(files: Seq<RuleFileView>)
    ensures
        files_distinct(rules::first_occurrences(files)),
        forall|i: int|
            0 <= i < files.len() ==> rules::has_file(
                rules::first_occurrences(files),
                #[trigger] files[i],
            ),
        forall|i: int|
            0 <= i < rules::first_occurrences(files).len() ==> files.contains(
                #[trigger] rules::first_occurrences(files)[i],
            ),
    decreases files.len(),
{
    if files.len() > 0 {
        let before = files.drop_last();
        let kept = rules::first_occurrences(before);
        let all = rules::first_occurrences(files);
        law_each_file_read_once(before);
        assert forall|i: int| 0 <= i < files.len() implies rules::has_file(
            all,
            #[trigger] files[i],
        ) by {
            if i < before.len() {
                assert(before[i] == files[i]);
                assert(rules::has_file(kept, before[i]));
                let k = choose|k: int|
                    0 <= k < kept.len() && rules::same_file(#[trigger] kept[k], before[i]);
                assert(all[k] == kept[k]);
            } else if !rules::has_file(kept, files[i]) {
                assert(all[kept.len() as int] == files[i]);
            }
        }
        assert forall|i: int| 0 <= i < all.len() implies files.contains(#[trigger] all[i]) by {
            if i < kept.len() {
                assert(all[i] == kept[i]);
                assert(before.contains(kept[i]));
                let k = choose|k: int| 0 <= k < before.len() && before[k] == kept[i];
                assert(files[k] == all[i]);
            } else {
                assert(files[files.len() - 1] == all[i]);
            }
        }
        assert forall|i: int, j: int| 0 <= i < j < all.len() implies !rules::same_file(
            #[trigger] all[i],
            #[trigger] all[j],
        ) by {
            assert(all[i] == kept[i]);
            if j < kept.len() {
                assert(all[j] == kept[j]);
            } else {
                assert(!rules::has_file(kept, files.last()));
                assert(!rules::same_file(kept[i], files.last()));
            }
        }
    }
}

/// The files that have been gathered.
pub open spec fn gathered_files(gathered: Seq<GatheredView>) -> Seq<RuleFileView> {
    gathered.map_values(|entry: GatheredView| entry.file)
}

/// What every scan keeps: the limit, texts that are trimmed and not empty, and files that occur
/// once among the gathered and the pending ones.
pub open spec fn scan_invariant(scan: ScanView) -> bool {
    &&& rules::gathered_len(scan.gathered) <= rules::MAX_TOTAL_CHARS
    &&& forall|i: int|
        0 <= i < scan.gathered.len() ==> (#[trigger] scan.gathered[i]).text.len() > 0
            && text::trimmed(scan.gathered[i].text) == scan.gathered[i].text
    &&& files_distinct(gathered_files(scan.gathered) + scan.pending)
}

/// Every step of a scan keeps the limit, gathers only trimmed texts that are not empty, gathers
/// no file twice, and leaves fewer files to read.
pub proof fn law_scan_step_keeps_invariant(scan: ScanView, contents: Option<Seq<char>>)
    requires
        scan_invariant(scan),
        scan.pending.len() > 0,
    ensures
        scan_invariant(rules::scan_step(scan, contents)),
        rules::scan_step(scan, contents).pending.len() < scan.pending.len(),
{
    let next = rules::scan_step(scan, contents);
    let files = gathered_files(scan.gathered) + scan.pending;
    let next_files = gathered_files(next.gathered) + next.pending;
    let count = scan.gathered.len() as int;
    if next.gathered.len() > scan.gathered.len() {
        let contents = contents->0;
        lemma_trimmed_again(contents);
        assert(next.gathered.drop_last() =~= scan.gathered);
        assert(gathered_files(next.gathered) =~= gathered_files(scan.gathered).push(
            scan.pending[0],
        ));
        assert(next_files =~= files);
    } else if next.pending.len() == 0 {
        assert(next_files =~= gathered_files(scan.gathered));
        assert forall|i: int, j: int| 0 <= i < j < next_files.len() implies !rules::same_file(
            #[trigger] next_files[i],
            #[trigger] next_files[j],
        ) by {
            assert(next_files[i] == files[i]);
            assert(next_files[j] == files[j]);
        }
    } else {
        assert forall|i: int, j: int| 0 <= i < j < next_files.len() implies !rules::same_file(
            #[trigger] next_files[i],
            #[trigger] next_files[j],
        ) by {
            let left = if i < count {
                i
            } else {
                i + 1
            };
            let right = if j < count {
                j
            } else {
                j + 1
            };
            assert(next_files[i] == files[left]);
            assert(next_files[j] == files[right]);
        }
    }
}

/// A scan begins with the invariant.
pub proof fn law_scan_begins_with_invariant(files: Seq<RuleFileView>)
    ensures
        scan_invariant(
            ScanView { pending: rules::first_occurrences(files), gathered: Seq::empty() },
        ),
{
    law_each_file_read_once(files);
    let pending = rules::first_occurrences(files);
    assert(gathered_files(Seq::empty()) + pending =~= pending);
}

/// A scan after the contents of file upon file were taken into account, as long as any is
/// pending.
pub open spec fn scan_run(scan: ScanView, contents: Seq<Option<Seq<char>>>) -> ScanView
    decreases contents.len(),
{
    if contents.len() == 0 || scan.pending.len() == 0 {
        scan
    } else {
        scan_run(rules::scan_step(scan, contents[0]), contents.drop_first())
    }
}

/// The files that could be read and are not blank, with their trimmed texts.
pub open spec fn worth_gathering(
    files: Seq<RuleFileView>,
    contents: Seq<Option<Seq<char>>>,
) -> Seq<GatheredView>
    decreases files.len(),
{
    if files.len() == 0 || contents.len() == 0 {
        Seq::empty()
    } else {
        let rest = worth_gathering(files.drop_first(), contents.drop_first());
        match contents[0] {
            Some(read) if text::trimmed(read).len() > 0 => seq![
                GatheredView { file: files[0], text: text::trimmed(read) },
            ] + rest,
            _ => rest,
        }
    }
}

/// Where everything worth gathering stays within the limit, a scan gathers all of it, in the
/// order in which the files are found.
pub proof fn law_scan_gathers_all(scan: ScanView, contents: Seq<Option<Seq<char>>>)
    requires
        contents.len() == scan.pending.len(),
        rules::gathered_len(scan.gathered + worth_gathering(scan.pending, contents))
            <= rules::MAX_TOTAL_CHARS,
    ensures
        scan_run(scan, contents).pending.len() == 0,
        scan_run(scan, contents).gathered == scan.gathered + worth_gathering(
            scan.pending,
            contents,
        ),
    decreases contents.len(),
{
    let all = scan.gathered + worth_gathering(scan.pending, contents);
    if contents.len() == 0 {
        assert(all =~= scan.gathered);
    } else {
        let next = rules::scan_step(scan, contents[0]);
        let rest = worth_gathering(scan.pending.drop_first(), contents.drop_first());
        match contents[0] {
            Some(read) if text::trimmed(read).len() > 0 => {
                let entry = GatheredView { file: scan.pending[0], text: text::trimmed(read) };
                assert(all =~= scan.gathered.push(entry) + rest);
                lemma_gathered_len_prefix(scan.gathered.push(entry), rest);
                assert(scan.gathered.push(entry).drop_last() =~= scan.gathered);
            },
            _ => {},
        }
        law_scan_gathers_all(next, contents.drop_first());
    }
}

/// Whatever the limit cuts off, a scan gathers the first of what is worth gathering.
pub proof fn law_scan_gathers_prefix(scan: ScanView, contents: Seq<Option<Seq<char>>>)
    requires
        contents.len() == scan.pending.len(),
    ensures
        ({
            let all = scan.gathered + worth_gathering(scan.pending, contents);
            let gathered = scan_run(scan, contents).gathered;
            scan.gathered.len() <= gathered.len() <= all.len() && gathered == all.take(
                gathered.len() as int,
            )
        }),
    decreases contents.len(),
{
    let all = scan.gathered + worth_gathering(scan.pending, contents);
    if contents.len() == 0 {
        assert(all.take(scan.gathered.len() as int) =~= scan.gathered);
    } else {
        let next = rules::scan_step(scan, contents[0]);
        let later = contents.drop_first();
        let rest = worth_gathering(scan.pending.drop_first(), later);
        if next.pending.len() == 0 && scan.pending.len() > 1 {
            assert(scan_run(next, later) == next);
            assert(all.take(scan.gathered.len() as int) =~= scan.gathered);
        } else {
            match contents[0] {
                Some(read) if text::trimmed(read).len() > 0 => {
                    let entry = GatheredView { file: scan.pending[0], text: text::trimmed(read) };
                    assert(all =~= scan.gathered.push(entry) + rest);
                    if next.gathered.len() == scan.gathered.len() {
                        assert(scan_run(next, later) == next);
                        assert(all.take(scan.gathered.len() as int) =~= scan.gathered);
                    } else {
                        law_scan_gathers_prefix(next, later);
                    }
                },
                _ => {
                    law_scan_gathers_prefix(next, later);
                },
            }
        }
    }
}

/// The grouping of what was gathered is unique.
pub proof fn law_grouping_unique(
    left: Seq<GroupView>,
    right: Seq<GroupView>,
    gathered: Seq<GatheredView>,
)
    requires
        rules::is_grouping(left, gathered),
        rules::is_grouping(right, gathered),
    ensures
        left == right,
{
    lemma_groups_covered(left, right, gathered);
    lemma_groups_covered(right, left, gathered);
    lemma_same_groups(left, right, left.len() as int);
    assert(left.len() <= right.len());
    lemma_same_groups(right, left, right.len() as int);
    assert(left =~= right) by {
        assert forall|i: int| 0 <= i < left.len() implies left[i] == right[i] by {
            assert(same_key(left[i], right[i]));
        }
    }
}

spec fn same_key(left: GroupView, right: GroupView) -> bool {
    left.directory_path == right.directory_path && left.worktree_root_name
        == right.worktree_root_name
}

/// Every group of a grouping of what was gathered is in every other such grouping.
proof fn lemma_groups_covered(
    left: Seq<GroupView>,
    right: Seq<GroupView>,
    gathered: Seq<GatheredView>,
)
    requires
        rules::is_grouping(left, gathered),
        rules::is_grouping(right, gathered),
    ensures
        forall|i: int|
            0 <= i < left.len() ==> rules::has_group(
                right,
                (#[trigger] left[i]).directory_path,
                left[i].worktree_root_name,
            ),
{
    assert forall|i: int| 0 <= i < left.len() implies rules::has_group(
        right,
        (#[trigger] left[i]).directory_path,
        left[i].worktree_root_name,
    ) by {
        let group = left[i];
        lemma_files_come_from_somewhere(gathered, group.directory_path, group.worktree_root_name);
        let k = choose|k: int|
            0 <= k < gathered.len() && rules::belongs(
                (#[trigger] gathered[k]).file,
                group.directory_path,
                group.worktree_root_name,
            );
        assert(rules::has_group(
            right,
            gathered[k].file.directory_path,
            gathered[k].file.worktree_root_name,
        ));
    }
}

proof fn lemma_files_come_from_somewhere(
    gathered: Seq<GatheredView>,
    directory: Seq<char>,
    root: Seq<char>,
)
    requires
        rules::files_under(gathered, directory, root).len() > 0,
    ensures
        exists|k: int|
            0 <= k < gathered.len() && rules::belongs(
                (#[trigger] gathered[k]).file,
                directory,
                root,
            ),
    decreases gathered.len(),
{
    let before = gathered.drop_last();
    if rules::belongs(gathered.last().file, directory, root) {
        assert(gathered[gathered.len() - 1] == gathered.last());
    } else {
        lemma_files_come_from_somewhere(before, directory, root);
        let k = choose|k: int|
            0 <= k < before.len() && rules::belongs((#[trigger] before[k]).file, directory, root);
        assert(gathered[k] == before[k]);
    }
}

/// Sorted groups that are all among one another agree position by position.
proof fn lemma_same_groups(left: Seq<GroupView>, right: Seq<GroupView>, count: int)
    requires
        rules::groups_sorted(left),
        rules::groups_sorted(right),
        0 <= count <= left.len(),
        forall|i: int|
            0 <= i < left.len() ==> rules::has_group(
                right,
                (#[trigger] left[i]).directory_path,
                left[i].worktree_root_name,
            ),
        forall|i: int|
            0 <= i < right.len() ==> rules::has_group(
                left,
                (#[trigger] right[i]).directory_path,
                right[i].worktree_root_name,
            ),
    ensures
        count <= right.len(),
        forall|i: int| 0 <= i < count ==> same_key(#[trigger] left[i], right[i]),
    decreases count,
{
    if count > 0 {
        let last = count - 1;
        lemma_same_groups(left, right, last);
        let group = left[last];
        let m = choose|m: int|
            0 <= m < right.len() && (#[trigger] right[m]).directory_path == group.directory_path
                && right[m].worktree_root_name == group.worktree_root_name;
        assert(m >= last) by {
            if m < last {
                assert(same_key(left[m], right[m]));
                assert(rules::group_less(left[m], left[last]));
                lemma_not_less_itself(left[m], left[last]);
            }
        }
        if m > last {
            let other = right[last];
            assert(rules::group_less(right[last], right[m]));
            let n = choose|n: int|
                0 <= n < left.len() && (#[trigger] left[n]).directory_path == other.directory_path
                    && left[n].worktree_root_name == other.worktree_root_name;
            if n < last {
                assert(same_key(left[n], right[n]));
                assert(rules::group_less(right[n], right[last]));
                lemma_not_less_itself(right[n], right[last]);
            } else if n == last {
                lemma_not_less_itself(right[last], right[m]);
            } else {
                assert(rules::group_less(left[last], left[n]));
                rules::lemma_key_total(
                    group.directory_path,
                    group.worktree_root_name,
                    other.directory_path,
                    other.worktree_root_name,
                );
            }
        }
    }
}

proof fn lemma_not_less_itself(left: GroupView, right: GroupView)
    ensures
        same_key(left, right) ==> !rules::group_less(left, right),
{
    rules::lemma_key_total(
        left.directory_path,
        left.worktree_root_name,
        right.directory_path,
        right.worktree_root_name,
    );
}

/// More entries take more bytes.
proof fn lemma_gathered_len_prefix(gathered: Seq<GatheredView>, more: Seq<GatheredView>)
    ensures
        rules::gathered_len(gathered) <= rules::gathered_len(gathered + more),
    decreases more.len(),
{
    if more.len() == 0 {
        assert(gathered + more =~= gathered);
    } else {
        assert((gathered + more).drop_last() =~= gathered + more.drop_last());
        lemma_gathered_len_prefix(gathered, more.drop_last());
    }
}

/// Trimming a trimmed text changes nothing.
proof fn lemma_trimmed_again(contents: Seq<char>)
    ensures
        text::trimmed(text::trimmed(contents)) == text::trimmed(contents),
{
    let front = text::trimmed_start(contents);
    lemma_trimmed_start_begins(contents);
    lemma_trimmed_end_ends(front);
    let both = text::trimmed(contents);
    if both.len() > 0 {
        assert(both[0] == front[0]);
    }
    assert(text::trimmed_start(both) == both);
}

proof fn lemma_trimmed_start_begins(contents: Seq<char>)
    ensures
        text::trimmed_start(contents).len() > 0 ==> !text::white_space(
            text::trimmed_start(contents)[0],
        ),
    decreases contents.len(),
{
    if contents.len() > 0 && text::white_space(contents.first()) {
        lemma_trimmed_start_begins(contents.drop_first());
    }
}

proof fn lemma_trimmed_end_ends(contents: Seq<char>)
    ensures
        text::trimmed_end(contents).len() <= contents.len(),
        text::trimmed_end(contents) == contents.take(text::trimmed_end(contents).len() as int),
        text::trimmed_end(contents).len() > 0 ==> !text::white_space(
            text::trimmed_end(contents).last(),
        ),
    decreases contents.len(),
{
    if contents.len() > 0 && text::white_space(contents.last()) {
        lemma_trimmed_end_ends(contents.drop_last());
        let end = text::trimmed_end(contents);
        assert(contents.drop_last().take(end.len() as int) =~= contents.take(end.len() as int));
    } else {
        assert(contents.take(contents.len() as int) =~= contents);
    }
}

/// Whether a file holds rules: its extension is `md`, `txt` or `mdc`.
pub open spec fn holds_rules(file: WorktreeFile) -> bool {
    &&& file.extension is Some
    &&& file.extension->0@ == "md"@ || file.extension->0@ == "txt"@ || file.extension->0@ == "mdc"@
}

/// A file as it is read: under the path at which it lies, for the configured path under which it
/// was found.
pub open spec fn found_file(
    worktree: RulesWorktree,
    configured: Seq<char>,
    file: WorktreeFile,
) -> RuleFileView {
    RuleFileView {
        worktree_id: worktree.id,
        path: file.path@,
        directory_path: configured,
        worktree_root_name: worktree.root_name@,
    }
}

/// The files with rules right below a directory, in the order in which the directory lists them.
pub open spec fn found_below(
    worktree: RulesWorktree,
    configured: Seq<char>,
    children: Seq<ChildEntry>,
) -> Seq<RuleFileView>
    decreases children.len(),
{
    if children.len() == 0 {
        seq![]
    } else {
        (if children[0].is_file && holds_rules(children[0].file) {
            seq![found_file(worktree, configured, children[0].file)]
        } else {
            seq![]
        }) + found_below(worktree, configured, children.drop_first())
    }
}

/// At a configured path that is switched on, a scan finds the file that lies there, if and only
/// if its extension is one of `md`, `txt` and `mdc`, or the files with these extensions right
/// below the directory that lies there. At a path that is switched off, that is not there or that
/// is neither, it finds nothing.
pub proof fn law_files_at_a_path(worktree: RulesWorktree, path: ConfiguredPath)
    ensures
        rules::path_files(worktree, path) == if path.entry.enabled == Some(false) {
            seq![]
        } else {
            match path.target {
                Some(WorktreeEntry::File(file)) => if holds_rules(file) {
                    seq![found_file(worktree, path.entry.path@, file)]
                } else {
                    seq![]
                },
                Some(WorktreeEntry::Directory(children)) => found_below(
                    worktree,
                    path.entry.path@,
                    children@,
                ),
                Some(WorktreeEntry::Other) => seq![],
                None => seq![],
            }
        },
{
    if let Some(WorktreeEntry::Directory(children)) = path.target {
        lemma_found_below(worktree, path.entry, children@);
    }
}

proof fn lemma_found_below(
    worktree: RulesWorktree,
    entry: RulesDirectoryEntry,
    children: Seq<ChildEntry>,
)
    ensures
        rules::child_files(worktree, entry, children) == found_below(
            worktree,
            entry.path@,
            children,
        ),
    decreases children.len(),
{
    if children.len() > 0 {
        let before = children.drop_last();
        lemma_found_below(worktree, entry, before);
        lemma_found_below_push(worktree, entry.path@, before, children.last());
        assert(before.push(children.last()) =~= children);
        assert(rules::child_files(worktree, entry, children) =~= found_below(
            worktree,
            entry.path@,
            children,
        ));
    }
}

proof fn lemma_found_below_push(
    worktree: RulesWorktree,
    configured: Seq<char>,
    children: Seq<ChildEntry>,
    child: ChildEntry,
)
    ensures
        found_below(worktree, configured, children.push(child)) == found_below(
            worktree,
            configured,
            children,
        ) + if child.is_file && holds_rules(child.file) {
            seq![found_file(worktree, configured, child.file)]
        } else {
            seq![]
        },
    decreases children.len(),
{
    let all = children.push(child);
    let added = if child.is_file && holds_rules(child.file) {
        seq![found_file(worktree, configured, child.file)]
    } else {
        seq![]
    };
    if children.len() == 0 {
        assert(all.drop_first() =~= children);
        assert(found_below(worktree, configured, all) =~= found_below(
            worktree,
            configured,
            children,
        ) + added);
    } else {
        assert(all.drop_first() =~= children.drop_first().push(child));
        lemma_found_below_push(worktree, configured, children.drop_first(), child);
        assert(found_below(worktree, configured, all) =~= found_below(
            worktree,
            configured,
            children,
        ) + added);
    }
}

/// A file that is configured by itself is found if and only if it would be found right below a
/// directory.
pub proof fn law_same_extensions_everywhere(
    worktree: RulesWorktree,
    entry: RulesDirectoryEntry,
    file: WorktreeFile,
    children: Vec<ChildEntry>,
)
    requires
        children@ == seq![ChildEntry { is_file: true, file }],
    ensures
        rules::path_files(
            worktree,
            ConfiguredPath { entry, target: Some(WorktreeEntry::File(file)) },
        ) == rules::path_files(
            worktree,
            ConfiguredPath { entry, target: Some(WorktreeEntry::Directory(children)) },
        ),
{
    law_files_at_a_path(
        worktree,
        ConfiguredPath { entry, target: Some(WorktreeEntry::File(file)) },
    );
    law_files_at_a_path(
        worktree,
        ConfiguredPath { entry, target: Some(WorktreeEntry::Directory(children)) },
    );
    let configured = entry.path@;
    assert(children@.drop_first() =~= seq![]);
    assert(found_below(worktree, configured, children@.drop_first()) =~= seq![]);
    assert(found_below(worktree, configured, children@) =~= if holds_rules(file) {
        seq![found_file(worktree, configured, file)]
    } else {
        seq![]
    });
}

/// The files of a worktree are those at its configured paths, one path after the other, and all
/// files those of the worktrees, one worktree after the other.
pub proof fn law_files_in_order(
    worktree: RulesWorktree,
    paths: Seq<ConfiguredPath>,
    path: ConfiguredPath,
    worktrees: Seq<RulesWorktree>,
)
    ensures
        rules::worktree_files(worktree, Seq::empty()) == Seq::<RuleFileView>::empty(),
        rules::worktree_files(worktree, paths.push(path)) == rules::worktree_files(worktree, paths)
            + rules::path_files(worktree, path),
        rules::candidate_files(Seq::empty()) == Seq::<RuleFileView>::empty(),
        rules::candidate_files(worktrees.push(worktree)) == rules::candidate_files(worktrees)
            + rules::worktree_files(worktree, worktree.paths@),
{
    assert(paths.push(path).drop_last() =~= paths);
    assert(worktrees.push(worktree).drop_last() =~= worktrees);
}

/// Whether a file is found for the first time: none before it is the file at that path of that
/// worktree.
pub open spec fn found_first(files: Seq<RuleFileView>, index: int) -> bool {
    forall|i: int|
        0 <= i < index ==> (#[trigger] files[i]).worktree_id != files[index].worktree_id
            || files[i].path != files[index].path
}

/// Those of the first files that are found for the first time, in order.
pub open spec fn found_once(files: Seq<RuleFileView>, count: int) -> Seq<RuleFileView>
    decreases count,
{
    if count <= 0 {
        seq![]
    } else if found_first(files, count - 1) {
        found_once(files, count - 1).push(files[count - 1])
    } else {
        found_once(files, count - 1)
    }
}

/// A file that lies under several configured paths is read for the first of them; the files are
/// read in the order in which they are found.
pub proof fn law_first_path_counts(files: Seq<RuleFileView>)
    ensures
        rules::first_occurrences(files) == found_once(files, files.len() as int),
{
    lemma_found_once(files, files.len() as int);
    assert(files.take(files.len() as int) =~= files);
}

proof fn lemma_found_once(files: Seq<RuleFileView>, count: int)
    requires
        0 <= count <= files.len(),
    ensures
        rules::first_occurrences(files.take(count)) == found_once(files, count),
    decreases count,
{
    if count == 0 {
        assert(files.take(0) =~= Seq::empty());
    } else {
        let before = files.take(count - 1);
        let kept = rules::first_occurrences(before);
        let file = files[count - 1];
        lemma_found_once(files, count - 1);
        law_each_file_read_once(before);
        assert(files.take(count).drop_last() =~= before);
        assert(files.take(count).last() == file);
        if rules::has_file(kept, file) {
            let k = choose|k: int| 0 <= k < kept.len() && rules::same_file(#[trigger] kept[k], file);
            assert(before.contains(kept[k]));
            let i = choose|i: int| 0 <= i < before.len() && before[i] == kept[k];
            assert(files[i] == kept[k]);
            assert(!found_first(files, count - 1));
        } else {
            assert forall|i: int| 0 <= i < count - 1 implies (
            #[trigger] files[i]).worktree_id != file.worktree_id || files[i].path
                != file.path by {
                assert(before[i] == files[i]);
                assert(rules::has_file(kept, before[i]));
                let k = choose|k: int|
                    0 <= k < kept.len() && rules::same_file(#[trigger] kept[k], before[i]);
                assert(!rules::same_file(kept[k], file));
            }
        }
    }
}

/// Whether a text is what is left of contents without the white space around it.
pub open spec fn bare_text(contents: Seq<char>, bare: Seq<char>) -> bool {
    &&& exists|front: Seq<char>, back: Seq<char>|
        contents == #[trigger] (front + bare + back) && text::blank(front) && text::blank(back)
    &&& bare.len() > 0 ==> !text::white_space(bare[0]) && !text::white_space(
        bare[bare.len() - 1],
    )
}

/// The number of bytes of what has been gathered.
pub open spec fn gathered_bytes(gathered: Seq<GatheredView>) -> nat
    decreases gathered.len(),
{
    if gathered.len() == 0 {
        0
    } else {
        text::utf8_len(gathered[0].text) + gathered_bytes(gathered.drop_first())
    }
}

/// A file that cannot be read, or holds nothing but white space, is passed over. Of any other the
/// text without the white space around it is gathered, if with it no more than 200000 bytes are
/// gathered; else the scan is over, and nothing more is read.
pub proof fn law_scan_step(scan: ScanView, contents: Option<Seq<char>>)
    requires
        scan.pending.len() > 0,
    ensures
        ({
            let next = rules::scan_step(scan, contents);
            let file = scan.pending[0];
            match contents {
                None => next.gathered == scan.gathered && next.pending
                    == scan.pending.drop_first(),
                Some(read) => if text::blank(read) {
                    next.gathered == scan.gathered && next.pending == scan.pending.drop_first()
                } else {
                    exists|bare: Seq<char>| #[trigger]
                        bare_text(read, bare) && bare.len() > 0 && if gathered_bytes(scan.gathered)
                            + text::utf8_len(bare) <= 200_000 {
                            &&& next.gathered == scan.gathered.push(
                                GatheredView { file, text: bare },
                            )
                            &&& next.pending == scan.pending.drop_first()
                        } else {
                            next.gathered == scan.gathered && next.pending.len() == 0
                        }
                },
            }
        }),
{
    if let Some(read) = contents {
        let bare = text::trimmed(read);
        law_trimmed_is_bare(read);
        lemma_gathered_bytes(scan.gathered);
        if !text::blank(read) && bare.len() == 0 {
            let (front, back) = choose|front: Seq<char>, back: Seq<char>|
                read == #[trigger] (front + bare + back) && text::blank(front) && text::blank(
                    back,
                );
            assert forall|i: int| 0 <= i < read.len() implies text::white_space(
                #[trigger] read[i],
            ) by {
                if i < front.len() {
                    assert(read[i] == front[i]);
                } else {
                    assert(read[i] == back[i - front.len()]);
                }
            }
        }
        if text::blank(read) && bare.len() > 0 {
            let (front, back) = choose|front: Seq<char>, back: Seq<char>|
                read == #[trigger] (front + bare + back) && text::blank(front) && text::blank(
                    back,
                );
            assert(read[front.len() as int] == bare[0]);
        }
    }
}

/// What trimming leaves is the text without the white space around it.
pub proof fn law_trimmed_is_bare(contents: Seq<char>)
    ensures
        bare_text(contents, text::trimmed(contents)),
{
    let inner = text::trimmed_start(contents);
    let bare = text::trimmed(contents);
    let front = lemma_front(contents);
    let back = inner.skip(bare.len() as int);
    lemma_trimmed_start_begins(contents);
    lemma_trimmed_end_ends(inner);
    lemma_back(inner);
    assert(inner =~= bare + back);
    assert(contents =~= front + bare + back);
    if bare.len() > 0 {
        assert(bare[0] == inner[0]);
    }
}

proof fn lemma_front(contents: Seq<char>) -> (front: Seq<char>)
    ensures
        contents == front + text::trimmed_start(contents),
        text::blank(front),
    decreases contents.len(),
{
    if contents.len() > 0 && text::white_space(contents.first()) {
        let rest = lemma_front(contents.drop_first());
        let front = seq![contents[0]] + rest;
        assert(contents =~= seq![contents[0]] + contents.drop_first());
        assert(contents =~= front + text::trimmed_start(contents));
        assert forall|i: int| 0 <= i < front.len() implies text::white_space(
            #[trigger] front[i],
        ) by {
            if i > 0 {
                assert(front[i] == rest[i - 1]);
            }
        }
        front
    } else {
        assert(contents =~= Seq::<char>::empty() + contents);
        Seq::empty()
    }
}

proof fn lemma_back(contents: Seq<char>)
    ensures
        text::blank(contents.skip(text::trimmed_end(contents).len() as int)),
    decreases contents.len(),
{
    if contents.len() > 0 && text::white_space(contents.last()) {
        let before = contents.drop_last();
        let kept = text::trimmed_end(before).len() as int;
        lemma_trimmed_end_ends(before);
        lemma_back(before);
        let back = contents.skip(kept);
        assert forall|i: int| 0 <= i < back.len() implies text::white_space(
            #[trigger] back[i],
        ) by {
            if i < back.len() - 1 {
                assert(back[i] == before.skip(kept)[i]);
            }
        }
    }
}

proof fn lemma_gathered_bytes(gathered: Seq<GatheredView>)
    ensures
        rules::gathered_len(gathered) == gathered_bytes(gathered),
    decreases gathered.len(),
{
    if gathered.len() > 0 {
        lemma_gathered_bytes(gathered.drop_last());
        lemma_gathered_bytes_push(gathered.drop_last(), gathered.last());
        assert(gathered.drop_last().push(gathered.last()) =~= gathered);
    }
}

proof fn lemma_gathered_bytes_push(gathered: Seq<GatheredView>, entry: GatheredView)
    ensures
        gathered_bytes(gathered.push(entry)) == gathered_bytes(gathered) + text::utf8_len(
            entry.text,
        ),
    decreases gathered.len(),
{
    let all = gathered.push(entry);
    if gathered.len() == 0 {
        assert(all.drop_first() =~= gathered);
    } else {
        assert(all.drop_first() =~= gathered.drop_first().push(entry));
        lemma_gathered_bytes_push(gathered.drop_first(), entry);
    }
}

/// The gathered files that were found for one configured path of one worktree, each with its path
/// and its text, in the order in which they were gathered.
pub open spec fn gathered_for(
    gathered: Seq<GatheredView>,
    configured: Seq<char>,
    root: Seq<char>,
) -> Seq<(Seq<char>, Seq<char>)>
    decreases gathered.len(),
{
    if gathered.len() == 0 {
        seq![]
    } else {
        (if gathered[0].file.directory_path == configured && gathered[0].file.worktree_root_name
            == root {
            seq![(gathered[0].file.path, gathered[0].text)]
        } else {
            seq![]
        }) + gathered_for(gathered.drop_first(), configured, root)
    }
}

/// Whether one text comes before another: it is a proper prefix of the other, or has a smaller
/// character where they first differ.
pub open spec fn comes_before(left: Seq<char>, right: Seq<char>) -> bool {
    exists|same: int|
        {
            &&& 0 <= same <= left.len()
            &&& same < right.len()
            &&& #[trigger] left.take(same) == right.take(same)
            &&& same < left.len() ==> left[same] < right[same]
        }
}

/// Whether there is a group for the configured path and the worktree of a file.
pub open spec fn in_some_group(groups: Seq<GroupView>, file: RuleFileView) -> bool {
    exists|k: int|
        0 <= k < groups.len() && (#[trigger] groups[k]).directory_path == file.directory_path
            && groups[k].worktree_root_name == file.worktree_root_name
}

/// What a scan hands back: for every configured path of a worktree for which anything was
/// gathered one group with all files gathered for it, and no other groups, in the order of the
/// configured paths and, where these are equal, of the worktrees' names.
pub proof fn law_groups(groups: Seq<GroupView>, gathered: Seq<GatheredView>)
    requires
        rules::is_grouping(groups, gathered),
    ensures
        forall|i: int|
            0 <= i < groups.len() ==> (#[trigger] groups[i]).files.len() > 0 && groups[i].files
                == gathered_for(
                gathered,
                groups[i].directory_path,
                groups[i].worktree_root_name,
            ),
        forall|i: int|
            0 <= i < gathered.len() ==> in_some_group(groups, (#[trigger] gathered[i]).file),
        forall|i: int, j: int|
            0 <= i < j < groups.len() ==> comes_before(
                (#[trigger] groups[i]).directory_path,
                (#[trigger] groups[j]).directory_path,
            ) || groups[i].directory_path == groups[j].directory_path && comes_before(
                groups[i].worktree_root_name,
                groups[j].worktree_root_name,
            ),
{
    assert forall|i: int| 0 <= i < groups.len() implies (#[trigger] groups[i]).files.len() > 0
        && groups[i].files == gathered_for(
        gathered,
        groups[i].directory_path,
        groups[i].worktree_root_name,
    ) by {
        lemma_gathered_for(gathered, groups[i].directory_path, groups[i].worktree_root_name);
    }
    assert forall|i: int| 0 <= i < gathered.len() implies in_some_group(
        groups,
        (#[trigger] gathered[i]).file,
    ) by {
        assert(rules::has_group(
            groups,
            gathered[i].file.directory_path,
            gathered[i].file.worktree_root_name,
        ));
    }
    assert forall|i: int, j: int| 0 <= i < j < groups.len() implies comes_before(
        (#[trigger] groups[i]).directory_path,
        (#[trigger] groups[j]).directory_path,
    ) || groups[i].directory_path == groups[j].directory_path && comes_before(
        groups[i].worktree_root_name,
        groups[j].worktree_root_name,
    ) by {
        assert(rules::group_less(groups[i], groups[j]));
        if text::text_less(groups[i].directory_path, groups[j].directory_path) {
            lemma_comes_before(groups[i].directory_path, groups[j].directory_path);
        } else {
            lemma_comes_before(groups[i].worktree_root_name, groups[j].worktree_root_name);
        }
    }
}

proof fn lemma_comes_before(left: Seq<char>, right: Seq<char>)
    requires
        text::text_less(left, right),
    ensures
        comes_before(left, right),
    decreases left.len(),
{
    if left.len() == 0 || left[0] != right[0] {
        assert(left.take(0) =~= right.take(0));
    } else {
        let left_rest = left.drop_first();
        let right_rest = right.drop_first();
        lemma_comes_before(left_rest, right_rest);
        let same = choose|same: int|
            {
                &&& 0 <= same <= left_rest.len()
                &&& same < right_rest.len()
                &&& #[trigger] left_rest.take(same) == right_rest.take(same)
                &&& same < left_rest.len() ==> left_rest[same] < right_rest[same]
            };
        assert(left.take(same + 1) =~= seq![left[0]] + left_rest.take(same));
        assert(right.take(same + 1) =~= seq![right[0]] + right_rest.take(same));
    }
}

proof fn lemma_gathered_for(
    gathered: Seq<GatheredView>,
    configured: Seq<char>,
    root: Seq<char>,
)
    ensures
        rules::files_under(gathered, configured, root) == gathered_for(gathered, configured, root),
    decreases gathered.len(),
{
    if gathered.len() > 0 {
        lemma_gathered_for(gathered.drop_last(), configured, root);
        lemma_gathered_for_push(gathered.drop_last(), gathered.last(), configured, root);
        assert(gathered.drop_last().push(gathered.last()) =~= gathered);
        assert(rules::files_under(gathered, configured, root) =~= gathered_for(
            gathered,
            configured,
            root,
        ));
    }
}

proof fn lemma_gathered_for_push(
    gathered: Seq<GatheredView>,
    entry: GatheredView,
    configured: Seq<char>,
    root: Seq<char>,
)
    ensures
        gathered_for(gathered.push(entry), configured, root) == gathered_for(
            gathered,
            configured,
            root,
        ) + if entry.file.directory_path == configured && entry.file.worktree_root_name == root {
            seq![(entry.file.path, entry.text)]
        } else {
            seq![]
        },
    decreases gathered.len(),
{
    let all = gathered.push(entry);
    let added = if entry.file.directory_path == configured && entry.file.worktree_root_name
        == root {
        seq![(entry.file.path, entry.text)]
    } else {
        seq![]
    };
    if gathered.len() == 0 {
        assert(all.drop_first() =~= gathered);
        assert(gathered_for(all, configured, root) =~= gathered_for(gathered, configured, root)
            + added);
    } else {
        assert(all.drop_first() =~= gathered.drop_first().push(entry));
        lemma_gathered_for_push(gathered.drop_first(), entry, configured, root);
        assert(gathered_for(all, configured, root) =~= gathered_for(gathered, configured, root)
            + added);
    }
}

} // verus!
