//! The Git pane's own state: the changed-file rows built from `git status`
//! and the two `git diff --numstat` lists, the paths that count as changed
//! for cross-Task conflict detection, the default view of a selected file,
//! and the refresh coalescing that keeps at most one refresh in flight.
//!
//! Rows come staged first, then unstaged (without unmerged, conflicted
//! entries), then untracked; a staged or unstaged row carries the line
//! counts of its own numstat list (the last entry for its path), an
//! untracked row none.
//!
//! The branch bar shows the branch name (`-` when detached) and, when
//! non-zero, the commits ahead (`↑n`) and behind (`↓n`) of upstream.
use vstd::prelude::*;
use crate::text::{strings_view, str_is, decimal, push_decimal, string_of};

verus! {

/// The section a changed-file row belongs to.
#[derive(Debug, Clone, Copy, PartialEq, Eq, Structural)]
pub enum FileSection {
    Staged,
    Unstaged,
    Untracked,
}

/// What the detail view of a selected file shows.
#[derive(Debug, Clone, Copy, PartialEq, Eq, Structural)]
pub enum FileViewMode {
    Diff,
    Whole,
}

impl Default for FileViewMode {
    fn default() -> (r: Self)
        ensures
            r == FileViewMode::Diff,
    {
        FileViewMode::Diff
    }
}

/// The kind of a `git status` entry.
#[derive(Debug, Clone, Copy, PartialEq, Eq, Structural)]
pub enum EntryKind {
    Ordinary,
    RenamedOrCopied,
    Unmerged,
    Untracked,
    Ignored,
}

/// One `git status` entry: its kind, its path, and for a rename or copy the
/// path it came from.
#[derive(Debug, Clone, PartialEq, Eq)]
pub struct GitFileEntry {
    pub kind: EntryKind,
    pub path: String,
    pub original_path: Option<String>,
}

/// One `git diff --numstat` line: added and deleted line counts (absent for
/// a binary file) of a path.
#[derive(Debug, Clone, PartialEq, Eq)]
pub struct NumstatEntry {
    pub additions: Option<i64>,
    pub deletions: Option<i64>,
    pub path: String,
}

/// One row of the changed-files list.
#[derive(Debug, Clone, PartialEq, Eq)]
pub struct ChangedFileItem {
    pub path: String,
    pub section: FileSection,
    pub adds: Option<i64>,
    pub dels: Option<i64>,
}

/// The plain value of a [`ChangedFileItem`].
pub struct ChangedItemView {
    pub path: Seq<char>,
    pub section: FileSection,
    pub adds: Option<i64>,
    pub dels: Option<i64>,
}

impl View for ChangedFileItem {
    type V = ChangedItemView;

    open spec fn view(&self) -> ChangedItemView {
        ChangedItemView { path: self.path@, section: self.section, adds: self.adds, dels: self.dels }
    }
}

/// The views of a list of rows.
pub open spec fn items_view(items: Seq<ChangedFileItem>) -> Seq<ChangedItemView> {
    items.map_values(|i: ChangedFileItem| i@)
}

/// The counts `list` gives `path`: those of its last entry for `path`.
pub open spec fn counts_for(list: Seq<NumstatEntry>, path: Seq<char>) -> Option<(Option<i64>, Option<i64>)>
    decreases list.len(),
{
    if list.len() == 0 {
        None
    } else if list.last().path@ == path {
        Some((list.last().additions, list.last().deletions))
    } else {
        counts_for(list.drop_last(), path)
    }
}

/// The row of an entry in a counted section.
pub open spec fn counted_row(e: GitFileEntry, section: FileSection, list: Seq<NumstatEntry>) -> ChangedItemView {
    match counts_for(list, e.path@) {
        Some((a, d)) => ChangedItemView { path: e.path@, section, adds: a, dels: d },
        None => ChangedItemView { path: e.path@, section, adds: None, dels: None },
    }
}

/// The rows of a counted section, in entry order, leaving out unmerged
/// entries when `skip_unmerged`.
pub open spec fn section_rows(entries: Seq<GitFileEntry>, section: FileSection, list: Seq<NumstatEntry>, skip_unmerged: bool) -> Seq<ChangedItemView>
    decreases entries.len(),
{
    if entries.len() == 0 {
        Seq::empty()
    } else {
        let rest = section_rows(entries.drop_last(), section, list, skip_unmerged);
        if skip_unmerged && entries.last().kind == EntryKind::Unmerged {
            rest
        } else {
            rest.push(counted_row(entries.last(), section, list))
        }
    }
}

/// The rows of the untracked section, without counts.
pub open spec fn untracked_rows(entries: Seq<GitFileEntry>) -> Seq<ChangedItemView> {
    entries.map_values(|e: GitFileEntry| ChangedItemView { path: e.path@, section: FileSection::Untracked, adds: None, dels: None })
}

/// The changed-file rows: staged, then unstaged without unmerged entries,
/// then untracked.
pub open spec fn changed_rows(
    staged: Seq<GitFileEntry>,
    unstaged: Seq<GitFileEntry>,
    untracked: Seq<GitFileEntry>,
    staged_numstat: Seq<NumstatEntry>,
    unstaged_numstat: Seq<NumstatEntry>,
) -> Seq<ChangedItemView> {
    section_rows(staged, FileSection::Staged, staged_numstat, false) + section_rows(
        unstaged,
        FileSection::Unstaged,
        unstaged_numstat,
        true,
    ) + untracked_rows(untracked)
}

fn find_counts(list: &[NumstatEntry], path: &str) -> (r: Option<(Option<i64>, Option<i64>)>)
    ensures
        r == counts_for(list@, path@),
{
    let mut i: usize = list.len();
    assert(list@.take(list@.len() as int) =~= list@);
    while i > 0
        invariant
            i <= list@.len(),
            counts_for(list@, path@) == counts_for(list@.take(i as int), path@),
        decreases i,
    {
        let e = &list[i - 1];
        proof {
            let t = list@.take(i as int);
            assert(t.drop_last() =~= list@.take(i - 1));
            assert(t.last() == list@[i - 1]);
        }
        if str_is(e.path.as_str(), path) {
            return Some((e.additions, e.deletions));
        }
        i -= 1;
    }
    assert(list@.take(0) =~= Seq::<NumstatEntry>::empty());
    None
}

fn push_section(
    items: &mut Vec<ChangedFileItem>,
    entries: &[GitFileEntry],
    section: FileSection,
    list: &[NumstatEntry],
    skip_unmerged: bool,
)
    ensures
        items_view(final(items)@) == items_view(old(items)@) + section_rows(entries@, section, list@, skip_unmerged),
{
    let n = entries.len();
    let mut i: usize = 0;
    let ghost base = items_view(items@);
    while i < n
        invariant
            n == entries@.len(),
            i <= n,
            items_view(items@) == base + section_rows(entries@.take(i as int), section, list@, skip_unmerged),
        decreases n - i,
    {
        let e = &entries[i];
        let ghost prev = items_view(items@);
        proof {
            let t = entries@.take(i + 1);
            assert(t.drop_last() =~= entries@.take(i as int));
            assert(t.last() == entries@[i as int]);
        }
        if !(skip_unmerged && e.kind == EntryKind::Unmerged) {
            let (adds, dels) = match find_counts(list, e.path.as_str()) {
                Some((a, d)) => (a, d),
                None => (None, None),
            };
            items.push(ChangedFileItem { path: e.path.clone(), section, adds, dels });
            assert(items_view(items@) =~= prev.push(counted_row(entries@[i as int], section, list@)));
        }
        i += 1;
    }
    assert(entries@.take(n as int) =~= entries@);
}

/// The changed-file rows of a `git status` (given as its staged, unstaged
/// and untracked entries) with the counts of the staged and unstaged
/// numstat lists.
pub fn build_changed_items(
    staged: &[GitFileEntry],
    unstaged: &[GitFileEntry],
    untracked: &[GitFileEntry],
    staged_numstat: &[NumstatEntry],
    unstaged_numstat: &[NumstatEntry],
) -> (r: Vec<ChangedFileItem>)
    ensures
        items_view(r@) == changed_rows(staged@, unstaged@, untracked@, staged_numstat@, unstaged_numstat@),
{
    let mut items: Vec<ChangedFileItem> = Vec::new();
    assert(items_view(items@) =~= Seq::<ChangedItemView>::empty());
    push_section(&mut items, staged, FileSection::Staged, staged_numstat, false);
    push_section(&mut items, unstaged, FileSection::Unstaged, unstaged_numstat, true);
    let ghost before = items_view(items@);
    let n = untracked.len();
    let mut i: usize = 0;
    while i < n
        invariant
            n == untracked@.len(),
            i <= n,
            items_view(items@) == before + untracked_rows(untracked@.take(i as int)),
        decreases n - i,
    {
        let ghost prev = items_view(items@);
        items.push(ChangedFileItem { path: untracked[i].path.clone(), section: FileSection::Untracked, adds: None, dels: None });
        assert(untracked_rows(untracked@.take(i + 1)) =~= untracked_rows(untracked@.take(i as int)).push(
            ChangedItemView { path: untracked@[i as int].path@, section: FileSection::Untracked, adds: None, dels: None },
        ));
        assert(items_view(items@) =~= prev.push(
            ChangedItemView { path: untracked@[i as int].path@, section: FileSection::Untracked, adds: None, dels: None },
        ));
        i += 1;
    }
    assert(untracked@.take(n as int) =~= untracked@);
    items
}

/// Whether `p` is a path that `entries` report as changed: the path, or the
/// original path of a rename or copy, of an entry that is not ignored.
pub open spec fn is_changed_path(entries: Seq<GitFileEntry>, p: Seq<char>) -> bool {
    exists|i: int|
        0 <= i < entries.len() && entries[i].kind != EntryKind::Ignored && (entries[i].path@ == p || (
        entries[i].original_path matches Some(o) && o@ == p))
}

fn contains_string(v: &Vec<String>, s: &str) -> (r: bool)
    ensures
        r == strings_view(v@).contains(s@),
{
    let n = v.len();
    let mut i: usize = 0;
    while i < n
        invariant
            n == v@.len(),
            i <= n,
            forall|j: int| 0 <= j < i ==> strings_view(v@)[j] != s@,
        decreases n - i,
    {
        if str_is(v[i].as_str(), s) {
            assert(strings_view(v@)[i as int] == s@);
            return true;
        }
        i += 1;
    }
    false
}

fn add_path(out: &mut Vec<String>, p: &String)
    requires
        strings_view(old(out)@).no_duplicates(),
    ensures
        strings_view(final(out)@).no_duplicates(),
        strings_view(final(out)@).to_set() == strings_view(old(out)@).to_set().insert(p@),
{
    let ghost before = strings_view(out@);
    if !contains_string(out, p.as_str()) {
        out.push(p.clone());
        assert(strings_view(out@) =~= before.push(p@));
        assert(strings_view(out@).to_set() =~= before.to_set().insert(p@)) by {
            assert forall|x: Seq<char>| strings_view(out@).to_set().contains(x) <==> before.to_set().insert(p@).contains(x) by {
                if strings_view(out@).to_set().contains(x) {
                    let k = choose|k: int| 0 <= k < strings_view(out@).len() && strings_view(out@)[k] == x;
                    if k < before.len() {
                        assert(before[k] == x);
                    }
                }
                if before.contains(x) {
                    let k = choose|k: int| 0 <= k < before.len() && before[k] == x;
                    assert(strings_view(out@)[k] == x);
                }
                if x == p@ {
                    assert(strings_view(out@)[before.len() as int] == x);
                }
            }
        }
    } else {
        assert(before.to_set() =~= before.to_set().insert(p@));
    }
}

/// Every path that `entries` report as changed, once each: both sides of a
/// rename or copy, unmerged entries included, ignored entries left out.
pub fn changed_paths(entries: &[GitFileEntry]) -> (r: Vec<String>)
    ensures
        strings_view(r@).no_duplicates(),
        forall|p: Seq<char>| strings_view(r@).contains(p) <==> is_changed_path(entries@, p),
{
    let mut out: Vec<String> = Vec::new();
    let n = entries.len();
    let mut i: usize = 0;
    assert(strings_view(out@) =~= Seq::<Seq<char>>::empty());
    while i < n
        invariant
            n == entries@.len(),
            i <= n,
            strings_view(out@).no_duplicates(),
            forall|p: Seq<char>| strings_view(out@).to_set().contains(p) <==> is_changed_path(entries@.take(i as int), p),
        decreases n - i,
    {
        let e = &entries[i];
        let ghost before = strings_view(out@).to_set();
        proof {
            let t = entries@.take(i + 1);
            assert forall|p: Seq<char>| is_changed_path(t, p) <==> (is_changed_path(entries@.take(i as int), p) || (
                e.kind != EntryKind::Ignored && (e.path@ == p || (e.original_path matches Some(o) && o@ == p)))) by {
                if is_changed_path(t, p) {
                    let k = choose|k: int| 0 <= k < t.len() && t[k].kind != EntryKind::Ignored && (t[k].path@ == p || (
                        t[k].original_path matches Some(o) && o@ == p));
                    if k < i {
                        assert(entries@.take(i as int)[k] == t[k]);
                    }
                }
                if is_changed_path(entries@.take(i as int), p) {
                    let k = choose|k: int| 0 <= k < i && entries@.take(i as int)[k].kind != EntryKind::Ignored && (
                        entries@.take(i as int)[k].path@ == p || (entries@.take(i as int)[k].original_path matches Some(o)
                        && o@ == p));
                    assert(t[k] == entries@.take(i as int)[k]);
                }
                if e.kind != EntryKind::Ignored && (e.path@ == p || (e.original_path matches Some(o) && o@ == p)) {
                    assert(t[i as int] == *e);
                }
            }
        }
        if e.kind != EntryKind::Ignored {
            add_path(&mut out, &e.path);
            if let Some(o) = &e.original_path {
                add_path(&mut out, o);
            }
        }
        i += 1;
    }
    assert(entries@.take(n as int) =~= entries@);
    assert forall|p: Seq<char>| strings_view(out@).contains(p) <==> is_changed_path(entries@, p) by {
        assert(strings_view(out@).to_set().contains(p) == strings_view(out@).contains(p));
    }
    out
}

/// The view a selected file opens in: its diff when it is a known tracked
/// change, its whole contents when it is untracked or not in the list.
pub open spec fn default_mode(items: Seq<ChangedFileItem>, path: Seq<char>) -> FileViewMode
    decreases items.len(),
{
    if items.len() == 0 {
        FileViewMode::Whole
    } else if items[0].path@ == path {
        if items[0].section == FileSection::Untracked {
            FileViewMode::Whole
        } else {
            FileViewMode::Diff
        }
    } else {
        default_mode(items.drop_first(), path)
    }
}

fn default_mode_of(items: &Vec<ChangedFileItem>, path: &str) -> (r: FileViewMode)
    ensures
        r == default_mode(items@, path@),
{
    let n = items.len();
    let mut i: usize = 0;
    assert(items@.skip(0) =~= items@);
    while i < n
        invariant
            n == items@.len(),
            i <= n,
            default_mode(items@, path@) == default_mode(items@.skip(i as int), path@),
        decreases n - i,
    {
        proof {
            assert(items@.skip(i as int).drop_first() =~= items@.skip(i + 1));
            assert(items@.skip(i as int)[0] == items@[i as int]);
        }
        if str_is(items[i].path.as_str(), path) {
            if items[i].section == FileSection::Untracked {
                return FileViewMode::Whole;
            } else {
                return FileViewMode::Diff;
            }
        }
        i += 1;
    }
    assert(items@.skip(n as int).len() == 0);
    FileViewMode::Whole
}

/// One Task's Git-pane state: visibility, the changed-file rows, the
/// selected file and how it is shown, the last refresh's contents, and the
/// refresh coalescing flags.
pub struct GitPaneState {
    pub visible: bool,
    pub items: Vec<ChangedFileItem>,
    pub selected_path: Option<String>,
    pub view_mode: FileViewMode,
    pub whole_text: Option<String>,
    pub load_error: Option<String>,
    /// A refresh is in flight.
    pub refreshing: bool,
    /// A refresh was requested while one was in flight.
    pub refresh_pending: bool,
}

/// What one refresh computed for the pane.
pub struct GitSnapshot {
    pub items: Vec<ChangedFileItem>,
    pub whole_text: Option<String>,
    pub load_error: Option<String>,
}

impl GitPaneState {
    /// Whether a refresh is in flight.
    pub open spec fn in_flight(&self) -> bool {
        self.refreshing
    }

    /// Whether a trigger arrived while a refresh was in flight.
    pub open spec fn pending(&self) -> bool {
        self.refresh_pending
    }

    /// A visible, empty pane in diff mode with no refresh in flight.
    pub fn new() -> (r: Self)
        ensures
            r.visible,
            r.items@.len() == 0,
            r.selected_path is None,
            r.view_mode == FileViewMode::Diff,
            r.whole_text is None,
            r.load_error is None,
            !r.in_flight(),
            !r.pending(),
    {
        GitPaneState {
            visible: true,
            items: Vec::new(),
            selected_path: None,
            view_mode: FileViewMode::Diff,
            whole_text: None,
            load_error: None,
            refreshing: false,
            refresh_pending: false,
        }
    }

    /// Selects a file and switches to its default view (see
    /// [`default_mode`]), whatever was shown before.
    pub fn select(&mut self, path: String)
        ensures
            *final(self) == (GitPaneState {
                view_mode: default_mode(old(self).items@, path@),
                selected_path: Some(path),
                ..*old(self)
            }),
    {
        let mode = default_mode_of(&self.items, path.as_str());
        self.view_mode = mode;
        self.selected_path = Some(path);
    }

    /// Takes over a refresh's contents.
    pub fn apply(&mut self, snapshot: GitSnapshot)
        ensures
            *final(self) == (GitPaneState {
                items: snapshot.items,
                whole_text: snapshot.whole_text,
                load_error: snapshot.load_error,
                ..*old(self)
            }),
    {
        self.items = snapshot.items;
        self.whole_text = snapshot.whole_text;
        self.load_error = snapshot.load_error;
    }

    /// Asks for a refresh: `true` when the caller should start one now;
    /// `false` when one is already in flight, which then takes this request
    /// along (see [`Self::finish_refresh`]).
    pub fn begin_refresh(&mut self) -> (r: bool)
        ensures
            ((final(self).refreshing, final(self).refresh_pending), r) == after_begin(
                (old(self).refreshing, old(self).refresh_pending),
            ),
            r == !old(self).in_flight(),
            *final(self) == (GitPaneState {
                refreshing: final(self).refreshing,
                refresh_pending: final(self).refresh_pending,
                ..*old(self)
            }),
    {
        if self.refreshing {
            self.refresh_pending = true;
            false
        } else {
            self.refreshing = true;
            self.refresh_pending = false;
            true
        }
    }

    /// Reports that the refresh in flight finished: `true` when the caller
    /// should start exactly one more (requests arrived meanwhile), `false`
    /// when the pane is idle again.
    pub fn finish_refresh(&mut self) -> (r: bool)
        ensures
            ((final(self).refreshing, final(self).refresh_pending), r) == after_finish(
                (old(self).refreshing, old(self).refresh_pending),
            ),
            r == old(self).pending(),
            *final(self) == (GitPaneState {
                refreshing: final(self).refreshing,
                refresh_pending: final(self).refresh_pending,
                ..*old(self)
            }),
    {
        self.refreshing = false;
        if self.refresh_pending {
            self.refresh_pending = false;
            self.refreshing = true;
            true
        } else {
            false
        }
    }
}

/// The refresh flags as plain values: in flight, pending.
pub open spec fn after_begin(s: (bool, bool)) -> ((bool, bool), bool) {
    if s.0 {
        ((true, true), false)
    } else {
        ((true, false), true)
    }
}

/// The refresh flags after a refresh finishes, and whether to start one
/// more.
pub open spec fn after_finish(s: (bool, bool)) -> ((bool, bool), bool) {
    if s.1 {
        ((true, false), true)
    } else {
        ((false, false), false)
    }
}

/// The flags after `k` requests.
pub open spec fn after_begins(s: (bool, bool), k: nat) -> (bool, bool)
    decreases k,
{
    if k == 0 {
        s
    } else {
        after_begin(after_begins(s, (k - 1) as nat)).0
    }
}

/// Requests never overlap refreshes: while one is in flight, any number of
/// further requests start nothing, and its finish starts exactly one more
/// refresh if there was at least one such request (none otherwise); that
/// one's finish, with nothing new requested, leaves the pane idle.
pub proof fn law_refresh_coalescing(k: nat)
    ensures
        forall|j: nat| 0 < j <= k ==> !#[trigger] after_begin(after_begins((true, false), (j - 1) as nat)).1,
        after_finish(after_begins((true, false), k)).1 == (k > 0),
        after_finish(after_finish(after_begins((true, false), k)).0).0 == (false, false),
    decreases k,
{
    if k > 0 {
        law_refresh_coalescing((k - 1) as nat);
    }
    lemma_begins_in_flight(k);
}

proof fn lemma_begins_in_flight(k: nat)
    ensures
        after_begins((true, false), k).0,
        after_begins((true, false), k).1 == (k > 0),
    decreases k,
{
    if k > 0 {
        lemma_begins_in_flight((k - 1) as nat);
    }
}

/// The branch bar's name: the branch, or `-` without one (a detached HEAD).
pub open spec fn branch_label_of(branch: Option<Seq<char>>) -> Seq<char> {
    match branch {
        Some(b) => b,
        None => "-"@,
    }
}

/// The branch bar's name for `branch`.
pub fn branch_label(branch: Option<String>) -> (r: String)
    ensures
        r@ == branch_label_of(
            match branch {
                Some(b) => Some(b@),
                None => None,
            },
        ),
{
    match branch {
        Some(b) => b,
        None => String::from_str("-"),
    }
}

/// A count mark of the branch bar: `arrow` and the count, shown only for a
/// non-zero count.
pub open spec fn count_mark(arrow: char, n: u64) -> Option<Seq<char>> {
    if n > 0 {
        Some(seq![arrow] + decimal(n as nat))
    } else {
        None
    }
}

/// The branch bar's ahead (`↑n`) and behind (`↓n`) marks.
pub fn ahead_behind_marks(ahead: u64, behind: u64) -> (r: (Option<String>, Option<String>))
    ensures
        match r.0 {
            Some(t) => count_mark('\u{2191}', ahead) == Some(t@),
            None => count_mark('\u{2191}', ahead) is None,
        },
        match r.1 {
            Some(t) => count_mark('\u{2193}', behind) == Some(t@),
            None => count_mark('\u{2193}', behind) is None,
        },
{
    (mark('\u{2191}', ahead), mark('\u{2193}', behind))
}

fn mark(arrow: char, n: u64) -> (r: Option<String>)
    ensures
        match r {
            Some(t) => count_mark(arrow, n) == Some(t@),
            None => count_mark(arrow, n) is None,
        },
{
    if n == 0 {
        None
    } else {
        let mut v: Vec<char> = Vec::new();
        v.push(arrow);
        push_decimal(&mut v, n);
        assert(v@ =~= seq![arrow] + decimal(n as nat));
        Some(string_of(&v))
    }
}

/// The number of entries of a list that are not unmerged.
pub open spec fn merged_count(entries: Seq<GitFileEntry>) -> nat
    decreases entries.len(),
{
    if entries.len() == 0 {
        0
    } else {
        merged_count(entries.drop_last()) + if entries.last().kind == EntryKind::Unmerged {
            0nat
        } else {
            1nat
        }
    }
}

proof fn lemma_section_rows_shape(entries: Seq<GitFileEntry>, section: FileSection, list: Seq<NumstatEntry>, skip: bool)
    ensures
        section_rows(entries, section, list, skip).len() == if skip {
            merged_count(entries)
        } else {
            entries.len()
        },
        forall|j: int|
            0 <= j < section_rows(entries, section, list, skip).len() ==> (#[trigger] section_rows(
                entries,
                section,
                list,
                skip,
            )[j]).section == section,
        !skip ==> forall|i: int|
            0 <= i < entries.len() ==> (#[trigger] section_rows(entries, section, list, skip)[i]).path
                == entries[i].path@,
        skip ==> forall|j: int|
            0 <= j < section_rows(entries, section, list, skip).len() ==> exists|k: int|
                0 <= k < entries.len() && entries[k].kind != EntryKind::Unmerged && (#[trigger] section_rows(
                    entries,
                    section,
                    list,
                    skip,
                )[j]).path == entries[k].path@,
    decreases entries.len(),
{
    if entries.len() > 0 {
        let d = entries.drop_last();
        lemma_section_rows_shape(d, section, list, skip);
        let rest = section_rows(d, section, list, skip);
        let rows = section_rows(entries, section, list, skip);
        assert forall|j: int| 0 <= j < rows.len() implies (#[trigger] rows[j]).section == section by {
            if j < rest.len() {
                assert(rows[j] == rest[j]);
            }
        }
        if !skip {
            assert forall|i: int| 0 <= i < entries.len() implies (#[trigger] rows[i]).path == entries[i].path@ by {
                if i < d.len() {
                    assert(rows[i] == rest[i]);
                    assert(d[i] == entries[i]);
                }
            }
        } else {
            assert forall|j: int| 0 <= j < rows.len() implies exists|k: int|
                0 <= k < entries.len() && entries[k].kind != EntryKind::Unmerged && (#[trigger] rows[j]).path
                    == entries[k].path@ by {
                if j < rest.len() {
                    assert(rows[j] == rest[j]);
                    let k = choose|k: int|
                        0 <= k < d.len() && d[k].kind != EntryKind::Unmerged && rest[j].path == d[k].path@;
                    assert(d[k] == entries[k]);
                } else {
                    assert(entries[entries.len() - 1] == entries.last());
                }
            }
        }
    }
}

/// Every staged entry, whatever its kind, gives exactly one row in the
/// staged section, with its path and in its order; the unstaged section
/// has one row per entry that is not unmerged, each with the path of such
/// an entry; every untracked entry gives one untracked row with its path
/// and no counts; the sections come in that order.
pub proof fn law_every_entry_has_its_row(
    staged: Seq<GitFileEntry>,
    unstaged: Seq<GitFileEntry>,
    untracked: Seq<GitFileEntry>,
    staged_numstat: Seq<NumstatEntry>,
    unstaged_numstat: Seq<NumstatEntry>,
)
    ensures
        ({
            let rows = changed_rows(staged, unstaged, untracked, staged_numstat, unstaged_numstat);
            let a = staged.len() as int;
            let b = a + merged_count(unstaged);
            &&& rows.len() == b + untracked.len()
            &&& forall|i: int|
                0 <= i < a ==> (#[trigger] rows[i]).path == staged[i].path@ && rows[i].section
                    == FileSection::Staged
            &&& forall|j: int|
                a <= j < b ==> (#[trigger] rows[j]).section == FileSection::Unstaged && exists|k: int|
                    0 <= k < unstaged.len() && unstaged[k].kind != EntryKind::Unmerged && rows[j].path
                        == unstaged[k].path@
            &&& forall|k: int|
                0 <= k < untracked.len() ==> (#[trigger] rows[b + k]).path == untracked[k].path@ && rows[b
                    + k].section == FileSection::Untracked && rows[b + k].adds is None && rows[b + k].dels is None
        }),
{
    let s = section_rows(staged, FileSection::Staged, staged_numstat, false);
    let u = section_rows(unstaged, FileSection::Unstaged, unstaged_numstat, true);
    let t = untracked_rows(untracked);
    lemma_section_rows_shape(staged, FileSection::Staged, staged_numstat, false);
    lemma_section_rows_shape(unstaged, FileSection::Unstaged, unstaged_numstat, true);
    let rows = changed_rows(staged, unstaged, untracked, staged_numstat, unstaged_numstat);
    assert(rows == s + u + t);
    let a = staged.len() as int;
    let b = a + merged_count(unstaged);
    assert forall|i: int| 0 <= i < a implies (#[trigger] rows[i]).path == staged[i].path@ && rows[i].section
        == FileSection::Staged by {
        assert(rows[i] == s[i]);
    }
    assert forall|j: int| a <= j < b implies (#[trigger] rows[j]).section == FileSection::Unstaged && exists|k: int|
        0 <= k < unstaged.len() && unstaged[k].kind != EntryKind::Unmerged && rows[j].path == unstaged[k].path@ by {
        assert(rows[j] == u[j - a]);
    }
    assert forall|k: int| 0 <= k < untracked.len() implies (#[trigger] rows[b + k]).path == untracked[k].path@
        && rows[b + k].section == FileSection::Untracked && rows[b + k].adds is None && rows[b + k].dels is None by {
        assert(rows[b + k] == t[k]);
    }
}

} // verus!
