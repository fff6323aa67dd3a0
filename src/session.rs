//! The interactive session: the classified lists, the highlighted row, the
//! single selection and its diff, the multi-select set, scroll positions,
//! the pending prompt, the undo slot and the notification.
//!
//! Work on the repository happens outside: operations that need it hand back
//! what to do (a diff to compute, paths to stage), and take the results as
//! arguments (a fresh status, a computed diff).

use crate::flash::FlashMessage;
use crate::select::key_view;
use crate::select::keys_view;
use crate::select::rows_view;
use crate::select::MultiSelectSet;
use crate::status::StatusResult;
use crate::layout::max_scroll;
use crate::layout::spec_max_scroll;
use crate::types::clone_opt_string;
use crate::types::opt_view;
use crate::types::BranchInfo;
use crate::types::ConfirmPrompt;
use crate::types::DiffContent;
use crate::types::DiffModel;
use crate::types::FileEntry;
use crate::types::FileStatus;
use crate::types::Section;
use crate::types::UndoAction;
use crate::types::VisibleRow;
use vstd::prelude::*;

verus! {

/// A rectangle of terminal cells, for hit-testing clicks.
#[derive(Debug, Clone, Copy, PartialEq, Eq, Structural)]
pub struct Area {
    pub x: u16,
    pub y: u16,
    pub width: u16,
    pub height: u16,
}

impl Area {
    /// Whether the cell at `col`, `row` lies inside.
    pub fn contains(&self, col: u16, row: u16) -> (r: bool)
        ensures
            r == (self.x <= col < self.x + self.width && self.y <= row < self.y + self.height),
    {
        self.x <= col && (col as u32) < self.x as u32 + self.width as u32 && self.y <= row && (row as u32)
            < self.y as u32 + self.height as u32
    }
}

/// A diff the engine must compute for the selected entry.
#[derive(Debug, Clone)]
pub enum DiffRequest {
    /// The single-path diff of a tracked path in a section; a rename's old
    /// path is included.
    Patch { path: String, old_path: Option<String>, section: Section },
    /// The working-tree contents of an untracked path.
    Untracked { path: String },
}

/// A diff request, over mathematical values.
pub ghost enum RequestModel {
    Patch { path: Seq<char>, old_path: Option<Seq<char>>, section: Section },
    Untracked { path: Seq<char> },
}

impl View for DiffRequest {
    type V = RequestModel;

    open spec fn view(&self) -> RequestModel {
        match self {
            DiffRequest::Patch { path, old_path, section } => RequestModel::Patch {
                path: path@,
                old_path: opt_view(*old_path),
                section: *section,
            },
            DiffRequest::Untracked { path } => RequestModel::Untracked { path: path@ },
        }
    }
}

/// What becomes of the diff pane for a selection.
pub ghost enum DiffAction {
    /// Nothing: the selection names no entry.
    Keep,
    /// A sentinel shown at once.
    Show(DiffModel),
    /// A diff to be computed.
    Request(RequestModel),
}

/// The first entry of `list` with path `path`.
pub open spec fn first_entry(list: Seq<FileEntry>, path: Seq<char>) -> Option<FileEntry>
    decreases list.len(),
{
    if list.len() == 0 {
        None
    } else if list[0].path@ == path {
        Some(list[0])
    } else {
        first_entry(list.drop_first(), path)
    }
}

/// The diff for a selected entry: a conflict or a binary file is shown as such;
/// an untracked file's contents, or a tracked file's section diff, is requested.
pub open spec fn spec_diff_action(selected: Option<(Section, Seq<char>)>, staged: Seq<FileEntry>, unstaged: Seq<FileEntry>) -> DiffAction {
    match selected {
        None => DiffAction::Keep,
        Some((section, path)) => {
            let list = if section == Section::Staged { staged } else { unstaged };
            match first_entry(list, path) {
                None => DiffAction::Keep,
                Some(e) => if e.status == FileStatus::Conflict {
                    DiffAction::Show(DiffModel::Conflict)
                } else if e.is_binary {
                    DiffAction::Show(DiffModel::Binary)
                } else if e.status == FileStatus::Untracked {
                    DiffAction::Request(RequestModel::Untracked { path })
                } else {
                    DiffAction::Request(RequestModel::Patch { path, old_path: opt_view(e.old_path), section })
                },
            }
        },
    }
}

/// The rows of the file list: staged entries, then unstaged ones.
pub open spec fn spec_rows(staged: Seq<FileEntry>, unstaged: Seq<FileEntry>) -> Seq<(Section, Seq<char>)> {
    staged.map_values(|e: FileEntry| (Section::Staged, e.path@)) + unstaged.map_values(
        |e: FileEntry| (Section::Unstaged, e.path@),
    )
}

/// Builds the navigable rows: every staged entry, then every unstaged one.
pub fn build_visible_rows(staged: &[FileEntry], unstaged: &[FileEntry]) -> (r: Vec<VisibleRow>)
    ensures
        rows_view(r@) == spec_rows(staged@, unstaged@),
{
    let mut rows: Vec<VisibleRow> = Vec::new();
    let mut i: usize = 0;
    while i < staged.len()
        invariant
            i <= staged@.len(),
            rows_view(rows@) =~= staged@.subrange(0, i as int).map_values(|e: FileEntry| (Section::Staged, e.path@)),
        decreases staged@.len() - i,
    {
        let ghost before = rows_view(rows@);
        rows.push(VisibleRow { section: Section::Staged, path: staged[i].path.clone() });
        proof {
            assert(rows_view(rows@) =~= before.push((Section::Staged, staged@[i as int].path@)));
            assert(staged@.subrange(0, i + 1) =~= staged@.subrange(0, i as int).push(staged@[i as int]));
        }
        i = i + 1;
    }
    assert(staged@.subrange(0, i as int) =~= staged@);
    let ghost head = rows_view(rows@);
    let mut j: usize = 0;
    while j < unstaged.len()
        invariant
            j <= unstaged@.len(),
            rows_view(rows@) =~= head + unstaged@.subrange(0, j as int).map_values(
                |e: FileEntry| (Section::Unstaged, e.path@),
            ),
        decreases unstaged@.len() - j,
    {
        let ghost before = rows_view(rows@);
        rows.push(VisibleRow { section: Section::Unstaged, path: unstaged[j].path.clone() });
        proof {
            assert(rows_view(rows@) =~= before.push((Section::Unstaged, unstaged@[j as int].path@)));
            assert(unstaged@.subrange(0, j + 1) =~= unstaged@.subrange(0, j as int).push(unstaged@[j as int]));
        }
        j = j + 1;
    }
    assert(unstaged@.subrange(0, j as int) =~= unstaged@);
    rows
}

/// The section-header rows shown above file row `idx`.
pub open spec fn headers_before(staged_len: nat, unstaged_len: nat, idx: nat) -> nat {
    (if staged_len > 0 { 1nat } else { 0nat }) + (if unstaged_len > 0 && idx >= staged_len { 1nat } else { 0nat })
}

/// The display row of file row `idx`, counting header rows.
pub open spec fn visual_row(staged_len: nat, unstaged_len: nat, idx: nat) -> nat {
    let v = idx + headers_before(staged_len, unstaged_len, idx);
    if v > usize::MAX {
        usize::MAX as nat
    } else {
        v
    }
}

/// The file list's scroll offset that keeps display row `v` in a window of
/// `height` rows: up at once when it is above; down by exactly the overflow
/// when it is below.
pub open spec fn scroll_for(v: nat, scroll: nat, height: nat) -> nat {
    if v < scroll {
        v
    } else if height > 0 && v >= scroll + height {
        (v - height + 1) as nat
    } else {
        scroll
    }
}

/// `m` with `k`'s membership flipped.
pub open spec fn toggled(m: Set<(Section, Seq<char>)>, k: (Section, Seq<char>)) -> Set<(Section, Seq<char>)> {
    if m.contains(k) {
        m.remove(k)
    } else {
        m.insert(k)
    }
}

pub open spec fn clamp(x: int, lo: int, hi: int) -> int {
    if x < lo {
        lo
    } else if x > hi {
        hi
    } else {
        x
    }
}

/// Counts the header rows above file row `file_idx`.
pub fn count_headers_before(staged_len: usize, unstaged_len: usize, file_idx: usize) -> (r: usize)
    ensures
        r == headers_before(staged_len as nat, unstaged_len as nat, file_idx as nat),
{
    let mut headers: usize = 0;
    if staged_len > 0 {
        headers = headers + 1;
    }
    if unstaged_len > 0 && file_idx >= staged_len {
        headers = headers + 1;
    }
    headers
}

/// The navigation part of the session.
pub ghost struct Nav {
    pub highlight: Option<usize>,
    pub selected: Option<(Section, Seq<char>)>,
    pub multi: Set<(Section, Seq<char>)>,
    pub scroll: usize,
    pub diff_scroll: usize,
}

/// Navigation after a refresh that found `rows`: with no rows everything
/// resets; otherwise multi-select keeps the keys still listed, the highlight
/// is clamped into range (0 when unset), a selection that is no longer listed
/// is dropped with the diff scroll, and the file list scrolls to the highlight.
pub open spec fn refresh_nav(n: Nav, rows: Seq<(Section, Seq<char>)>, staged_len: nat, unstaged_len: nat, height: nat) -> Nav {
    if rows.len() == 0 {
        Nav { highlight: None, selected: None, multi: Set::empty(), scroll: n.scroll, diff_scroll: 0 }
    } else {
        let h: usize = match n.highlight {
            Some(i) => if i >= rows.len() { (rows.len() - 1) as usize } else { i },
            None => 0,
        };
        let kept = match n.selected {
            Some(k) => rows.contains(k),
            None => true,
        };
        Nav {
            highlight: Some(h),
            selected: if kept { n.selected } else { None },
            multi: n.multi.filter(|k: (Section, Seq<char>)| rows.contains(k)),
            scroll: scroll_for(visual_row(staged_len, unstaged_len, h as nat), n.scroll as nat, height) as usize,
            diff_scroll: if kept { n.diff_scroll } else { 0 },
        }
    }
}

/// What the diff pane shows after a refresh with navigation `n` (taken
/// before the refresh).
pub ghost enum RefreshDiff {
    Clean,
    Empty,
    Selected(DiffAction),
}

pub open spec fn refresh_diff(n: Nav, rows: Seq<(Section, Seq<char>)>, staged: Seq<FileEntry>, unstaged: Seq<FileEntry>) -> RefreshDiff {
    if rows.len() == 0 {
        RefreshDiff::Clean
    } else {
        match n.selected {
            Some(k) => if rows.contains(k) {
                RefreshDiff::Selected(spec_diff_action(n.selected, staged, unstaged))
            } else {
                RefreshDiff::Empty
            },
            None => RefreshDiff::Empty,
        }
    }
}

/// Application state for the interactive view.
pub struct App {
    pub staged_files: Vec<FileEntry>,
    pub unstaged_files: Vec<FileEntry>,
    pub highlight_index: Option<usize>,
    pub selected: Option<(Section, String)>,
    pub multi_selected: MultiSelectSet,
    pub file_list_scroll: usize,
    pub current_diff: DiffContent,
    pub diff_scroll: usize,
    pub staged_count: usize,
    pub unstaged_count: usize,
    pub untracked_count: usize,
    pub branch: BranchInfo,
    /// The navigable rows, staged then unstaged; rebuilt with the lists.
    pub visible_rows: Vec<VisibleRow>,
    /// The file list's visible height in rows, as last drawn.
    pub file_list_height: usize,
    pub file_list_area: Area,
    pub diff_area: Area,
    pub confirm_prompt: Option<ConfirmPrompt>,
    pub flash_message: Option<FlashMessage>,
    pub last_action: Option<UndoAction>,
}

pub open spec fn opt_key_view(k: Option<(Section, String)>) -> Option<(Section, Seq<char>)> {
    match k {
        Some(k) => Some(key_view(k)),
        None => None,
    }
}

impl App {
    /// The rows are those of the lists, the multi-select set is well formed,
    /// and a highlight is set exactly when there are rows, and in range.
    pub open spec fn inv(&self) -> bool {
        &&& rows_view(self.visible_rows@) == spec_rows(self.staged_files@, self.unstaged_files@)
        &&& self.multi_selected.wf()
        &&& (self.highlight_index is None) == (self.visible_rows@.len() == 0)
        &&& self.highlight_index matches Some(i) ==> i < self.visible_rows@.len()
    }

    pub open spec fn rows(&self) -> Seq<(Section, Seq<char>)> {
        rows_view(self.visible_rows@)
    }

    pub open spec fn nav(&self) -> Nav {
        Nav {
            highlight: self.highlight_index,
            selected: opt_key_view(self.selected),
            multi: self.multi_selected@,
            scroll: self.file_list_scroll,
            diff_scroll: self.diff_scroll,
        }
    }

    /// Every field but the navigation is as in `o`.
    pub open spec fn same_but_nav(&self, o: &App) -> bool {
        &&& self.staged_files == o.staged_files
        &&& self.unstaged_files == o.unstaged_files
        &&& self.rows() == o.rows()
        &&& self.current_diff == o.current_diff
        &&& self.staged_count == o.staged_count
        &&& self.unstaged_count == o.unstaged_count
        &&& self.untracked_count == o.untracked_count
        &&& self.branch == o.branch
        &&& self.file_list_height == o.file_list_height
        &&& self.file_list_area == o.file_list_area
        &&& self.diff_area == o.diff_area
        &&& self.confirm_prompt == o.confirm_prompt
        &&& self.flash_message == o.flash_message
        &&& self.last_action == o.last_action
    }

    /// The highlighted row's key, if any.
    pub open spec fn highlighted(&self) -> Option<(Section, Seq<char>)> {
        match self.highlight_index {
            Some(i) => if i < self.rows().len() {
                Some(self.rows()[i as int])
            } else {
                None
            },
            None => None,
        }
    }

    /// A session over a freshly classified working tree: the first row
    /// highlighted, nothing selected, and the diff pane clean when there are
    /// no changes.
    pub fn new(branch: BranchInfo, status: StatusResult) -> (r: App)
        ensures
            r.inv(),
            r.staged_files == status.staged_files,
            r.unstaged_files == status.unstaged_files,
            r.staged_count == status.staged_count,
            r.unstaged_count == status.unstaged_count,
            r.untracked_count == status.untracked_count,
            r.branch == branch,
            r.highlight_index == if r.rows().len() == 0 { None::<usize> } else { Some(0usize) },
            r.selected is None,
            r.multi_selected@ == Set::<(Section, Seq<char>)>::empty(),
            r.file_list_scroll == 0,
            r.diff_scroll == 0,
            r.current_diff@ == if r.rows().len() == 0 { DiffModel::Clean } else { DiffModel::Empty },
            r.confirm_prompt is None,
            r.flash_message is None,
            r.last_action is None,
    {
        let visible_rows = build_visible_rows(status.staged_files.as_slice(), status.unstaged_files.as_slice());
        let empty = visible_rows.len() == 0;
        App {
            staged_files: status.staged_files,
            unstaged_files: status.unstaged_files,
            highlight_index: if empty { None } else { Some(0) },
            selected: None,
            multi_selected: MultiSelectSet::new(),
            file_list_scroll: 0,
            current_diff: if empty { DiffContent::Clean } else { DiffContent::Empty },
            diff_scroll: 0,
            staged_count: status.staged_count,
            unstaged_count: status.unstaged_count,
            untracked_count: status.untracked_count,
            branch,
            visible_rows,
            file_list_height: 0,
            file_list_area: Area { x: 0, y: 0, width: 0, height: 0 },
            diff_area: Area { x: 0, y: 0, width: 0, height: 0 },
            confirm_prompt: None,
            flash_message: None,
            last_action: None,
        }
    }

    /// The navigable rows, staged then unstaged.
    pub fn visible_rows(&self) -> (r: &Vec<VisibleRow>)
        ensures
            rows_view(r@) == self.rows(),
    {
        &self.visible_rows
    }

    /// Counts the header rows displayed above file row `file_idx`.
    pub fn count_headers_before(&self, file_idx: usize) -> (r: usize)
        ensures
            r == headers_before(self.staged_files@.len(), self.unstaged_files@.len(), file_idx as nat),
    {
        count_headers_before(self.staged_files.len(), self.unstaged_files.len(), file_idx)
    }

    fn visual_row_exec(&self, idx: usize) -> (r: usize)
        ensures
            r == visual_row(self.staged_files@.len(), self.unstaged_files@.len(), idx as nat),
    {
        let h = self.count_headers_before(idx);
        if idx > usize::MAX - h {
            usize::MAX
        } else {
            idx + h
        }
    }

    fn update_scroll_for_highlight(&mut self)
        ensures
            final(self).file_list_scroll == match old(self).highlight_index {
                Some(i) => scroll_for(
                    visual_row(old(self).staged_files@.len(), old(self).unstaged_files@.len(), i as nat),
                    old(self).file_list_scroll as nat,
                    old(self).file_list_height as nat,
                ) as usize,
                None => old(self).file_list_scroll,
            },
            final(self).highlight_index == old(self).highlight_index,
            final(self).selected == old(self).selected,
            final(self).multi_selected == old(self).multi_selected,
            final(self).diff_scroll == old(self).diff_scroll,
            final(self).visible_rows == old(self).visible_rows,
            final(self).staged_files == old(self).staged_files,
            final(self).unstaged_files == old(self).unstaged_files,
            final(self).current_diff == old(self).current_diff,
            final(self).staged_count == old(self).staged_count,
            final(self).unstaged_count == old(self).unstaged_count,
            final(self).untracked_count == old(self).untracked_count,
            final(self).branch == old(self).branch,
            final(self).file_list_height == old(self).file_list_height,
            final(self).file_list_area == old(self).file_list_area,
            final(self).diff_area == old(self).diff_area,
            final(self).confirm_prompt == old(self).confirm_prompt,
            final(self).flash_message == old(self).flash_message,
            final(self).last_action == old(self).last_action,
    {
        if let Some(idx) = self.highlight_index {
            let v = self.visual_row_exec(idx);
            if v < self.file_list_scroll {
                self.file_list_scroll = v;
            } else if self.file_list_height > 0 && v - self.file_list_scroll >= self.file_list_height {
                self.file_list_scroll = v - self.file_list_height + 1;
            }
        }
    }

    /// Moves the highlight by `delta` rows, clamped to the list, and scrolls
    /// the file list to keep it visible; nothing happens on an empty list.
    pub fn move_highlight(&mut self, delta: isize)
        requires
            old(self).inv(),
        ensures
            final(self).inv(),
            final(self).same_but_nav(old(self)),
            old(self).rows().len() == 0 ==> final(self).nav() == old(self).nav(),
            old(self).rows().len() > 0 ==> {
                let cur: int = match old(self).highlight_index {
                    Some(i) => i as int,
                    None => 0,
                };
                let h = clamp(cur + delta, 0, old(self).rows().len() - 1) as usize;
                final(self).nav() == (Nav {
                    highlight: Some(h),
                    scroll: scroll_for(
                        visual_row(old(self).staged_files@.len(), old(self).unstaged_files@.len(), h as nat),
                        old(self).file_list_scroll as nat,
                        old(self).file_list_height as nat,
                    ) as usize,
                    ..old(self).nav()
                })
            },
    {
        if self.visible_rows.len() == 0 {
            return;
        }
        let current: i128 = match self.highlight_index {
            Some(i) => i as i128,
            None => 0,
        };
        let last: i128 = (self.visible_rows.len() - 1) as i128;
        let target: i128 = current + delta as i128;
        let new_idx: usize = if target < 0 {
            0
        } else if target > last {
            (self.visible_rows.len() - 1)
        } else {
            target as usize
        };
        self.highlight_index = Some(new_idx);
        self.update_scroll_for_highlight();
    }

    /// Flips the highlighted row's membership of the multi-select set; the
    /// single selection is left alone.
    pub fn toggle_multi_select(&mut self)
        requires
            old(self).inv(),
        ensures
            final(self).inv(),
            final(self).same_but_nav(old(self)),
            final(self).nav() == (Nav {
                multi: match old(self).highlighted() {
                    Some(k) => toggled(old(self).multi_selected@, k),
                    None => old(self).multi_selected@,
                },
                ..old(self).nav()
            }),
    {
        if let Some(idx) = self.highlight_index {
            if idx < self.visible_rows.len() {
                let key = (self.visible_rows[idx].section, self.visible_rows[idx].path.clone());
                assert(key_view(key) == self.rows()[idx as int]);
                if self.multi_selected.contains(&key) {
                    self.multi_selected.remove(&key);
                } else {
                    self.multi_selected.insert(key);
                }
            }
        }
    }

    /// Empties the multi-select set.
    pub fn clear_multi_select(&mut self)
        requires
            old(self).inv(),
        ensures
            final(self).inv(),
            final(self).same_but_nav(old(self)),
            final(self).nav() == (Nav { multi: Set::empty(), ..old(self).nav() }),
    {
        self.multi_selected.clear();
    }

    /// What bulk actions apply to: the multi-selected keys when there are
    /// any; otherwise the highlighted row, if any.
    pub fn get_action_targets(&self) -> (r: Vec<(Section, String)>)
        requires
            self.inv(),
        ensures
            keys_view(r@).no_duplicates(),
            self.multi_selected@.len() == 0 ==> keys_view(r@) == match self.highlighted() {
                Some(k) => seq![k],
                None => Seq::<(Section, Seq<char>)>::empty(),
            },
            self.multi_selected@.len() > 0 ==> keys_view(r@).to_set() == self.multi_selected@,
            self.multi_selected@.len() > 0 ==> keys_view(r@) == self.multi_selected.spec_keys(),
    {
        if self.multi_selected.is_empty() {
            if let Some(idx) = self.highlight_index {
                if idx < self.visible_rows.len() {
                    let mut v: Vec<(Section, String)> = Vec::new();
                    v.push((self.visible_rows[idx].section, self.visible_rows[idx].path.clone()));
                    assert(keys_view(v@) =~= seq![self.rows()[idx as int]]);
                    return v;
                }
            }
            let v: Vec<(Section, String)> = Vec::new();
            assert(keys_view(v@) =~= Seq::<(Section, Seq<char>)>::empty());
            v
        } else {
            self.multi_selected.keys()
        }
    }
}

/// The first index of `list` whose path is `path`.
fn find_entry(list: &Vec<FileEntry>, path: &String) -> (r: Option<usize>)
    ensures
        match r {
            Some(i) => i < list@.len() && first_entry(list@, path@) == Some(list@[i as int]),
            None => first_entry(list@, path@) is None,
        },
{
    let mut i: usize = 0;
    assert(list@.skip(0) =~= list@);
    while i < list.len()
        invariant
            i <= list@.len(),
            first_entry(list@, path@) == first_entry(list@.skip(i as int), path@),
        decreases list@.len() - i,
    {
        assert(list@.skip(i as int)[0] == list@[i as int]);
        if list[i].path == *path {
            return Some(i);
        }
        assert(list@.skip(i as int).drop_first() =~= list@.skip(i + 1));
        i = i + 1;
    }
    None
}

/// Whether `rows` lists `key`.
fn rows_contain(rows: &Vec<VisibleRow>, key: &(Section, String)) -> (r: bool)
    ensures
        r == rows_view(rows@).contains(key_view(*key)),
{
    let mut j: usize = 0;
    while j < rows.len()
        invariant
            j <= rows@.len(),
            forall|q: int| 0 <= q < j ==> #[trigger] rows_view(rows@)[q] != key_view(*key),
        decreases rows@.len() - j,
    {
        assert(rows_view(rows@)[j as int] == (rows@[j as int].section, rows@[j as int].path@));
        if rows[j].section == key.0 && rows[j].path == key.1 {
            return true;
        }
        j = j + 1;
    }
    false
}

/// Which file row a click on display row `v` lands on, if any: header rows
/// take no file.
pub open spec fn clicked_file(v: nat, staged_len: nat, unstaged_len: nat) -> Option<nat> {
    if staged_len > 0 && unstaged_len > 0 {
        if v == 0 || v == 1 + staged_len {
            None
        } else if v < 1 + staged_len {
            Some((v - 1) as nat)
        } else {
            Some((v - 2) as nat)
        }
    } else if staged_len > 0 || unstaged_len > 0 {
        if v == 0 {
            None
        } else {
            Some((v - 1) as nat)
        }
    } else {
        None
    }
}

/// The display row of the file list under screen row `row`.
pub open spec fn click_visual_row(row: u16, area_y: u16, scroll: usize) -> nat {
    let inner: int = if row as int > area_y as int + 1 { row as int - area_y as int - 1 } else { 0 };
    let v = scroll as int + inner;
    if v > usize::MAX {
        usize::MAX as nat
    } else {
        v as nat
    }
}

impl App {
    /// Every field but the diff pane is as in `o`.
    pub open spec fn same_but_diff(&self, o: &App) -> bool {
        &&& self.same_but_nav_and_diff(o)
        &&& self.nav() == o.nav()
    }

    pub open spec fn same_but_nav_and_diff(&self, o: &App) -> bool {
        &&& self.same_core(o)
        &&& self.confirm_prompt == o.confirm_prompt
        &&& self.flash_message == o.flash_message
        &&& self.last_action == o.last_action
    }

    /// The lists, rows, counts, branch and drawn geometry are as in `o`.
    pub open spec fn same_core(&self, o: &App) -> bool {
        &&& self.staged_files == o.staged_files
        &&& self.unstaged_files == o.unstaged_files
        &&& self.visible_rows == o.visible_rows
        &&& self.staged_count == o.staged_count
        &&& self.unstaged_count == o.unstaged_count
        &&& self.untracked_count == o.untracked_count
        &&& self.branch == o.branch
        &&& self.file_list_height == o.file_list_height
        &&& self.file_list_area == o.file_list_area
        &&& self.diff_area == o.diff_area
    }

    /// The diff pane after `a`, given the pane before.
    pub open spec fn diff_after(a: DiffAction, before: DiffModel, after: DiffModel, r: Option<DiffRequest>) -> bool {
        match a {
            DiffAction::Keep => after == before && r is None,
            DiffAction::Show(m) => after == m && r is None,
            DiffAction::Request(q) => after == before && (r matches Some(x) && x@ == q),
        }
    }

    /// Settles the diff pane for the selected entry: a conflict or binary file
    /// is shown at once; otherwise the diff to compute is handed back.
    fn update_diff_for_selected(&mut self) -> (r: Option<DiffRequest>)
        ensures
            final(self).same_but_diff(old(self)),
            final(self).visible_rows == old(self).visible_rows,
            final(self).multi_selected == old(self).multi_selected,
            final(self).highlight_index == old(self).highlight_index,
            App::diff_after(
                spec_diff_action(opt_key_view(old(self).selected), old(self).staged_files@, old(self).unstaged_files@),
                old(self).current_diff@,
                final(self).current_diff@,
                r,
            ),
    {
        let (section, path) = match &self.selected {
            Some(k) => (k.0, k.1.clone()),
            None => return None,
        };
        let found = if section == Section::Staged {
            find_entry(&self.staged_files, &path)
        } else {
            find_entry(&self.unstaged_files, &path)
        };
        let idx = match found {
            Some(i) => i,
            None => return None,
        };
        let file = if section == Section::Staged { &self.staged_files[idx] } else { &self.unstaged_files[idx] };
        if file.status == FileStatus::Conflict {
            self.current_diff = DiffContent::Conflict;
            None
        } else if file.is_binary {
            self.current_diff = DiffContent::Binary;
            None
        } else if file.status == FileStatus::Untracked {
            Some(DiffRequest::Untracked { path })
        } else {
            Some(DiffRequest::Patch { path, old_path: clone_opt_string(&file.old_path), section })
        }
    }

    /// Puts a computed diff in the pane.
    pub fn set_diff(&mut self, diff: DiffContent)
        requires
            old(self).inv(),
        ensures
            final(self).inv(),
            final(self).same_but_diff(old(self)),
            final(self).current_diff == diff,
    {
        self.current_diff = diff;
    }

    /// Selects the highlighted row: its key becomes the selection, the diff
    /// scroll resets, and its diff is settled or requested.
    pub fn select_current(&mut self) -> (r: Option<DiffRequest>)
        requires
            old(self).inv(),
        ensures
            final(self).inv(),
            final(self).same_but_nav_and_diff(old(self)),
            old(self).highlighted() is None ==> final(self).nav() == old(self).nav() && final(self).current_diff
                == old(self).current_diff && r is None,
            old(self).highlighted() matches Some(k) ==> {
                &&& final(self).nav() == (Nav { selected: Some(k), diff_scroll: 0, ..old(self).nav() })
                &&& App::diff_after(
                    spec_diff_action(Some(k), old(self).staged_files@, old(self).unstaged_files@),
                    old(self).current_diff@,
                    final(self).current_diff@,
                    r,
                )
            },
    {
        if let Some(idx) = self.highlight_index {
            if idx < self.visible_rows.len() {
                let key = (self.visible_rows[idx].section, self.visible_rows[idx].path.clone());
                assert(key_view(key) == self.rows()[idx as int]);
                self.selected = Some(key);
                self.diff_scroll = 0;
                return self.update_diff_for_selected();
            }
        }
        None
    }

    /// Replaces the lists with a fresh classification and reconciles the
    /// session with it (see `refresh_nav` and `refresh_diff`); hands back the
    /// diff to compute for a selection that survived.
    pub fn refresh(&mut self, branch: BranchInfo, status: StatusResult) -> (r: Option<DiffRequest>)
        requires
            old(self).inv(),
        ensures
            final(self).inv(),
            final(self).branch == branch,
            final(self).staged_files == status.staged_files,
            final(self).unstaged_files == status.unstaged_files,
            final(self).staged_count == status.staged_count,
            final(self).unstaged_count == status.unstaged_count,
            final(self).untracked_count == status.untracked_count,
            final(self).nav() == refresh_nav(
                old(self).nav(),
                final(self).rows(),
                status.staged_files@.len(),
                status.unstaged_files@.len(),
                old(self).file_list_height as nat,
            ),
            match refresh_diff(old(self).nav(), final(self).rows(), status.staged_files@, status.unstaged_files@) {
                RefreshDiff::Clean => final(self).current_diff@ == DiffModel::Clean && r is None,
                RefreshDiff::Empty => final(self).current_diff@ == DiffModel::Empty && r is None,
                RefreshDiff::Selected(a) => App::diff_after(a, old(self).current_diff@, final(self).current_diff@, r),
            },
            final(self).file_list_height == old(self).file_list_height,
            final(self).file_list_area == old(self).file_list_area,
            final(self).diff_area == old(self).diff_area,
            final(self).confirm_prompt == old(self).confirm_prompt,
            final(self).flash_message == old(self).flash_message,
            final(self).last_action == old(self).last_action,
    {
        self.branch = branch;
        self.staged_files = status.staged_files;
        self.unstaged_files = status.unstaged_files;
        self.staged_count = status.staged_count;
        self.unstaged_count = status.unstaged_count;
        self.untracked_count = status.untracked_count;
        self.visible_rows = build_visible_rows(self.staged_files.as_slice(), self.unstaged_files.as_slice());
        if self.visible_rows.len() == 0 {
            self.highlight_index = None;
            self.selected = None;
            self.multi_selected.clear();
            self.current_diff = DiffContent::Clean;
            self.diff_scroll = 0;
            return None;
        }
        self.multi_selected.retain_rows(&self.visible_rows);
        let last = self.visible_rows.len() - 1;
        self.highlight_index = match self.highlight_index {
            Some(i) => if i >= self.visible_rows.len() { Some(last) } else { Some(i) },
            None => Some(0),
        };
        let mut request: Option<DiffRequest> = None;
        let kept = match &self.selected {
            Some(k) => rows_contain(&self.visible_rows, k),
            None => true,
        };
        if !kept {
            self.selected = None;
            self.current_diff = DiffContent::Empty;
            self.diff_scroll = 0;
        } else if self.selected.is_some() {
            request = self.update_diff_for_selected();
        } else {
            self.current_diff = DiffContent::Empty;
        }
        self.update_scroll_for_highlight();
        proof {
            let rows = self.rows();
            assert(self.multi_selected@ =~= old(self).multi_selected@.filter(|k: (Section, Seq<char>)| rows.contains(k)));
        }
        request
    }

    /// Scrolls the diff by `delta` rows within `[0, max_scroll]` for the
    /// given viewport.
    pub fn scroll_diff(&mut self, delta: isize, viewport_height: usize, viewport_width: usize)
        requires
            old(self).inv(),
        ensures
            final(self).inv(),
            final(self).same_but_nav(old(self)),
            final(self).nav() == (Nav {
                diff_scroll: clamp(
                    old(self).diff_scroll + delta,
                    0,
                    spec_max_scroll(old(self).current_diff, viewport_height as nat, viewport_width as nat) as int,
                ) as usize,
                ..old(self).nav()
            }),
    {
        let max = max_scroll(&self.current_diff, viewport_height, viewport_width);
        let target: i128 = self.diff_scroll as i128 + delta as i128;
        self.diff_scroll = if target < 0 {
            0
        } else if target > max as i128 {
            max
        } else {
            target as usize
        };
    }

    /// Scrolls the diff by a page, the viewport's height, down or up.
    pub fn page_scroll_diff(&mut self, down: bool, viewport_height: usize, viewport_width: usize)
        requires
            old(self).inv(),
        ensures
            final(self).inv(),
            final(self).same_but_nav(old(self)),
            final(self).nav() == (Nav {
                diff_scroll: clamp(
                    old(self).diff_scroll + if down { viewport_height as int } else { -(viewport_height as int) },
                    0,
                    spec_max_scroll(old(self).current_diff, viewport_height as nat, viewport_width as nat) as int,
                ) as usize,
                ..old(self).nav()
            }),
    {
        let max = max_scroll(&self.current_diff, viewport_height, viewport_width);
        let cur = self.diff_scroll;
        self.diff_scroll = if down {
            if cur >= max || max - cur <= viewport_height {
                max
            } else {
                cur + viewport_height
            }
        } else {
            if cur <= viewport_height {
                0
            } else if cur - viewport_height > max {
                max
            } else {
                cur - viewport_height
            }
        };
    }

    /// Highlights and selects the file under a click at screen row `row` of
    /// the file list; a click on a header row does nothing.
    pub fn click_file_list(&mut self, row: u16) -> (r: Option<DiffRequest>)
        requires
            old(self).inv(),
        ensures
            final(self).inv(),
            final(self).same_but_nav_and_diff(old(self)),
            ({
                let v = click_visual_row(row, old(self).file_list_area.y, old(self).file_list_scroll);
                match clicked_file(v, old(self).staged_files@.len(), old(self).unstaged_files@.len()) {
                    Some(i) => if i < old(self).rows().len() {
                        let k = old(self).rows()[i as int];
                        &&& final(self).nav() == (Nav { highlight: Some(i as usize), selected: Some(k), diff_scroll: 0, ..old(self).nav() })
                        &&& App::diff_after(
                            spec_diff_action(Some(k), old(self).staged_files@, old(self).unstaged_files@),
                            old(self).current_diff@,
                            final(self).current_diff@,
                            r,
                        )
                    } else {
                        final(self).nav() == old(self).nav() && final(self).current_diff == old(self).current_diff && r is None
                    },
                    None => final(self).nav() == old(self).nav() && final(self).current_diff == old(self).current_diff && r is None,
                }
            }),
    {
        let top: u32 = self.file_list_area.y as u32 + 1;
        let inner: usize = if row as u32 > top { (row as u32 - top) as usize } else { 0 };
        let v: usize = if self.file_list_scroll > usize::MAX - inner { usize::MAX } else { self.file_list_scroll + inner };
        let sc = self.staged_files.len();
        let uc = self.unstaged_files.len();
        let file_index: usize = if sc > 0 && uc > 0 {
            if v == 0 || v - 1 == sc {
                return None;
            } else if v - 1 < sc {
                v - 1
            } else {
                v - 2
            }
        } else if sc > 0 || uc > 0 {
            if v == 0 {
                return None;
            }
            v - 1
        } else {
            return None;
        };
        if file_index < self.visible_rows.len() {
            self.highlight_index = Some(file_index);
            return self.select_current();
        }
        None
    }
}

} // verus!
