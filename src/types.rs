//! The data model shared by every part of the library.

use vstd::prelude::*;

verus! {

/// The kind of change recorded for one file.
#[derive(Debug, Clone, Copy, PartialEq, Eq, Structural)]
pub enum FileStatus {
    Added,
    Modified,
    Deleted,
    Renamed,
    Untracked,
    Conflict,
}

impl FileStatus {
    /// The one-character marker shown beside a file.
    pub open spec fn spec_symbol(self) -> Seq<char> {
        match self {
            FileStatus::Added => seq!['A'],
            FileStatus::Modified => seq!['M'],
            FileStatus::Deleted => seq!['D'],
            FileStatus::Renamed => seq!['R'],
            FileStatus::Untracked => seq!['?'],
            FileStatus::Conflict => seq!['C'],
        }
    }

    /// Returns the single-character symbol for this status.
    pub fn symbol(&self) -> (r: &'static str)
        ensures
            r@ == self.spec_symbol(),
    {
        match self {
            FileStatus::Added => {
                proof { reveal_strlit("A"); }
                "A"
            },
            FileStatus::Modified => {
                proof { reveal_strlit("M"); }
                "M"
            },
            FileStatus::Deleted => {
                proof { reveal_strlit("D"); }
                "D"
            },
            FileStatus::Renamed => {
                proof { reveal_strlit("R"); }
                "R"
            },
            FileStatus::Untracked => {
                proof { reveal_strlit("?"); }
                "?"
            },
            FileStatus::Conflict => {
                proof { reveal_strlit("C"); }
                "C"
            },
        }
    }
}

/// Which side of the index a change lives on.
#[derive(Debug, Clone, Copy, PartialEq, Eq, Hash, Structural)]
pub enum Section {
    Staged,
    Unstaged,
}

/// A changed file, as classified from one raw status record.
#[derive(Debug, Clone, PartialEq, Eq)]
pub struct FileEntry {
    /// The path relative to the repository root.
    pub path: String,
    /// The pre-rename path, for renames.
    pub old_path: Option<String>,
    pub status: FileStatus,
    /// Lines added, when computable.
    pub added_lines: Option<usize>,
    /// Lines deleted, when computable.
    pub deleted_lines: Option<usize>,
    pub is_binary: bool,
    pub is_submodule: bool,
}

/// What a file entry says, over mathematical values.
pub ghost struct EntryModel {
    pub path: Seq<char>,
    pub old_path: Option<Seq<char>>,
    pub status: FileStatus,
    pub added_lines: Option<usize>,
    pub deleted_lines: Option<usize>,
    pub is_binary: bool,
    pub is_submodule: bool,
}

/// The text of an optional string.
pub open spec fn opt_view(o: Option<String>) -> Option<Seq<char>> {
    match o {
        Some(s) => Some(s@),
        None => None,
    }
}

impl View for FileEntry {
    type V = EntryModel;

    open spec fn view(&self) -> EntryModel {
        EntryModel {
            path: self.path@,
            old_path: opt_view(self.old_path),
            status: self.status,
            added_lines: self.added_lines,
            deleted_lines: self.deleted_lines,
            is_binary: self.is_binary,
            is_submodule: self.is_submodule,
        }
    }
}

/// A copy of an optional string.
pub fn clone_opt_string(o: &Option<String>) -> (r: Option<String>)
    ensures
        opt_view(r) == opt_view(*o),
{
    match o {
        Some(s) => Some(s.clone()),
        None => None,
    }
}

/// The current branch, or the abbreviated commit of a detached head.
#[derive(Debug, Clone)]
pub enum BranchInfo {
    Branch(String),
    Detached(String),
}

impl BranchInfo {
    /// How the branch is shown: its name, or `HEAD@` and the short hash.
    pub open spec fn spec_text(&self) -> Seq<char> {
        match self {
            BranchInfo::Branch(name) => name@,
            BranchInfo::Detached(hash) => seq!['H', 'E', 'A', 'D', '@'] + hash@,
        }
    }

    /// The text shown for the branch in the status bar.
    pub fn to_string(&self) -> (r: String)
        ensures
            r@ == self.spec_text(),
    {
        match self {
            BranchInfo::Branch(name) => name.clone(),
            BranchInfo::Detached(hash) => {
                let prefix = String::from_str("HEAD@");
                proof { reveal_strlit("HEAD@"); }
                prefix.concat(hash.as_str())
            },
        }
    }
}

/// The kind of one diff row.
#[derive(Debug, Clone, Copy, PartialEq, Eq, Structural)]
pub enum DiffLineKind {
    Header,
    Hunk,
    Context,
    Added,
    Deleted,
}

/// One row of a materialized diff.
#[derive(Debug, Clone)]
pub struct DiffLine {
    pub kind: DiffLineKind,
    pub content: String,
    /// The line's number in the new file, for context and added rows.
    pub new_line_number: Option<usize>,
}

/// What a diff row says, over mathematical values.
pub ghost struct LineModel {
    pub kind: DiffLineKind,
    pub content: Seq<char>,
    pub new_line_number: Option<usize>,
}

impl View for DiffLine {
    type V = LineModel;

    open spec fn view(&self) -> LineModel {
        LineModel { kind: self.kind, content: self.content@, new_line_number: self.new_line_number }
    }
}

/// What the diff pane shows, over mathematical values.
pub ghost enum DiffModel {
    Empty,
    Clean,
    Text(Seq<LineModel>),
    Binary,
    InvalidUtf8,
    Conflict,
}

pub open spec fn lines_view(v: Seq<DiffLine>) -> Seq<LineModel> {
    v.map_values(|l: DiffLine| l@)
}

/// What the diff pane shows.
#[derive(Debug, Clone)]
pub enum DiffContent {
    /// Nothing selected.
    Empty,
    /// The working tree has no changes.
    Clean,
    Text(Vec<DiffLine>),
    Binary,
    InvalidUtf8,
    Conflict,
}

impl View for DiffContent {
    type V = DiffModel;

    open spec fn view(&self) -> DiffModel {
        match self {
            DiffContent::Empty => DiffModel::Empty,
            DiffContent::Clean => DiffModel::Clean,
            DiffContent::Text(v) => DiffModel::Text(lines_view(v@)),
            DiffContent::Binary => DiffModel::Binary,
            DiffContent::InvalidUtf8 => DiffModel::InvalidUtf8,
            DiffContent::Conflict => DiffModel::Conflict,
        }
    }
}

/// One navigable row of the file list.
#[derive(Debug, Clone)]
pub struct VisibleRow {
    pub section: Section,
    pub path: String,
}

/// The action a confirmation prompt stands for.
#[derive(Debug, Clone, PartialEq, Eq)]
pub enum ConfirmAction {
    StageAll,
    UnstageAll,
    DiscardSelected { paths: Vec<(Section, String)> },
    DiscardAll,
}

/// The single retained undoable staging mutation.
#[derive(Debug, Clone, PartialEq, Eq)]
pub enum UndoAction {
    Stage { paths: Vec<String> },
    Unstage { paths: Vec<String> },
}

/// A pending yes/no question.
#[derive(Debug, Clone)]
pub struct ConfirmPrompt {
    pub message: String,
    pub action: ConfirmAction,
}

/// A change signal from the filesystem watcher.
#[derive(Debug, Clone, Copy, PartialEq, Eq, Structural)]
pub enum WatcherEvent {
    Changed,
}

} // verus!
