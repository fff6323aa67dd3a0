//! The status classifier: raw per-path status records become two lists of
//! typed file entries, staged and unstaged, with counts of distinct paths.
//!
//! Classification runs in two steps. `plan_status` decides every entry from the
//! records alone; line counts, which need the repository, are then measured
//! for each planned entry and handed to `complete_status`, which fills them in
//! and orders both lists by path.

use crate::order::path_le;
use crate::order::path_le_exec;
use crate::order::lemma_path_le_total;
use crate::text::contains_nul;
use crate::text::decode_utf8_bytes;
use crate::text::count_text_lines;
use crate::text::text_lines;
use crate::types::clone_opt_string;
use crate::types::opt_view;
use crate::types::EntryModel;
use crate::types::FileEntry;
use crate::types::FileStatus;
use crate::types::Section;
use vstd::prelude::*;
use vstd::utf8::valid_utf8;

verus! {

broadcast use vstd::seq_lib::group_to_multiset_ensures;

pub const INDEX_NEW: u32 = 1;
pub const INDEX_MODIFIED: u32 = 2;
pub const INDEX_DELETED: u32 = 4;
pub const INDEX_RENAMED: u32 = 8;
pub const INDEX_TYPECHANGE: u32 = 16;
pub const WT_NEW: u32 = 128;
pub const WT_MODIFIED: u32 = 256;
pub const WT_DELETED: u32 = 512;
pub const WT_TYPECHANGE: u32 = 1024;
pub const WT_RENAMED: u32 = 2048;
pub const CONFLICTED: u32 = 32768;

/// The status bits of one record, laid out as the version-control engine
/// reports them.
#[derive(Debug, Clone, Copy, PartialEq, Eq, Structural)]
pub struct StatusFlags {
    pub bits: u32,
}

impl StatusFlags {
    pub fn new(bits: u32) -> (r: StatusFlags)
        ensures
            r.bits == bits,
    {
        StatusFlags { bits }
    }

    /// Some bit of `mask` is set.
    pub open spec fn has(self, mask: u32) -> bool {
        self.bits & mask != 0
    }

    pub fn contains(&self, mask: u32) -> (r: bool)
        ensures
            r == self.has(mask),
    {
        self.bits & mask != 0
    }
}

pub open spec fn spec_has_staged(f: StatusFlags) -> bool {
    f.has(INDEX_NEW) || f.has(INDEX_MODIFIED) || f.has(INDEX_DELETED) || f.has(INDEX_RENAMED)
        || f.has(INDEX_TYPECHANGE)
}

pub open spec fn spec_has_unstaged(f: StatusFlags) -> bool {
    f.has(WT_MODIFIED) || f.has(WT_DELETED) || f.has(WT_RENAMED) || f.has(WT_TYPECHANGE)
}

pub open spec fn spec_staged_status(f: StatusFlags) -> FileStatus {
    if f.has(INDEX_NEW) {
        FileStatus::Added
    } else if f.has(INDEX_DELETED) {
        FileStatus::Deleted
    } else if f.has(INDEX_RENAMED) {
        FileStatus::Renamed
    } else {
        FileStatus::Modified
    }
}

pub open spec fn spec_unstaged_status(f: StatusFlags) -> FileStatus {
    if f.has(WT_DELETED) {
        FileStatus::Deleted
    } else if f.has(WT_RENAMED) {
        FileStatus::Renamed
    } else {
        FileStatus::Modified
    }
}

/// The record shows a change between the last commit and the index.
pub fn has_staged_changes(status: StatusFlags) -> (r: bool)
    ensures
        r == spec_has_staged(status),
{
    status.contains(INDEX_NEW) || status.contains(INDEX_MODIFIED) || status.contains(INDEX_DELETED)
        || status.contains(INDEX_RENAMED) || status.contains(INDEX_TYPECHANGE)
}

/// The record shows a change between the index and the working tree.
pub fn has_unstaged_changes(status: StatusFlags) -> (r: bool)
    ensures
        r == spec_has_unstaged(status),
{
    status.contains(WT_MODIFIED) || status.contains(WT_DELETED) || status.contains(WT_RENAMED)
        || status.contains(WT_TYPECHANGE)
}

/// The staged-side status: added, deleted, renamed, modified, in that priority.
pub fn get_staged_status(status: StatusFlags) -> (r: FileStatus)
    ensures
        r == spec_staged_status(status),
{
    if status.contains(INDEX_NEW) {
        FileStatus::Added
    } else if status.contains(INDEX_DELETED) {
        FileStatus::Deleted
    } else if status.contains(INDEX_RENAMED) {
        FileStatus::Renamed
    } else {
        FileStatus::Modified
    }
}

/// The unstaged-side status: deleted, renamed, modified, in that priority.
pub fn get_unstaged_status(status: StatusFlags) -> (r: FileStatus)
    ensures
        r == spec_unstaged_status(status),
{
    if status.contains(WT_DELETED) {
        FileStatus::Deleted
    } else if status.contains(WT_RENAMED) {
        FileStatus::Renamed
    } else {
        FileStatus::Modified
    }
}

/// The two paths of a delta that the engine reported for a rename.
#[derive(Debug, Clone)]
pub struct DeltaPaths {
    pub new_path: Option<String>,
    pub old_path: Option<String>,
}

/// One raw status record as the engine reports it.
#[derive(Debug, Clone)]
pub struct RawStatus {
    /// The record's path; records without one are passed over.
    pub path: Option<String>,
    pub flags: StatusFlags,
    /// The delta between the last commit and the index, when there is one.
    pub head_to_index: Option<DeltaPaths>,
    /// The delta between the index and the working tree, when there is one.
    pub index_to_workdir: Option<DeltaPaths>,
}

/// The path and pre-rename path of one side: for a rename, the new and old
/// paths of that side's delta (the record's path when the delta names none).
pub open spec fn side_paths(renamed: bool, delta: Option<DeltaPaths>, raw: Seq<char>) -> (Seq<char>, Option<Seq<char>>) {
    if renamed {
        match delta {
            Some(d) => (
                match d.new_path {
                    Some(p) => p@,
                    None => raw,
                },
                opt_view(d.old_path),
            ),
            None => (raw, None),
        }
    } else {
        (raw, None)
    }
}

/// An entry before its line counts are known.
pub open spec fn shape(path: Seq<char>, old_path: Option<Seq<char>>, status: FileStatus, is_submodule: bool) -> EntryModel {
    EntryModel {
        path,
        old_path,
        status,
        added_lines: None,
        deleted_lines: None,
        is_binary: false,
        is_submodule,
    }
}

pub open spec fn is_typechange(f: StatusFlags) -> bool {
    f.has(INDEX_TYPECHANGE) || f.has(WT_TYPECHANGE)
}

/// The staged entry a record yields, if any. Conflicts and untracked files
/// yield none; otherwise an index-side change yields one. A type change
/// (a submodule) is listed like any other change, marked as a submodule.
pub open spec fn planned_staged(r: RawStatus) -> Option<EntryModel> {
    match r.path {
        None => None,
        Some(p) => {
            let f = r.flags;
            let side = side_paths(f.has(INDEX_RENAMED), r.head_to_index, p@);
            if f.has(CONFLICTED) || f.has(WT_NEW) {
                None
            } else if spec_has_staged(f) {
                Some(shape(side.0, side.1, spec_staged_status(f), is_typechange(f)))
            } else {
                None
            }
        },
    }
}

/// The unstaged entry a record yields, if any: a conflict takes priority over
/// everything, then an untracked file, then a worktree-side change (marked as
/// a submodule for a type change).
pub open spec fn planned_unstaged(r: RawStatus) -> Option<EntryModel> {
    match r.path {
        None => None,
        Some(p) => {
            let f = r.flags;
            let side = side_paths(f.has(WT_RENAMED), r.index_to_workdir, p@);
            if f.has(CONFLICTED) {
                Some(shape(p@, None, FileStatus::Conflict, false))
            } else if f.has(WT_NEW) {
                Some(shape(p@, None, FileStatus::Untracked, false))
            } else if spec_has_unstaged(f) {
                Some(shape(side.0, side.1, spec_unstaged_status(f), is_typechange(f)))
            } else {
                None
            }
        },
    }
}

/// The path a record counts on the unstaged side: that of its unstaged entry.
pub open spec fn unstaged_counted(r: RawStatus) -> Option<Seq<char>> {
    entry_path(planned_unstaged(r))
}

/// The path a record counts as untracked.
pub open spec fn untracked_counted(r: RawStatus) -> Option<Seq<char>> {
    match planned_unstaged(r) {
        Some(e) => if e.status == FileStatus::Untracked {
            Some(e.path)
        } else {
            None
        },
        None => None,
    }
}

pub open spec fn opt_seq<A>(o: Option<A>) -> Seq<A> {
    match o {
        Some(a) => seq![a],
        None => Seq::empty(),
    }
}

pub open spec fn opt_set<A>(o: Option<A>) -> Set<A> {
    match o {
        Some(a) => set![a],
        None => Set::empty(),
    }
}

pub open spec fn entry_path(e: Option<EntryModel>) -> Option<Seq<char>> {
    match e {
        Some(e) => Some(e.path),
        None => None,
    }
}

/// The staged entries of a run of records, in record order.
pub open spec fn staged_plan(rs: Seq<RawStatus>) -> Seq<EntryModel>
    decreases rs.len(),
{
    if rs.len() == 0 {
        Seq::empty()
    } else {
        staged_plan(rs.drop_last()) + opt_seq(planned_staged(rs.last()))
    }
}

/// The unstaged entries of a run of records, in record order.
pub open spec fn unstaged_plan(rs: Seq<RawStatus>) -> Seq<EntryModel>
    decreases rs.len(),
{
    if rs.len() == 0 {
        Seq::empty()
    } else {
        unstaged_plan(rs.drop_last()) + opt_seq(planned_unstaged(rs.last()))
    }
}

/// The distinct paths counted on the staged side.
pub open spec fn staged_paths(rs: Seq<RawStatus>) -> Set<Seq<char>>
    decreases rs.len(),
{
    if rs.len() == 0 {
        Set::empty()
    } else {
        staged_paths(rs.drop_last()) + opt_set(entry_path(planned_staged(rs.last())))
    }
}

/// The distinct paths counted on the unstaged side.
pub open spec fn unstaged_paths(rs: Seq<RawStatus>) -> Set<Seq<char>>
    decreases rs.len(),
{
    if rs.len() == 0 {
        Set::empty()
    } else {
        unstaged_paths(rs.drop_last()) + opt_set(unstaged_counted(rs.last()))
    }
}

/// The distinct untracked paths.
pub open spec fn untracked_paths(rs: Seq<RawStatus>) -> Set<Seq<char>>
    decreases rs.len(),
{
    if rs.len() == 0 {
        Set::empty()
    } else {
        untracked_paths(rs.drop_last()) + opt_set(untracked_counted(rs.last()))
    }
}

pub open spec fn entries_view(v: Seq<FileEntry>) -> Seq<EntryModel> {
    v.map_values(|e: FileEntry| e@)
}

pub open spec fn strings_view(v: Seq<String>) -> Seq<Seq<char>> {
    v.map_values(|s: String| s@)
}

/// Classified entries before their line counts are measured.
#[derive(Debug, Clone)]
pub struct StatusPlan {
    pub staged_files: Vec<FileEntry>,
    pub unstaged_files: Vec<FileEntry>,
    pub staged_count: usize,
    pub unstaged_count: usize,
    pub untracked_count: usize,
}

/// Whether `seen` holds a string with the text of `p`.
fn contains_path(seen: &Vec<String>, p: &String) -> (r: bool)
    ensures
        r == strings_view(seen@).contains(p@),
{
    let mut j: usize = 0;
    while j < seen.len()
        invariant
            0 <= j <= seen@.len(),
            forall|k: int| 0 <= k < j ==> seen@[k]@ != p@,
        decreases seen@.len() - j,
    {
        if seen[j] == *p {
            assert(strings_view(seen@)[j as int] == p@);
            return true;
        }
        j = j + 1;
    }
    assert(!strings_view(seen@).contains(p@)) by {
        if strings_view(seen@).contains(p@) {
            let k = choose|k: int| 0 <= k < seen@.len() && strings_view(seen@)[k] == p@;
            assert(seen@[k]@ == p@);
        }
    }
    false
}

/// Adds `p` to a list of distinct paths unless it is there.
fn note_path(seen: &mut Vec<String>, p: &String)
    requires
        strings_view(old(seen)@).no_duplicates(),
    ensures
        strings_view(final(seen)@).no_duplicates(),
        strings_view(final(seen)@).to_set() == strings_view(old(seen)@).to_set().insert(p@),
{
    let ghost before = strings_view(seen@);
    if !contains_path(seen, p) {
        seen.push(p.clone());
        proof {
            assert(strings_view(seen@) =~= before.push(p@));
            before.lemma_push_to_set_commute(p@);
            let after = strings_view(seen@);
            assert forall|a: int, b: int| 0 <= a < after.len() && 0 <= b < after.len() && a != b implies after[a] != after[b] by {
                if b == after.len() - 1 {
                    assert(before.contains(before[a]));
                } else if a == after.len() - 1 {
                    assert(before.contains(before[b]));
                }
            }
        }
    } else {
        proof {
            assert(strings_view(seen@).to_set() =~= before.to_set().insert(p@));
        }
    }
}

fn shape_entry(path: String, old_path: Option<String>, status: FileStatus, is_submodule: bool) -> (r: FileEntry)
    ensures
        r@ == shape(path@, opt_view(old_path), status, is_submodule),
{
    FileEntry {
        path,
        old_path,
        status,
        added_lines: None,
        deleted_lines: None,
        is_binary: false,
        is_submodule,
    }
}

/// The path and pre-rename path of one side of a record.
fn side_paths_exec(renamed: bool, delta: &Option<DeltaPaths>, raw: &String) -> (r: (String, Option<String>))
    ensures
        (r.0@, opt_view(r.1)) == side_paths(renamed, *delta, raw@),
{
    if renamed {
        match delta {
            Some(d) => {
                let p = match &d.new_path {
                    Some(p) => p.clone(),
                    None => raw.clone(),
                };
                (p, clone_opt_string(&d.old_path))
            },
            None => (raw.clone(), None),
        }
    } else {
        (raw.clone(), None)
    }
}

/// The entries one record yields: staged, unstaged, and the paths it counts
/// on the unstaged and untracked sides.
fn classify_record(r: &RawStatus) -> (res: (Option<FileEntry>, Option<FileEntry>, Option<String>, Option<String>))
    ensures
        match res.0 { Some(e) => planned_staged(*r) == Some(e@), None => planned_staged(*r) is None },
        match res.1 { Some(e) => planned_unstaged(*r) == Some(e@), None => planned_unstaged(*r) is None },
        opt_view(res.2) == unstaged_counted(*r),
        opt_view(res.3) == untracked_counted(*r),
{
    let p = match &r.path {
        Some(p) => p,
        None => return (None, None, None, None),
    };
    let f = r.flags;
    if f.contains(CONFLICTED) {
        return (None, Some(shape_entry(p.clone(), None, FileStatus::Conflict, false)), Some(p.clone()), None);
    }
    if f.contains(WT_NEW) {
        return (
            None,
            Some(shape_entry(p.clone(), None, FileStatus::Untracked, false)),
            Some(p.clone()),
            Some(p.clone()),
        );
    }
    let submodule = f.contains(INDEX_TYPECHANGE) || f.contains(WT_TYPECHANGE);
    let staged = if has_staged_changes(f) {
        let side = side_paths_exec(f.contains(INDEX_RENAMED), &r.head_to_index, p);
        Some(shape_entry(side.0, side.1, get_staged_status(f), submodule))
    } else {
        None
    };
    if has_unstaged_changes(f) {
        let side = side_paths_exec(f.contains(WT_RENAMED), &r.index_to_workdir, p);
        let counted = side.0.clone();
        (staged, Some(shape_entry(side.0, side.1, get_unstaged_status(f), submodule)), Some(counted), None)
    } else {
        (staged, None, None, None)
    }
}

proof fn lemma_plan_step(rs: Seq<RawStatus>, i: int)
    requires
        0 <= i < rs.len(),
    ensures
        rs.subrange(0, i + 1).drop_last() == rs.subrange(0, i),
        rs.subrange(0, i + 1).last() == rs[i],
{
    assert(rs.subrange(0, i + 1).drop_last() =~= rs.subrange(0, i));
}

/// Classifies raw status records into staged and unstaged entries, in record
/// order, without line counts, and counts the distinct paths of each side.
pub fn plan_status(records: &Vec<RawStatus>) -> (r: StatusPlan)
    ensures
        entries_view(r.staged_files@) == staged_plan(records@),
        entries_view(r.unstaged_files@) == unstaged_plan(records@),
        r.staged_count == staged_paths(records@).len(),
        r.unstaged_count == unstaged_paths(records@).len(),
        r.untracked_count == untracked_paths(records@).len(),
{
    let mut staged: Vec<FileEntry> = Vec::new();
    let mut unstaged: Vec<FileEntry> = Vec::new();
    let mut staged_seen: Vec<String> = Vec::new();
    let mut unstaged_seen: Vec<String> = Vec::new();
    let mut untracked_seen: Vec<String> = Vec::new();
    let mut i: usize = 0;
    assert(records@.subrange(0, 0) =~= Seq::<RawStatus>::empty());
    assert(strings_view(staged_seen@).to_set() =~= Set::<Seq<char>>::empty());
    while i < records.len()
        invariant
            0 <= i <= records@.len(),
            entries_view(staged@) == staged_plan(records@.subrange(0, i as int)),
            entries_view(unstaged@) == unstaged_plan(records@.subrange(0, i as int)),
            strings_view(staged_seen@).no_duplicates(),
            strings_view(unstaged_seen@).no_duplicates(),
            strings_view(untracked_seen@).no_duplicates(),
            strings_view(staged_seen@).to_set() == staged_paths(records@.subrange(0, i as int)),
            strings_view(unstaged_seen@).to_set() == unstaged_paths(records@.subrange(0, i as int)),
            strings_view(untracked_seen@).to_set() == untracked_paths(records@.subrange(0, i as int)),
        decreases records@.len() - i,
    {
        let (s, u, uc, tc) = classify_record(&records[i]);
        proof {
            lemma_plan_step(records@, i as int);
        }
        let ghost pre = records@.subrange(0, i as int);
        let ghost next = records@.subrange(0, i + 1);
        match s {
            Some(e) => {
                note_path(&mut staged_seen, &e.path);
                staged.push(e);
            },
            None => {},
        }
        match u {
            Some(e) => unstaged.push(e),
            None => {},
        }
        match uc {
            Some(p) => note_path(&mut unstaged_seen, &p),
            None => {},
        }
        match tc {
            Some(p) => note_path(&mut untracked_seen, &p),
            None => {},
        }
        proof {
            assert(entries_view(staged@) =~= staged_plan(next));
            assert(entries_view(unstaged@) =~= unstaged_plan(next));
            assert(strings_view(staged_seen@).to_set() =~= staged_paths(next));
            assert(strings_view(unstaged_seen@).to_set() =~= unstaged_paths(next));
            assert(strings_view(untracked_seen@).to_set() =~= untracked_paths(next));
        }
        i = i + 1;
    }
    proof {
        assert(records@.subrange(0, records@.len() as int) =~= records@);
        strings_view(staged_seen@).unique_seq_to_set();
        strings_view(unstaged_seen@).unique_seq_to_set();
        strings_view(untracked_seen@).unique_seq_to_set();
    }
    StatusPlan {
        staged_files: staged,
        unstaged_files: unstaged,
        staged_count: staged_seen.len(),
        unstaged_count: unstaged_seen.len(),
        untracked_count: untracked_seen.len(),
    }
}

/// Line counts measured for one entry.
#[derive(Debug, Clone, Copy, PartialEq, Eq, Structural)]
pub struct LineCounts {
    pub added: Option<usize>,
    pub deleted: Option<usize>,
    pub is_binary: bool,
}

pub open spec fn zero_counts(is_binary: bool) -> LineCounts {
    LineCounts { added: Some(0), deleted: Some(0), is_binary }
}

pub open spec fn bytes_view(c: Option<Vec<u8>>) -> Option<Seq<u8>> {
    match c {
        Some(v) => Some(v@),
        None => None,
    }
}

/// The counts of an untracked file from its contents: every line added; zero
/// and not binary when it cannot be read or is not text; zero and binary when
/// it holds a zero byte.
pub open spec fn workdir_counts(content: Option<Seq<u8>>) -> LineCounts {
    match content {
        None => zero_counts(false),
        Some(b) => if b.contains(0u8) {
            zero_counts(true)
        } else if !valid_utf8(b) {
            zero_counts(false)
        } else {
            LineCounts { added: Some(text_lines(b).len() as usize), deleted: Some(0), is_binary: false }
        },
    }
}

/// The counts of an untracked file, given its contents (`None` when it could
/// not be read).
pub fn count_lines_in_workdir(content: &Option<Vec<u8>>) -> (r: LineCounts)
    ensures
        r == workdir_counts(bytes_view(*content)),
{
    match content {
        None => LineCounts { added: Some(0), deleted: Some(0), is_binary: false },
        Some(b) => {
            if contains_nul(b) {
                return LineCounts { added: Some(0), deleted: Some(0), is_binary: true };
            }
            match decode_utf8_bytes(b.as_slice()) {
                None => LineCounts { added: Some(0), deleted: Some(0), is_binary: false },
                Some(_) => LineCounts { added: Some(count_text_lines(b)), deleted: Some(0), is_binary: false },
            }
        },
    }
}

/// What the engine measured of a single-path diff: the binary flag of each
/// delta, and the insertion and deletion totals when it could compute them.
#[derive(Debug, Clone)]
pub struct DiffSummary {
    pub delta_binary: Vec<bool>,
    pub stats: Option<(usize, usize)>,
}

/// The counts of a tracked entry from its section's diff: absent when no diff
/// could be made; absent and binary when a delta is binary; zero when the
/// totals could not be computed; the totals otherwise.
pub open spec fn diff_counts(summary: Option<DiffSummary>) -> LineCounts {
    match summary {
        None => LineCounts { added: None, deleted: None, is_binary: false },
        Some(s) => if s.delta_binary@.contains(true) {
            LineCounts { added: None, deleted: None, is_binary: true }
        } else {
            match s.stats {
                None => zero_counts(false),
                Some((a, d)) => LineCounts { added: Some(a), deleted: Some(d), is_binary: false },
            }
        },
    }
}

/// Whether any flag is set.
pub fn any_true(flags: &Vec<bool>) -> (r: bool)
    ensures
        r == flags@.contains(true),
{
    let mut i: usize = 0;
    while i < flags.len()
        invariant
            0 <= i <= flags@.len(),
            forall|k: int| 0 <= k < i ==> !flags@[k],
        decreases flags@.len() - i,
    {
        if flags[i] {
            assert(flags@[i as int]);
            return true;
        }
        i = i + 1;
    }
    false
}

/// The counts of a tracked entry, given what its section's diff measured
/// (`None` when the diff could not be made).
pub fn get_line_counts_for_section(summary: &Option<DiffSummary>) -> (r: LineCounts)
    ensures
        r == diff_counts(*summary),
{
    match summary {
        None => LineCounts { added: None, deleted: None, is_binary: false },
        Some(s) => {
            if any_true(&s.delta_binary) {
                LineCounts { added: None, deleted: None, is_binary: true }
            } else {
                match s.stats {
                    None => LineCounts { added: Some(0), deleted: Some(0), is_binary: false },
                    Some((a, d)) => LineCounts { added: Some(a), deleted: Some(d), is_binary: false },
                }
            }
        },
    }
}

/// How the line counts of an entry are measured.
#[derive(Debug, Clone, Copy, PartialEq, Eq, Structural)]
pub enum CountSource {
    /// Not at all: a conflict has no counts.
    Nothing,
    /// From the working-tree file: an untracked file.
    WorkingFile,
    /// From the single-path diff of the given section.
    SectionDiff(Section),
}

pub open spec fn spec_count_source(e: EntryModel, section: Section) -> CountSource {
    if e.status == FileStatus::Conflict {
        CountSource::Nothing
    } else if e.status == FileStatus::Untracked {
        CountSource::WorkingFile
    } else {
        CountSource::SectionDiff(section)
    }
}

/// How to measure an entry planned in `section`.
pub fn count_source(e: &FileEntry, section: Section) -> (r: CountSource)
    ensures
        r == spec_count_source(e@, section),
{
    if e.status == FileStatus::Conflict {
        CountSource::Nothing
    } else if e.status == FileStatus::Untracked {
        CountSource::WorkingFile
    } else {
        CountSource::SectionDiff(section)
    }
}

/// An entry with its measured counts; a conflict keeps none.
pub open spec fn fill_entry(e: EntryModel, c: LineCounts) -> EntryModel {
    if e.status == FileStatus::Conflict {
        e
    } else {
        EntryModel { added_lines: c.added, deleted_lines: c.deleted, is_binary: c.is_binary, ..e }
    }
}

pub open spec fn filled(es: Seq<EntryModel>, cs: Seq<LineCounts>) -> Seq<EntryModel> {
    Seq::new(es.len(), |i: int| fill_entry(es[i], cs[i]))
}

/// Entries listed by path, ascending.
pub open spec fn sorted_by_path(s: Seq<EntryModel>) -> bool {
    forall|i: int| 0 <= i < s.len() - 1 ==> path_le(#[trigger] s[i].path, s[i + 1].path)
}

/// No two entries share a path.
pub open spec fn distinct_paths(s: Seq<EntryModel>) -> bool {
    forall|i: int, j: int| 0 <= i < j < s.len() ==> (#[trigger] s[i]).path != (#[trigger] s[j]).path
}

/// Entries listed by path in strictly ascending order.
pub open spec fn strictly_sorted_by_path(s: Seq<EntryModel>) -> bool {
    &&& sorted_by_path(s)
    &&& forall|i: int| 0 <= i < s.len() - 1 ==> (#[trigger] s[i]).path != s[i + 1].path
}

/// A reordering of entries with distinct paths still has distinct paths.
proof fn lemma_distinct_paths_kept(a: Seq<EntryModel>, b: Seq<EntryModel>)
    requires
        a.to_multiset() == b.to_multiset(),
        distinct_paths(a),
    ensures
        distinct_paths(b),
{
    broadcast use vstd::multiset::group_multiset_axioms;

    assert(a.no_duplicates()) by {
        assert forall|i: int, j: int| 0 <= i < a.len() && 0 <= j < a.len() && i != j implies a[i] != a[j] by {
            if i < j {
                assert(a[i].path != a[j].path);
            } else {
                assert(a[j].path != a[i].path);
            }
        }
    }
    a.lemma_multiset_has_no_duplicates();
    b.lemma_multiset_has_no_duplicates_conv();
    assert forall|i: int, j: int| 0 <= i < j < b.len() implies (#[trigger] b[i]).path != (#[trigger] b[j]).path by {
        if b[i].path == b[j].path {
            vstd::seq_lib::to_multiset_contains(b, b[i]);
            vstd::seq_lib::to_multiset_contains(b, b[j]);
            assert(b.contains(b[i]));
            assert(b.contains(b[j]));
            vstd::seq_lib::to_multiset_contains(a, b[i]);
            vstd::seq_lib::to_multiset_contains(a, b[j]);
            let p = choose|p: int| 0 <= p < a.len() && a[p] == b[i];
            let q = choose|q: int| 0 <= q < a.len() && a[q] == b[j];
            assert(b[i] != b[j]);
            if p < q {
                assert(a[p].path != a[q].path);
            } else {
                assert(a[q].path != a[p].path);
            }
        }
    }
}

/// Filling in counts keeps the paths.
proof fn lemma_filled_distinct(es: Seq<EntryModel>, cs: Seq<LineCounts>)
    requires
        distinct_paths(es),
        es.len() == cs.len(),
    ensures
        distinct_paths(filled(es, cs)),
{
    let f = filled(es, cs);
    assert forall|i: int, j: int| 0 <= i < j < f.len() implies (#[trigger] f[i]).path != (#[trigger] f[j]).path by {
        assert(f[i].path == es[i].path);
        assert(f[j].path == es[j].path);
    }
}

/// Sorting entries with distinct paths orders them strictly.
proof fn lemma_strict_after_sort(es: Seq<EntryModel>, cs: Seq<LineCounts>, v: Seq<EntryModel>)
    requires
        es.len() == cs.len(),
        sorted_by_path(v),
        v.to_multiset() == filled(es, cs).to_multiset(),
    ensures
        distinct_paths(es) ==> strictly_sorted_by_path(v),
{
    if distinct_paths(es) {
        lemma_filled_distinct(es, cs);
        lemma_distinct_paths_kept(filled(es, cs), v);
        assert forall|i: int| 0 <= i < v.len() - 1 implies (#[trigger] v[i]).path != v[i + 1].path by {
            assert(v[i].path != v[i + 1].path);
        }
    }
}

/// The classified working tree.
#[derive(Debug, Clone)]
pub struct StatusResult {
    pub staged_files: Vec<FileEntry>,
    pub unstaged_files: Vec<FileEntry>,
    pub staged_count: usize,
    pub unstaged_count: usize,
    pub untracked_count: usize,
}

fn fill_counts(entries: Vec<FileEntry>, counts: &Vec<LineCounts>) -> (r: Vec<FileEntry>)
    requires
        entries@.len() == counts@.len(),
    ensures
        entries_view(r@) == filled(entries_view(entries@), counts@),
{
    let mut out: Vec<FileEntry> = Vec::new();
    let mut src = entries;
    let ghost orig = src@;
    let n = src.len();
    let mut rest: Vec<FileEntry> = Vec::new();
    while src.len() > 0
        invariant
            n == orig.len(),
            src@ == orig.subrange(0, src@.len() as int),
            rest@.len() == n - src@.len(),
            forall|k: int| 0 <= k < rest@.len() ==> #[trigger] rest@[k] == orig[n - 1 - k],
        decreases src@.len(),
    {
        let e = src.pop().unwrap();
        rest.push(e);
    }
    let mut i: usize = 0;
    while i < n
        invariant
            n == orig.len(),
            n == counts@.len(),
            0 <= i <= n,
            rest@.len() == n - i,
            forall|k: int| 0 <= k < n - i ==> #[trigger] rest@[k] == orig[n - 1 - k],
            entries_view(out@) =~= filled(entries_view(orig.subrange(0, i as int)), counts@.subrange(0, i as int)),
        decreases n - i,
    {
        let mut e = rest.pop().unwrap();
        assert(e == orig[i as int]);
        if e.status != FileStatus::Conflict {
            let c = counts[i];
            e.added_lines = c.added;
            e.deleted_lines = c.deleted;
            e.is_binary = c.is_binary;
        }
        assert(e@ == fill_entry(orig[i as int]@, counts@[i as int]));
        let ghost before = entries_view(out@);
        out.push(e);
        proof {
            let fi = filled(entries_view(orig.subrange(0, i + 1)), counts@.subrange(0, i + 1));
            assert(entries_view(out@) =~= before.push(e@));
            assert forall|k: int| 0 <= k < fi.len() implies #[trigger] fi[k] == entries_view(out@)[k] by {
                if k < i {
                    assert(before[k] == filled(entries_view(orig.subrange(0, i as int)), counts@.subrange(0, i as int))[k]);
                }
            }
            assert(fi =~= entries_view(out@));
        }
        i = i + 1;
    }
    assert(orig.subrange(0, n as int) =~= orig);
    assert(counts@.subrange(0, n as int) =~= counts@);
    out
}

/// Orders entries by path, keeping entries with equal paths in their order.
fn sort_by_path(entries: Vec<FileEntry>) -> (r: Vec<FileEntry>)
    ensures
        sorted_by_path(entries_view(r@)),
        entries_view(r@).to_multiset() == entries_view(entries@).to_multiset(),
{
    let ghost orig = entries@;
    let mut rest = entries;
    let mut out: Vec<FileEntry> = Vec::new();
    while rest.len() > 0
        invariant
            sorted_by_path(entries_view(out@)),
            entries_view(out@).to_multiset().add(entries_view(rest@).to_multiset())
                == entries_view(orig).to_multiset(),
        decreases rest@.len(),
    {
        let ghost before_rest = rest@;
        let x = rest.pop().unwrap();
        proof {
            assert(entries_view(before_rest) =~= entries_view(rest@).push(x@));
        }
        let mut pos: usize = 0;
        while pos < out.len() && !path_le_exec(&x.path, &out[pos].path)
            invariant
                0 <= pos <= out@.len(),
                forall|k: int| 0 <= k < pos ==> !path_le(x.path@, #[trigger] out@[k].path@),
            decreases out@.len() - pos,
        {
            pos = pos + 1;
        }
        let ghost old_out = entries_view(out@);
        proof {
            if pos > 0 {
                lemma_path_le_total(x.path@, out@[pos - 1].path@);
            }
        }
        out.insert(pos, x);
        proof {
            let nv = entries_view(out@);
            assert(nv =~= old_out.insert(pos as int, x@));
            assert forall|i: int| 0 <= i < nv.len() - 1 implies path_le(#[trigger] nv[i].path, nv[i + 1].path) by {
                if i < pos as int - 1 {
                    assert(nv[i] == old_out[i] && nv[i + 1] == old_out[i + 1]);
                } else if i == pos as int - 1 {
                } else if i == pos as int {
                } else {
                    assert(nv[i] == old_out[i - 1] && nv[i + 1] == old_out[i]);
                }
            }
            vstd::seq_lib::to_multiset_insert(old_out, pos as int, x@);
        }
    }
    out
}

/// Fills in the measured line counts (one per planned entry, in plan order)
/// and lists both sides by path.
pub fn complete_status(plan: StatusPlan, staged_counts: &Vec<LineCounts>, unstaged_counts: &Vec<LineCounts>) -> (r: StatusResult)
    requires
        staged_counts@.len() == plan.staged_files@.len(),
        unstaged_counts@.len() == plan.unstaged_files@.len(),
    ensures
        sorted_by_path(entries_view(r.staged_files@)),
        sorted_by_path(entries_view(r.unstaged_files@)),
        entries_view(r.staged_files@).to_multiset()
            == filled(entries_view(plan.staged_files@), staged_counts@).to_multiset(),
        entries_view(r.unstaged_files@).to_multiset()
            == filled(entries_view(plan.unstaged_files@), unstaged_counts@).to_multiset(),
        r.staged_count == plan.staged_count,
        r.unstaged_count == plan.unstaged_count,
        r.untracked_count == plan.untracked_count,
        distinct_paths(entries_view(plan.staged_files@)) ==> strictly_sorted_by_path(entries_view(r.staged_files@)),
        distinct_paths(entries_view(plan.unstaged_files@)) ==> strictly_sorted_by_path(
            entries_view(r.unstaged_files@),
        ),
{
    let staged = sort_by_path(fill_counts(plan.staged_files, staged_counts));
    let unstaged = sort_by_path(fill_counts(plan.unstaged_files, unstaged_counts));
    proof {
        lemma_strict_after_sort(entries_view(plan.staged_files@), staged_counts@, entries_view(staged@));
        lemma_strict_after_sort(entries_view(plan.unstaged_files@), unstaged_counts@, entries_view(unstaged@));
    }
    StatusResult {
        staged_files: staged,
        unstaged_files: unstaged,
        staged_count: plan.staged_count,
        unstaged_count: plan.unstaged_count,
        untracked_count: plan.untracked_count,
    }
}

/// The distinct paths among `es`.
pub open spec fn paths_of(es: Seq<EntryModel>) -> Set<Seq<char>> {
    Set::new(|p: Seq<char>| exists|k: int| 0 <= k < es.len() && (#[trigger] es[k]).path == p)
}

/// The distinct paths among the untracked entries of `es`.
pub open spec fn untracked_paths_of(es: Seq<EntryModel>) -> Set<Seq<char>> {
    Set::new(
        |p: Seq<char>|
            exists|k: int| 0 <= k < es.len() && (#[trigger] es[k]).path == p && es[k].status == FileStatus::Untracked,
    )
}

/// The counts are counts of distinct listed paths: the staged paths counted
/// are exactly the paths of the staged entries, the unstaged ones exactly the
/// paths of the unstaged entries, and the untracked ones exactly the paths of
/// the untracked entries.
pub proof fn lemma_counted_paths(rs: Seq<RawStatus>)
    ensures
        staged_paths(rs) == paths_of(staged_plan(rs)),
        unstaged_paths(rs) == paths_of(unstaged_plan(rs)),
        untracked_paths(rs) == untracked_paths_of(unstaged_plan(rs)),
    decreases rs.len(),
{
    if rs.len() > 0 {
        let pre = rs.drop_last();
        lemma_counted_paths(pre);
        let sp = staged_plan(pre);
        let up = unstaged_plan(pre);
        let s_all = staged_plan(rs);
        let u_all = unstaged_plan(rs);
        assert forall|p: Seq<char>| staged_paths(rs).contains(p) <==> paths_of(s_all).contains(p) by {
            if paths_of(s_all).contains(p) {
                let k = choose|k: int| 0 <= k < s_all.len() && (#[trigger] s_all[k]).path == p;
                if k < sp.len() {
                    assert(sp[k] == s_all[k]);
                }
            }
            if paths_of(sp).contains(p) {
                let k = choose|k: int| 0 <= k < sp.len() && (#[trigger] sp[k]).path == p;
                assert(s_all[k] == sp[k]);
            }
            if entry_path(planned_staged(rs.last())) == Some(p) {
                assert(s_all[sp.len() as int].path == p);
            }
        }
        assert forall|p: Seq<char>| unstaged_paths(rs).contains(p) <==> paths_of(u_all).contains(p) by {
            if paths_of(u_all).contains(p) {
                let k = choose|k: int| 0 <= k < u_all.len() && (#[trigger] u_all[k]).path == p;
                if k < up.len() {
                    assert(up[k] == u_all[k]);
                }
            }
            if paths_of(up).contains(p) {
                let k = choose|k: int| 0 <= k < up.len() && (#[trigger] up[k]).path == p;
                assert(u_all[k] == up[k]);
            }
            if unstaged_counted(rs.last()) == Some(p) {
                assert(u_all[up.len() as int].path == p);
            }
        }
        assert forall|p: Seq<char>| untracked_paths(rs).contains(p) <==> untracked_paths_of(u_all).contains(p) by {
            if untracked_paths_of(u_all).contains(p) {
                let k = choose|k: int|
                    0 <= k < u_all.len() && (#[trigger] u_all[k]).path == p && u_all[k].status == FileStatus::Untracked;
                if k < up.len() {
                    assert(up[k] == u_all[k]);
                }
            }
            if untracked_paths_of(up).contains(p) {
                let k = choose|k: int|
                    0 <= k < up.len() && (#[trigger] up[k]).path == p && up[k].status == FileStatus::Untracked;
                assert(u_all[k] == up[k]);
            }
            if untracked_counted(rs.last()) == Some(p) {
                assert(u_all[up.len() as int].path == p);
            }
        }
        assert(staged_paths(rs) =~= paths_of(s_all));
        assert(untracked_paths(rs) =~= untracked_paths_of(u_all));
        assert(unstaged_paths(rs) =~= paths_of(u_all));
    }
}

/// A record with an index-side and a worktree-side change, and neither a
/// conflict nor an untracked file, yields one entry on each side.
pub proof fn lemma_both_sides(r: RawStatus)
    requires
        r.path is Some,
        !r.flags.has(CONFLICTED),
        !r.flags.has(WT_NEW),
        spec_has_staged(r.flags),
        spec_has_unstaged(r.flags),
    ensures
        planned_staged(r) is Some,
        planned_unstaged(r) is Some,
        opt_seq(planned_staged(r)).len() == 1,
        opt_seq(planned_unstaged(r)).len() == 1,
{
}

/// Filling in line counts keeps each entry's path and status.
pub proof fn lemma_fill_keeps_identity(e: EntryModel, c: LineCounts)
    ensures
        fill_entry(e, c).path == e.path,
        fill_entry(e, c).status == e.status,
        fill_entry(e, c).old_path == e.old_path,
{
}

} // verus!
