//! The classifier and the diff materializer on the output of real
//! repositories.

use better_git_status::diff::{get_diff, get_untracked_diff, PatchOutput, RawPatchLine};
use better_git_status::status::{
    complete_status, count_lines_in_workdir, count_source, get_line_counts_for_section, plan_status,
    CountSource, DeltaPaths, DiffSummary, LineCounts, RawStatus, StatusFlags, StatusResult,
};
use better_git_status::types::{DiffContent, DiffLineKind, FileEntry, FileStatus, Section};
use git2::{DiffOptions, Repository, Signature, StatusOptions};
use std::io::Write;
use std::path::Path;
use tempfile::{Builder, TempDir, TempPath};

struct TestRepo {
    dir: TempDir,
    repo: Repository,
}

impl TestRepo {
    fn new() -> Self {
        let dir = TempDir::new().unwrap();
        let repo = Repository::init(dir.path()).unwrap();
        Self { dir, repo }
    }

    fn remove_file(&self, name: &str) {
        drop(TempPath::from_path(self.dir.path().join(name)));
    }

    fn write_file(&self, name: &str, content: &[u8]) {
        self.remove_file(name);
        let (stem, ext) = name.split_at(name.find('.').unwrap_or(name.len()));
        let mut file = Builder::new()
            .prefix(stem)
            .suffix(ext)
            .rand_bytes(0)
            .tempfile_in(self.dir.path())
            .unwrap();
        file.write_all(content).unwrap();
        file.keep().unwrap();
    }

    fn stage(&self, name: &str) {
        let mut index = self.repo.index().unwrap();
        index.add_path(Path::new(name)).unwrap();
        index.write().unwrap();
    }

    fn unstage_new(&self, name: &str) {
        let mut index = self.repo.index().unwrap();
        index.remove_path(Path::new(name)).unwrap();
        index.write().unwrap();
    }

    fn commit(&self) {
        let mut index = self.repo.index().unwrap();
        let tree_id = index.write_tree().unwrap();
        let tree = self.repo.find_tree(tree_id).unwrap();
        let sig = Signature::now("Test User", "test@example.com").unwrap();
        let parent = self.repo.head().ok().and_then(|h| h.peel_to_commit().ok());
        let parents: Vec<&git2::Commit> = parent.iter().collect();
        self.repo.commit(Some("HEAD"), &sig, &sig, "commit", &tree, &parents).unwrap();
    }

    fn delta_paths(delta: git2::DiffDelta<'_>) -> DeltaPaths {
        DeltaPaths {
            new_path: delta.new_file().path().map(|p| p.to_string_lossy().to_string()),
            old_path: delta.old_file().path().map(|p| p.to_string_lossy().to_string()),
        }
    }

    fn records(&self) -> Vec<RawStatus> {
        let mut opts = StatusOptions::new();
        opts.include_untracked(true)
            .recurse_untracked_dirs(true)
            .renames_head_to_index(true)
            .renames_index_to_workdir(true)
            .renames_from_rewrites(true);
        let statuses = self.repo.statuses(Some(&mut opts)).unwrap();
        statuses
            .iter()
            .map(|e| RawStatus {
                path: e.path().map(String::from),
                flags: StatusFlags::new(e.status().bits()),
                head_to_index: e.head_to_index().map(Self::delta_paths),
                index_to_workdir: e.index_to_workdir().map(Self::delta_paths),
            })
            .collect()
    }

    fn diff(&self, paths: &[&str], section: Section) -> git2::Diff<'_> {
        let mut opts = DiffOptions::new();
        for p in paths {
            opts.pathspec(p);
        }
        match section {
            Section::Staged => {
                let tree = self.repo.head().ok().and_then(|h| h.peel_to_tree().ok());
                self.repo.diff_tree_to_index(tree.as_ref(), None, Some(&mut opts)).unwrap()
            }
            Section::Unstaged => self.repo.diff_index_to_workdir(None, Some(&mut opts)).unwrap(),
        }
    }

    fn patch(&self, path: &str, section: Section) -> Option<PatchOutput> {
        let diff = self.diff(&[path], section);
        let mut lines = Vec::new();
        let printed = diff
            .print(git2::DiffFormat::Patch, |_d, hunk, line| {
                lines.push(RawPatchLine {
                    origin: line.origin(),
                    content: line.content().to_vec(),
                    hunk_new_start: hunk.map(|h| h.new_start()),
                });
                true
            })
            .is_ok();
        let delta_binary = diff.deltas().map(|d| d.flags().is_binary()).collect();
        Some(PatchOutput { delta_binary, lines, printed })
    }

    fn counts(&self, e: &FileEntry, section: Section) -> LineCounts {
        match count_source(e, section) {
            CountSource::Nothing => LineCounts { added: None, deleted: None, is_binary: false },
            CountSource::WorkingFile => count_lines_in_workdir(&self.read_blob_of(&e.path)),
            CountSource::SectionDiff(s) => {
                let diff = self.diff(&[&e.path], s);
                let stats = diff.stats().ok().map(|st| (st.insertions(), st.deletions()));
                let summary = DiffSummary { delta_binary: diff.deltas().map(|d| d.flags().is_binary()).collect(), stats };
                get_line_counts_for_section(&Some(summary))
            }
        }
    }

    /// The working-tree contents of `path`, read through the repository.
    fn read_blob_of(&self, path: &str) -> Option<Vec<u8>> {
        let oid = self.repo.blob_path(&self.dir.path().join(path)).ok()?;
        Some(self.repo.find_blob(oid).ok()?.content().to_vec())
    }

    fn status(&self) -> StatusResult {
        let plan = plan_status(&self.records());
        let staged: Vec<LineCounts> = plan.staged_files.iter().map(|e| self.counts(e, Section::Staged)).collect();
        let unstaged: Vec<LineCounts> =
            plan.unstaged_files.iter().map(|e| self.counts(e, Section::Unstaged)).collect();
        complete_status(plan, &staged, &unstaged)
    }
}

fn paths(v: &[FileEntry]) -> Vec<(String, FileStatus)> {
    v.iter().map(|e| (e.path.clone(), e.status)).collect()
}

#[test]
fn real_untracked_file_classified_and_diffed() {
    let t = TestRepo::new();
    t.write_file("x.txt", b"one\ntwo\nthree\n");
    let status = t.status();
    assert_eq!(status.unstaged_files.len(), 1);
    assert_eq!(status.unstaged_files[0].status, FileStatus::Untracked);
    assert_eq!(status.unstaged_files[0].added_lines, Some(3));
    assert_eq!(status.untracked_count, 1);
    let diff = get_untracked_diff(&"x.txt".to_string(), &t.read_blob_of("x.txt"));
    match diff {
        DiffContent::Text(lines) => {
            let added: Vec<Option<usize>> =
                lines.iter().filter(|l| l.kind == DiffLineKind::Added).map(|l| l.new_line_number).collect();
            assert_eq!(added, vec![Some(1), Some(2), Some(3)]);
        }
        _ => panic!("Expected Text diff"),
    }
}

#[test]
fn real_staged_and_unstaged_modification() {
    let t = TestRepo::new();
    t.write_file("file.txt", b"original\n");
    t.stage("file.txt");
    t.commit();
    t.write_file("file.txt", b"staged change\n");
    t.stage("file.txt");
    t.write_file("file.txt", b"unstaged change\nmore\n");
    let status = t.status();
    assert_eq!(paths(&status.staged_files), vec![("file.txt".to_string(), FileStatus::Modified)]);
    assert_eq!(paths(&status.unstaged_files), vec![("file.txt".to_string(), FileStatus::Modified)]);
    assert_eq!(status.staged_files[0].added_lines, Some(1));
    assert_eq!(status.staged_files[0].deleted_lines, Some(1));
    assert_eq!(status.unstaged_files[0].added_lines, Some(2));
    let diff = get_diff(&t.patch("file.txt", Section::Unstaged));
    match diff {
        DiffContent::Text(lines) => {
            assert!(lines.iter().any(|l| l.kind == DiffLineKind::Hunk));
            assert!(lines.iter().any(|l| l.kind == DiffLineKind::Deleted && l.content == "staged change"));
            assert!(lines.iter().any(|l| l.kind == DiffLineKind::Added && l.new_line_number == Some(2)));
        }
        _ => panic!("Expected Text diff"),
    }
}

#[test]
fn real_rename_is_detected() {
    let t = TestRepo::new();
    t.write_file("old.txt", b"content for rename detection\n");
    t.stage("old.txt");
    t.commit();
    t.remove_file("old.txt");
    t.write_file("new.txt", b"content for rename detection\n");
    t.unstage_new("old.txt");
    t.stage("new.txt");
    let status = t.status();
    assert_eq!(status.staged_files.len(), 1);
    assert_eq!(status.staged_files[0].status, FileStatus::Renamed);
    assert_eq!(status.staged_files[0].path, "new.txt");
    assert_eq!(status.staged_files[0].old_path, Some("old.txt".to_string()));
}

#[test]
fn real_binary_modification() {
    let t = TestRepo::new();
    t.write_file("data.bin", &[0, 1, 2, 3]);
    t.stage("data.bin");
    t.commit();
    t.write_file("data.bin", &[0, 9, 9, 9, 9]);
    let status = t.status();
    assert_eq!(status.unstaged_files.len(), 1);
    assert!(status.unstaged_files[0].is_binary);
    assert_eq!(status.unstaged_files[0].added_lines, None);
    assert_eq!(status.unstaged_files[0].deleted_lines, None);
    assert!(matches!(get_diff(&t.patch("data.bin", Section::Unstaged)), DiffContent::Binary));
}

#[test]
fn real_stage_then_unstage_round_trip() {
    let t = TestRepo::new();
    t.write_file("a.txt", b"a\n");
    t.write_file("b.txt", b"b\n");
    let before = t.status();
    t.stage("a.txt");
    t.stage("b.txt");
    let staged = t.status();
    assert_eq!(paths(&staged.staged_files).len(), 2);
    assert!(staged.unstaged_files.is_empty());
    t.unstage_new("a.txt");
    t.unstage_new("b.txt");
    let after = t.status();
    assert_eq!(before.staged_files, after.staged_files);
    assert_eq!(before.unstaged_files, after.unstaged_files);
}
