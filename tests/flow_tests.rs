//! Session flows driven against an in-memory stand-in for the repository:
//! each file is untracked, staged, or both staged and modified again.

use better_git_status::actions::{staged_message, unstaged_message, IndexChange};
use better_git_status::session::App;
use better_git_status::status::StatusResult;
use better_git_status::types::{BranchInfo, ConfirmAction, FileEntry, FileStatus, Section, UndoAction};
use std::collections::BTreeSet;

#[derive(Default)]
struct FakeRepo {
    untracked: BTreeSet<String>,
    staged: BTreeSet<String>,
}

impl FakeRepo {
    fn write_file(&mut self, name: &str) {
        self.untracked.insert(name.to_string());
    }

    fn stage(&mut self, name: &str) {
        self.untracked.remove(name);
        self.staged.insert(name.to_string());
    }

    fn unstage(&mut self, name: &str) {
        self.staged.remove(name);
        self.untracked.insert(name.to_string());
    }

    fn status(&self) -> StatusResult {
        let entry = |p: &String, status: FileStatus| FileEntry {
            path: p.clone(),
            old_path: None,
            status,
            added_lines: Some(1),
            deleted_lines: Some(0),
            is_binary: false,
            is_submodule: false,
        };
        let staged: Vec<FileEntry> = self.staged.iter().map(|p| entry(p, FileStatus::Added)).collect();
        let unstaged: Vec<FileEntry> = self.untracked.iter().map(|p| entry(p, FileStatus::Untracked)).collect();
        StatusResult {
            staged_count: staged.len(),
            unstaged_count: unstaged.len(),
            untracked_count: unstaged.len(),
            staged_files: staged,
            unstaged_files: unstaged,
        }
    }

    fn apply(&mut self, change: &IndexChange) {
        match change {
            IndexChange::Stage(paths) => paths.iter().for_each(|p| self.stage(p)),
            IndexChange::Unstage(paths) => paths.iter().for_each(|p| self.unstage(p)),
        }
    }
}

fn branch() -> BranchInfo {
    BranchInfo::Branch("main".to_string())
}

fn open(repo: &FakeRepo) -> App {
    App::new(branch(), repo.status())
}

fn refresh(app: &mut App, repo: &FakeRepo) {
    app.refresh(branch(), repo.status());
}

fn stage_selected(app: &mut App, repo: &mut FakeRepo) {
    let paths = app.stage_selected_paths();
    if paths.is_empty() {
        return;
    }
    let count = paths.len();
    repo.apply(&IndexChange::Stage(paths.clone()));
    app.record_staging(UndoAction::Stage { paths });
    refresh(app, repo);
    app.show_flash_success(&staged_message(count));
}

fn unstage_selected(app: &mut App, repo: &mut FakeRepo) {
    let paths = app.unstage_selected_paths();
    if paths.is_empty() {
        return;
    }
    let count = paths.len();
    repo.apply(&IndexChange::Unstage(paths.clone()));
    app.record_staging(UndoAction::Unstage { paths });
    refresh(app, repo);
    app.show_flash_success(&unstaged_message(count));
}

fn undo(app: &mut App, repo: &mut FakeRepo) {
    if let Some(change) = app.undo_change() {
        repo.apply(&change);
        let message = app.finish_undo();
        refresh(app, repo);
        app.show_flash_success(&message);
    }
}

fn handle_confirm(app: &mut App, repo: &mut FakeRepo, yes: bool) {
    if let Some(action) = app.handle_confirm(yes) {
        let touched: Vec<String> = match action {
            ConfirmAction::StageAll => {
                let paths: Vec<String> = repo.untracked.iter().cloned().collect();
                repo.apply(&IndexChange::Stage(paths.clone()));
                paths
            }
            ConfirmAction::UnstageAll => {
                let paths: Vec<String> = repo.staged.iter().cloned().collect();
                repo.apply(&IndexChange::Unstage(paths.clone()));
                paths
            }
            _ => panic!("unexpected discard"),
        };
        app.finish_confirmed(&action, touched, 0);
        refresh(app, repo);
    }
}

#[test]
fn app_stage_selected_single_file() {
    let mut repo = FakeRepo::default();
    repo.write_file("file.txt");
    let mut app = open(&repo);
    assert_eq!(app.unstaged_count, 1);
    assert_eq!(app.staged_count, 0);
    stage_selected(&mut app, &mut repo);
    assert_eq!(app.unstaged_count, 0);
    assert_eq!(app.staged_count, 1);
    let status = repo.status();
    assert!(status.unstaged_files.is_empty());
    assert_eq!(status.staged_files.len(), 1);
    assert_eq!(status.staged_files[0].status, FileStatus::Added);
}

#[test]
fn app_unstage_selected_single_file() {
    let mut repo = FakeRepo::default();
    repo.write_file("file.txt");
    repo.stage("file.txt");
    let mut app = open(&repo);
    assert_eq!(app.staged_count, 1);
    assert_eq!(app.unstaged_count, 0);
    unstage_selected(&mut app, &mut repo);
    assert_eq!(app.staged_count, 0);
    assert_eq!(app.unstaged_count, 1);
    let status = repo.status();
    assert!(status.staged_files.is_empty());
    assert_eq!(status.unstaged_files.len(), 1);
}

#[test]
fn app_stage_multi_selected_files() {
    let mut repo = FakeRepo::default();
    repo.write_file("file1.txt");
    repo.write_file("file2.txt");
    let mut app = open(&repo);
    assert_eq!(app.unstaged_count, 2);
    app.toggle_multi_select();
    app.move_highlight(1);
    app.toggle_multi_select();
    assert_eq!(app.multi_selected.len(), 2);
    stage_selected(&mut app, &mut repo);
    assert_eq!(app.unstaged_count, 0);
    assert_eq!(app.staged_count, 2);
    assert!(app.multi_selected.is_empty());
    assert_eq!(repo.status().staged_files.len(), 2);
}

#[test]
fn app_unstage_multi_selected_files() {
    let mut repo = FakeRepo::default();
    repo.write_file("file1.txt");
    repo.write_file("file2.txt");
    repo.stage("file1.txt");
    repo.stage("file2.txt");
    let mut app = open(&repo);
    assert_eq!(app.staged_count, 2);
    app.toggle_multi_select();
    app.move_highlight(1);
    app.toggle_multi_select();
    assert_eq!(app.multi_selected.len(), 2);
    unstage_selected(&mut app, &mut repo);
    assert_eq!(app.staged_count, 0);
    assert_eq!(app.unstaged_count, 2);
    assert!(app.multi_selected.is_empty());
}

#[test]
fn app_stage_ignores_already_staged_files() {
    let mut repo = FakeRepo::default();
    repo.write_file("staged.txt");
    repo.stage("staged.txt");
    repo.write_file("unstaged.txt");
    let mut app = open(&repo);
    assert_eq!(app.staged_count, 1);
    assert_eq!(app.unstaged_count, 1);
    app.multi_selected.insert((Section::Staged, "staged.txt".to_string()));
    app.multi_selected.insert((Section::Unstaged, "unstaged.txt".to_string()));
    stage_selected(&mut app, &mut repo);
    assert_eq!(app.staged_count, 2);
    assert_eq!(app.unstaged_count, 0);
}

#[test]
fn app_unstage_ignores_already_unstaged_files() {
    let mut repo = FakeRepo::default();
    repo.write_file("staged.txt");
    repo.stage("staged.txt");
    repo.write_file("unstaged.txt");
    let mut app = open(&repo);
    app.multi_selected.insert((Section::Staged, "staged.txt".to_string()));
    app.multi_selected.insert((Section::Unstaged, "unstaged.txt".to_string()));
    unstage_selected(&mut app, &mut repo);
    assert_eq!(app.staged_count, 0);
    assert_eq!(app.unstaged_count, 2);
}

#[test]
fn app_stage_clears_multi_select() {
    let mut repo = FakeRepo::default();
    repo.write_file("file.txt");
    let mut app = open(&repo);
    app.toggle_multi_select();
    assert!(!app.multi_selected.is_empty());
    stage_selected(&mut app, &mut repo);
    assert!(app.multi_selected.is_empty());
}

#[test]
fn app_stage_sets_flash_message() {
    let mut repo = FakeRepo::default();
    repo.write_file("file.txt");
    let mut app = open(&repo);
    assert!(app.flash_message.is_none());
    stage_selected(&mut app, &mut repo);
    assert!(app.flash_message.is_some());
    let flash = app.flash_message.as_ref().unwrap();
    assert!(flash.text.contains("Staged"));
    assert!(!flash.is_error);
}

#[test]
fn app_undo_after_stage_unstages_files() {
    let mut repo = FakeRepo::default();
    repo.write_file("file1.txt");
    repo.write_file("file2.txt");
    let mut app = open(&repo);
    app.toggle_multi_select();
    app.move_highlight(1);
    app.toggle_multi_select();
    stage_selected(&mut app, &mut repo);
    assert_eq!(app.staged_count, 2);
    assert_eq!(app.unstaged_count, 0);
    assert!(app.last_action.is_some());
    undo(&mut app, &mut repo);
    assert_eq!(app.staged_count, 0);
    assert_eq!(app.unstaged_count, 2);
    assert!(app.last_action.is_none());
    let flash = app.flash_message.as_ref().unwrap();
    assert!(flash.text.contains("Undid stage"));
}

#[test]
fn app_undo_after_unstage_restages_files() {
    let mut repo = FakeRepo::default();
    repo.write_file("file.txt");
    repo.stage("file.txt");
    let mut app = open(&repo);
    unstage_selected(&mut app, &mut repo);
    assert_eq!(app.staged_count, 0);
    assert_eq!(app.unstaged_count, 1);
    assert!(app.last_action.is_some());
    undo(&mut app, &mut repo);
    assert_eq!(app.staged_count, 1);
    assert_eq!(app.unstaged_count, 0);
    assert!(app.last_action.is_none());
    let flash = app.flash_message.as_ref().unwrap();
    assert!(flash.text.contains("Undid unstage"));
}

#[test]
fn app_second_undo_is_noop() {
    let mut repo = FakeRepo::default();
    repo.write_file("file.txt");
    let mut app = open(&repo);
    stage_selected(&mut app, &mut repo);
    undo(&mut app, &mut repo);
    assert!(app.last_action.is_none());
    app.clear_flash();
    undo(&mut app, &mut repo);
    assert!(app.flash_message.is_none());
    assert!(app.last_action.is_none());
}

#[test]
fn confirm_prompt_y_executes_stage_all() {
    let mut repo = FakeRepo::default();
    repo.write_file("file1.txt");
    repo.write_file("file2.txt");
    let mut app = open(&repo);
    app.show_stage_all_confirm();
    assert!(app.confirm_prompt.is_some());
    handle_confirm(&mut app, &mut repo, true);
    assert!(app.confirm_prompt.is_none());
    assert_eq!(app.staged_count, 2);
    assert_eq!(app.unstaged_count, 0);
    let flash = app.flash_message.as_ref().unwrap();
    assert!(flash.text.contains("Staged"));
}

#[test]
fn confirm_prompt_y_executes_unstage_all() {
    let mut repo = FakeRepo::default();
    repo.write_file("file1.txt");
    repo.write_file("file2.txt");
    repo.stage("file1.txt");
    repo.stage("file2.txt");
    let mut app = open(&repo);
    app.show_unstage_all_confirm();
    assert!(app.confirm_prompt.is_some());
    handle_confirm(&mut app, &mut repo, true);
    assert!(app.confirm_prompt.is_none());
    assert_eq!(app.staged_count, 0);
    assert_eq!(app.unstaged_count, 2);
    let flash = app.flash_message.as_ref().unwrap();
    assert!(flash.text.contains("Unstaged"));
}

#[test]
fn confirm_prompt_dismiss_does_not_execute() {
    let mut repo = FakeRepo::default();
    repo.write_file("file1.txt");
    repo.write_file("file2.txt");
    let mut app = open(&repo);
    app.show_stage_all_confirm();
    assert!(app.confirm_prompt.is_some());
    handle_confirm(&mut app, &mut repo, false);
    assert!(app.confirm_prompt.is_none());
    assert_eq!(app.staged_count, 0);
    assert_eq!(app.unstaged_count, 2);
}

#[test]
fn confirm_stage_all_records_undo_action() {
    let mut repo = FakeRepo::default();
    repo.write_file("file1.txt");
    repo.write_file("file2.txt");
    let mut app = open(&repo);
    app.show_stage_all_confirm();
    handle_confirm(&mut app, &mut repo, true);
    assert!(app.last_action.is_some());
    undo(&mut app, &mut repo);
    assert_eq!(app.staged_count, 0);
    assert_eq!(app.unstaged_count, 2);
}

#[test]
fn confirm_unstage_all_records_undo_action() {
    let mut repo = FakeRepo::default();
    repo.write_file("file1.txt");
    repo.write_file("file2.txt");
    repo.stage("file1.txt");
    repo.stage("file2.txt");
    let mut app = open(&repo);
    app.show_unstage_all_confirm();
    handle_confirm(&mut app, &mut repo, true);
    assert!(app.last_action.is_some());
    undo(&mut app, &mut repo);
    assert_eq!(app.staged_count, 2);
    assert_eq!(app.unstaged_count, 0);
}

#[test]
fn confirm_stage_all_clears_multi_select() {
    let mut repo = FakeRepo::default();
    repo.write_file("file1.txt");
    repo.write_file("file2.txt");
    let mut app = open(&repo);
    app.toggle_multi_select();
    assert!(!app.multi_selected.is_empty());
    app.show_stage_all_confirm();
    handle_confirm(&mut app, &mut repo, true);
    assert!(app.multi_selected.is_empty());
}

#[test]
fn stage_then_unstage_round_trip_restores_lists() {
    let mut repo = FakeRepo::default();
    repo.write_file("a.txt");
    repo.write_file("b.txt");
    let mut app = open(&repo);
    let before: Vec<String> = app.unstaged_files.iter().map(|e| e.path.clone()).collect();
    app.toggle_multi_select();
    app.move_highlight(1);
    app.toggle_multi_select();
    stage_selected(&mut app, &mut repo);
    app.toggle_multi_select();
    app.move_highlight(-1);
    app.toggle_multi_select();
    unstage_selected(&mut app, &mut repo);
    let after: Vec<String> = app.unstaged_files.iter().map(|e| e.path.clone()).collect();
    assert_eq!(before, after);
    assert!(app.staged_files.is_empty());
}
