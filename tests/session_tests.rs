use better_git_status::actions::discard_all_message;
use better_git_status::actions::discard_all_plan;
use better_git_status::actions::staged_message;
use better_git_status::actions::unstaged_message;
use better_git_status::actions::IndexChange;
use better_git_status::session::build_visible_rows;
use better_git_status::session::App;
use better_git_status::session::Area;
use better_git_status::session::DiffRequest;
use better_git_status::status::StatusResult;
use better_git_status::types::BranchInfo;
use better_git_status::types::ConfirmAction;
use better_git_status::types::DiffContent;
use better_git_status::types::FileEntry;
use better_git_status::types::FileStatus;
use better_git_status::types::Section;
use better_git_status::types::UndoAction;

fn file_entry(path: &str) -> FileEntry {
    entry(path, FileStatus::Modified)
}

fn entry(path: &str, status: FileStatus) -> FileEntry {
    FileEntry {
        path: path.to_string(),
        old_path: None,
        status,
        added_lines: Some(1),
        deleted_lines: Some(0),
        is_binary: false,
        is_submodule: false,
    }
}

fn status(staged: Vec<FileEntry>, unstaged: Vec<FileEntry>) -> StatusResult {
    let staged_count = staged.len();
    let unstaged_count = unstaged.len();
    StatusResult { staged_files: staged, unstaged_files: unstaged, staged_count, unstaged_count, untracked_count: 0 }
}

fn app(staged: Vec<FileEntry>, unstaged: Vec<FileEntry>) -> App {
    App::new(BranchInfo::Branch("main".to_string()), status(staged, unstaged))
}

fn key(section: Section, path: &str) -> (Section, String) {
    (section, path.to_string())
}

#[test]
fn build_visible_rows_staged_only() {
    let staged = vec![file_entry("a.rs"), file_entry("b.rs")];
    let unstaged = vec![];
    let rows = build_visible_rows(&staged, &unstaged);
    assert_eq!(rows.len(), 2);
    assert!(rows.iter().all(|r| r.section == Section::Staged));
}

#[test]
fn build_visible_rows_unstaged_only() {
    let staged = vec![];
    let unstaged = vec![file_entry("a.rs"), file_entry("b.rs")];
    let rows = build_visible_rows(&staged, &unstaged);
    assert_eq!(rows.len(), 2);
    assert!(rows.iter().all(|r| r.section == Section::Unstaged));
}

#[test]
fn build_visible_rows_both_sections() {
    let staged = vec![file_entry("a.rs")];
    let unstaged = vec![file_entry("b.rs")];
    let rows = build_visible_rows(&staged, &unstaged);
    assert_eq!(rows.len(), 2);
    assert_eq!(rows[0].section, Section::Staged);
    assert_eq!(rows[1].section, Section::Unstaged);
}

#[test]
fn build_visible_rows_empty() {
    let rows = build_visible_rows(&[], &[]);
    assert!(rows.is_empty());
}

#[test]
fn count_headers_before_index_0_with_staged() {
    let app = app(vec![file_entry("a.rs")], vec![]);
    assert_eq!(app.count_headers_before(0), 1);
}

#[test]
fn count_headers_before_in_unstaged_section() {
    let app = app(vec![file_entry("a.rs")], vec![file_entry("b.rs")]);
    assert_eq!(app.count_headers_before(1), 2);
}

#[test]
fn count_headers_before_only_unstaged() {
    let app = app(vec![], vec![file_entry("a.rs")]);
    assert_eq!(app.count_headers_before(0), 1);
}

#[test]
fn move_highlight_down_from_0() {
    let mut app = app(vec![file_entry("a.rs"), file_entry("b.rs")], vec![]);
    app.move_highlight(1);
    assert_eq!(app.highlight_index, Some(1));
}

#[test]
fn move_highlight_up_from_0_stays() {
    let mut app = app(vec![file_entry("a.rs")], vec![]);
    app.move_highlight(-1);
    assert_eq!(app.highlight_index, Some(0));
}

#[test]
fn move_highlight_down_past_end_clamps() {
    let mut app = app(vec![file_entry("a.rs")], vec![]);
    app.move_highlight(10);
    assert_eq!(app.highlight_index, Some(0));
}

#[test]
fn move_highlight_empty_no_panic() {
    let mut app = app(vec![], vec![]);
    app.move_highlight(1);
    assert_eq!(app.highlight_index, None);
}

#[test]
fn move_highlight_extremes() {
    let mut app = app(vec![file_entry("a"), file_entry("b")], vec![file_entry("c")]);
    app.move_highlight(isize::MAX);
    assert_eq!(app.highlight_index, Some(2));
    app.move_highlight(isize::MIN);
    assert_eq!(app.highlight_index, Some(0));
}

#[test]
fn move_highlight_scrolls_by_overflow() {
    let files: Vec<FileEntry> = (0..10).map(|i| file_entry(&format!("f{}", i))).collect();
    let mut app = app(files, vec![]);
    app.file_list_height = 3;
    app.move_highlight(4);
    // Row 4 is display row 5 (one header above): the window starts at 3.
    assert_eq!(app.file_list_scroll, 3);
    app.move_highlight(-4);
    assert_eq!(app.file_list_scroll, 1);
}

#[test]
fn toggle_multi_select_adds_file() {
    let mut app = app(vec![file_entry("a.rs")], vec![]);
    assert!(app.multi_selected.is_empty());
    app.toggle_multi_select();
    assert_eq!(app.multi_selected.len(), 1);
    assert!(app.multi_selected.contains(&(Section::Staged, "a.rs".to_string())));
}

#[test]
fn toggle_multi_select_removes_file() {
    let mut app = app(vec![file_entry("a.rs")], vec![]);
    app.toggle_multi_select();
    assert_eq!(app.multi_selected.len(), 1);
    app.toggle_multi_select();
    assert!(app.multi_selected.is_empty());
}

#[test]
fn multi_select_persists_across_navigation() {
    let mut app = app(vec![file_entry("a.rs"), file_entry("b.rs")], vec![]);
    app.toggle_multi_select();
    app.move_highlight(1);
    app.toggle_multi_select();
    assert_eq!(app.multi_selected.len(), 2);
    assert!(app.multi_selected.contains(&(Section::Staged, "a.rs".to_string())));
    assert!(app.multi_selected.contains(&(Section::Staged, "b.rs".to_string())));
}

#[test]
fn clear_multi_select_clears_all() {
    let mut app = app(vec![file_entry("a.rs"), file_entry("b.rs")], vec![]);
    app.toggle_multi_select();
    app.move_highlight(1);
    app.toggle_multi_select();
    assert_eq!(app.multi_selected.len(), 2);
    app.clear_multi_select();
    assert!(app.multi_selected.is_empty());
}

#[test]
fn prune_multi_select_removes_deleted_files() {
    let mut app = app(vec![file_entry("a.rs"), file_entry("b.rs")], vec![file_entry("c.rs")]);
    app.toggle_multi_select();
    app.move_highlight(1);
    app.toggle_multi_select();
    app.move_highlight(1);
    app.toggle_multi_select();
    assert_eq!(app.multi_selected.len(), 3);

    app.refresh(BranchInfo::Branch("main".to_string()), status(vec![file_entry("a.rs")], vec![]));
    assert_eq!(app.multi_selected.len(), 1);
    assert!(app.multi_selected.contains(&(Section::Staged, "a.rs".to_string())));
}

#[test]
fn get_action_targets_returns_highlighted_when_no_multi_select() {
    let app = app(vec![file_entry("a.rs")], vec![]);
    let targets = app.get_action_targets();
    assert_eq!(targets.len(), 1);
    assert_eq!(targets[0], (Section::Staged, "a.rs".to_string()));
}

#[test]
fn get_action_targets_returns_multi_selected_when_present() {
    let mut app = app(vec![file_entry("a.rs"), file_entry("b.rs")], vec![]);
    app.toggle_multi_select();
    app.move_highlight(1);
    app.toggle_multi_select();
    let targets = app.get_action_targets();
    assert_eq!(targets.len(), 2);
}

#[test]
fn new_session_states() {
    let empty = app(vec![], vec![]);
    assert!(matches!(empty.current_diff, DiffContent::Clean));
    assert_eq!(empty.highlight_index, None);
    let some = app(vec![], vec![file_entry("a")]);
    assert!(matches!(some.current_diff, DiffContent::Empty));
    assert_eq!(some.highlight_index, Some(0));
}

#[test]
fn select_current_requests_diffs() {
    let mut app = app(
        vec![file_entry("s.rs")],
        vec![entry("c.rs", FileStatus::Conflict), entry("u.rs", FileStatus::Untracked)],
    );
    match app.select_current() {
        Some(DiffRequest::Patch { path, old_path, section }) => {
            assert_eq!(path, "s.rs");
            assert_eq!(old_path, None);
            assert_eq!(section, Section::Staged);
        }
        _ => panic!("expected a patch request"),
    }
    app.move_highlight(1);
    assert!(app.select_current().is_none());
    assert!(matches!(app.current_diff, DiffContent::Conflict));
    app.move_highlight(1);
    match app.select_current() {
        Some(DiffRequest::Untracked { path }) => assert_eq!(path, "u.rs"),
        _ => panic!("expected an untracked request"),
    }
    assert_eq!(app.selected, Some(key(Section::Unstaged, "u.rs")));
}

#[test]
fn refresh_twice_is_idempotent() {
    let mut app = app(vec![file_entry("a"), file_entry("b")], vec![file_entry("c")]);
    app.file_list_height = 2;
    app.move_highlight(2);
    app.select_current();
    app.toggle_multi_select();
    let st = || status(vec![file_entry("a")], vec![file_entry("c"), file_entry("d")]);
    let first = app.refresh(BranchInfo::Branch("main".to_string()), st());
    let snapshot = (app.highlight_index, app.selected.clone(), app.multi_selected.len(), app.file_list_scroll);
    let second = app.refresh(BranchInfo::Branch("main".to_string()), st());
    assert_eq!(snapshot, (app.highlight_index, app.selected.clone(), app.multi_selected.len(), app.file_list_scroll));
    match (first, second) {
        (Some(DiffRequest::Patch { path: p1, .. }), Some(DiffRequest::Patch { path: p2, .. })) => assert_eq!(p1, p2),
        _ => panic!("expected the same request twice"),
    }
}

#[test]
fn refresh_drops_vanished_selection() {
    let mut app = app(vec![file_entry("a")], vec![file_entry("b")]);
    app.move_highlight(1);
    app.select_current();
    app.diff_scroll = 5;
    let r = app.refresh(BranchInfo::Branch("main".to_string()), status(vec![file_entry("a")], vec![]));
    assert!(r.is_none());
    assert_eq!(app.selected, None);
    assert_eq!(app.diff_scroll, 0);
    assert_eq!(app.highlight_index, Some(0));
    assert!(matches!(app.current_diff, DiffContent::Empty));
    app.refresh(BranchInfo::Branch("main".to_string()), status(vec![], vec![]));
    assert!(matches!(app.current_diff, DiffContent::Clean));
    assert_eq!(app.highlight_index, None);
}

#[test]
fn stage_and_unstage_paths_filter_sections() {
    let mut app = app(vec![file_entry("staged.txt")], vec![file_entry("unstaged.txt")]);
    app.multi_selected.insert(key(Section::Staged, "staged.txt"));
    app.multi_selected.insert(key(Section::Unstaged, "unstaged.txt"));
    assert_eq!(app.stage_selected_paths(), vec!["unstaged.txt".to_string()]);
    assert_eq!(app.unstage_selected_paths(), vec!["staged.txt".to_string()]);
}

#[test]
fn undo_after_stage_is_exact() {
    let mut app = app(vec![], vec![file_entry("a"), file_entry("b")]);
    app.toggle_multi_select();
    app.move_highlight(1);
    app.toggle_multi_select();
    let paths = app.stage_selected_paths();
    assert_eq!(paths.len(), 2);
    app.record_staging(UndoAction::Stage { paths: paths.clone() });
    assert!(app.multi_selected.is_empty());
    assert_eq!(app.last_action, Some(UndoAction::Stage { paths: paths.clone() }));
    match app.undo_change() {
        Some(IndexChange::Unstage(p)) => {
            let mut sorted = p.clone();
            sorted.sort();
            assert_eq!(sorted, vec!["a".to_string(), "b".to_string()]);
        }
        _ => panic!("expected an unstage"),
    }
    let msg = app.finish_undo();
    assert_eq!(msg, "Undid stage of 2 files");
    assert!(app.last_action.is_none());
    assert!(app.undo_change().is_none());
}

#[test]
fn undo_after_unstage_restages() {
    let mut app = app(vec![file_entry("file.txt")], vec![]);
    let paths = app.unstage_selected_paths();
    app.record_staging(UndoAction::Unstage { paths });
    match app.undo_change() {
        Some(IndexChange::Stage(p)) => assert_eq!(p, vec!["file.txt".to_string()]),
        _ => panic!("expected a stage"),
    }
    assert_eq!(app.finish_undo(), "Undid unstage of 1 file");
}

#[test]
fn empty_staging_records_nothing() {
    let mut app = app(vec![], vec![file_entry("a")]);
    app.record_staging(UndoAction::Stage { paths: vec![] });
    assert!(app.last_action.is_none());
}

#[test]
fn show_stage_all_confirm_sets_prompt() {
    let mut app = app(vec![], vec![file_entry("file1.txt"), file_entry("file2.txt")]);
    assert!(app.confirm_prompt.is_none());
    app.show_stage_all_confirm();
    let prompt = app.confirm_prompt.as_ref().unwrap();
    assert_eq!(prompt.message, "Stage 2 files? [y/N]");
    assert!(prompt.message.contains("[y/N]"));
    assert_eq!(prompt.action, ConfirmAction::StageAll);
}

#[test]
fn show_unstage_all_confirm_sets_prompt() {
    let mut app = app(vec![file_entry("file1.txt"), file_entry("file2.txt")], vec![]);
    app.show_unstage_all_confirm();
    let prompt = app.confirm_prompt.as_ref().unwrap();
    assert!(prompt.message.contains("2 files"));
    assert_eq!(prompt.action, ConfirmAction::UnstageAll);
}

#[test]
fn stage_all_confirm_with_no_files_does_nothing() {
    let mut app = app(vec![file_entry("file.txt")], vec![]);
    app.show_stage_all_confirm();
    assert!(app.confirm_prompt.is_none());
}

#[test]
fn unstage_all_confirm_with_no_files_does_nothing() {
    let mut app = app(vec![], vec![file_entry("file.txt")]);
    app.show_unstage_all_confirm();
    assert!(app.confirm_prompt.is_none());
}

#[test]
fn singular_file_prompt_message() {
    let mut app = app(vec![], vec![file_entry("file.txt")]);
    app.show_stage_all_confirm();
    let prompt = app.confirm_prompt.as_ref().unwrap();
    assert_eq!(prompt.message, "Stage 1 file? [y/N]");
    assert!(!prompt.message.contains("files"));
}

#[test]
fn confirm_prompt_answers() {
    let mut app = app(vec![], vec![file_entry("a"), file_entry("b")]);
    app.show_stage_all_confirm();
    assert_eq!(app.handle_confirm(true), Some(ConfirmAction::StageAll));
    assert!(app.confirm_prompt.is_none());
    app.show_stage_all_confirm();
    assert_eq!(app.handle_confirm(false), None);
    assert!(app.confirm_prompt.is_none());
    assert_eq!(app.handle_confirm(true), None);
}

#[test]
fn discard_selected_prompts() {
    let mut app = app(vec![], vec![file_entry("a"), entry("n", FileStatus::Untracked)]);
    app.show_discard_selected_confirm();
    assert_eq!(app.confirm_prompt.as_ref().unwrap().message, "Discard changes? [y/N]");
    app.toggle_multi_select();
    app.move_highlight(1);
    app.toggle_multi_select();
    app.show_discard_selected_confirm();
    let prompt = app.confirm_prompt.as_ref().unwrap();
    assert_eq!(prompt.message, "Discard 2 changes (including untracked files)? [y/N]");
    match &prompt.action {
        ConfirmAction::DiscardSelected { paths } => {
            let targets = app.discard_targets(paths);
            assert_eq!(targets.len(), 2);
            assert!(targets.iter().any(|t| t.path == "n" && t.untracked));
            assert!(targets.iter().any(|t| t.path == "a" && !t.untracked));
        }
        _ => panic!("expected a selective discard"),
    }
}

#[test]
fn discard_selected_refuses_conflicts() {
    let mut app = app(vec![], vec![entry("c", FileStatus::Conflict)]);
    app.show_discard_selected_confirm();
    assert!(app.confirm_prompt.is_none());
    let flash = app.flash_message.as_ref().unwrap();
    assert!(flash.is_error);
    assert_eq!(flash.text, "Cannot discard conflicted files. Resolve conflicts first.");
}

#[test]
fn discard_all_prompt_mentions_untracked() {
    let mut app = app(vec![], vec![file_entry("a"), entry("n", FileStatus::Untracked)]);
    app.show_discard_all_confirm();
    assert_eq!(
        app.confirm_prompt.as_ref().unwrap().message,
        "Discard all changes and delete untracked files (2 files)? [y/N]"
    );
}

#[test]
fn discard_all_skips_conflicts() {
    let st = status(vec![], vec![file_entry("a"), entry("c", FileStatus::Conflict), entry("n", FileStatus::Untracked)]);
    let (targets, skipped) = discard_all_plan(&st);
    assert_eq!(targets.len(), 2);
    assert_eq!(skipped, 1);
    let (text, is_error) = discard_all_message(targets.len(), skipped).unwrap();
    assert_eq!(text, "Discarded 2 files (1 conflict skipped)");
    assert!(text.contains("1 conflict skipped"));
    assert!(!is_error);
    assert_eq!(discard_all_message(0, 2), Some(("No files discarded (2 conflicts skipped)".to_string(), true)));
    assert_eq!(discard_all_message(1, 0), Some(("Discarded 1 file".to_string(), false)));
    assert_eq!(discard_all_message(0, 0), None);
}

#[test]
fn discard_clears_undo_and_multi_select() {
    let mut app = app(vec![], vec![file_entry("a")]);
    app.record_staging(UndoAction::Stage { paths: vec!["x".to_string()] });
    app.toggle_multi_select();
    app.record_discard();
    assert!(app.last_action.is_none());
    assert!(app.multi_selected.is_empty());
}

#[test]
fn staging_messages() {
    assert_eq!(staged_message(1), "Staged 1 file");
    assert_eq!(staged_message(3), "Staged 3 files");
    assert_eq!(unstaged_message(0), "Unstaged 0 files");
}

#[test]
fn flash_lifecycle() {
    let mut app = app(vec![], vec![]);
    app.show_flash_success("done");
    assert!(!app.flash_message.as_ref().unwrap().is_error);
    app.check_flash_expiry();
    assert!(app.flash_message.is_some());
    app.show_error("boom");
    assert_eq!(app.flash_message.as_ref().unwrap().text, "Error: boom");
    app.clear_flash();
    assert!(app.flash_message.is_none());
}

#[test]
fn scroll_diff_clamps() {
    let mut app = app(vec![], vec![file_entry("a")]);
    let lines = (0..30)
        .map(|i| better_git_status::types::DiffLine {
            kind: better_git_status::types::DiffLineKind::Context,
            content: format!("l{}", i),
            new_line_number: Some(i + 1),
        })
        .collect();
    app.set_diff(DiffContent::Text(lines));
    app.scroll_diff(100, 10, 80);
    assert_eq!(app.diff_scroll, 20);
    app.scroll_diff(-3, 10, 80);
    assert_eq!(app.diff_scroll, 17);
    app.page_scroll_diff(false, 10, 80);
    assert_eq!(app.diff_scroll, 7);
    app.page_scroll_diff(false, 10, 80);
    assert_eq!(app.diff_scroll, 0);
    app.page_scroll_diff(true, 10, 80);
    assert_eq!(app.diff_scroll, 10);
    app.page_scroll_diff(true, 15, 80);
    assert_eq!(app.diff_scroll, 15);
}

#[test]
fn click_selects_file_under_pointer() {
    let mut app = app(vec![file_entry("a")], vec![file_entry("b"), file_entry("c")]);
    app.file_list_area = Area { x: 0, y: 1, width: 40, height: 8 };
    // Screen row 2 is the first inner row: the staged header.
    assert!(app.click_file_list(2).is_none());
    assert_eq!(app.selected, None);
    // Screen row 5 is display row 3: the first unstaged file.
    app.click_file_list(5);
    assert_eq!(app.highlight_index, Some(1));
    assert_eq!(app.selected, Some(key(Section::Unstaged, "b")));
    // Screen row 6 is display row 4: the second unstaged file.
    app.click_file_list(6);
    assert_eq!(app.highlight_index, Some(2));
    assert_eq!(app.selected, Some(key(Section::Unstaged, "c")));
    assert!(app.file_list_area.contains(3, 5));
    assert!(!app.file_list_area.contains(40, 5));
}

#[test]
fn discard_all_prompt_singular() {
    let mut app = app(vec![], vec![file_entry("a")]);
    app.show_discard_all_confirm();
    assert_eq!(app.confirm_prompt.as_ref().unwrap().message, "Discard all changes (1 file)? [y/N]");
}

#[test]
fn confirmed_discard_all_reports_skipped_conflict() {
    let st = status(vec![], vec![file_entry("a"), file_entry("b"), entry("c", FileStatus::Conflict)]);
    let mut app = App::new(BranchInfo::Branch("main".to_string()), status(vec![], vec![file_entry("a"), file_entry("b"), entry("c", FileStatus::Conflict)]));
    app.record_staging(UndoAction::Stage { paths: vec!["z".to_string()] });
    app.toggle_multi_select();
    app.show_discard_all_confirm();
    let action = app.handle_confirm(true).unwrap();
    assert_eq!(action, ConfirmAction::DiscardAll);
    let (targets, skipped) = discard_all_plan(&st);
    let touched: Vec<String> = targets.into_iter().map(|t| t.path).collect();
    assert_eq!(touched, vec!["a".to_string(), "b".to_string()]);
    app.finish_confirmed(&action, touched, skipped);
    let flash = app.flash_message.as_ref().unwrap();
    assert_eq!(flash.text, "Discarded 2 files (1 conflict skipped)");
    assert!(!flash.is_error);
    assert!(app.last_action.is_none());
    assert!(app.multi_selected.is_empty());
}

#[test]
fn confirmed_stage_all_records_undo_only_when_touched() {
    let mut app = app(vec![], vec![file_entry("a")]);
    app.toggle_multi_select();
    app.finish_confirmed(&ConfirmAction::StageAll, vec![], 0);
    assert!(app.last_action.is_none());
    assert!(app.flash_message.is_none());
    assert!(app.multi_selected.is_empty());
    app.finish_confirmed(&ConfirmAction::StageAll, vec!["a".to_string()], 0);
    assert_eq!(app.last_action, Some(UndoAction::Stage { paths: vec!["a".to_string()] }));
    assert_eq!(app.flash_message.as_ref().unwrap().text, "Staged 1 file");
}

#[test]
fn expire_flash_after_timeout() {
    let mut app = app(vec![], vec![]);
    app.show_flash_success("done");
    app.expire_flash(2_999_999_999);
    assert!(app.flash_message.is_some());
    app.expire_flash(3_000_000_000);
    assert!(app.flash_message.is_none());
}
