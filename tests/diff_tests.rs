use better_git_status::diff::get_diff;
use better_git_status::diff::get_untracked_diff;
use better_git_status::diff::PatchOutput;
use better_git_status::diff::RawPatchLine;
use better_git_status::types::DiffContent;
use better_git_status::types::DiffLineKind;

fn line(origin: char, content: &str, start: Option<u32>) -> RawPatchLine {
    RawPatchLine { origin, content: content.as_bytes().to_vec(), hunk_new_start: start }
}

fn patch(lines: Vec<RawPatchLine>) -> Option<PatchOutput> {
    Some(PatchOutput { delta_binary: vec![false], lines, printed: true })
}

fn kinds_and_numbers(d: &DiffContent) -> Vec<(DiffLineKind, String, Option<usize>)> {
    match d {
        DiffContent::Text(lines) => lines.iter().map(|l| (l.kind, l.content.clone(), l.new_line_number)).collect(),
        _ => panic!("Expected Text diff"),
    }
}

#[test]
fn get_diff_staged_shows_changes() {
    let d = get_diff(&patch(vec![
        line('F', "diff --git a/file.txt b/file.txt\nindex 1..2 100644\n--- a/file.txt\n+++ b/file.txt\n", None),
        line('H', "@@ -1 +1,2 @@\n", Some(1)),
        line(' ', "line1\n", Some(1)),
        line('+', "line2\n", Some(1)),
    ]));
    match d {
        DiffContent::Text(lines) => {
            assert!(lines.iter().any(|l| l.kind == DiffLineKind::Added));
            assert!(lines.iter().any(|l| l.content.contains("line2")));
        }
        _ => panic!("Expected Text diff"),
    }
}

#[test]
fn get_diff_unstaged_shows_changes() {
    let d = get_diff(&patch(vec![line('H', "@@ -1 +1,2 @@\n", Some(1)), line('+', "line2\n", Some(1))]));
    match d {
        DiffContent::Text(lines) => {
            assert!(lines.iter().any(|l| l.kind == DiffLineKind::Added));
        }
        _ => panic!("Expected Text diff"),
    }
}

#[test]
fn get_diff_deleted_shows_removed_lines() {
    let d = get_diff(&patch(vec![
        line('H', "@@ -1,2 +1 @@\n", Some(1)),
        line(' ', "line1\n", Some(1)),
        line('-', "line2\n", Some(1)),
    ]));
    match d {
        DiffContent::Text(lines) => {
            assert!(lines.iter().any(|l| l.kind == DiffLineKind::Deleted));
        }
        _ => panic!("Expected Text diff"),
    }
}

#[test]
fn get_untracked_diff_shows_all_lines() {
    let d = get_untracked_diff(&"new.txt".to_string(), &Some(b"line1\nline2\nline3\n".to_vec()));
    match d {
        DiffContent::Text(lines) => {
            let added_count = lines.iter().filter(|l| l.kind == DiffLineKind::Added).count();
            assert_eq!(added_count, 3);
        }
        _ => panic!("Expected Text diff"),
    }
}

#[test]
fn untracked_diff_exact_rows() {
    let d = get_untracked_diff(&"x.txt".to_string(), &Some(b"a\nb\nc\n".to_vec()));
    let rows = kinds_and_numbers(&d);
    assert_eq!(
        rows,
        vec![
            (DiffLineKind::Header, "diff --git a/x.txt b/x.txt".to_string(), None),
            (DiffLineKind::Header, "new file".to_string(), None),
            (DiffLineKind::Header, "--- /dev/null".to_string(), None),
            (DiffLineKind::Header, "+++ b/x.txt".to_string(), None),
            (DiffLineKind::Hunk, "@@ -0,0 +1,3 @@".to_string(), None),
            (DiffLineKind::Added, "a".to_string(), Some(1)),
            (DiffLineKind::Added, "b".to_string(), Some(2)),
            (DiffLineKind::Added, "c".to_string(), Some(3)),
        ]
    );
    assert!(!rows.iter().any(|r| r.0 == DiffLineKind::Deleted || r.0 == DiffLineKind::Context));
}

#[test]
fn untracked_diff_empty_file_has_headers_only() {
    let d = get_untracked_diff(&"e.txt".to_string(), &Some(Vec::new()));
    let rows = kinds_and_numbers(&d);
    assert_eq!(rows.len(), 4);
    assert!(rows.iter().all(|r| r.0 == DiffLineKind::Header));
}

#[test]
fn untracked_diff_sentinels() {
    assert!(matches!(get_untracked_diff(&"x".to_string(), &None), DiffContent::Empty));
    assert!(matches!(
        get_untracked_diff(&"x".to_string(), &Some(vec![0xc3, 0x28])),
        DiffContent::InvalidUtf8
    ));
}

#[test]
fn untracked_diff_strips_carriage_returns() {
    let rows = kinds_and_numbers(&get_untracked_diff(&"w".to_string(), &Some(b"a\r\nb".to_vec())));
    assert_eq!(rows[5], (DiffLineKind::Added, "a".to_string(), Some(1)));
    assert_eq!(rows[6], (DiffLineKind::Added, "b".to_string(), Some(2)));
}

#[test]
fn patch_numbering_follows_hunks() {
    let d = get_diff(&patch(vec![
        line('F', "diff --git a/f b/f\n@@ header-like\n", None),
        line('H', "@@ -10,3 +20,3 @@ fn x\n", Some(20)),
        line(' ', "keep\n", None),
        line('-', "old\n", None),
        line('+', "new\n\n", None),
        line('H', "@@ -50 +60 @@\n", Some(60)),
        line('+', "late", None),
        line('=', "\\ No newline\n", None),
    ]));
    assert_eq!(
        kinds_and_numbers(&d),
        vec![
            (DiffLineKind::Header, "diff --git a/f b/f".to_string(), None),
            (DiffLineKind::Hunk, "@@ header-like".to_string(), None),
            (DiffLineKind::Hunk, "@@ -10,3 +20,3 @@ fn x".to_string(), None),
            (DiffLineKind::Context, "keep".to_string(), Some(20)),
            (DiffLineKind::Deleted, "old".to_string(), None),
            (DiffLineKind::Added, "new".to_string(), Some(21)),
            (DiffLineKind::Hunk, "@@ -50 +60 @@".to_string(), None),
            (DiffLineKind::Added, "late".to_string(), Some(60)),
            (DiffLineKind::Header, "\\ No newline".to_string(), None),
        ]
    );
}

#[test]
fn binary_delta_gives_binary() {
    let d = get_diff(&Some(PatchOutput {
        delta_binary: vec![false, true],
        lines: vec![line('+', "x\n", None)],
        printed: true,
    }));
    assert!(matches!(d, DiffContent::Binary));
}

#[test]
fn patch_sentinels() {
    assert!(matches!(get_diff(&None), DiffContent::Empty));
    assert!(matches!(get_diff(&patch(Vec::new())), DiffContent::Empty));
    let bad = patch(vec![line('H', "@@ -1 +1 @@\n", Some(1)), RawPatchLine {
        origin: '+',
        content: vec![0xff, b'\n'],
        hunk_new_start: None,
    }]);
    assert!(matches!(get_diff(&bad), DiffContent::InvalidUtf8));
    let unfinished = Some(PatchOutput {
        delta_binary: vec![false],
        lines: vec![line('+', "x\n", Some(1))],
        printed: false,
    });
    assert!(matches!(get_diff(&unfinished), DiffContent::Empty));
}
